use minishell::parser::input_parser;
use minishell::redirect::{destination, redirect_targets, Stream, Target};

fn target(path: &str, append: bool) -> Target {
    Target { path: path.to_string(), append }
}

#[test]
fn output_redirect_takes_stdout_only() {
    let (_, _, _, redirects, _, _) = input_parser("ls > out.txt");
    assert_eq!(destination(&redirects, Stream::Output), Some(target("out.txt", false)));
    assert_eq!(destination(&redirects, Stream::Error), None);
}

#[test]
fn error_redirect_takes_stderr_only() {
    let (_, _, _, redirects, _, _) = input_parser("ls 2>> err.txt");
    assert_eq!(destination(&redirects, Stream::Error), Some(target("err.txt", true)));
    assert_eq!(destination(&redirects, Stream::Output), None);
}

#[test]
fn only_last_redirect_decides() {
    let (_, _, _, redirects, _, _) = input_parser("ls > a 2> b >> c");
    assert_eq!(destination(&redirects, Stream::Output), Some(target("c", true)));
    assert_eq!(destination(&redirects, Stream::Error), None);
}

#[test]
fn no_redirect_goes_to_terminal() {
    assert_eq!(destination(&vec![], Stream::Output), None);
    assert_eq!(destination(&vec![], Stream::Error), None);
}

#[test]
fn every_target_is_prepared() {
    let (_, _, _, redirects, _, _) = input_parser("ls > a 2>> b 1>> c 2> d");
    assert_eq!(
        redirect_targets(&redirects),
        vec![target("a", false), target("b", true), target("c", true), target("d", false)]
    );
}

#[test]
fn unknown_kind_is_skipped() {
    let r = vec![("x".to_string(), "sideways".to_string()), ("y".to_string(), "append_output".to_string())];
    assert_eq!(redirect_targets(&r), vec![target("y", true)]);
    assert_eq!(destination(&r[..1].to_vec(), Stream::Output), None);
}
