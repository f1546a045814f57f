use minishell::builtins::echo_text;
use minishell::repl::{Feed, ParsedLine, Session};

#[test]
fn empty_line_is_blank() {
    let mut s = Session::new();
    assert_eq!(s.prompt(), "$ ");
    assert_eq!(s.feed(""), Feed::Blank);
    assert_eq!(s.prompt(), "$ ");
}

#[test]
fn white_space_line_is_blank() {
    let mut s = Session::new();
    assert_eq!(s.feed("   \t  "), Feed::Blank);
    assert_eq!(s.prompt(), "$ ");
}

#[test]
fn open_quote_asks_for_more() {
    let mut s = Session::new();
    assert_eq!(s.feed("echo \"hello"), Feed::More);
    assert_eq!(s.prompt(), "> ");
    let r = s.feed("world\"");
    assert_eq!(s.prompt(), "$ ");
    match r {
        Feed::Run(line) => {
            assert_eq!(line.args, vec!["echo".to_string(), "hello\nworld".to_string()]);
            assert_eq!(echo_text(&line.args[1..].to_vec()), "hello\nworld \n");
        },
        other => panic!("expected a line to run, got {:?}", other),
    }
}

#[test]
fn complete_line_runs() {
    let mut s = Session::new();
    let r = s.feed("ls -l > out");
    assert_eq!(
        r,
        Feed::Run(ParsedLine {
            args: vec!["ls".to_string(), "-l".to_string()],
            redirects: vec![("out".to_string(), "replace_output".to_string())],
            file_location: String::new(),
            file_option: String::new(),
        })
    );
}

#[test]
fn blank_continuation_keeps_waiting() {
    let mut s = Session::new();
    assert_eq!(s.feed("echo 'a"), Feed::More);
    assert_eq!(s.feed(""), Feed::More);
    assert_eq!(s.prompt(), "> ");
    match s.feed("b'") {
        Feed::Run(line) => assert_eq!(line.args[1], "a\n\nb"),
        other => panic!("expected a line to run, got {:?}", other),
    }
}
