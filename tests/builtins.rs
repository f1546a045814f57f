use minishell::builtins::{
    cd_missing, cd_plan, classify, command_not_found, echo_text, is_shell_builtin, pwd_output,
    stage_echo_text, stage_pwd_text, stage_type_text, type_output, CdPlan, Command, Emit,
};
use minishell::parser::input_parser;
use minishell::redirect::Stream;

fn strings(v: &[&str]) -> Vec<String> {
    v.iter().map(|s| s.to_string()).collect()
}

fn out(text: &str) -> Emit {
    Emit { text: text.to_string(), stream: Stream::Output }
}

fn err(text: &str) -> Emit {
    Emit { text: text.to_string(), stream: Stream::Error }
}

#[test]
fn echo_keeps_trailing_space() {
    let (_, args, _, _, _, _) = input_parser("echo hello world");
    assert_eq!(echo_text(&args[1..].to_vec()), "hello world \n");
}

#[test]
fn echo_of_quoted_words() {
    let (_, args, _, _, _, _) = input_parser("echo 'a b'  \"c d\"");
    assert_eq!(args[1..].to_vec(), strings(&["a b", "c d"]));
    assert_eq!(echo_text(&args[1..].to_vec()), "a b c d \n");
}

#[test]
fn echo_to_redirect_target_text() {
    let (_, args, _, redirects, _, _) = input_parser("echo foo > /tmp/x");
    assert_eq!(echo_text(&args[1..].to_vec()), "foo \n");
    assert_eq!(redirects[0].0, "/tmp/x");
}

#[test]
fn echo_with_no_arguments() {
    assert_eq!(echo_text(&vec![]), "\n");
}

#[test]
fn stage_echo_has_no_trailing_space() {
    let t = stage_echo_text(&strings(&["abc"]));
    assert_eq!(t, "abc\n");
    assert_eq!(t.len(), 4);
    assert_eq!(stage_echo_text(&strings(&["a", "b", "c"])), "a b c\n");
    assert_eq!(stage_echo_text(&[]), "\n");
}

#[test]
fn type_of_builtin_and_unknown() {
    assert_eq!(type_output(&strings(&["echo"]), &vec![None]), vec![out("echo is a shell builtin\n")]);
    assert_eq!(type_output(&strings(&["nonsuch"]), &vec![None]), vec![err("nonsuch: not found\n")]);
}

#[test]
fn type_of_found_executable() {
    let r = type_output(&strings(&["ls", "cd", "zz"]), &vec![Some("/bin/ls".to_string()), None, None]);
    assert_eq!(r, vec![out("ls is /bin/ls\n"), out("cd is a shell builtin\n"), err("zz: not found\n")]);
}

#[test]
fn type_with_no_argument() {
    assert_eq!(type_output(&vec![], &vec![]), vec![err("Not a valid command\n")]);
}

#[test]
fn stage_type_uses_first_name() {
    assert_eq!(stage_type_text(&strings(&["pwd", "echo"]), &None), "pwd is a shell builtin\n");
    assert_eq!(stage_type_text(&strings(&["ls"]), &Some("/usr/bin/ls".to_string())), "ls is /usr/bin/ls\n");
    assert_eq!(stage_type_text(&strings(&["qq"]), &None), "qq: not found\n");
    assert_eq!(stage_type_text(&[], &None), "");
}

#[test]
fn pwd_prints_directory() {
    assert_eq!(pwd_output(&vec![], &Ok("/tmp".to_string())), vec![out("/tmp\n")]);
    assert_eq!(pwd_output(&vec![], &Err("gone".to_string())), vec![err("Not Found Error: gone\n")]);
    assert_eq!(pwd_output(&strings(&["x"]), &Ok("/tmp".to_string())), vec![err("pwd: Invalid arguments provided\n")]);
    assert_eq!(stage_pwd_text(&Ok("/home".to_string())), "/home\n");
    assert_eq!(stage_pwd_text(&Err("gone".to_string())), "");
}

#[test]
fn cd_with_no_argument_goes_to_root() {
    assert_eq!(cd_plan(&vec![]), CdPlan::Root);
    assert_eq!(cd_plan(&strings(&[""])), CdPlan::Root);
}

#[test]
fn cd_targets() {
    assert_eq!(cd_plan(&strings(&["~"])), CdPlan::Home);
    assert_eq!(cd_plan(&strings(&["/tmp"])), CdPlan::Dir("/tmp".to_string()));
    assert_eq!(cd_plan(&strings(&["a", "b"])), CdPlan::TooManyArguments);
    assert_eq!(cd_missing(&"nope".to_string()), "cd: nope: No such file or directory\n");
}

#[test]
fn command_names() {
    assert_eq!(classify("echo"), Command::Echo);
    assert_eq!(classify(" type "), Command::Type);
    assert_eq!(classify("exit"), Command::Exit);
    assert_eq!(classify("pwd"), Command::Pwd);
    assert_eq!(classify("cd"), Command::Cd);
    assert_eq!(classify("history"), Command::History);
    assert_eq!(classify("ls"), Command::External);
    assert_eq!(classify(""), Command::Nothing);
    assert_eq!(classify("  "), Command::Nothing);
}

#[test]
fn builtin_set() {
    for n in ["echo", "type", "exit", "cd", "pwd"] {
        assert!(is_shell_builtin(n));
    }
    assert!(!is_shell_builtin("history"));
    assert!(!is_shell_builtin("echo "));
}

#[test]
fn not_found_message() {
    assert_eq!(command_not_found("foo"), "foo: command not found\n");
}
