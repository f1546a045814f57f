use minishell::completion::MyHelper;

fn pair(d: &str, r: &str) -> (String, String) {
    (d.to_string(), r.to_string())
}

#[test]
fn builtins_complete_by_prefix() {
    let h = MyHelper::new();
    assert_eq!(h.candidates("e"), vec![pair("echo", "echo "), pair("exit", "exit ")]);
    assert_eq!(h.candidates("ty"), vec![pair("type", "type ")]);
    assert_eq!(h.candidates("zz"), vec![]);
}

#[test]
fn everything_sorted_for_empty_prefix() {
    let h = MyHelper::default();
    assert_eq!(
        h.candidates(""),
        vec![
            pair("cd", "cd "),
            pair("echo", "echo "),
            pair("exit", "exit "),
            pair("pwd", "pwd "),
            pair("type", "type "),
        ]
    );
}

#[test]
fn added_commands_complete() {
    let mut h = MyHelper::new();
    h.add_command("ls");
    h.add_command("less");
    h.add_entry("lx");
    assert_eq!(h.candidates("l"), vec![pair("less", "less "), pair("ls", "ls "), pair("lx", "lx")]);
    assert_eq!(h.candidates("ec"), vec![pair("echo", "echo ")]);
}

#[test]
fn equal_display_keeps_order() {
    let mut h = MyHelper::new();
    h.add_entry("ab ");
    h.add_entry("ab");
    h.add_entry("aa");
    assert_eq!(h.candidates("a"), vec![pair("aa", "aa"), pair("ab", "ab "), pair("ab", "ab")]);
}
