use minishell::parser::{input_parser, RedirectKind};

fn strings(v: &[&str]) -> Vec<String> {
    v.iter().map(|s| s.to_string()).collect()
}

fn redirect(path: &str, kind: &str) -> (String, String) {
    (path.to_string(), kind.to_string())
}

#[test]
fn quoted_word_stays_one_token() {
    let (complete, args, has_redirect, redirects, loc, opt) = input_parser("\"a b\" c");
    assert!(complete);
    assert_eq!(args, strings(&["a b", "c"]));
    assert!(!has_redirect);
    assert!(redirects.is_empty());
    assert_eq!(loc, "");
    assert_eq!(opt, "");
}

#[test]
fn requoted_tokens_read_back() {
    let (_, args, _, _, _, _) = input_parser("\"a b\" c");
    let line: Vec<String> = args.iter().map(|t| format!("\"{}\"", t)).collect();
    let (complete, again, _, _, _, _) = input_parser(&line.join(" "));
    assert!(complete);
    assert_eq!(again, args);
}

#[test]
fn single_and_double_quotes_with_extra_space() {
    let (complete, args, _, _, _, _) = input_parser("echo 'a b'  \"c d\"");
    assert!(complete);
    assert_eq!(args, strings(&["echo", "a b", "c d"]));
}

#[test]
fn quotes_are_consumed() {
    let (_, args, _, _, _, _) = input_parser("'a'\"b\"c");
    assert_eq!(args, strings(&["abc"]));
    for t in &args {
        assert!(!t.contains('\'') && !t.contains('"'));
    }
}

#[test]
fn backslash_outside_quotes_escapes_next() {
    let (_, args, _, _, _, _) = input_parser("a\\ b c\\\\d");
    assert_eq!(args, strings(&["a b", "c\\d"]));
}

#[test]
fn backslash_inside_double_quotes() {
    let (_, args, _, _, _, _) = input_parser("\"a\\\"b\" \"x\\ny\" \"p\\$q\"");
    assert_eq!(args, strings(&["a\"b", "x\\ny", "p$q"]));
}

#[test]
fn backslash_inside_single_quotes_is_literal() {
    let (_, args, _, _, _, _) = input_parser("'a\\b' 'say \"hi\"'");
    assert_eq!(args, strings(&["a\\b", "say \"hi\""]));
}

#[test]
fn trailing_backslash_in_double_quotes() {
    let (complete, args, _, _, _, _) = input_parser("\"ab\\");
    assert!(!complete);
    assert_eq!(args, strings(&["ab\\"]));
}

#[test]
fn unterminated_quotes_are_incomplete() {
    assert!(!input_parser("echo \"hello").0);
    assert!(!input_parser("echo 'it").0);
    assert!(input_parser("echo \"'\"").0);
    assert!(input_parser("echo '\"'").0);
    assert!(!input_parser("echo \"a\" 'b").0);
}

#[test]
fn replace_output_redirection() {
    let (complete, args, has_redirect, redirects, _, _) = input_parser("echo foo > /tmp/x");
    assert!(complete);
    assert_eq!(args, strings(&["echo", "foo"]));
    assert!(has_redirect);
    assert_eq!(redirects, vec![redirect("/tmp/x", "replace_output")]);
}

#[test]
fn redirection_operators_and_kinds() {
    let (_, args, _, redirects, _, _) = input_parser("ls 1>a >>b 1>> c 2>d 2>>e");
    assert_eq!(args, strings(&["ls"]));
    assert_eq!(
        redirects,
        vec![
            redirect("a", "replace_output"),
            redirect("b", "append_output"),
            redirect("c", "append_output"),
            redirect("d", "replace_error"),
            redirect("e", "append_error"),
        ]
    );
}

#[test]
fn operator_glued_to_words() {
    let (_, args, _, redirects, _, _) = input_parser("echo a>b");
    assert_eq!(args, strings(&["echo", "a"]));
    assert_eq!(redirects, vec![redirect("b", "replace_output")]);
    let (_, args, _, redirects, _, _) = input_parser("echo x12>f");
    assert_eq!(args, strings(&["echo", "x12"]));
    assert_eq!(redirects, vec![redirect("f", "replace_output")]);
}

#[test]
fn quoted_operator_character_is_literal() {
    let (_, args, has_redirect, _, _, _) = input_parser("echo 'a>b' \"x > y\"");
    assert_eq!(args, strings(&["echo", "a>b", "x > y"]));
    assert!(!has_redirect);
}

#[test]
fn redirect_without_target_is_dropped() {
    let (complete, args, has_redirect, redirects, _, _) = input_parser("echo hi >");
    assert!(complete);
    assert_eq!(args, strings(&["echo", "hi"]));
    assert!(!has_redirect);
    assert!(redirects.is_empty());
}

#[test]
fn input_redirection_swallows_later_output_operator() {
    let (_, args, has_redirect, _, _, _) = input_parser("cat < in > out");
    assert_eq!(args, strings(&["cat", "in", "out"]));
    assert!(!has_redirect);
}

#[test]
fn history_file_flags() {
    let (_, args, _, _, loc, opt) = input_parser("history -w file.txt");
    assert_eq!(args, strings(&["history"]));
    assert_eq!(loc, "file.txt");
    assert_eq!(opt, "write");
    let (_, _, _, _, loc, opt) = input_parser("history -r a -a b");
    assert_eq!(loc, "b");
    assert_eq!(opt, "append");
    let (_, args, _, _, loc, opt) = input_parser("history -r");
    assert_eq!(args, strings(&["history"]));
    assert_eq!(loc, "");
    assert_eq!(opt, "");
}

#[test]
fn dash_not_before_flag_letter_is_plain() {
    let (_, args, _, _, _, _) = input_parser("wc -c -l");
    assert_eq!(args, strings(&["wc", "-c", "-l"]));
}

#[test]
fn blank_lines_have_no_tokens() {
    assert!(input_parser("").1.is_empty());
    assert!(input_parser("   \t ").1.is_empty());
    assert!(input_parser("   \t ").0);
}

#[test]
fn unicode_white_space_separates_tokens() {
    let (_, args, _, _, _, _) = input_parser("a\u{3000}b\u{a0}c");
    assert_eq!(args, strings(&["a", "b", "c"]));
}

#[test]
fn redirect_kind_names() {
    assert_eq!(RedirectKind::ReplaceOutput.name(), "replace_output");
    assert_eq!(RedirectKind::AppendError.name(), "append_error");
    assert_eq!(RedirectKind::from_name(&"append_output".to_string()), Some(RedirectKind::AppendOutput));
    assert_eq!(RedirectKind::from_name(&"replace_error".to_string()), Some(RedirectKind::ReplaceError));
    assert_eq!(RedirectKind::from_name(&"nothing".to_string()), None);
}

#[test]
fn empty_quotes_give_no_token() {
    let (complete, args, _, redirects, _, _) = input_parser("'' \"\" a > ''b");
    assert!(complete);
    assert_eq!(args, strings(&["a"]));
    assert_eq!(redirects, vec![redirect("b", "replace_output")]);
    for t in &args {
        assert!(!t.is_empty());
    }
}

#[test]
fn quote_count_parity_with_one_kind() {
    assert!(input_parser("a \"b\" \"c\"").0);
    assert!(!input_parser("a \"b\" \"c").0);
    assert!(input_parser("'x' 'y'").0);
    assert!(!input_parser("'x' 'y' '").0);
}
