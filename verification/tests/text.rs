use shopping::credentials::extract_user;
use shopping::repl::{command_args, login_command, repl_step, ReplAction};
use shopping::text::{int_to_string, split_whitespace, trim_str};

#[test]
fn extract_user_plain_name() {
    assert_eq!(extract_user("login alice"), Some("alice".to_string()));
}

#[test]
fn extract_user_equals_form() {
    assert_eq!(extract_user("login --user=bob"), Some("bob".to_string()));
}

#[test]
fn extract_user_separate_flag() {
    assert_eq!(extract_user("login --user carol"), Some("carol".to_string()));
}

#[test]
fn extract_user_skips_other_flags() {
    assert_eq!(extract_user("login --verbose dave"), Some("dave".to_string()));
}

#[test]
fn extract_user_none_without_name() {
    assert_eq!(extract_user("login"), None);
    assert_eq!(extract_user("login --user"), None);
    assert_eq!(extract_user("login --x --y"), None);
    assert_eq!(extract_user(""), None);
}

#[test]
fn extract_user_flag_takes_next_word_whatever_it_is() {
    assert_eq!(extract_user("login --user --other"), Some("--other".to_string()));
    assert_eq!(extract_user("login --user="), Some("".to_string()));
}

#[test]
fn extract_user_handles_unicode_spaces() {
    assert_eq!(extract_user("login\u{3000}\tzoë  "), Some("zoë".to_string()));
}

#[test]
fn split_whitespace_matches_std() {
    for s in ["", "  a  b ", "a\u{a0}b\u{2003}c", "\n\nx", "one", "é ü"] {
        let mine = split_whitespace(s);
        let std: Vec<String> = s.split_whitespace().map(|w| w.to_string()).collect();
        assert_eq!(mine, std);
    }
}

#[test]
fn trim_matches_std() {
    for s in ["", "  a b  ", "\u{2028}x\u{205f}", "   ", "abc"] {
        assert_eq!(trim_str(s), s.trim());
    }
}

#[test]
fn int_to_string_matches_display() {
    for n in [0i64, 7, -7, 10, 12345, -98765, i32::MAX as i64, i32::MIN as i64, i64::MAX] {
        assert_eq!(int_to_string(n), n.to_string());
    }
}

#[test]
fn repl_exit_and_quit() {
    assert!(matches!(repl_step("exit"), ReplAction::Exit));
    assert!(matches!(repl_step("  quit \n"), ReplAction::Exit));
}

#[test]
fn repl_login_with_user() {
    match repl_step("login alice") {
        ReplAction::Login(u) => assert_eq!(u, "alice"),
        _ => panic!("expected a login"),
    }
}

#[test]
fn repl_login_without_user_sends_nothing() {
    assert!(matches!(repl_step("login"), ReplAction::Skip));
}

#[test]
fn repl_other_lines_are_sent_trimmed() {
    match repl_step("  list \n") {
        ReplAction::Send(s) => assert_eq!(s, "list"),
        _ => panic!("expected a send"),
    }
}

#[test]
fn login_command_text() {
    assert_eq!(login_command("james", "pw"), "login --username james --password pw");
}

#[test]
fn command_args_split_like_a_shell() {

    assert_eq!(
        command_args("add --name \"Fish Fingers\" --price 10.99 --quantity 2"),
        vec!["repl", "add", "--name", "Fish Fingers", "--price", "10.99", "--quantity", "2"]
    );
    assert_eq!(command_args("mark 3 --ticked"), vec!["repl", "mark", "3", "--ticked"]);
    assert_eq!(command_args("add \"open"), vec!["repl"]);
    assert_eq!(command_args(""), vec!["repl"]);
}

#[test]
fn repl_login_names_user() {
    match repl_step("login james") {
        ReplAction::Login(u) => assert_eq!(u, "james"),
        _ => panic!("expected a login"),
    }
}
