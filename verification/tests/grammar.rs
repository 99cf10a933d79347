use glide_core::parse;
use glide_core::Command;

#[test]
fn parses_list() {
    assert_eq!(parse("list"), Command::List);
}

#[test]
fn parses_reqs() {
    assert_eq!(parse("reqs"), Command::Requests);
}

#[test]
fn parses_glide_with_spaces_in_path() {
    assert_eq!(
        parse("glide a/b c.txt @bob"),
        Command::Glide { path: "a/b c.txt".to_string(), to: "bob".to_string() }
    );
}

#[test]
fn parses_glide_plain() {
    assert_eq!(
        parse("glide notes.txt @bob"),
        Command::Glide { path: "notes.txt".to_string(), to: "bob".to_string() }
    );
}

#[test]
fn glide_path_is_greedy_to_last_at() {
    assert_eq!(
        parse("glide draft @v2.txt @bob"),
        Command::Glide { path: "draft @v2.txt".to_string(), to: "bob".to_string() }
    );
}

#[test]
fn glide_tolerates_extra_spaces() {
    assert_eq!(
        parse("glide   notes.txt   @bob"),
        Command::Glide { path: "notes.txt".to_string(), to: "bob".to_string() }
    );
}

#[test]
fn glide_without_path_is_invalid() {
    assert_eq!(parse("glide @bob"), Command::Invalid("glide @bob".to_string()));
}

#[test]
fn glide_without_user_is_invalid() {
    assert_eq!(parse("glide notes.txt"), Command::Invalid("glide notes.txt".to_string()));
}

#[test]
fn glide_user_with_space_is_invalid() {
    assert_eq!(
        parse("glide a.txt @bob smith"),
        Command::Invalid("glide a.txt @bob smith".to_string())
    );
}

#[test]
fn parses_accept() {
    assert_eq!(parse("ok @bob"), Command::Accept { from: "bob".to_string() });
}

#[test]
fn parses_decline() {
    assert_eq!(parse("no @bob"), Command::Decline { from: "bob".to_string() });
}

#[test]
fn accept_without_at_is_invalid() {
    assert_eq!(parse("ok bob"), Command::Invalid("ok bob".to_string()));
}

#[test]
fn accept_empty_user_is_invalid() {
    assert_eq!(parse("ok @"), Command::Invalid("ok @".to_string()));
}

#[test]
fn parses_bare_help() {
    assert_eq!(parse("help"), Command::Help(None));
}

#[test]
fn parses_help_topic() {
    assert_eq!(parse("help glide"), Command::Help(Some("glide".to_string())));
}

#[test]
fn unknown_text_is_invalid() {
    assert_eq!(parse("banana"), Command::Invalid("banana".to_string()));
}

#[test]
fn exact_match_only_for_list() {
    assert_eq!(parse("list extra"), Command::Invalid("list extra".to_string()));
    assert_eq!(parse("List"), Command::Invalid("List".to_string()));
}

#[test]
fn empty_line_is_invalid() {
    assert_eq!(parse(""), Command::Invalid("".to_string()));
}
