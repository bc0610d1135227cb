use filedrop::name::{is_letter_char, sanitize_name};

#[test]
fn empty_name_becomes_unnamed() {
    assert_eq!(sanitize_name(""), "unnamed");
}

#[test]
fn letters_and_underscores_pass() {
    assert_eq!(sanitize_name("read_me"), "read_me");
    assert_eq!(sanitize_name("__init__"), "__init__");
}

#[test]
fn digits_are_replaced() {
    assert_eq!(sanitize_name("report.v1.pdf"), "report.v_.pdf");
    assert_eq!(sanitize_name("a123b"), "a_b");
}

#[test]
fn leading_rejects_become_one_underscore() {
    assert_eq!(sanitize_name("1abc"), "_abc");
    assert_eq!(sanitize_name("123"), "_");
    assert_eq!(sanitize_name("  a"), "_a");
    assert_eq!(sanitize_name("/etc/passwd"), "_etc_passwd");
    assert_eq!(sanitize_name("-_a"), "__a");
}

#[test]
fn leading_periods_are_dropped() {
    assert_eq!(sanitize_name(".hidden"), "hidden");
    assert_eq!(sanitize_name("..."), "unnamed");
    assert_eq!(sanitize_name("."), "unnamed");
    assert_eq!(sanitize_name("..a"), "a");
    assert_eq!(sanitize_name("../../etc/passwd"), "_._etc_passwd");
    assert_eq!(sanitize_name(".1."), "_.");
}

#[test]
fn runs_of_periods_collapse() {
    assert_eq!(sanitize_name("a..b"), "a._b");
    assert_eq!(sanitize_name("a...b"), "a._.b");
    assert_eq!(sanitize_name("a.b.c"), "a.b.c");
    assert_eq!(sanitize_name("a_.b"), "a_.b");
}

#[test]
fn runs_of_replacements_collapse() {
    assert_eq!(sanitize_name("a  b"), "a_b");
    assert_eq!(sanitize_name("a -+ b"), "a_b");
    assert_eq!(sanitize_name("a_ b"), "a_b");
    assert_eq!(sanitize_name("a__b"), "a__b");
}

#[test]
fn header_breaking_characters_are_removed() {
    assert_eq!(sanitize_name("a\"b"), "a_b");
    assert_eq!(sanitize_name("x\r\nSet-Cookie: y"), "x_Set_Cookie_y");
    assert_eq!(sanitize_name("dir/file\\name"), "dir_file_name");
}

#[test]
fn unicode_letters_pass() {
    assert_eq!(sanitize_name("résumé.doc"), "résumé.doc");
    assert_eq!(sanitize_name("文件.txt"), "文件.txt");
    assert_eq!(sanitize_name("a→b"), "a_b");
    assert_eq!(sanitize_name("→"), "_");
}

#[test]
fn letters_are_recognised() {
    assert!(is_letter_char('a'));
    assert!(is_letter_char('Z'));
    assert!(is_letter_char('é'));
    assert!(!is_letter_char('1'));
    assert!(!is_letter_char('_'));
    assert!(!is_letter_char('.'));
    assert!(!is_letter_char('→'));
}

#[test]
fn sanitizing_twice_changes_nothing() {
    let inputs = ["", "report.v1.pdf", "a..b", "../x", "a  b", "résumé", "__", "a.", "a._", "9.9"];
    for s in inputs {
        let once = sanitize_name(s);
        assert_eq!(sanitize_name(&once), once);
    }
}

#[test]
fn sanitized_names_are_safe() {
    let inputs = ["", ".", "..", "a..b", "\"quoted\"", "a/b/../c", "x\ny", "5", "é.é"];
    for s in inputs {
        let out = sanitize_name(s);
        assert!(!out.is_empty());
        assert!(!out.starts_with('.'));
        assert!(!out.contains(".."));
        assert!(out.chars().all(|c| c.is_alphabetic() || c == '_' || c == '.'));
    }
}
