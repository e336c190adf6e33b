use cyan_backend::strings::{
    before, chars_of, contains, first_line, is_blank, replace, starts_with, trim,
};

#[test]
fn trimming_takes_white_space_from_both_ends() {
    assert_eq!(trim("  a b\t\n"), "a b");
    assert_eq!(trim("\u{2003}x\u{a0}"), "x");
    assert_eq!(trim(" \n "), "");
    assert_eq!(trim(trim("  a ").as_str()), "a");
    for s in ["", " ", "x", " x ", "\u{3000}y\u{85}"] {
        assert_eq!(trim(s), s.trim());
        assert_eq!(is_blank(s), s.trim().is_empty());
    }
}

#[test]
fn searching_and_replacing() {
    assert!(contains("in progress", "progress"));
    assert!(contains("x", ""));
    assert!(!contains("prog", "progress"));
    assert!(starts_with("create-group x", "create-group"));
    assert!(!starts_with("a create-group", "create-group"));
    assert_eq!(replace("<p>a</p><p>b</p>", "<p>", "\n"), "\na</p>\nb</p>");
    assert_eq!(replace("aaa", "aa", "b"), "aaa".replace("aa", "b"));
    assert_eq!(replace("abc", "x", "y"), "abc");
}

#[test]
fn the_first_line_ends_at_a_break() {
    assert_eq!(first_line("one\ntwo"), "one");
    assert_eq!(first_line("one\r\ntwo"), "one");
    assert_eq!(first_line("one"), "one");
    assert_eq!(first_line(""), "");
    assert_eq!(first_line("\nrest"), "");
}

#[test]
fn texts_are_ordered_by_their_bytes() {
    assert!(before("Blocked", "Waiting"));
    assert!(before("A", "AB"));
    assert!(!before("b", "a"));
    assert!(!before("a", "a"));
    assert!(before("z", "é"));
}

#[test]
fn characters_make_up_a_text() {
    let chars = chars_of("日本x");
    assert_eq!(chars, vec!['日', '本', 'x']);
}
