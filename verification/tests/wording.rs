use newsroom::text::{joined_text, str_eq, trimmed};

#[test]
fn str_eq_compares_characters() {
    assert!(str_eq("", ""));
    assert!(str_eq("wsj", "wsj"));
    assert!(!str_eq("wsj", "wsJ"));
    assert!(!str_eq("wsj", "ws"));
    assert!(!str_eq("ws", "wsj"));
    assert!(str_eq("é\u{1F600}", "é\u{1F600}"));
    assert!(!str_eq("é", "e"));
}

#[test]
fn trimmed_removes_white_space_at_both_ends() {
    assert_eq!(trimmed("  a b \n"), "a b");
    assert_eq!(trimmed("a"), "a");
    assert_eq!(trimmed("\t\r\n x"), "x");
    assert_eq!(trimmed("x \t"), "x");
}

#[test]
fn trimmed_of_white_space_is_empty() {
    assert_eq!(trimmed(""), "");
    assert_eq!(trimmed(" "), "");
    assert_eq!(trimmed(" \n\t "), "");
}

#[test]
fn trimmed_knows_white_space_beyond_ascii() {
    assert_eq!(trimmed("\u{3000}\u{a0}été\u{2003}"), "été");
    assert_eq!(trimmed("\u{2028}a\u{1F600}b\u{85}"), "a\u{1F600}b");
}

#[test]
fn trimmed_keeps_what_is_no_white_space() {
    assert_eq!(trimmed("\u{200b}a"), "\u{200b}a");
    assert_eq!(trimmed("_ a _"), "_ a _");
}

#[test]
fn trimmed_agrees_with_std() {
    for s in ["", " ", "a", " a", "a ", " a b  c ", "\n\n", "é ", " \u{1680}x\u{205f}", "\u{feff} x"] {
        assert_eq!(trimmed(s), s.trim(), "{:?}", s);
    }
}

#[test]
fn joined_text_trims_each_fragment_and_joins() {
    let fragments = vec![" Second ".to_string(), "bold".to_string(), " story\n".to_string()];
    assert_eq!(joined_text(&fragments), "Secondboldstory");
}

#[test]
fn joined_text_of_nothing_is_empty() {
    assert_eq!(joined_text(&Vec::new()), "");
    assert_eq!(joined_text(&vec![" ".to_string(), "\n".to_string()]), "");
}

#[test]
fn joined_text_keeps_inner_white_space() {
    assert_eq!(joined_text(&vec![" a  b ".to_string()]), "a  b");
}
