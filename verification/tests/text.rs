use notice_feed::text::chars_of;
use notice_feed::text::join;
use notice_feed::text::same_text;
use notice_feed::text::strip_breaks;
use notice_feed::text::trim;

#[test]
fn chars_of_keeps_every_character_in_order() {
    assert_eq!(chars_of("a📌b"), vec!['a', '📌', 'b']);
    assert_eq!(chars_of(""), Vec::<char>::new());
}

#[test]
fn join_of_nothing_is_empty() {
    assert_eq!(join(&Vec::new(), ", "), "");
}

#[test]
fn join_of_one_part_has_no_separator() {
    assert_eq!(join(&vec!["a".to_string()], ", "), "a");
}

#[test]
fn join_puts_the_separator_between_neighbours() {
    let parts = vec!["a".to_string(), "".to_string(), "c".to_string()];
    assert_eq!(join(&parts, "--"), "a----c");
}

#[test]
fn trim_takes_white_space_from_both_ends_only() {
    assert_eq!(trim("  \n\t a b \u{a0}\r\n"), "a b");
    assert_eq!(trim("a\tb"), "a\tb");
    assert_eq!(trim("\u{3000}공지\u{2003}"), "공지");
}

#[test]
fn trim_of_white_space_is_empty() {
    assert_eq!(trim(" \n\t "), "");
    assert_eq!(trim(""), "");
}

#[test]
fn trim_agrees_with_the_standard_library() {
    for s in ["", " ", "x", " x", "x ", " x y ", "\u{85}x\u{2028}", "\u{200b}x"] {
        assert_eq!(trim(s), s.trim());
    }
}

#[test]
fn strip_breaks_takes_out_line_feeds_and_tabulators() {
    assert_eq!(strip_breaks("a\nb\tc\n\n"), "abc");
    assert_eq!(strip_breaks("a b\rc"), "a b\rc");
    assert_eq!(strip_breaks("\n\t"), "");
}

#[test]
fn same_text_compares_character_by_character() {
    assert!(same_text("xml", "xml"));
    assert!(same_text("", ""));
    assert!(!same_text("xml", "xm"));
    assert!(!same_text("xml", "xmL"));
    assert!(!same_text("md", "cm"));
}
