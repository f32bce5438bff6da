use player_proxy::text::{
    contains, eq_ignore_ascii_case, is_visible_text, same_bytes, same_text, starts_at, to_lower,
};

#[test]
fn needle_is_found_anywhere() {
    assert!(contains(b"application/javascript", b"javascript"));
    assert!(contains(b"javascript", b"javascript"));
    assert!(contains(b"text/javascript; charset=utf-8", b"javascript"));
    assert!(!contains(b"text/html", b"javascript"));
    assert!(!contains(b"java", b"javascript"));
    assert!(!contains(b"javascrip", b"javascript"));
}

#[test]
fn empty_needle_is_in_every_text() {
    assert!(contains(b"abc", b""));
    assert!(contains(b"", b""));
    assert!(!contains(b"", b"a"));
}

#[test]
fn needle_at_an_offset() {
    assert!(starts_at(b"abcdef", b"cd", 2));
    assert!(!starts_at(b"abcdef", b"cd", 1));
    assert!(starts_at(b"abcdef", b"", 6));
}

#[test]
fn capitals_are_lowered_and_nothing_else() {
    assert_eq!(to_lower(b'A'), b'a');
    assert_eq!(to_lower(b'Z'), b'z');
    assert_eq!(to_lower(b'a'), b'a');
    assert_eq!(to_lower(b'@'), b'@');
    assert_eq!(to_lower(b'['), b'[');
    assert_eq!(to_lower(b'-'), b'-');
    assert_eq!(to_lower(0xC9), 0xC9);
}

#[test]
fn comparison_ignores_ascii_case_only() {
    assert!(eq_ignore_ascii_case(b"Content-Type", b"content-type"));
    assert!(eq_ignore_ascii_case(b"", b""));
    assert!(!eq_ignore_ascii_case(b"content-type", b"content_type"));
    assert!(!eq_ignore_ascii_case(b"content-type", b"content-typ"));
    assert!(!eq_ignore_ascii_case("É".as_bytes(), "é".as_bytes()));
}

#[test]
fn visible_text_is_printable_ascii_space_and_tab() {
    assert!(is_visible_text(b"text/javascript; charset=utf-8"));
    assert!(is_visible_text(b"a\tb"));
    assert!(is_visible_text(b""));
    assert!(!is_visible_text(b"a\nb"));
    assert!(!is_visible_text(b"a\x7fb"));
    assert!(!is_visible_text(b"caf\xc3\xa9"));
}

#[test]
fn sameness_of_bytes_and_text() {
    assert!(same_bytes(b"abc", b"abc"));
    assert!(!same_bytes(b"abc", b"abd"));
    assert!(!same_bytes(b"abc", b"ab"));
    assert!(same_text("/{player_link}", "/{player_link}"));
    assert!(!same_text("/a", "/A"));
    assert!(same_text("", ""));
}
