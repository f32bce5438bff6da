use player_proxy::template::{is_safe, ResolveError, UrlTemplate};

#[test]
fn fixed_template_has_no_slot() {
    let t = UrlTemplate::parse("https://example.com/player.js").unwrap();
    assert!(!t.has_slot());
    assert_eq!(t.fill(None), Ok("https://example.com/player.js".to_string()));
    assert_eq!(t.fill(Some("ignored")), Ok("https://example.com/player.js".to_string()));
    assert_eq!(t.fill(Some("../x")), Ok("https://example.com/player.js".to_string()));
}

#[test]
fn slot_is_filled_with_the_parameter() {
    let t = UrlTemplate::parse("https://example.com/js/{file}?v=1").unwrap();
    assert!(t.has_slot());
    assert_eq!(
        t.fill(Some("main.4f2a.js")),
        Ok("https://example.com/js/main.4f2a.js?v=1".to_string())
    );
}

#[test]
fn slot_may_stand_first_or_last() {
    let t = UrlTemplate::parse("{file}").unwrap();
    assert_eq!(t.fill(Some("a.js")), Ok("a.js".to_string()));
    let t = UrlTemplate::parse("https://example.com/{f_1}").unwrap();
    assert_eq!(t.fill(Some("a.js")), Ok("https://example.com/a.js".to_string()));
}

#[test]
fn slot_without_parameter_is_an_error() {
    let t = UrlTemplate::parse("https://example.com/js/{file}").unwrap();
    assert_eq!(t.fill(None), Err(ResolveError::MissingParameter));
}

#[test]
fn unsafe_parameter_is_an_error() {
    let t = UrlTemplate::parse("https://example.com/js/{file}").unwrap();
    for bad in ["", ".", "..", "a/b", "../secret", "a?b=c", "a#b", "a b", "a%2fb", "é.js", "a\r\nb", "a@b", "a:b"] {
        assert_eq!(t.fill(Some(bad)), Err(ResolveError::UnsafeParameter), "{:?}", bad);
    }
}

#[test]
fn plain_file_names_are_safe() {
    for good in ["a", "main.js", "a-b_c~d.0.js", "...", ".a", "A.B", "0"] {
        assert!(is_safe(good), "{:?}", good);
    }
    for bad in ["", ".", "..", "a/b", "a\\b", "a b", "ä", "a{b}", "a,b", "a+b", "a*b"] {
        assert!(!is_safe(bad), "{:?}", bad);
    }
}

#[test]
fn malformed_templates_are_refused() {
    for bad in [
        "",
        "https://example.com/{",
        "https://example.com/}",
        "https://example.com/{}",
        "https://example.com/{a}{b}",
        "https://example.com/{a}/{b}",
        "https://example.com/{a b}",
        "https://example.com/{a-b}",
        "https://example.com/{{a}}",
        "https://example.com/}{a}",
        "https://example.com/{a}}",
        "https://example.com/{a",
        "https://exämple.com/{a}",
        "https://exämple.com/",
    ] {
        assert!(UrlTemplate::parse(bad).is_none(), "{:?}", bad);
    }
}
