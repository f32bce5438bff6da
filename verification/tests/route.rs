use player_proxy::registry::{Registry, RegistryError};
use player_proxy::route::{chzzk, ConfigError, ContentTypePredicate, RouteConfig, RuleConfig};

fn rule(label: &str, pattern: &str, replacement: &str) -> RuleConfig {
    RuleConfig {
        label: label.to_string(),
        pattern: pattern.to_string(),
        replacement: replacement.to_string(),
        single_shot: false,
    }
}

fn config(path: &str, upstream: &str, rules: Vec<RuleConfig>) -> RouteConfig {
    RouteConfig {
        id: "test".to_string(),
        path: path.to_string(),
        upstream: upstream.to_string(),
        whitelist: vec!["content-type".to_string(), "etag".to_string()],
        content_type: ContentTypePredicate::Contains("javascript".to_string()),
        rules,
    }
}

#[test]
fn contains_test_looks_anywhere_in_the_value() {
    let p = ContentTypePredicate::Contains("javascript".to_string());
    assert!(p.test(Some(b"text/javascript")));
    assert!(p.test(Some(b"application/javascript; charset=utf-8")));
    assert!(!p.test(Some(b"text/html")));
    assert!(!p.test(Some(b"text/JavaScript")));
    assert!(!p.test(Some(b"")));
    assert!(!p.test(None));
}

#[test]
fn exact_test_wants_the_whole_value() {
    let p = ContentTypePredicate::Exact("text/javascript".to_string());
    assert!(p.test(Some(b"text/javascript")));
    assert!(!p.test(Some(b"text/javascript; charset=utf-8")));
    assert!(!p.test(Some(b"text/javascrip")));
    assert!(!p.test(None));
}

#[test]
fn value_that_is_not_text_is_never_accepted() {
    let p = ContentTypePredicate::Contains("javascript".to_string());
    assert!(!p.test(Some(b"text/javascript\x00")));
    assert!(!p.test(Some(b"text/javascript\xff")));
    assert!(p.test(Some(b"text/javascript\t")));
    let q = ContentTypePredicate::Contains("é".to_string());
    assert!(!q.test(Some("café".as_bytes())));
}

#[test]
fn copy_of_a_test_behaves_alike() {
    let p = ContentTypePredicate::Exact("a/b".to_string());
    let q = p.duplicate();
    assert!(q.test(Some(b"a/b")));
    assert!(!q.test(Some(b"a/bc")));
}

#[test]
fn sound_route_compiles_with_its_parts() {
    let cfg = config("/x/{f}", "https://example.com/{f}", vec![rule("r", "a+", "b")]);
    let route = cfg.compile().ok().unwrap();
    assert_eq!(route.id(), "test");
    assert_eq!(route.path(), "/x/{f}");
    assert!(route.template().has_slot());
    assert_eq!(route.whitelist(), &vec!["content-type".to_string(), "etag".to_string()]);
    assert!(route.content_type().test(Some(b"text/javascript")));
    assert_eq!(route.rules().len(), 1);
    assert_eq!(route.rules()[0].label(), "r");
}

#[test]
fn malformed_template_is_a_config_error() {
    let cfg = config("/x", "https://example.com/{f", vec![rule("r", "a+", "b")]);
    assert_eq!(cfg.compile().err(), Some(ConfigError::MalformedTemplate));
}

#[test]
fn first_pattern_that_does_not_compile_is_named() {
    let cfg = config(
        "/x",
        "https://example.com/x.js",
        vec![rule("ok", "a+", "b"), rule("bad", "(", "b"), rule("worse", "[", "b")],
    );
    assert_eq!(cfg.compile().err(), Some(ConfigError::InvalidPattern { rule: 1 }));
}

#[test]
fn template_is_looked_at_before_the_patterns() {
    let cfg = config("/x", "", vec![rule("bad", "(", "b")]);
    assert_eq!(cfg.compile().err(), Some(ConfigError::MalformedTemplate));
}

#[test]
fn player_route_is_as_written() {
    let cfg = chzzk();
    assert_eq!(cfg.id, "chzzk");
    assert_eq!(cfg.path, "/{player_link}");
    assert_eq!(
        cfg.upstream,
        "https://ssl.pstatic.net/static/nng/glive/resource/p/static/js/{player_link}"
    );
    assert_eq!(cfg.whitelist, vec!["content-type", "cache-control", "expires"]);
    assert!(cfg.content_type.test(Some(b"application/javascript")));
    let written: Vec<(&str, &str, &str, bool)> = cfg
        .rules
        .iter()
        .map(|r| (r.label.as_str(), r.pattern.as_str(), r.replacement.as_str(), r.single_shot))
        .collect();
    assert_eq!(
        written,
        vec![
            ("p2p-path", r#""p2pPath""#, r#""p2p""#, false),
            ("force-low-resolution", r".\.forceLowResolution", "false", false),
            ("ad-block-popup", r"var .=.\.exposureAdBlockPopup(?:.*?)\)\},", "},", false),
        ]
    );
    assert!(cfg.compile().is_ok());
}

#[test]
fn registry_serves_every_route_under_its_path() {
    let configs = vec![
        chzzk(),
        config("/fixed/player.js", "https://example.com/player.js", vec![]),
    ];
    let registry = Registry::build(&configs).ok().unwrap();
    assert_eq!(registry.routes().len(), 2);
    assert_eq!(registry.routes()[0].id(), "chzzk");
    assert_eq!(registry.find("/{player_link}").unwrap().id(), "chzzk");
    assert_eq!(registry.find("/fixed/player.js").unwrap().id(), "test");
    assert!(registry.find("/fixed/other.js").is_none());
    assert!(registry.find("/{PLAYER_LINK}").is_none());
}

#[test]
fn empty_registry_finds_nothing() {
    let registry = Registry::build(&Vec::new()).ok().unwrap();
    assert!(registry.routes().is_empty());
    assert!(registry.find("/").is_none());
}

#[test]
fn registry_names_the_first_unsound_route() {
    let configs = vec![
        config("/a", "https://example.com/a.js", vec![]),
        config("/b", "https://example.com/{b}", vec![rule("ok", "x", "y"), rule("bad", "(", "")]),
        config("/c", "{", vec![]),
    ];
    assert_eq!(
        Registry::build(&configs).err(),
        Some(RegistryError { route: 1, cause: ConfigError::InvalidPattern { rule: 1 } })
    );
}

#[test]
fn registry_refuses_a_path_served_twice() {
    let configs = vec![
        config("/a", "https://example.com/a.js", vec![]),
        config("/b", "https://example.com/b.js", vec![]),
        config("/a", "{", vec![]),
    ];
    assert_eq!(
        Registry::build(&configs).err(),
        Some(RegistryError { route: 2, cause: ConfigError::DuplicatePath })
    );
}

#[test]
fn registry_reports_a_malformed_template() {
    let configs = vec![config("/a", "https://example.com/{a}{b}", vec![])];
    assert_eq!(
        Registry::build(&configs).err(),
        Some(RegistryError { route: 0, cause: ConfigError::MalformedTemplate })
    );
}
