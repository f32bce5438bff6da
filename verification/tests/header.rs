use http::header::{HeaderMap, HeaderName, HeaderValue};
use player_proxy::header::{project, Header};

fn names(list: &[&str]) -> Vec<String> {
    list.iter().map(|s| s.to_string()).collect()
}

fn pairs(headers: &[Header]) -> Vec<(String, Vec<u8>)> {
    headers.iter().map(|h| (h.name.clone(), h.value.clone())).collect()
}

fn source() -> HeaderMap {
    let mut map = HeaderMap::new();
    map.insert("content-type", HeaderValue::from_static("text/javascript"));
    map.insert("cache-control", HeaderValue::from_static("max-age=60"));
    map.insert("set-cookie", HeaderValue::from_static("a=1"));
    map.append("set-cookie", HeaderValue::from_static("b=2"));
    map.insert("server", HeaderValue::from_static("nginx"));
    map
}

#[test]
fn only_whitelisted_headers_pass() {
    let out = project(&names(&["content-type", "cache-control", "expires"]), &source());
    assert_eq!(
        pairs(&out),
        vec![
            ("content-type".to_string(), b"text/javascript".to_vec()),
            ("cache-control".to_string(), b"max-age=60".to_vec()),
        ]
    );
}

#[test]
fn projection_is_a_subset_of_source_and_whitelist() {
    let whitelist = names(&["expires", "server", "x-missing", "content-type"]);
    let src = source();
    let out = project(&whitelist, &src);
    assert_eq!(out.len(), 2);
    for h in &out {
        assert!(whitelist.contains(&h.name));
        let stored: Vec<&[u8]> = src.get_all(h.name.as_str()).iter().map(|v| v.as_bytes()).collect();
        assert!(stored.contains(&h.value.as_slice()));
    }
}

#[test]
fn absent_header_is_left_out() {
    let out = project(&names(&["expires"]), &source());
    assert!(out.is_empty());
}

#[test]
fn empty_whitelist_lets_nothing_pass() {
    let out = project(&Vec::new(), &source());
    assert!(out.is_empty());
}

#[test]
fn every_value_of_a_header_passes_in_order() {
    let out = project(&names(&["set-cookie"]), &source());
    assert_eq!(
        pairs(&out),
        vec![
            ("set-cookie".to_string(), b"a=1".to_vec()),
            ("set-cookie".to_string(), b"b=2".to_vec()),
        ]
    );
}

#[test]
fn names_match_without_regard_to_case_and_values_keep_theirs() {
    let mut map = HeaderMap::new();
    map.insert(
        HeaderName::from_bytes(b"X-Asset-Tag").unwrap(),
        HeaderValue::from_static("MiXeD Case"),
    );
    let out = project(&names(&["x-ASSET-tag"]), &map);
    assert_eq!(pairs(&out), vec![("x-ASSET-tag".to_string(), b"MiXeD Case".to_vec())]);
}

#[test]
fn repeated_whitelist_name_is_served_once() {
    let out = project(&names(&["server", "Server", "server"]), &source());
    assert_eq!(pairs(&out), vec![("server".to_string(), b"nginx".to_vec())]);
}

#[test]
fn whitelist_order_decides_the_order() {
    let out = project(&names(&["server", "content-type"]), &source());
    assert_eq!(
        pairs(&out),
        vec![
            ("server".to_string(), b"nginx".to_vec()),
            ("content-type".to_string(), b"text/javascript".to_vec()),
        ]
    );
}

#[test]
fn opaque_value_bytes_pass_unchanged() {
    let mut map = HeaderMap::new();
    map.insert("etag", HeaderValue::from_bytes(b"\"\xfa\xfb\"").unwrap());
    let out = project(&names(&["etag"]), &map);
    assert_eq!(pairs(&out), vec![("etag".to_string(), b"\"\xfa\xfb\"".to_vec())]);
}

#[test]
fn name_that_is_no_header_name_finds_nothing() {
    let out = project(&names(&["content type", "", "sérver"]), &source());
    assert!(out.is_empty());
}
