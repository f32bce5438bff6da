use http::header::{HeaderMap, HeaderValue};
use player_proxy::header::Header;
use player_proxy::pipeline::{
    begin, conclude, fetch_failed, is_success, process, resolve, resolve_failed, Diagnostic,
    FetchError, Outcome, ProxyRequest, Step, UpstreamResponse, ERROR_STATUS,
};
use player_proxy::route::{chzzk, ContentTypePredicate, RouteConfig, RouteDefinition, RuleConfig};
use player_proxy::template::ResolveError;

const CASE_SIX_BODY: &str = "a(!0),y(null),l(t),...case 6";

fn case_six_route() -> RouteDefinition {
    RouteConfig {
        id: "case-six".to_string(),
        path: "/{file}".to_string(),
        upstream: "https://example.com/js/{file}".to_string(),
        whitelist: vec![
            "content-type".to_string(),
            "cache-control".to_string(),
            "expires".to_string(),
        ],
        content_type: ContentTypePredicate::Contains("javascript".to_string()),
        rules: vec![RuleConfig {
            label: "case-6".to_string(),
            pattern: "(a\\(!0\\),y\\(null\\),)l\\(t\\),.*?(case 6)".to_string(),
            replacement: "${1}e.next=6;${2}".to_string(),
            single_shot: false,
        }],
    }
    .compile()
    .ok()
    .unwrap()
}

fn upstream(status: u16, content_type: Option<&'static str>, body: &[u8]) -> UpstreamResponse {
    let mut headers = HeaderMap::new();
    if let Some(ct) = content_type {
        headers.insert("content-type", HeaderValue::from_static(ct));
    }
    headers.insert("cache-control", HeaderValue::from_static("max-age=3600"));
    headers.insert("x-internal", HeaderValue::from_static("secret"));
    UpstreamResponse { status, headers, body: body.to_vec() }
}

fn pairs(headers: &[Header]) -> Vec<(String, Vec<u8>)> {
    headers.iter().map(|h| (h.name.clone(), h.value.clone())).collect()
}

fn assert_error(out: &Outcome, text: &str) {
    assert_eq!(out.response.status, 500);
    assert_eq!(
        pairs(&out.response.headers),
        vec![("content-type".to_string(), b"text/plain; charset=utf-8".to_vec())]
    );
    assert_eq!(out.response.body, text.as_bytes());
}

#[test]
fn success_class_is_200_to_299() {
    assert!(is_success(200));
    assert!(is_success(204));
    assert!(is_success(299));
    assert!(!is_success(199));
    assert!(!is_success(300));
    assert!(!is_success(404));
    assert!(!is_success(0));
}

#[test]
fn javascript_with_status_200_is_rewritten() {
    let out = process(
        &case_six_route(),
        upstream(200, Some("text/javascript"), CASE_SIX_BODY.as_bytes()),
    );
    assert_eq!(out.response.status, 200);
    assert_eq!(out.response.body, b"a(!0),y(null),e.next=6;case 6");
    assert_eq!(
        pairs(&out.response.headers),
        vec![
            ("content-type".to_string(), b"text/javascript".to_vec()),
            ("cache-control".to_string(), b"max-age=3600".to_vec()),
        ]
    );
    assert!(out.diagnostics.is_empty());
}

#[test]
fn status_404_passes_status_and_body_through() {
    for content_type in [Some("text/javascript"), Some("text/html"), None] {
        let out = process(&case_six_route(), upstream(404, content_type, CASE_SIX_BODY.as_bytes()));
        assert_eq!(out.response.status, 404);
        assert_eq!(out.response.body, CASE_SIX_BODY.as_bytes());
        assert_eq!(
            out.diagnostics,
            vec![Diagnostic::ClassificationMismatch {
                success: false,
                content_type: content_type == Some("text/javascript"),
            }]
        );
    }
}

#[test]
fn html_is_never_rewritten() {
    let out = process(&case_six_route(), upstream(200, Some("text/html"), CASE_SIX_BODY.as_bytes()));
    assert_eq!(out.response.status, 200);
    assert_eq!(out.response.body, CASE_SIX_BODY.as_bytes());
    assert_eq!(
        pairs(&out.response.headers),
        vec![
            ("content-type".to_string(), b"text/html".to_vec()),
            ("cache-control".to_string(), b"max-age=3600".to_vec()),
        ]
    );
    assert_eq!(
        out.diagnostics,
        vec![Diagnostic::ClassificationMismatch { success: true, content_type: false }]
    );
}

#[test]
fn missing_content_type_is_not_rewritten() {
    let out = process(&case_six_route(), upstream(200, None, CASE_SIX_BODY.as_bytes()));
    assert_eq!(out.response.body, CASE_SIX_BODY.as_bytes());
    assert_eq!(
        out.diagnostics,
        vec![Diagnostic::ClassificationMismatch { success: true, content_type: false }]
    );
}

#[test]
fn first_content_type_value_decides() {
    let mut up = upstream(200, Some("text/html"), CASE_SIX_BODY.as_bytes());
    up.headers.append("content-type", HeaderValue::from_static("text/javascript"));
    let out = process(&case_six_route(), up);
    assert_eq!(out.response.body, CASE_SIX_BODY.as_bytes());
}

#[test]
fn body_that_is_not_text_passes_byte_for_byte() {
    let bytes = b"a(!0),y(null),l(t),\xff\xfe...case 6";
    let out = process(&case_six_route(), upstream(200, Some("text/javascript"), bytes));
    assert_eq!(out.response.status, 200);
    assert_eq!(out.response.body, bytes);
    assert_eq!(out.diagnostics, vec![Diagnostic::UndecodableBody]);
}

#[test]
fn text_beyond_ascii_survives_rewriting() {
    let body = "/* 플레이어 */ a(!0),y(null),l(t),é;case 6 // ß";
    let out = process(&case_six_route(), upstream(200, Some("text/javascript"), body.as_bytes()));
    assert_eq!(
        out.response.body,
        "/* 플레이어 */ a(!0),y(null),e.next=6;case 6 // ß".as_bytes()
    );
}

#[test]
fn drifted_rule_is_reported_and_body_kept() {
    let body = b"nothing to see";
    let out = process(&case_six_route(), upstream(200, Some("text/javascript"), body));
    assert_eq!(out.response.body, body);
    assert_eq!(out.diagnostics, vec![Diagnostic::RuleDrift { rule: 0 }]);
}

#[test]
fn empty_body_is_answered_empty() {
    let out = process(&case_six_route(), upstream(204, Some("text/javascript"), b""));
    assert_eq!(out.response.status, 204);
    assert!(out.response.body.is_empty());
    assert_eq!(out.diagnostics, vec![Diagnostic::RuleDrift { rule: 0 }]);
}

#[test]
fn player_script_loses_its_restrictions() {
    let route = chzzk().compile().ok().unwrap();
    let body = "x={\"p2pPath\":a};if(e.forceLowResolution){q()}var t=n.exposureAdBlockPopup(function(){return r(1)})},z=1;";
    let out = process(&route, upstream(200, Some("application/javascript"), body.as_bytes()));
    assert_eq!(
        String::from_utf8(out.response.body).unwrap(),
        "x={\"p2p\":a};if(false){q()}},z=1;"
    );
    assert!(out.diagnostics.is_empty());
}

#[test]
fn player_script_that_changed_shape_reports_drift() {
    let route = chzzk().compile().ok().unwrap();
    let body = "if(e.forceLowResolution){q()}";
    let out = process(&route, upstream(200, Some("text/javascript"), body.as_bytes()));
    assert_eq!(out.response.body, b"if(false){q()}");
    assert_eq!(
        out.diagnostics,
        vec![Diagnostic::RuleDrift { rule: 0 }, Diagnostic::RuleDrift { rule: 2 }]
    );
}

#[test]
fn timeout_is_answered_with_status_500() {
    let out = conclude(&case_six_route(), Err(FetchError::Timeout));
    assert_error(&out, "upstream fetch failed");
    assert_eq!(out.diagnostics, vec![Diagnostic::FetchFailed(FetchError::Timeout)]);
}

#[test]
fn every_fetch_failure_is_answered_alike() {
    for cause in [FetchError::Network, FetchError::Timeout, FetchError::Tls, FetchError::Malformed] {
        let out = fetch_failed(cause);
        assert_eq!(out.response.status, ERROR_STATUS);
        assert_error(&out, "upstream fetch failed");
        assert_eq!(out.diagnostics, vec![Diagnostic::FetchFailed(cause)]);
    }
}

#[test]
fn conclude_answers_a_fetched_response_as_process_does() {
    let out = conclude(
        &case_six_route(),
        Ok(upstream(200, Some("text/javascript"), CASE_SIX_BODY.as_bytes())),
    );
    assert_eq!(out.response.status, 200);
    assert_eq!(out.response.body, b"a(!0),y(null),e.next=6;case 6");
    let out = conclude(&case_six_route(), Ok(upstream(503, Some("text/javascript"), b"busy")));
    assert_eq!(out.response.status, 503);
    assert_eq!(out.response.body, b"busy");
}

#[test]
fn request_resolves_to_url_and_user_agent() {
    let request = ProxyRequest {
        path_parameter: Some("main.8c1f.js".to_string()),
        client_user_agent: Some("Mozilla/5.0".to_string()),
    };
    let outbound = resolve(&case_six_route(), &request).unwrap();
    assert_eq!(outbound.url, "https://example.com/js/main.8c1f.js");
    assert_eq!(outbound.user_agent, Some("Mozilla/5.0".to_string()));
}

#[test]
fn absent_user_agent_stays_absent() {
    let request = ProxyRequest { path_parameter: Some("a.js".to_string()), client_user_agent: None };
    let outbound = resolve(&case_six_route(), &request).unwrap();
    assert_eq!(outbound.user_agent, None);
}

#[test]
fn player_route_resolves_to_the_asset_url() {
    let route = chzzk().compile().ok().unwrap();
    let request = ProxyRequest {
        path_parameter: Some("player.bundle.js".to_string()),
        client_user_agent: None,
    };
    match begin(&route, &request) {
        Step::Fetch(outbound) => assert_eq!(
            outbound.url,
            "https://ssl.pstatic.net/static/nng/glive/resource/p/static/js/player.bundle.js"
        ),
        Step::Respond(_) => panic!("expected a fetch"),
    }
}

#[test]
fn unresolvable_request_ends_with_an_error_response() {
    let route = case_six_route();
    let cases = [
        (None, ResolveError::MissingParameter),
        (Some("../../etc/passwd".to_string()), ResolveError::UnsafeParameter),
        (Some("a.js?x=1".to_string()), ResolveError::UnsafeParameter),
    ];
    for (path_parameter, cause) in cases {
        let request = ProxyRequest { path_parameter, client_user_agent: None };
        assert_eq!(resolve(&route, &request).err(), Some(cause));
        match begin(&route, &request) {
            Step::Fetch(_) => panic!("expected an error response"),
            Step::Respond(out) => {
                assert_error(&out, "upstream address could not be resolved");
                assert_eq!(out.diagnostics, vec![Diagnostic::ResolveFailed(cause)]);
            }
        }
    }
}

#[test]
fn resolve_failure_is_answered_with_status_500() {
    let out = resolve_failed(ResolveError::MissingParameter);
    assert_error(&out, "upstream address could not be resolved");
}
