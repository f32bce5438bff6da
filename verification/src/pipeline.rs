//! The proxy pipeline: one request is resolved to an upstream address, the
//! caller fetches it, and what came back is classified, rewritten where it
//! qualifies, and answered with the whitelisted headers. A fetch that
//! failed is answered with a plain error.

use crate::header::{
    header_key, header_map_contents, header_views, project, projected, stored_values, values_of,
    Header, HeaderView,
};
use crate::rewrite::{apply, rewritten, unmatched_before};
use crate::route::{accepts, RouteDefinition, RouteView};
use crate::template::{filled, ResolveError};
use crate::text::as_text;
use vstd::prelude::*;
use vstd::string::StrSliceExecFns;
use crate::rewrite::{lemma_no_match_is_identity, rule_matches};
use vstd::utf8::{
    decode_utf8, decode_utf8_encode_utf8, encode_utf8, encode_utf8_decode_utf8, valid_utf8,
};

verus! {

/// What the pipeline reads of an inbound request.
pub struct ProxyRequest {
    /// The parameter that the router took out of the path, if the route
    /// has one.
    pub path_parameter: Option<String>,
    /// The client's `User-Agent`, if it sent one.
    pub client_user_agent: Option<String>,
}

/// The one GET that the pipeline asks for.
pub struct OutboundRequest {
    /// The upstream URL.
    pub url: String,
    /// The `User-Agent` to send; none leaves the transport's own in place.
    pub user_agent: Option<String>,
}

/// What upstream answered.
pub struct UpstreamResponse {
    pub status: u16,
    pub headers: http::HeaderMap<http::HeaderValue>,
    pub body: Vec<u8>,
}

/// What the client is sent.
pub struct ProxyResponse {
    pub status: u16,
    pub headers: Vec<Header>,
    pub body: Vec<u8>,
}

/// Why a fetch brought no response.
#[derive(Clone, Copy, Debug, PartialEq, Eq, Structural)]
pub enum FetchError {
    /// The connection failed or broke.
    Network,
    /// Upstream did not answer in time.
    Timeout,
    /// The secure channel could not be set up.
    Tls,
    /// What upstream sent could not be read as a response.
    Malformed,
}

/// Something worth a log line that changes no response.
#[derive(Clone, Copy, Debug, PartialEq, Eq, Structural)]
pub enum Diagnostic {
    /// The rule at this index found nothing to replace: the upstream text
    /// has changed shape.
    RuleDrift { rule: usize },
    /// The response was passed through unrewritten, because the status was
    /// no success or the content type did not pass the route's test.
    ClassificationMismatch { success: bool, content_type: bool },
    /// The body qualified for rewriting but is not text, and was passed
    /// through byte for byte.
    UndecodableBody,
    /// No upstream URL could be built for the request.
    ResolveFailed(ResolveError),
    /// The fetch failed.
    FetchFailed(FetchError),
}

/// A response together with what there is to log about it.
pub struct Outcome {
    pub response: ProxyResponse,
    pub diagnostics: Vec<Diagnostic>,
}

/// What the pipeline wants next.
pub enum Step {
    /// Fetch this and come back with the result.
    Fetch(OutboundRequest),
    /// Answer with this: the request ends here.
    Respond(Outcome),
}

/// The status of every error response.
pub const ERROR_STATUS: u16 = 500;

/// Whether an HTTP status is a success (200 to 299).
pub open spec fn status_is_success(status: u16) -> bool {
    200 <= status && status <= 299
}

/// The text of an optional string.
pub open spec fn text_of(s: Option<String>) -> Option<Seq<char>> {
    match s {
        Some(t) => Some(t@),
        None => None,
    }
}

/// The first `Content-Type` value among the upstream headers, if any.
pub open spec fn content_type_of(contents: Map<Seq<u8>, Seq<Seq<u8>>>) -> Option<Seq<u8>> {
    let values = stored_values(contents, header_key("content-type"@));
    if values.len() > 0 {
        Some(values[0])
    } else {
        None
    }
}

/// Whether a response qualifies for rewriting: a success status and a
/// content type that passes the route's test.
pub open spec fn qualifies(
    route: RouteView,
    status: u16,
    contents: Map<Seq<u8>, Seq<Seq<u8>>>,
) -> bool {
    status_is_success(status) && accepts(route.content_type, content_type_of(contents))
}

/// The body that the client is sent: the rewritten text where the
/// response qualifies and its body is UTF-8, and the upstream body byte
/// for byte everywhere else.
pub open spec fn outbound_body(
    route: RouteView,
    status: u16,
    contents: Map<Seq<u8>, Seq<Seq<u8>>>,
    body: Seq<u8>,
) -> Seq<u8> {
    if qualifies(route, status, contents) && valid_utf8(body) {
        encode_utf8(rewritten(route.rules, decode_utf8(body)))
    } else {
        body
    }
}

/// One drift report per unmatched rule.
pub open spec fn drift_reports(unmatched: Seq<usize>) -> Seq<Diagnostic> {
    unmatched.map_values(|rule: usize| Diagnostic::RuleDrift { rule })
}

/// What there is to log about a response that was fetched.
pub open spec fn response_diagnostics(
    route: RouteView,
    status: u16,
    contents: Map<Seq<u8>, Seq<Seq<u8>>>,
    body: Seq<u8>,
) -> Seq<Diagnostic> {
    if !qualifies(route, status, contents) {
        seq![
            Diagnostic::ClassificationMismatch {
                success: status_is_success(status),
                content_type: accepts(route.content_type, content_type_of(contents)),
            },
        ]
    } else if !valid_utf8(body) {
        seq![Diagnostic::UndecodableBody]
    } else {
        drift_reports(unmatched_before(route.rules, decode_utf8(body), route.rules.len()))
    }
}

/// The text of the error response for a request that could not be
/// resolved.
pub open spec fn resolve_failure_text() -> Seq<char> {
    "upstream address could not be resolved"@
}

/// The text of the error response for a failed fetch. It is the same for
/// every cause.
pub open spec fn fetch_failure_text() -> Seq<char> {
    "upstream fetch failed"@
}

/// Whether `response` is the error response with this text: the error
/// status, a plain-text content type, and the text as its body.
pub open spec fn is_error_response(response: ProxyResponse, text: Seq<char>) -> bool {
    &&& response.status == ERROR_STATUS
    &&& header_views(response.headers@) == seq![
        HeaderView {
            name: "content-type"@,
            value: encode_utf8("text/plain; charset=utf-8"@),
        },
    ]
    &&& response.body@ == encode_utf8(text)
}

/// Tells whether an HTTP status is a success.
pub fn is_success(status: u16) -> (ok: bool)
    ensures
        ok == status_is_success(status),
{
    200 <= status && status <= 299
}

/// Builds the error response with the given text.
fn error_response(text: &str) -> (response: ProxyResponse)
    ensures
        is_error_response(response, text@),
{
    let mut headers: Vec<Header> = Vec::new();
    headers.push(
        Header {
            name: "content-type".to_owned(),
            value: "text/plain; charset=utf-8".as_bytes_vec(),
        },
    );
    let response = ProxyResponse { status: ERROR_STATUS, headers, body: text.as_bytes_vec() };
    assert(header_views(response.headers@) =~= seq![
        HeaderView {
            name: "content-type"@,
            value: encode_utf8("text/plain; charset=utf-8"@),
        },
    ]);
    response
}

/// Answers a fetch that failed: the error status and a fixed text that
/// says nothing of the cause, which goes to the log only.
pub fn fetch_failed(cause: FetchError) -> (out: Outcome)
    ensures
        is_error_response(out.response, fetch_failure_text()),
        out.diagnostics@ == seq![Diagnostic::FetchFailed(cause)],
{
    let mut diagnostics: Vec<Diagnostic> = Vec::new();
    diagnostics.push(Diagnostic::FetchFailed(cause));
    Outcome { response: error_response("upstream fetch failed"), diagnostics }
}

/// Answers a request for which no upstream URL can be built.
pub fn resolve_failed(cause: ResolveError) -> (out: Outcome)
    ensures
        is_error_response(out.response, resolve_failure_text()),
        out.diagnostics@ == seq![Diagnostic::ResolveFailed(cause)],
{
    let mut diagnostics: Vec<Diagnostic> = Vec::new();
    diagnostics.push(Diagnostic::ResolveFailed(cause));
    Outcome { response: error_response("upstream address could not be resolved"), diagnostics }
}

/// Resolves a request: builds the upstream URL from the route's template
/// and the path parameter, and forwards the client's `User-Agent` as it is.
pub fn resolve(route: &RouteDefinition, request: &ProxyRequest) -> (r: Result<
    OutboundRequest,
    ResolveError,
>)
    ensures
        match filled(route@.template, text_of(request.path_parameter)) {
            Ok(url) => r is Ok && r->Ok_0.url@ == url && text_of(r->Ok_0.user_agent) == text_of(
                request.client_user_agent,
            ),
            Err(e) => r is Err && r->Err_0 == e,
        },
{
    let parameter: Option<&str> = match &request.path_parameter {
        Some(p) => Some(p.as_str()),
        None => None,
    };
    match route.template().fill(parameter) {
        Ok(url) => {
            let user_agent: Option<String> = match &request.client_user_agent {
                Some(agent) => Some(agent.clone()),
                None => None,
            };
            Ok(OutboundRequest { url, user_agent })
        },
        Err(e) => Err(e),
    }
}

/// Turns the indices of the unmatched rules into drift reports.
fn report_drift(unmatched: &Vec<usize>) -> (out: Vec<Diagnostic>)
    ensures
        out@ == drift_reports(unmatched@),
{
    let mut out: Vec<Diagnostic> = Vec::new();
    let mut i: usize = 0;
    while i < unmatched.len()
        invariant
            i <= unmatched@.len(),
            out@ == drift_reports(unmatched@.take(i as int)),
        decreases unmatched@.len() - i,
    {
        out.push(Diagnostic::RuleDrift { rule: unmatched[i] });
        assert(unmatched@.take(i + 1) =~= unmatched@.take(i as int).push(unmatched@[i as int]));
        assert(out@ =~= drift_reports(unmatched@.take(i + 1)));
        i = i + 1;
    }
    assert(unmatched@.take(i as int) =~= unmatched@);
    out
}

/// Answers a response that was fetched. The status is upstream's, whatever
/// it is. The headers are upstream's, through the route's whitelist. The
/// body is rewritten by the route's rules if the status is a success, the
/// content type passes the route's test and the body is UTF-8 text; in
/// every other case it is upstream's body, byte for byte.
pub fn process(route: &RouteDefinition, upstream: UpstreamResponse) -> (out: Outcome)
    ensures
        out.response.status == upstream.status,
        header_views(out.response.headers@) == projected(
            route@.whitelist,
            header_map_contents(upstream.headers),
        ),
        out.response.body@ == outbound_body(
            route@,
            upstream.status,
            header_map_contents(upstream.headers),
            upstream.body@,
        ),
        out.diagnostics@ == response_diagnostics(
            route@,
            upstream.status,
            header_map_contents(upstream.headers),
            upstream.body@,
        ),
{
    let UpstreamResponse { status, headers, body } = upstream;
    let ghost contents = header_map_contents(headers);
    let ghost body_text = decode_utf8(body@);
    let success = is_success(status);
    let values = values_of(&headers, "content-type");
    let content_type = if values.len() > 0 {
        assert(values.deep_view()[0] == values@[0]@);
        route.content_type().test(Some(values[0].as_slice()))
    } else {
        route.content_type().test(None)
    };
    assert(content_type == accepts(route@.content_type, content_type_of(contents)));
    let projected_headers = project(route.whitelist(), &headers);
    let mut diagnostics: Vec<Diagnostic> = Vec::new();
    if !(success && content_type) {
        diagnostics.push(Diagnostic::ClassificationMismatch { success, content_type });
        return Outcome {
            response: ProxyResponse { status, headers: projected_headers, body },
            diagnostics,
        };
    }
    let rewritten_text = match as_text(body.as_slice()) {
        Ok(text) => {
            proof {
                encode_utf8_decode_utf8(text@);
            }
            Some(apply(route.rules(), text))
        },
        Err(_) => None,
    };
    match rewritten_text {
        Some(done) => {
            let new_body = done.text.as_str().as_bytes_vec();
            Outcome {
                response: ProxyResponse { status, headers: projected_headers, body: new_body },
                diagnostics: report_drift(&done.unmatched),
            }
        },
        None => {
            diagnostics.push(Diagnostic::UndecodableBody);
            Outcome {
                response: ProxyResponse { status, headers: projected_headers, body },
                diagnostics,
            }
        },
    }
}

/// The first half of a request: either the fetch to make, or, where no
/// upstream URL can be built, the error response that ends the request.
pub fn begin(route: &RouteDefinition, request: &ProxyRequest) -> (step: Step)
    ensures
        match filled(route@.template, text_of(request.path_parameter)) {
            Ok(url) => {
                &&& step matches Step::Fetch(outbound)
                &&& outbound.url@ == url
                &&& text_of(outbound.user_agent) == text_of(request.client_user_agent)
            },
            Err(cause) => {
                &&& step matches Step::Respond(out)
                &&& is_error_response(out.response, resolve_failure_text())
                &&& out.diagnostics@ == seq![Diagnostic::ResolveFailed(cause)]
            },
        },
{
    match resolve(route, request) {
        Ok(outbound) => Step::Fetch(outbound),
        Err(cause) => Step::Respond(resolve_failed(cause)),
    }
}

/// The second half of a request: answers whatever the fetch brought, a
/// response or a failure.
pub fn conclude(route: &RouteDefinition, fetched: Result<UpstreamResponse, FetchError>) -> (out:
    Outcome)
    ensures
        match fetched {
            Ok(upstream) => {
                &&& out.response.status == upstream.status
                &&& header_views(out.response.headers@) == projected(
                    route@.whitelist,
                    header_map_contents(upstream.headers),
                )
                &&& out.response.body@ == outbound_body(
                    route@,
                    upstream.status,
                    header_map_contents(upstream.headers),
                    upstream.body@,
                )
                &&& out.diagnostics@ == response_diagnostics(
                    route@,
                    upstream.status,
                    header_map_contents(upstream.headers),
                    upstream.body@,
                )
            },
            Err(cause) => {
                &&& is_error_response(out.response, fetch_failure_text())
                &&& out.diagnostics@ == seq![Diagnostic::FetchFailed(cause)]
            },
        },
{
    match fetched {
        Ok(upstream) => process(route, upstream),
        Err(cause) => fetch_failed(cause),
    }
}

/// A response whose status is no success keeps its body byte for byte,
/// whatever its content type is and whatever the rules would match.
pub proof fn lemma_failure_status_keeps_body(
    route: RouteView,
    status: u16,
    contents: Map<Seq<u8>, Seq<Seq<u8>>>,
    body: Seq<u8>,
)
    requires
        !status_is_success(status),
    ensures
        outbound_body(route, status, contents, body) == body,
        response_diagnostics(route, status, contents, body).len() == 1,
        response_diagnostics(route, status, contents, body)[0] is ClassificationMismatch,
{
}

/// A response whose content type does not pass the route's test keeps its
/// body byte for byte, whatever the rules would match.
pub proof fn lemma_rejected_content_type_keeps_body(
    route: RouteView,
    status: u16,
    contents: Map<Seq<u8>, Seq<Seq<u8>>>,
    body: Seq<u8>,
)
    requires
        !accepts(route.content_type, content_type_of(contents)),
    ensures
        outbound_body(route, status, contents, body) == body,
        response_diagnostics(route, status, contents, body).len() == 1,
        response_diagnostics(route, status, contents, body)[0] is ClassificationMismatch,
{
}

/// A body that is not UTF-8 text is never rewritten: it is sent as it
/// came.
pub proof fn lemma_opaque_body_is_kept(
    route: RouteView,
    status: u16,
    contents: Map<Seq<u8>, Seq<Seq<u8>>>,
    body: Seq<u8>,
)
    requires
        !valid_utf8(body),
    ensures
        outbound_body(route, status, contents, body) == body,
{
}

/// A body in which no rule's pattern occurs is sent as it came, also
/// where the response qualifies for rewriting.
pub proof fn lemma_unmatched_body_is_kept(
    route: RouteView,
    status: u16,
    contents: Map<Seq<u8>, Seq<Seq<u8>>>,
    body: Seq<u8>,
)
    requires
        valid_utf8(body),
        forall|i: int|
            0 <= i < route.rules.len() ==> !rule_matches(
                #[trigger] route.rules[i],
                decode_utf8(body),
            ),
    ensures
        outbound_body(route, status, contents, body) == body,
{
    lemma_no_match_is_identity(route.rules, decode_utf8(body));
    decode_utf8_encode_utf8(body);
}

} // verus!
