//! Route definitions: what binds an inbound path to an upstream address,
//! a header whitelist, a content-type test and an ordered rule list. A
//! definition is made once from its written form, with every pattern
//! compiled, and is read-only from then on.

use crate::header::name_views;
use crate::pattern::pattern_compiles;
use crate::rewrite::{rule_views, RewriteRule, RuleView};
use crate::template::{well_formed, written, TemplateView, UrlTemplate};
use crate::text::{all_visible_ascii, contains, contains_bytes, is_visible_text, same_bytes};
use vstd::prelude::*;
use vstd::utf8::encode_utf8;

verus! {

/// The test on the upstream `Content-Type` that decides whether a body is
/// rewritten.
pub enum ContentTypePredicate {
    /// The header value is exactly this text.
    Exact(String),
    /// The header value holds this text somewhere.
    Contains(String),
}

/// A content-type test over plain text.
pub enum PredicateView {
    Exact(Seq<char>),
    Contains(Seq<char>),
}

impl View for ContentTypePredicate {
    type V = PredicateView;

    open spec fn view(&self) -> PredicateView {
        match self {
            ContentTypePredicate::Exact(t) => PredicateView::Exact(t@),
            ContentTypePredicate::Contains(t) => PredicateView::Contains(t@),
        }
    }
}

/// Whether the test accepts a `Content-Type` value. A missing header is
/// not accepted, nor is a value that does not read as text (a byte outside
/// printable ASCII, space and tab).
pub open spec fn accepts(p: PredicateView, content_type: Option<Seq<u8>>) -> bool {
    match content_type {
        None => false,
        Some(value) => all_visible_ascii(value) && match p {
            PredicateView::Exact(t) => value == encode_utf8(t),
            PredicateView::Contains(t) => contains_bytes(value, encode_utf8(t)),
        },
    }
}

impl ContentTypePredicate {
    /// Applies the test to the upstream `Content-Type` value, if there is
    /// one.
    pub fn test(&self, content_type: Option<&[u8]>) -> (ok: bool)
        ensures
            ok == accepts(
                self@,
                match content_type {
                    Some(value) => Some(value@),
                    None => None,
                },
            ),
    {
        match content_type {
            None => false,
            Some(value) => {
                if !is_visible_text(value) {
                    false
                } else {
                    match self {
                        ContentTypePredicate::Exact(t) => same_bytes(value, t.as_str().as_bytes()),
                        ContentTypePredicate::Contains(t) => contains(
                            value,
                            t.as_str().as_bytes(),
                        ),
                    }
                }
            },
        }
    }

    /// A copy of the test.
    pub fn duplicate(&self) -> (copy: ContentTypePredicate)
        ensures
            copy@ == self@,
    {
        match self {
            ContentTypePredicate::Exact(t) => ContentTypePredicate::Exact(t.clone()),
            ContentTypePredicate::Contains(t) => ContentTypePredicate::Contains(t.clone()),
        }
    }
}

/// A rewrite rule as it is written down, before its pattern is compiled.
pub struct RuleConfig {
    pub label: String,
    pub pattern: String,
    pub replacement: String,
    pub single_shot: bool,
}

impl View for RuleConfig {
    type V = RuleView;

    open spec fn view(&self) -> RuleView {
        RuleView {
            label: self.label@,
            pattern: self.pattern@,
            replacement: self.replacement@,
            single_shot: self.single_shot,
        }
    }
}

/// The views of a list of written rules, in order.
pub open spec fn rule_config_views(rules: Seq<RuleConfig>) -> Seq<RuleView> {
    rules.map_values(|r: RuleConfig| r@)
}

/// A route as it is written down.
pub struct RouteConfig {
    /// The name under which the route is logged.
    pub id: String,
    /// The inbound path pattern that the route serves.
    pub path: String,
    /// The upstream URL template, with at most one `{name}` slot.
    pub upstream: String,
    /// The names of the headers that may pass to the client.
    pub whitelist: Vec<String>,
    /// The test that a response must pass to be rewritten.
    pub content_type: ContentTypePredicate,
    /// The rules, in the order in which they run.
    pub rules: Vec<RuleConfig>,
}

/// What a route says.
pub struct RouteView {
    pub id: Seq<char>,
    pub path: Seq<char>,
    pub template: TemplateView,
    pub whitelist: Seq<Seq<char>>,
    pub content_type: PredicateView,
    pub rules: Seq<RuleView>,
}

/// A route ready to serve: its template is parsed and its patterns are
/// compiled.
pub struct RouteDefinition {
    id: String,
    path: String,
    template: UrlTemplate,
    whitelist: Vec<String>,
    content_type: ContentTypePredicate,
    rules: Vec<RewriteRule>,
}

impl View for RouteDefinition {
    type V = RouteView;

    closed spec fn view(&self) -> RouteView {
        RouteView {
            id: self.id@,
            path: self.path@,
            template: self.template@,
            whitelist: name_views(self.whitelist@),
            content_type: self.content_type@,
            rules: rule_views(self.rules@),
        }
    }
}

/// Why a written route cannot be served.
#[derive(Clone, Copy, Debug, PartialEq, Eq, Structural)]
pub enum ConfigError {
    /// The upstream URL template is not well formed.
    MalformedTemplate,
    /// The pattern of the rule at this index does not compile.
    InvalidPattern { rule: usize },
    /// An earlier route of the same registry serves this path already.
    DuplicatePath,
}

/// Whether `text` is the writing of a well-formed template.
pub open spec fn is_template(text: Seq<char>) -> bool {
    exists|v: TemplateView| well_formed(v) && #[trigger] written(v) == text
}

/// Whether every rule before index `k` has a pattern that compiles.
pub open spec fn compile_before(rules: Seq<RuleView>, k: int) -> bool {
    forall|j: int| 0 <= j < k && j < rules.len() ==> pattern_compiles(#[trigger] rules[j].pattern)
}

/// Copies a list of header names.
fn copy_names(names: &Vec<String>) -> (out: Vec<String>)
    ensures
        name_views(out@) == name_views(names@),
{
    let mut out: Vec<String> = Vec::new();
    let mut i: usize = 0;
    while i < names.len()
        invariant
            i <= names@.len(),
            out@.len() == i,
            forall|j: int| 0 <= j < i ==> out@[j]@ == names@[j]@,
        decreases names@.len() - i,
    {
        out.push(names[i].clone());
        i = i + 1;
    }
    assert(name_views(out@) =~= name_views(names@));
    out
}

/// Compiles the rules in order and stops at the first pattern that does
/// not compile, whose index it returns.
fn compile_rules(rules: &Vec<RuleConfig>) -> (r: Result<Vec<RewriteRule>, usize>)
    ensures
        match r {
            Ok(compiled) => {
                &&& rule_views(compiled@) == rule_config_views(rules@)
                &&& compile_before(rule_config_views(rules@), rules@.len() as int)
            },
            Err(rule) => {
                &&& rule < rules@.len()
                &&& !pattern_compiles(rules@[rule as int].pattern@)
                &&& compile_before(rule_config_views(rules@), rule as int)
            },
        },
{
    let ghost written_rules = rule_config_views(rules@);
    let mut compiled: Vec<RewriteRule> = Vec::new();
    let mut i: usize = 0;
    while i < rules.len()
        invariant
            i <= rules@.len(),
            written_rules == rule_config_views(rules@),
            compiled@.len() == i,
            forall|j: int| 0 <= j < i ==> compiled@[j]@ == written_rules[j],
            compile_before(written_rules, i as int),
        decreases rules@.len() - i,
    {
        let rule = &rules[i];
        match RewriteRule::new(
            rule.label.as_str(),
            rule.pattern.as_str(),
            rule.replacement.as_str(),
            rule.single_shot,
        ) {
            Some(made) => {
                compiled.push(made);
            },
            None => {
                return Err(i);
            },
        }
        assert(pattern_compiles(written_rules[i as int].pattern));
        i = i + 1;
    }
    assert(rule_views(compiled@) =~= written_rules);
    Ok(compiled)
}

impl RouteConfig {
    /// Makes the route ready to serve: parses the template and compiles
    /// every pattern. The template is looked at first; of several patterns
    /// that do not compile, the first is reported.
    pub fn compile(&self) -> (r: Result<RouteDefinition, ConfigError>)
        ensures
            match r {
                Ok(route) => {
                    &&& is_template(self.upstream@)
                    &&& compile_before(rule_config_views(self.rules@), self.rules@.len() as int)
                    &&& route@.id == self.id@
                    &&& route@.path == self.path@
                    &&& well_formed(route@.template)
                    &&& written(route@.template) == self.upstream@
                    &&& route@.whitelist == name_views(self.whitelist@)
                    &&& route@.content_type == self.content_type@
                    &&& route@.rules == rule_config_views(self.rules@)
                },
                Err(ConfigError::MalformedTemplate) => !is_template(self.upstream@),
                Err(ConfigError::InvalidPattern { rule }) => {
                    &&& is_template(self.upstream@)
                    &&& rule < self.rules@.len()
                    &&& !pattern_compiles(self.rules@[rule as int].pattern@)
                    &&& compile_before(rule_config_views(self.rules@), rule as int)
                },
                Err(ConfigError::DuplicatePath) => false,
            },
    {
        let template = match UrlTemplate::parse(self.upstream.as_str()) {
            Some(template) => template,
            None => {
                return Err(ConfigError::MalformedTemplate);
            },
        };
        assert(written(template@) == self.upstream@);
        let rules = match compile_rules(&self.rules) {
            Ok(rules) => rules,
            Err(rule) => {
                return Err(ConfigError::InvalidPattern { rule });
            },
        };
        Ok(
            RouteDefinition {
                id: self.id.clone(),
                path: self.path.clone(),
                template,
                whitelist: copy_names(&self.whitelist),
                content_type: self.content_type.duplicate(),
                rules,
            },
        )
    }
}

impl RouteDefinition {
    /// The name under which the route is logged.
    pub fn id(&self) -> (s: &str)
        ensures
            s@ == self@.id,
    {
        self.id.as_str()
    }

    /// The inbound path pattern that the route serves.
    pub fn path(&self) -> (s: &str)
        ensures
            s@ == self@.path,
    {
        self.path.as_str()
    }

    /// The upstream URL template.
    pub fn template(&self) -> (t: &UrlTemplate)
        ensures
            t@ == self@.template,
    {
        &self.template
    }

    /// The names of the headers that may pass to the client.
    pub fn whitelist(&self) -> (names: &Vec<String>)
        ensures
            name_views(names@) == self@.whitelist,
    {
        &self.whitelist
    }

    /// The test that a response must pass to be rewritten.
    pub fn content_type(&self) -> (p: &ContentTypePredicate)
        ensures
            p@ == self@.content_type,
    {
        &self.content_type
    }

    /// The compiled rules, in the order in which they run.
    pub fn rules(&self) -> (rules: &Vec<RewriteRule>)
        ensures
            rule_views(rules@) == self@.rules,
    {
        &self.rules
    }
}

/// The route that serves the player script: the script is fetched by its
/// file name, its caching headers pass, and in what comes back as
/// JavaScript the peer-to-peer path, the forced low resolution and the
/// ad-block popup are taken out.
pub fn chzzk() -> (cfg: RouteConfig)
    ensures
        cfg.id@ == "chzzk"@,
        cfg.path@ == "/{player_link}"@,
        cfg.upstream@
            == "https://ssl.pstatic.net/static/nng/glive/resource/p/static/js/{player_link}"@,
        name_views(cfg.whitelist@) == seq!["content-type"@, "cache-control"@, "expires"@],
        cfg.content_type@ == PredicateView::Contains("javascript"@),
        rule_config_views(cfg.rules@) == seq![
            RuleView {
                label: "p2p-path"@,
                pattern: "\"p2pPath\""@,
                replacement: "\"p2p\""@,
                single_shot: false,
            },
            RuleView {
                label: "force-low-resolution"@,
                pattern: ".\\.forceLowResolution"@,
                replacement: "false"@,
                single_shot: false,
            },
            RuleView {
                label: "ad-block-popup"@,
                pattern: "var .=.\\.exposureAdBlockPopup(?:.*?)\\)\\},"@,
                replacement: "},"@,
                single_shot: false,
            },
        ],
{
    let mut whitelist: Vec<String> = Vec::new();
    whitelist.push("content-type".to_owned());
    whitelist.push("cache-control".to_owned());
    whitelist.push("expires".to_owned());
    let mut rules: Vec<RuleConfig> = Vec::new();
    rules.push(
        RuleConfig {
            label: "p2p-path".to_owned(),
            pattern: "\"p2pPath\"".to_owned(),
            replacement: "\"p2p\"".to_owned(),
            single_shot: false,
        },
    );
    rules.push(
        RuleConfig {
            label: "force-low-resolution".to_owned(),
            pattern: ".\\.forceLowResolution".to_owned(),
            replacement: "false".to_owned(),
            single_shot: false,
        },
    );
    rules.push(
        RuleConfig {
            label: "ad-block-popup".to_owned(),
            pattern: "var .=.\\.exposureAdBlockPopup(?:.*?)\\)\\},".to_owned(),
            replacement: "},".to_owned(),
            single_shot: false,
        },
    );
    let cfg = RouteConfig {
        id: "chzzk".to_owned(),
        path: "/{player_link}".to_owned(),
        upstream: "https://ssl.pstatic.net/static/nng/glive/resource/p/static/js/{player_link}".to_owned(),
        whitelist,
        content_type: ContentTypePredicate::Contains("javascript".to_owned()),
        rules,
    };
    assert(name_views(cfg.whitelist@) =~= seq!["content-type"@, "cache-control"@, "expires"@]);
    assert(rule_config_views(cfg.rules@) =~= seq![
        RuleView {
            label: "p2p-path"@,
            pattern: "\"p2pPath\""@,
            replacement: "\"p2p\""@,
            single_shot: false,
        },
        RuleView {
            label: "force-low-resolution"@,
            pattern: ".\\.forceLowResolution"@,
            replacement: "false"@,
            single_shot: false,
        },
        RuleView {
            label: "ad-block-popup"@,
            pattern: "var .=.\\.exposureAdBlockPopup(?:.*?)\\)\\},"@,
            replacement: "},"@,
            single_shot: false,
        },
    ]);
    cfg
}

} // verus!
