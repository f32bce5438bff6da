//! The rewrite rule engine: an ordered list of pattern rules folded over a
//! text, each rule working on what the rule before it left.

use crate::pattern::{compile, is_match, pattern_compiles, pattern_matches, pattern_replaced, regex_source, replacen};
use vstd::prelude::*;

verus! {

/// What a rule is, as far as rewriting goes.
pub struct RuleView {
    /// The name under which the rule is reported.
    pub label: Seq<char>,
    /// The pattern text the rule was compiled from.
    pub pattern: Seq<char>,
    /// The replacement, which may refer to capture groups (`$1`, `${name}`).
    pub replacement: Seq<char>,
    /// Whether only the first match is replaced rather than all of them.
    pub single_shot: bool,
}

/// A pattern/replacement pair, compiled once when it is built.
pub struct RewriteRule {
    label: String,
    replacement: String,
    single_shot: bool,
    regex: regex::Regex,
}

impl View for RewriteRule {
    type V = RuleView;

    closed spec fn view(&self) -> RuleView {
        RuleView {
            label: self.label@,
            pattern: regex_source(self.regex),
            replacement: self.replacement@,
            single_shot: self.single_shot,
        }
    }
}

/// The views of a list of rules, in order.
pub open spec fn rule_views(rules: Seq<RewriteRule>) -> Seq<RuleView> {
    rules.map_values(|r: RewriteRule| r@)
}

/// How many matches a rule replaces: one if it is single-shot, and
/// otherwise every one (written 0).
pub open spec fn rule_limit(rule: RuleView) -> nat {
    if rule.single_shot {
        1
    } else {
        0
    }
}

/// Whether the rule's pattern occurs anywhere in `text`.
pub open spec fn rule_matches(rule: RuleView, text: Seq<char>) -> bool {
    pattern_matches(rule.pattern, text)
}

/// One rule applied to `text`: the replaced text where the pattern occurs,
/// and `text` itself where it does not.
pub open spec fn rule_step(rule: RuleView, text: Seq<char>) -> Seq<char> {
    if rule_matches(rule, text) {
        pattern_replaced(rule.pattern, text, rule_limit(rule), rule.replacement)
    } else {
        text
    }
}

/// The text after the first `k` rules have been applied in order, each to
/// the output of the one before.
pub open spec fn text_after(rules: Seq<RuleView>, text: Seq<char>, k: nat) -> Seq<char>
    decreases k,
{
    if k == 0 || k > rules.len() {
        text
    } else {
        rule_step(rules[k - 1], text_after(rules, text, (k - 1) as nat))
    }
}

/// The text after every rule has been applied.
pub open spec fn rewritten(rules: Seq<RuleView>, text: Seq<char>) -> Seq<char> {
    text_after(rules, text, rules.len())
}

/// Whether rule `i` finds nothing to replace when its turn comes.
pub open spec fn drifted(rules: Seq<RuleView>, text: Seq<char>, i: int) -> bool {
    0 <= i < rules.len() && !rule_matches(rules[i], text_after(rules, text, i as nat))
}

/// The indices below `k` of the rules that found nothing to replace, in
/// increasing order.
pub open spec fn unmatched_before(rules: Seq<RuleView>, text: Seq<char>, k: nat) -> Seq<usize>
    decreases k,
{
    if k == 0 || k > rules.len() {
        Seq::empty()
    } else if drifted(rules, text, k - 1) {
        unmatched_before(rules, text, (k - 1) as nat).push((k - 1) as usize)
    } else {
        unmatched_before(rules, text, (k - 1) as nat)
    }
}

/// What the engine hands back: the final text, and which rules drifted.
pub struct Rewritten {
    /// The text after all rules.
    pub text: String,
    /// Indices into the rule list of the rules whose pattern did not occur
    /// when their turn came, in increasing order.
    pub unmatched: Vec<usize>,
}

impl RewriteRule {
    /// Compiles `pattern` and binds it to its replacement. Fails exactly
    /// when the pattern is not one the regex compiler accepts.
    pub fn new(label: &str, pattern: &str, replacement: &str, single_shot: bool) -> (r: Option<
        RewriteRule,
    >)
        ensures
            r is Some <==> pattern_compiles(pattern@),
            r is Some ==> r->Some_0@ == (RuleView {
                label: label@,
                pattern: pattern@,
                replacement: replacement@,
                single_shot,
            }),
    {
        match compile(pattern) {
            Ok(regex) => Some(
                RewriteRule {
                    label: label.to_owned(),
                    replacement: replacement.to_owned(),
                    single_shot,
                    regex,
                },
            ),
            Err(_) => None,
        }
    }

    /// The name under which the rule is reported.
    pub fn label(&self) -> (s: &str)
        ensures
            s@ == self@.label,
    {
        self.label.as_str()
    }

    /// The replacement text.
    pub fn replacement(&self) -> (s: &str)
        ensures
            s@ == self@.replacement,
    {
        self.replacement.as_str()
    }

    /// Whether only the first match is replaced.
    pub fn is_single_shot(&self) -> (b: bool)
        ensures
            b == self@.single_shot,
    {
        self.single_shot
    }

    /// Whether the rule's pattern occurs anywhere in `text`.
    pub fn matches(&self, text: &str) -> (found: bool)
        ensures
            found == rule_matches(self@, text@),
    {
        is_match(&self.regex, text)
    }

    /// Applies this one rule: replaces the matches, or leaves the text as
    /// it is when there is none. The flag tells which.
    pub fn rewrite(&self, text: String) -> (out: (String, bool))
        ensures
            out.0@ == rule_step(self@, text@),
            out.1 == rule_matches(self@, text@),
    {
        if is_match(&self.regex, text.as_str()) {
            let limit: usize = if self.single_shot {
                1
            } else {
                0
            };
            (replacen(&self.regex, text.as_str(), limit, self.replacement.as_str()), true)
        } else {
            (text, false)
        }
    }
}

/// Folds `body` through `rules` in order. A rule whose pattern does not
/// occur leaves the text as it is and is reported in `unmatched`; it is no
/// error.
pub fn apply(rules: &Vec<RewriteRule>, body: &str) -> (out: Rewritten)
    ensures
        out.text@ == rewritten(rule_views(rules@), body@),
        out.unmatched@ == unmatched_before(rule_views(rules@), body@, rules@.len()),
{
    let ghost views = rule_views(rules@);
    let mut text: String = body.to_owned();
    let mut unmatched: Vec<usize> = Vec::new();
    let mut i: usize = 0;
    while i < rules.len()
        invariant
            i <= rules.len(),
            views == rule_views(rules@),
            text@ == text_after(views, body@, i as nat),
            unmatched@ == unmatched_before(views, body@, i as nat),
        decreases rules.len() - i,
    {
        let (next, found) = rules[i].rewrite(text);
        if !found {
            unmatched.push(i);
        }
        text = next;
        i = i + 1;
    }
    Rewritten { text, unmatched }
}

/// A body in which no rule's pattern occurs comes back unchanged, whatever
/// the rules are.
pub proof fn lemma_no_match_is_identity(rules: Seq<RuleView>, body: Seq<char>)
    requires
        forall|i: int| 0 <= i < rules.len() ==> !rule_matches(#[trigger] rules[i], body),
    ensures
        rewritten(rules, body) == body,
{
    lemma_no_match_prefix(rules, body, rules.len());
}

/// The same for every prefix of the rule list.
pub proof fn lemma_no_match_prefix(rules: Seq<RuleView>, body: Seq<char>, k: nat)
    requires
        k <= rules.len(),
        forall|i: int| 0 <= i < rules.len() ==> !rule_matches(#[trigger] rules[i], body),
    ensures
        text_after(rules, body, k) == body,
    decreases k,
{
    if k > 0 {
        lemma_no_match_prefix(rules, body, (k - 1) as nat);
    }
}

/// Running the engine again on its own output changes nothing, provided no
/// rule's pattern occurs in that output any more.
pub proof fn lemma_settled_output_is_fixed(rules: Seq<RuleView>, body: Seq<char>)
    requires
        forall|i: int|
            0 <= i < rules.len() ==> !rule_matches(#[trigger] rules[i], rewritten(rules, body)),
    ensures
        rewritten(rules, rewritten(rules, body)) == rewritten(rules, body),
{
    lemma_no_match_is_identity(rules, rewritten(rules, body));
}

/// A body in which no rule's pattern occurs has every rule reported as
/// unmatched.
pub proof fn lemma_no_match_reports_all(rules: Seq<RuleView>, body: Seq<char>, k: nat)
    requires
        k <= rules.len(),
        forall|i: int| 0 <= i < rules.len() ==> !rule_matches(#[trigger] rules[i], body),
    ensures
        unmatched_before(rules, body, k) == Seq::new(k, |i: int| i as usize),
    decreases k,
{
    if k > 0 {
        lemma_no_match_reports_all(rules, body, (k - 1) as nat);
        lemma_no_match_prefix(rules, body, (k - 1) as nat);
    }
}

} // verus!
