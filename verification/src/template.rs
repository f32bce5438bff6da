//! Upstream URL templates: a fixed URL, or a URL with one `{name}` slot that
//! a path parameter fills.

use vstd::prelude::*;
use vstd::string::{
    is_ascii_spec_bytes, StrSliceExecFns, StringExecFns, StringSliceAdditionalSpecFns,
};
use vstd::utf8::is_ascii_chars;

verus! {

/// What a template says: the text before the slot, the slot's name if there
/// is a slot, and the text after it.
pub struct TemplateView {
    pub prefix: Seq<char>,
    pub parameter: Option<Seq<char>>,
    pub suffix: Seq<char>,
}

/// A parsed upstream URL template.
pub struct UrlTemplate {
    prefix: String,
    parameter: Option<String>,
    suffix: String,
}

impl View for UrlTemplate {
    type V = TemplateView;

    closed spec fn view(&self) -> TemplateView {
        TemplateView {
            prefix: self.prefix@,
            parameter: match self.parameter {
                Some(name) => Some(name@),
                None => None,
            },
            suffix: self.suffix@,
        }
    }
}

/// A brace, which in a template only ever delimits the slot.
pub open spec fn is_brace(c: char) -> bool {
    c == '{' || c == '}'
}

/// ASCII text without a brace.
pub open spec fn is_plain(s: Seq<char>) -> bool {
    is_ascii_chars(s) && forall|i: int| 0 <= i < s.len() ==> !is_brace(#[trigger] s[i])
}

/// A character of a slot name: an ASCII letter, a digit or an underscore.
pub open spec fn is_name_char(c: char) -> bool {
    ('a' <= c && c <= 'z') || ('A' <= c && c <= 'Z') || ('0' <= c && c <= '9') || c == '_'
}

/// A slot name: at least one name character and nothing else.
pub open spec fn is_slot_name(s: Seq<char>) -> bool {
    s.len() > 0 && forall|i: int| 0 <= i < s.len() ==> is_name_char(#[trigger] s[i])
}

/// The templates this crate accepts: plain text around at most one named
/// slot, and some text at all where there is no slot.
pub open spec fn well_formed(v: TemplateView) -> bool {
    &&& is_plain(v.prefix)
    &&& is_plain(v.suffix)
    &&& match v.parameter {
        Some(name) => is_slot_name(name),
        None => v.prefix.len() > 0 && v.suffix.len() == 0,
    }
}

/// The text that a template is written as.
pub open spec fn written(v: TemplateView) -> Seq<char> {
    match v.parameter {
        Some(name) => v.prefix + seq!['{'] + name + seq!['}'] + v.suffix,
        None => v.prefix,
    }
}

/// Where a written template has its parts: no brace before `open`, a `{`
/// at `open`, name characters up to `close`, a `}` there, and no brace after.
pub open spec fn slot_at(text: Seq<char>, open: int, close: int) -> bool {
    &&& 0 <= open < close < text.len()
    &&& open + 1 < close
    &&& text[open] == '{'
    &&& text[close] == '}'
    &&& forall|i: int| 0 <= i < open ==> !is_brace(#[trigger] text[i])
    &&& forall|i: int| open < i < close ==> is_name_char(#[trigger] text[i])
    &&& forall|i: int| close < i < text.len() ==> !is_brace(#[trigger] text[i])
}

/// A well-formed template with a slot is written with its slot where the
/// prefix ends.
pub proof fn lemma_written_slot(v: TemplateView)
    requires
        well_formed(v),
        v.parameter is Some,
    ensures
        is_ascii_chars(written(v)),
        slot_at(
            written(v),
            v.prefix.len() as int,
            (v.prefix.len() + 1 + v.parameter->Some_0.len()) as int,
        ),
        written(v).len() == v.prefix.len() + v.parameter->Some_0.len() + v.suffix.len() + 2,
{
    let name = v.parameter->Some_0;
    let text = written(v);
    let open = v.prefix.len() as int;
    let close = open + 1 + name.len();
    assert forall|i: int| 0 <= i < text.len() implies '\0' <= #[trigger] text[i] <= '\u{7f}' by {
        if i < open {
            assert(text[i] == v.prefix[i]);
        } else if i == open {
        } else if i < close {
            assert(text[i] == name[i - open - 1]);
            assert(is_name_char(name[i - open - 1]));
        } else if i == close {
        } else {
            assert(text[i] == v.suffix[i - close - 1]);
        }
    }
    assert forall|i: int| 0 <= i < open implies !is_brace(#[trigger] text[i]) by {
        assert(text[i] == v.prefix[i]);
    }
    assert forall|i: int| open < i < close implies is_name_char(#[trigger] text[i]) by {
        assert(text[i] == name[i - open - 1]);
    }
    assert forall|i: int| close < i < text.len() implies !is_brace(#[trigger] text[i]) by {
        assert(text[i] == v.suffix[i - close - 1]);
    }
}

/// Two slots in one text are the same slot.
pub proof fn lemma_slot_is_unique(text: Seq<char>, o1: int, c1: int, o2: int, c2: int)
    requires
        slot_at(text, o1, c1),
        slot_at(text, o2, c2),
    ensures
        o1 == o2,
        c1 == c2,
{
    if o1 < o2 {
        assert(is_brace(text[o1]));
    }
    if o2 < o1 {
        assert(is_brace(text[o2]));
    }
    if c1 < c2 {
        assert(!is_name_char(text[c1]));
    }
    if c2 < c1 {
        assert(!is_name_char(text[c2]));
    }
}

/// A text is the writing of at most one well-formed template: reading a
/// template back is unambiguous.
pub proof fn lemma_writing_is_unambiguous(a: TemplateView, b: TemplateView)
    requires
        well_formed(a),
        well_formed(b),
        written(a) == written(b),
    ensures
        a == b,
{
    let text = written(a);
    if a.parameter is Some {
        lemma_written_slot(a);
    }
    if b.parameter is Some {
        lemma_written_slot(b);
    }
    if a.parameter is Some && b.parameter is Some {
        let oa = a.prefix.len() as int;
        let ca = oa + 1 + a.parameter->Some_0.len();
        let ob = b.prefix.len() as int;
        let cb = ob + 1 + b.parameter->Some_0.len();
        lemma_slot_is_unique(text, oa, ca, ob, cb);
        assert(a.prefix =~= text.subrange(0, oa));
        assert(b.prefix =~= text.subrange(0, oa));
        assert(a.parameter->Some_0 =~= text.subrange(oa + 1, ca));
        assert(b.parameter->Some_0 =~= text.subrange(oa + 1, ca));
        assert(a.suffix =~= text.subrange(ca + 1, text.len() as int));
        assert(b.suffix =~= text.subrange(ca + 1, text.len() as int));
    } else if a.parameter is Some {
        assert(is_brace(b.prefix[a.prefix.len() as int]));
    } else if b.parameter is Some {
        assert(is_brace(a.prefix[b.prefix.len() as int]));
    } else {
        assert(a.suffix =~= b.suffix);
    }
}

/// A character that may stand in a path parameter: an ASCII letter, a
/// digit, or one of `-`, `.`, `_` and `~`.
pub open spec fn is_unreserved(c: char) -> bool {
    ('a' <= c && c <= 'z') || ('A' <= c && c <= 'Z') || ('0' <= c && c <= '9') || c == '-' || c
        == '.' || c == '_' || c == '~'
}

/// The path parameters that may be written into an upstream URL: a plain
/// file name. It is not empty, holds unreserved characters only, and is
/// neither `.` nor `..`, so it can neither leave its path segment nor add
/// a query or a fragment.
pub open spec fn is_safe_parameter(p: Seq<char>) -> bool {
    &&& p.len() > 0
    &&& forall|i: int| 0 <= i < p.len() ==> is_unreserved(#[trigger] p[i])
    &&& !(p.len() == 1 && p[0] == '.')
    &&& !(p.len() == 2 && p[0] == '.' && p[1] == '.')
}

/// Why an upstream URL could not be built.
#[derive(Clone, Copy, Debug, PartialEq, Eq, Structural)]
pub enum ResolveError {
    /// The template has a slot and the request brought no path parameter.
    MissingParameter,
    /// The path parameter is not a plain file name.
    UnsafeParameter,
}

/// The URL that a template yields for a path parameter. A template
/// without a slot yields its text whatever the parameter is. A template
/// with a slot needs a safe parameter, and yields its text with the
/// parameter in place of the slot.
pub open spec fn filled(v: TemplateView, parameter: Option<Seq<char>>) -> Result<
    Seq<char>,
    ResolveError,
> {
    if v.parameter is None {
        Ok(v.prefix)
    } else {
        match parameter {
            None => Err(ResolveError::MissingParameter),
            Some(p) => if is_safe_parameter(p) {
                Ok(v.prefix + p + v.suffix)
            } else {
                Err(ResolveError::UnsafeParameter)
            },
        }
    }
}

/// Tells whether a byte is a brace.
fn byte_is_brace(b: u8) -> (r: bool)
    ensures
        r == (b == 123 || b == 125),
{
    b == 123 || b == 125
}

/// Tells whether a byte is an ASCII letter, a digit or an underscore.
fn byte_is_name_char(b: u8) -> (r: bool)
    ensures
        r == ((97 <= b && b <= 122) || (65 <= b && b <= 90) || (48 <= b && b <= 57) || b == 95),
{
    (97 <= b && b <= 122) || (65 <= b && b <= 90) || (48 <= b && b <= 57) || b == 95
}

/// For ASCII text the bytes are the characters, one for one.
proof fn lemma_ascii_bytes(text: &str, bytes: Seq<u8>)
    requires
        is_ascii_chars(text@),
        bytes == text.spec_bytes(),
    ensures
        bytes.len() == text@.len(),
        forall|i: int|
            0 <= i < bytes.len() ==> {
                &&& (#[trigger] bytes[i] == 123) == (text@[i] == '{')
                &&& (bytes[i] == 125) == (text@[i] == '}')
                &&& ((97 <= bytes[i] && bytes[i] <= 122) || (65 <= bytes[i] && bytes[i] <= 90) || (48
                    <= bytes[i] && bytes[i] <= 57) || bytes[i] == 95) == is_name_char(text@[i])
            },
{
    is_ascii_spec_bytes(text);
    assert forall|i: int| 0 <= i < bytes.len() implies {
        &&& (#[trigger] bytes[i] == 123) == (text@[i] == '{')
        &&& (bytes[i] == 125) == (text@[i] == '}')
        &&& ((97 <= bytes[i] && bytes[i] <= 122) || (65 <= bytes[i] && bytes[i] <= 90) || (48
            <= bytes[i] && bytes[i] <= 57) || bytes[i] == 95) == is_name_char(text@[i])
    } by {
        let c = text@[i];
        assert('\0' <= c <= '\u{7f}');
        assert(bytes[i] == c as u8);
    }
}

impl UrlTemplate {
    /// Reads a template. The text is accepted exactly when it is the
    /// writing of a well-formed template, and that template is returned.
    pub fn parse(text: &str) -> (r: Option<UrlTemplate>)
        ensures
            r is Some ==> well_formed(r->Some_0@) && written(r->Some_0@) == text@,
            r is None ==> forall|v: TemplateView| well_formed(v) ==> written(v) != text@,
    {
        if !text.is_ascii() {
            proof {
                assert forall|v: TemplateView| well_formed(v) implies written(v) != text@ by {
                    if v.parameter is Some {
                        lemma_written_slot(v);
                    }
                }
            }
            return None;
        }
        let bytes = text.as_bytes();
        let n: usize = bytes.len();
        proof {
            lemma_ascii_bytes(text, bytes@);
        }
        let mut open: usize = 0;
        while open < n && !byte_is_brace(bytes[open])
            invariant
                open <= n,
                n == bytes@.len(),
                forall|i: int| 0 <= i < open ==> !(bytes@[i] == 123 || bytes@[i] == 125),
            decreases n - open,
        {
            open = open + 1;
        }
        if open == n {
            if n == 0 {
                proof {
                    assert forall|v: TemplateView| well_formed(v) implies written(v) != text@ by {
                        if v.parameter is Some {
                            lemma_written_slot(v);
                        }
                    }
                }
                return None;
            }
            let made = UrlTemplate {
                prefix: text.to_owned(),
                parameter: None,
                suffix: String::new(),
            };
            proof {
                assert forall|i: int| 0 <= i < text@.len() implies !is_brace(#[trigger] text@[i]) by {
                    assert(!(bytes@[i] == 123 || bytes@[i] == 125));
                }
            }
            return Some(made);
        }
        if bytes[open] == 125 {
            proof {
                assert forall|v: TemplateView| well_formed(v) implies written(v) != text@ by {
                    if written(v) == text@ {
                        if v.parameter is Some {
                            lemma_written_slot(v);
                            let o = v.prefix.len() as int;
                            if o < open {
                                assert(bytes@[o] == 123);
                            } else {
                                assert(is_brace(text@[open as int]));
                            }
                        } else {
                            assert(is_brace(v.prefix[open as int]));
                        }
                    }
                }
            }
            return None;
        }
        let mut close: usize = open + 1;
        while close < n && byte_is_name_char(bytes[close])
            invariant
                open < close <= n,
                n == bytes@.len(),
                forall|i: int|
                    open < i < close ==> ((97 <= bytes@[i] && bytes@[i] <= 122) || (65 <= bytes@[i]
                        && bytes@[i] <= 90) || (48 <= bytes@[i] && bytes@[i] <= 57) || bytes@[i]
                        == 95),
            decreases n - close,
        {
            close = close + 1;
        }
        if close == n || bytes[close] != 125 || close == open + 1 {
            proof {
                assert forall|v: TemplateView| well_formed(v) implies written(v) != text@ by {
                    if written(v) == text@ {
                        if v.parameter is Some {
                            lemma_written_slot(v);
                            let o = v.prefix.len() as int;
                            let c = o + 1 + v.parameter->Some_0.len();
                            if o < open {
                                assert(bytes@[o] == 123);
                            } else if o > open {
                                assert(is_brace(text@[open as int]));
                            } else if c < close {
                                assert(bytes@[c] == 125);
                            } else if c > close {
                                assert(is_name_char(text@[close as int]));
                            }
                        } else {
                            assert(is_brace(v.prefix[open as int]));
                        }
                    }
                }
            }
            return None;
        }
        let mut rest: usize = close + 1;
        while rest < n && !byte_is_brace(bytes[rest])
            invariant
                close < rest <= n,
                n == bytes@.len(),
                forall|i: int| close < i < rest ==> !(bytes@[i] == 123 || bytes@[i] == 125),
            decreases n - rest,
        {
            rest = rest + 1;
        }
        if rest < n {
            proof {
                assert forall|v: TemplateView| well_formed(v) implies written(v) != text@ by {
                    if written(v) == text@ {
                        if v.parameter is Some {
                            lemma_written_slot(v);
                            let o = v.prefix.len() as int;
                            let c = o + 1 + v.parameter->Some_0.len();
                            if o < open {
                                assert(bytes@[o] == 123);
                            } else if o > open {
                                assert(is_brace(text@[open as int]));
                            } else if c < close {
                                assert(bytes@[c] == 125);
                            } else if c > close {
                                assert(is_name_char(text@[close as int]));
                            } else {
                                assert(is_brace(text@[rest as int]));
                            }
                        } else {
                            assert(is_brace(v.prefix[open as int]));
                        }
                    }
                }
            }
            return None;
        }
        let made = UrlTemplate {
            prefix: text.substring_ascii(0, open).to_owned(),
            parameter: Some(text.substring_ascii(open + 1, close).to_owned()),
            suffix: text.substring_ascii(close + 1, n).to_owned(),
        };
        proof {
            let v = made@;
            let name = v.parameter->Some_0;
            assert forall|i: int| 0 <= i < v.prefix.len() implies !is_brace(
                #[trigger] v.prefix[i],
            ) by {
                assert(v.prefix[i] == text@[i]);
                assert(!(bytes@[i] == 123 || bytes@[i] == 125));
            }
            assert forall|i: int| 0 <= i < v.suffix.len() implies !is_brace(
                #[trigger] v.suffix[i],
            ) by {
                assert(v.suffix[i] == text@[close + 1 + i]);
                assert(!(bytes@[close + 1 + i] == 123 || bytes@[close + 1 + i] == 125));
            }
            assert forall|i: int| 0 <= i < name.len() implies is_name_char(#[trigger] name[i]) by {
                let at = open + 1 + i;
                assert(name[i] == text@[at]);
                assert((97 <= bytes@[at] && bytes@[at] <= 122) || (65 <= bytes@[at] && bytes@[at]
                    <= 90) || (48 <= bytes@[at] && bytes@[at] <= 57) || bytes@[at] == 95);
            }
            assert(written(v) =~= text@);
        }
        Some(made)
    }
}

/// Tells whether a byte is an ASCII letter, a digit, or one of `-`, `.`,
/// `_` and `~`.
fn byte_is_unreserved(b: u8) -> (r: bool)
    ensures
        r == ((97 <= b && b <= 122) || (65 <= b && b <= 90) || (48 <= b && b <= 57) || b == 45
            || b == 46 || b == 95 || b == 126),
{
    (97 <= b && b <= 122) || (65 <= b && b <= 90) || (48 <= b && b <= 57) || b == 45 || b == 46
        || b == 95 || b == 126
}

/// Tells whether a path parameter is a plain file name.
pub fn is_safe(parameter: &str) -> (safe: bool)
    ensures
        safe == is_safe_parameter(parameter@),
{
    if !parameter.is_ascii() {
        proof {
            if is_safe_parameter(parameter@) {
                assert forall|i: int| 0 <= i < parameter@.len() implies '\0'
                    <= #[trigger] parameter@[i] <= '\u{7f}' by {
                    assert(is_unreserved(parameter@[i]));
                }
            }
        }
        return false;
    }
    let bytes = parameter.as_bytes();
    let n: usize = bytes.len();
    proof {
        is_ascii_spec_bytes(parameter);
    }
    if n == 0 {
        return false;
    }
    let mut k: usize = 0;
    while k < n
        invariant
            k <= n,
            n == bytes@.len(),
            n == parameter@.len(),
            is_ascii_chars(parameter@),
            forall|i: int| 0 <= i < n ==> #[trigger] bytes@[i] == parameter@[i] as u8,
            forall|i: int| 0 <= i < k ==> is_unreserved(#[trigger] parameter@[i]),
        decreases n - k,
    {
        if !byte_is_unreserved(bytes[k]) {
            proof {
                let c = parameter@[k as int];
                assert(bytes@[k as int] == c as u8);
                assert('\0' <= c <= '\u{7f}');
                assert(!is_unreserved(c));
            }
            return false;
        }
        proof {
            let c = parameter@[k as int];
            assert(bytes@[k as int] == c as u8);
            assert('\0' <= c <= '\u{7f}');
        }
        k = k + 1;
    }
    proof {
        assert(bytes@[0] == parameter@[0] as u8);
        assert('\0' <= parameter@[0] <= '\u{7f}');
        if n >= 2 {
            assert(bytes@[1] == parameter@[1] as u8);
            assert('\0' <= parameter@[1] <= '\u{7f}');
        }
    }
    if n == 1 && bytes[0] == 46 {
        return false;
    }
    if n == 2 && bytes[0] == 46 && bytes[1] == 46 {
        return false;
    }
    true
}

impl UrlTemplate {
    /// Whether the template has a slot for a path parameter.
    pub fn has_slot(&self) -> (b: bool)
        ensures
            b == (self@.parameter is Some),
    {
        self.parameter.is_some()
    }

    /// Builds the upstream URL for a request's path parameter.
    pub fn fill(&self, parameter: Option<&str>) -> (r: Result<String, ResolveError>)
        ensures
            match filled(self@, match parameter {
                Some(p) => Some(p@),
                None => None,
            }) {
                Ok(url) => r is Ok && r->Ok_0@ == url,
                Err(e) => r is Err && r->Err_0 == e,
            },
    {
        if self.parameter.is_none() {
            return Ok(self.prefix.clone());
        }
        match parameter {
            None => Err(ResolveError::MissingParameter),
            Some(p) => {
                if is_safe(p) {
                    let mut url = self.prefix.clone();
                    url.append(p);
                    url.append(self.suffix.as_str());
                    Ok(url)
                } else {
                    Err(ResolveError::UnsafeParameter)
                }
            },
        }
    }
}

} // verus!
