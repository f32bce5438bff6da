//! The header projector: copies the whitelisted headers of an upstream
//! response, and nothing else, into the outbound header list.
//!
//! Upstream headers arrive as an `http::HeaderMap`. What this crate believes
//! of that map is stated in the first items of this file.

use crate::text::{eq_ignore_ascii_case, lower_bytes};
use vstd::prelude::*;
use vstd::slice::slice_to_vec;
use vstd::utf8::encode_utf8;

verus! {

/// `http::HeaderMap`, the multimap of header names and values.
#[verifier::external_type_specification]
#[verifier::external_body]
#[verifier::reject_recursive_types(T)]
pub struct ExHeaderMap<T>(http::HeaderMap<T>);

/// `http::HeaderValue`, one header value: a string of bytes.
#[verifier::external_type_specification]
#[verifier::external_body]
pub struct ExHeaderValue(http::HeaderValue);

/// What a header map holds: for each header name in it (the bytes of the
/// name, which the map keeps in lower case) the values stored under that
/// name, each as its bytes, in the order in which they were added.
pub uninterp spec fn header_map_contents(map: http::HeaderMap<http::HeaderValue>) -> Map<
    Seq<u8>,
    Seq<Seq<u8>>,
>;

/// The values that `contents` holds under `key`: none if the key is absent.
pub open spec fn stored_values(contents: Map<Seq<u8>, Seq<Seq<u8>>>, key: Seq<u8>) -> Seq<
    Seq<u8>,
> {
    if contents.contains_key(key) {
        contents[key]
    } else {
        Seq::empty()
    }
}

/// The key under which a header map files the header called `name`: the
/// bytes of the name with ASCII capitals turned into small letters.
pub open spec fn header_key(name: Seq<char>) -> Seq<u8> {
    lower_bytes(encode_utf8(name))
}

/// `http::HeaderMap::get_all` with a string key, each value handed out as a
/// copy of its bytes (`http::HeaderValue::as_bytes`). The map looks the name
/// up without regard to ASCII case and yields the values in the order of
/// their insertion; a name that is no valid header name finds nothing.
#[verifier::external_body]
pub(crate) fn values_of(map: &http::HeaderMap<http::HeaderValue>, name: &str) -> (out: Vec<
    Vec<u8>,
>)
    ensures
        out.deep_view() == stored_values(header_map_contents(*map), header_key(name@)),
{
    map.get_all(name).iter().map(|v| v.as_bytes().to_vec()).collect()
}

/// One header of the outbound response.
pub struct Header {
    /// The header's name, as the whitelist writes it.
    pub name: String,
    /// The header's value, byte for byte as upstream sent it.
    pub value: Vec<u8>,
}

/// A header as a pair of name and value.
pub struct HeaderView {
    pub name: Seq<char>,
    pub value: Seq<u8>,
}

impl View for Header {
    type V = HeaderView;

    open spec fn view(&self) -> HeaderView {
        HeaderView { name: self.name@, value: self.value@ }
    }
}

/// The views of a list of headers, in order.
pub open spec fn header_views(headers: Seq<Header>) -> Seq<HeaderView> {
    headers.map_values(|h: Header| h@)
}

/// The names of a whitelist, in order.
pub open spec fn name_views(names: Seq<String>) -> Seq<Seq<char>> {
    names.map_values(|s: String| s@)
}

/// Whether entry `i` of the whitelist names a header that an earlier entry
/// names already.
pub open spec fn repeats_earlier(whitelist: Seq<Seq<char>>, i: int) -> bool {
    exists|j: int| 0 <= j < i && header_key(#[trigger] whitelist[j]) == header_key(whitelist[i])
}

/// One header per value, all under the same name.
pub open spec fn entries_for(name: Seq<char>, values: Seq<Seq<u8>>) -> Seq<HeaderView> {
    values.map_values(|v: Seq<u8>| HeaderView { name, value: v })
}

/// The projection through the first `k` whitelist entries: for each entry in
/// turn that repeats no earlier one, every value the source holds under it.
pub open spec fn projected_before(
    whitelist: Seq<Seq<char>>,
    contents: Map<Seq<u8>, Seq<Seq<u8>>>,
    k: nat,
) -> Seq<HeaderView>
    decreases k,
{
    if k == 0 || k > whitelist.len() {
        Seq::empty()
    } else if repeats_earlier(whitelist, k - 1) {
        projected_before(whitelist, contents, (k - 1) as nat)
    } else {
        projected_before(whitelist, contents, (k - 1) as nat) + entries_for(
            whitelist[k - 1],
            stored_values(contents, header_key(whitelist[k - 1])),
        )
    }
}

/// The projection of `contents` through the whole whitelist.
pub open spec fn projected(whitelist: Seq<Seq<char>>, contents: Map<Seq<u8>, Seq<Seq<u8>>>) -> Seq<
    HeaderView,
> {
    projected_before(whitelist, contents, whitelist.len())
}

/// Tells whether entry `i` of the whitelist names a header that an earlier
/// entry names already.
fn names_earlier(whitelist: &Vec<String>, i: usize) -> (dup: bool)
    requires
        i < whitelist@.len(),
    ensures
        dup == repeats_earlier(name_views(whitelist@), i as int),
{
    let ghost names = name_views(whitelist@);
    let mut j: usize = 0;
    while j < i
        invariant
            j <= i,
            i < whitelist@.len(),
            names == name_views(whitelist@),
            forall|k: int| 0 <= k < j ==> header_key(#[trigger] names[k]) != header_key(names[i as int]),
        decreases i - j,
    {
        if eq_ignore_ascii_case(whitelist[j].as_str().as_bytes(), whitelist[i].as_str().as_bytes()) {
            assert(header_key(names[j as int]) == header_key(names[i as int]));
            return true;
        }
        j = j + 1;
    }
    false
}

/// Copies from `source` every value of every whitelisted header, in the
/// order of the whitelist; a header the source lacks is left out, and a
/// name the whitelist repeats is served once.
pub fn project(whitelist: &Vec<String>, source: &http::HeaderMap<http::HeaderValue>) -> (out: Vec<
    Header,
>)
    ensures
        header_views(out@) == projected(name_views(whitelist@), header_map_contents(*source)),
{
    let ghost names = name_views(whitelist@);
    let ghost contents = header_map_contents(*source);
    let mut out: Vec<Header> = Vec::new();
    let mut i: usize = 0;
    assert(header_views(out@) =~= projected_before(names, contents, 0));
    while i < whitelist.len()
        invariant
            i <= whitelist@.len(),
            names == name_views(whitelist@),
            contents == header_map_contents(*source),
            header_views(out@) == projected_before(names, contents, i as nat),
        decreases whitelist@.len() - i,
    {
        if !names_earlier(whitelist, i) {
            let values = values_of(source, whitelist[i].as_str());
            let ghost before = header_views(out@);
            let ghost stored = stored_values(contents, header_key(names[i as int]));
            let mut j: usize = 0;
            assert(entries_for(names[i as int], stored).take(0) =~= Seq::empty());
            while j < values.len()
                invariant
                    j <= values@.len(),
                    i < whitelist@.len(),
                    names == name_views(whitelist@),
                    values.deep_view() == stored,
                    header_views(out@) == before + entries_for(names[i as int], stored).take(
                        j as int,
                    ),
                decreases values@.len() - j,
            {
                let ghost prev = header_views(out@);
                let name = whitelist[i].clone();
                let value = slice_to_vec(values[j].as_slice());
                out.push(Header { name, value });
                proof {
                    let entries = entries_for(names[i as int], stored);
                    assert(values.deep_view()[j as int] == values@[j as int]@);
                    assert(entries[j as int] == out@[out@.len() - 1]@);
                    assert(header_views(out@) =~= prev.push(entries[j as int]));
                    assert(entries.take(j + 1) =~= entries.take(j as int).push(entries[j as int]));
                }
                j = j + 1;
            }
            proof {
                let entries = entries_for(names[i as int], stored);
                assert(values.deep_view().len() == values@.len());
                assert(entries.take(j as int) =~= entries);
            }
        }
        i = i + 1;
    }
    out
}

/// Whether `entry` is a header of the source that the whitelist lets
/// through: its name is written in the whitelist, the source files
/// something under that name, and its value is one of the values filed there.
pub open spec fn passes(
    whitelist: Seq<Seq<char>>,
    contents: Map<Seq<u8>, Seq<Seq<u8>>>,
    entry: HeaderView,
) -> bool {
    &&& whitelist.contains(entry.name)
    &&& contents.contains_key(header_key(entry.name))
    &&& contents[header_key(entry.name)].contains(entry.value)
}

/// The projection holds only headers of the source under whitelisted names:
/// no header is made up, and none comes through under a name that the
/// whitelist lacks.
pub proof fn lemma_projection_is_subset(
    whitelist: Seq<Seq<char>>,
    contents: Map<Seq<u8>, Seq<Seq<u8>>>,
)
    ensures
        forall|n: int|
            0 <= n < projected(whitelist, contents).len() ==> passes(
                whitelist,
                contents,
                #[trigger] projected(whitelist, contents)[n],
            ),
{
    lemma_prefix_projection_is_subset(whitelist, contents, whitelist.len());
}

/// The same for the projection through a prefix of the whitelist.
pub proof fn lemma_prefix_projection_is_subset(
    whitelist: Seq<Seq<char>>,
    contents: Map<Seq<u8>, Seq<Seq<u8>>>,
    k: nat,
)
    requires
        k <= whitelist.len(),
    ensures
        forall|n: int|
            0 <= n < projected_before(whitelist, contents, k).len() ==> passes(
                whitelist,
                contents,
                #[trigger] projected_before(whitelist, contents, k)[n],
            ),
    decreases k,
{
    if k > 0 {
        lemma_prefix_projection_is_subset(whitelist, contents, (k - 1) as nat);
        let prev = projected_before(whitelist, contents, (k - 1) as nat);
        let name = whitelist[k - 1];
        let stored = stored_values(contents, header_key(name));
        let added = entries_for(name, stored);
        assert forall|n: int| 0 <= n < projected_before(whitelist, contents, k).len() implies passes(
            whitelist,
            contents,
            #[trigger] projected_before(whitelist, contents, k)[n],
        ) by {
            let entry = projected_before(whitelist, contents, k)[n];
            if repeats_earlier(whitelist, k - 1) || n < prev.len() {
                assert(entry == prev[n]);
            } else {
                let m = n - prev.len();
                assert(entry == added[m]);
                assert(entry.name == name && entry.value == stored[m]);
                assert(stored.len() > 0);
                assert(contents.contains_key(header_key(name)));
            }
        }
    }
}

/// Every value that the source files under a whitelisted name is in the
/// projection, under the name as the whitelist first writes it.
pub proof fn lemma_projection_is_complete(
    whitelist: Seq<Seq<char>>,
    contents: Map<Seq<u8>, Seq<Seq<u8>>>,
    i: int,
    value: Seq<u8>,
)
    requires
        0 <= i < whitelist.len(),
        !repeats_earlier(whitelist, i),
        stored_values(contents, header_key(whitelist[i])).contains(value),
    ensures
        projected(whitelist, contents).contains(HeaderView { name: whitelist[i], value }),
{
    lemma_prefix_projection_grows(whitelist, contents, (i + 1) as nat, whitelist.len());
    let upto = projected_before(whitelist, contents, (i + 1) as nat);
    let prev = projected_before(whitelist, contents, i as nat);
    let stored = stored_values(contents, header_key(whitelist[i]));
    let added = entries_for(whitelist[i], stored);
    let m = choose|m: int| 0 <= m < stored.len() && stored[m] == value;
    assert(upto[prev.len() + m] == added[m]);
    assert(projected(whitelist, contents)[prev.len() + m] == HeaderView { name: whitelist[i], value });
}

/// The projection through a longer prefix of the whitelist starts with the
/// projection through a shorter one.
pub proof fn lemma_prefix_projection_grows(
    whitelist: Seq<Seq<char>>,
    contents: Map<Seq<u8>, Seq<Seq<u8>>>,
    k: nat,
    l: nat,
)
    requires
        k <= l <= whitelist.len(),
    ensures
        projected_before(whitelist, contents, k).is_prefix_of(
            projected_before(whitelist, contents, l),
        ),
    decreases l,
{
    if k < l {
        lemma_prefix_projection_grows(whitelist, contents, k, (l - 1) as nat);
    }
}

/// A name written a second time in the whitelist changes nothing.
pub proof fn lemma_repeated_name_is_idle(
    whitelist: Seq<Seq<char>>,
    contents: Map<Seq<u8>, Seq<Seq<u8>>>,
    name: Seq<char>,
)
    requires
        exists|j: int| 0 <= j < whitelist.len() && header_key(#[trigger] whitelist[j]) == header_key(name),
    ensures
        projected(whitelist.push(name), contents) == projected(whitelist, contents),
{
    let longer = whitelist.push(name);
    lemma_pushed_name_leaves_prefix(whitelist, contents, name, whitelist.len());
    let j = choose|j: int| 0 <= j < whitelist.len() && header_key(#[trigger] whitelist[j]) == header_key(name);
    assert(header_key(longer[j]) == header_key(longer[whitelist.len() as int]));
    assert(repeats_earlier(longer, whitelist.len() as int));
}

/// Appending a name to the whitelist leaves the projection through the
/// entries before it as it was.
pub proof fn lemma_pushed_name_leaves_prefix(
    whitelist: Seq<Seq<char>>,
    contents: Map<Seq<u8>, Seq<Seq<u8>>>,
    name: Seq<char>,
    k: nat,
)
    requires
        k <= whitelist.len(),
    ensures
        projected_before(whitelist.push(name), contents, k) == projected_before(
            whitelist,
            contents,
            k,
        ),
    decreases k,
{
    if k > 0 {
        lemma_pushed_name_leaves_prefix(whitelist, contents, name, (k - 1) as nat);
        let longer = whitelist.push(name);
        assert(longer[k - 1] == whitelist[k - 1]);
        if repeats_earlier(whitelist, k - 1) {
            let j = choose|j: int| 0 <= j < k - 1 && header_key(#[trigger] whitelist[j]) == header_key(whitelist[k - 1]);
            assert(header_key(longer[j]) == header_key(longer[k - 1]));
        }
        if repeats_earlier(longer, k - 1) {
            let j = choose|j: int| 0 <= j < k - 1 && header_key(#[trigger] longer[j]) == header_key(longer[k - 1]);
            assert(header_key(whitelist[j]) == header_key(whitelist[k - 1]));
        }
    }
}

} // verus!
