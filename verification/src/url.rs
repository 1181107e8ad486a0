//! The OMS deep-link scheme: building links from components, parsing a link
//! into its parameters, and the base64 text encoding used to embed a whole
//! document in a URL parameter.
//!
//! A link has the shape `omenu://action?v=vendorId[&l=locationId]
//! [&i=itemId][&c=customizationId][&...extra]`. The action is an open
//! string taken from the path segment; parsing yields a string-keyed map
//! holding the action and all query pairs verbatim (no percent-decoding and
//! no type coercion).

use vstd::prelude::*;
use vstd::string::StringSliceAdditionalSpecFns;

use crate::OMS_URL_SCHEME;
use crate::OmsError;
use crate::OmsResult;
use crate::outside::base64_decode;
use crate::outside::base64_decoded;
use crate::outside::base64_encode;
use crate::outside::base64_of;
use crate::outside::str_eq;
use crate::outside::utf8_decoded;
use crate::outside::utf8_to_string;
use crate::types::OmsDocument;

verus! {

/// Whether `prefix` starts `s`.
pub open spec fn starts_with(s: Seq<char>, prefix: Seq<char>) -> bool {
    s.len() >= prefix.len() && s.subrange(0, prefix.len() as int) == prefix
}

/// The index of the first occurrence of `c` in `s` at or after `i`, or -1.
pub open spec fn find_char_from(s: Seq<char>, c: char, i: int) -> int
    decreases s.len() - i,
{
    if i < 0 || i >= s.len() {
        -1
    } else if s[i] == c {
        i
    } else {
        find_char_from(s, c, i + 1)
    }
}

/// The action of a link: what stands between the scheme and the first `?`
/// (or everything after the scheme when there is no `?`).
pub open spec fn action_of(rest: Seq<char>) -> Seq<char> {
    let q = find_char_from(rest, '?', 0);
    if q < 0 {
        rest
    } else {
        rest.subrange(0, q)
    }
}

/// The query of a link: what follows the first `?` after the scheme, empty
/// when there is no `?`.
pub open spec fn query_of(rest: Seq<char>) -> Seq<char> {
    let q = find_char_from(rest, '?', 0);
    if q < 0 {
        Seq::<char>::empty()
    } else {
        rest.subrange(q + 1, rest.len() as int)
    }
}

/// One query segment as a (key, value) pair: what stands before the first
/// `=` and what stands after it; a segment without `=` is a key with an
/// empty value.
pub open spec fn pair_of_segment(seg: Seq<char>) -> (Seq<char>, Seq<char>) {
    let e = find_char_from(seg, '=', 0);
    if e < 0 {
        (seg, Seq::<char>::empty())
    } else {
        (seg.subrange(0, e), seg.subrange(e + 1, seg.len() as int))
    }
}

/// The (key, value) pairs of the query from index `i` on: segments are
/// separated by `&`, and empty segments are skipped.
pub open spec fn pairs_from(q: Seq<char>, i: int) -> Seq<(Seq<char>, Seq<char>)>
    decreases q.len() - i,
    via pairs_from_decreases
{
    if i < 0 || i >= q.len() {
        Seq::<(Seq<char>, Seq<char>)>::empty()
    } else {
        let a = find_char_from(q, '&', i);
        if a < 0 {
            seq![pair_of_segment(q.subrange(i, q.len() as int))]
        } else if a == i {
            pairs_from(q, a + 1)
        } else {
            seq![pair_of_segment(q.subrange(i, a))] + pairs_from(q, a + 1)
        }
    }
}

/// A found separator lies at or after the search start, so recursion past
/// it terminates.
proof fn lemma_find_char_range(s: Seq<char>, c: char, i: int)
    requires
        find_char_from(s, c, i) >= 0,
    ensures
        i <= find_char_from(s, c, i) < s.len(),
    decreases s.len() - i,
{
    if 0 <= i < s.len() && s[i] != c {
        lemma_find_char_range(s, c, i + 1);
    }
}

#[via_fn]
proof fn pairs_from_decreases(q: Seq<char>, i: int) {
    if 0 <= i < q.len() {
        let a = find_char_from(q, '&', i);
        if a >= 0 {
            lemma_find_char_range(q, '&', i);
        }
    }
}

/// All the parameters a link carries, in reading order: the action under
/// the key "action", then every query pair.
pub open spec fn url_pairs(url: Seq<char>) -> Seq<(Seq<char>, Seq<char>)> {
    let rest = url.subrange(OMS_URL_SCHEME@.len() as int, url.len() as int);
    seq![("action"@, action_of(rest))] + pairs_from(query_of(rest), 0)
}

/// The value of the last pair carrying the key, if any: parameters are
/// inserted in reading order and the last write to a key wins.
pub open spec fn lookup_last(pairs: Seq<(Seq<char>, Seq<char>)>, k: Seq<char>) -> Option<Seq<char>>
    decreases pairs.len(),
{
    if pairs.len() == 0 {
        None
    } else if pairs.last().0 == k {
        Some(pairs.last().1)
    } else {
        lookup_last(pairs.drop_last(), k)
    }
}

/// Whether some pair carries the key.
pub open spec fn pair_key_in(pairs: Seq<(String, String)>, k: Seq<char>) -> bool {
    exists|i: int| 0 <= i < pairs.len() && (#[trigger] pairs[i].0@) == k
}

/// The parameters of a parsed OMS URL: a string-keyed map with
/// last-write-wins insertion, holding the action and all query pairs
/// verbatim.
#[derive(Debug, Clone, PartialEq)]
pub struct UrlParams {
    entries: Vec<(String, String)>,
}

impl UrlParams {
    /// The (key, value) pairs held, in insertion order.
    pub closed spec fn entries(self) -> Seq<(String, String)> {
        self.entries@
    }

    /// Each key occurs at most once.
    pub open spec fn wf(self) -> bool {
        forall|i: int, j: int|
            0 <= i < j < self.entries().len() ==> (#[trigger] self.entries()[i].0@) != (
            #[trigger] self.entries()[j].0@)
    }

    /// An empty parameter map.
    pub fn new() -> (r: UrlParams)
        ensures
            r.entries().len() == 0,
            r.wf(),
    {
        UrlParams { entries: Vec::new() }
    }

    /// Insert a value under a key, replacing any value already stored under
    /// it (last write wins).
    pub fn insert(&mut self, key: &str, value: String)
        requires
            old(self).wf(),
        ensures
            final(self).wf(),
            exists|i: int|
                0 <= i < final(self).entries().len()
                    && (#[trigger] final(self).entries()[i].0@) == key@
                    && final(self).entries()[i].1@ == value@,
            forall|i: int|
                0 <= i < old(self).entries().len() && old(self).entries()[i].0@ != key@
                    ==> final(self).entries().contains(#[trigger] old(self).entries()[i]),
            forall|i: int|
                0 <= i < final(self).entries().len() && (#[trigger] final(self).entries()[i].0@)
                    != key@ ==> old(self).entries().contains(final(self).entries()[i]),
    {
        let n = self.entries.len();
        let mut k: usize = 0;
        while k < n
            invariant
                old(self).wf(),
                n == self.entries@.len(),
                self.entries@ == old(self).entries(),
                0 <= k <= n,
                forall|i: int| 0 <= i < k ==> #[trigger] self.entries@[i].0@ != key@,
            decreases n - k,
        {
            if str_eq(self.entries[k].0.as_str(), key) {
                self.entries[k].1 = value;
                proof {
                    assert(self.entries()[k as int].0@ == key@);
                    assert(forall|i: int|
                        0 <= i < self.entries().len() ==> (#[trigger] self.entries()[i].0@)
                            == old(self).entries()[i].0@);
                    assert forall|i: int|
                        0 <= i < old(self).entries().len() && old(self).entries()[i].0@ != key@
                        implies self.entries().contains(#[trigger] old(self).entries()[i]) by {
                        assert(self.entries()[i] == old(self).entries()[i]);
                    }
                    assert forall|i: int|
                        0 <= i < self.entries().len() && (#[trigger] self.entries()[i].0@) != key@
                        implies old(self).entries().contains(self.entries()[i]) by {
                        assert(self.entries()[i] == old(self).entries()[i]);
                    }
                }
                return;
            }
            k = k + 1;
        }
        let pair = (String::from_str(key), value);
        self.entries.push(pair);
        proof {
            let m = self.entries().len() - 1;
            assert(self.entries()[m].0@ == key@);
            assert forall|i: int, j: int|
                0 <= i < j < self.entries().len()
                implies (#[trigger] self.entries()[i].0@) != (#[trigger] self.entries()[j].0@) by {
                if j < m {
                    assert(old(self).entries()[i].0@ != old(self).entries()[j].0@);
                } else {
                    assert(self.entries()[i].0@ == old(self).entries()[i].0@);
                }
            }
            assert forall|i: int|
                0 <= i < old(self).entries().len() && old(self).entries()[i].0@ != key@
                implies self.entries().contains(#[trigger] old(self).entries()[i]) by {
                assert(self.entries()[i] == old(self).entries()[i]);
            }
            assert forall|i: int|
                0 <= i < self.entries().len() && (#[trigger] self.entries()[i].0@) != key@
                implies old(self).entries().contains(self.entries()[i]) by {
                assert(i < m);
                assert(self.entries()[i] == old(self).entries()[i]);
            }
        }
    }

    /// Look up the value stored under a key.
    pub fn get(&self, key: &str) -> (r: Option<&String>)
        ensures
            match r {
                Some(v) => exists|i: int|
                    0 <= i < self.entries().len() && (#[trigger] self.entries()[i].0@) == key@
                        && self.entries()[i].1@ == v@,
                None => forall|i: int|
                    0 <= i < self.entries().len() ==> (#[trigger] self.entries()[i].0@) != key@,
            },
    {
        let n = self.entries.len();
        let mut k: usize = 0;
        while k < n
            invariant
                n == self.entries@.len(),
                0 <= k <= n,
                forall|i: int| 0 <= i < k ==> #[trigger] self.entries@[i].0@ != key@,
            decreases n - k,
        {
            if str_eq(self.entries[k].0.as_str(), key) {
                proof {
                    assert(self.entries()[k as int].0@ == key@);
                }
                return Some(&self.entries[k].1);
            }
            k = k + 1;
        }
        None
    }
}

/// The view of an optional string slice.
pub open spec fn opt_view(s: Option<&str>) -> Option<Seq<char>> {
    match s {
        Some(x) => Some(x@),
        None => None,
    }
}

/// An optional link segment: a prefix plus the value, or nothing.
pub open spec fn opt_part(prefix: Seq<char>, v: Option<Seq<char>>) -> Seq<char> {
    match v {
        Some(x) => prefix + x,
        None => Seq::<char>::empty(),
    }
}

/// The OMS link built from components: scheme, action, the mandatory
/// vendor id, then the optional location, item and customization ids.
pub open spec fn oms_url_of(
    action: Seq<char>,
    vendor: Seq<char>,
    location: Option<Seq<char>>,
    item: Option<Seq<char>>,
    customization: Option<Seq<char>>,
) -> Seq<char> {
    OMS_URL_SCHEME@ + action + "?v="@ + vendor + opt_part("&l="@, location) + opt_part(
        "&i="@,
        item,
    ) + opt_part("&c="@, customization)
}

/// Create an OMS URL from components.
pub fn create_oms_url(
    action: &str,
    vendor_id: &str,
    location_id: Option<&str>,
    item_id: Option<&str>,
    customization_id: Option<&str>,
) -> (r: OmsResult<String>)
    ensures
        r matches Ok(u) && u@ == oms_url_of(
            action@,
            vendor_id@,
            opt_view(location_id),
            opt_view(item_id),
            opt_view(customization_id),
        ),
{
    let mut url = String::from_str(OMS_URL_SCHEME);
    url.append(action);
    url.append("?v=");
    url.append(vendor_id);
    if let Some(location) = location_id {
        url.append("&l=");
        url.append(location);
    }
    if let Some(item) = item_id {
        url.append("&i=");
        url.append(item);
    }
    if let Some(customization) = customization_id {
        url.append("&c=");
        url.append(customization);
    }
    proof {
        assert(url@ =~= oms_url_of(
            action@,
            vendor_id@,
            opt_view(location_id),
            opt_view(item_id),
            opt_view(customization_id),
        ));
    }
    Ok(url)
}

/// Create a view URL for a vendor.
pub fn create_vendor_url(vendor_id: &str, location_id: Option<&str>) -> (r: OmsResult<String>)
    ensures
        r matches Ok(u) && u@ == oms_url_of(
            "view"@,
            vendor_id@,
            opt_view(location_id),
            None,
            None,
        ),
{
    create_oms_url("view", vendor_id, location_id, None, None)
}

/// Create an order URL for an item.
pub fn create_order_url(
    vendor_id: &str,
    item_id: &str,
    location_id: Option<&str>,
    customization_id: Option<&str>,
) -> (r: OmsResult<String>)
    ensures
        r matches Ok(u) && u@ == oms_url_of(
            "order"@,
            vendor_id@,
            opt_view(location_id),
            Some(item_id@),
            opt_view(customization_id),
        ),
{
    create_oms_url("order", vendor_id, location_id, Some(item_id), customization_id)
}

/// Create a customize URL for an item.
pub fn create_customize_url(vendor_id: &str, item_id: &str, location_id: Option<&str>) -> (r:
    OmsResult<String>)
    ensures
        r matches Ok(u) && u@ == oms_url_of(
            "customize"@,
            vendor_id@,
            opt_view(location_id),
            Some(item_id@),
            None,
        ),
{
    create_oms_url("customize", vendor_id, location_id, Some(item_id), None)
}

/// Create a share URL for an item or document.
pub fn create_share_url(vendor_id: &str, item_id: Option<&str>, location_id: Option<&str>) -> (r:
    OmsResult<String>)
    ensures
        r matches Ok(u) && u@ == oms_url_of(
            "share"@,
            vendor_id@,
            opt_view(location_id),
            opt_view(item_id),
            None,
        ),
{
    create_oms_url("share", vendor_id, location_id, item_id, None)
}

/// Create the deep link of a document: an order link for the first item
/// when one exists, else a view link for the vendor.
pub fn create_deep_link(document: &OmsDocument) -> (r: OmsResult<String>)
    ensures
        r matches Ok(u) && u@ == crate::document::document_url(*document),
{
    let vendor_id = document.vendor.id.as_str();
    let location_id = match &document.vendor.location_id {
        Some(l) => Some(l.as_str()),
        None => None,
    };
    let r = if document.items.len() > 0 {
        create_order_url(vendor_id, document.items[0].id.as_str(), location_id, None)
    } else {
        create_vendor_url(vendor_id, location_id)
    };
    proof {
        assert(OMS_URL_SCHEME@ + "order"@ =~= "omenu://order"@) by {
            reveal_strlit("omenu://");
            reveal_strlit("order");
            reveal_strlit("omenu://order");
        }
        assert("omenu://order"@ + "?v="@ =~= "omenu://order?v="@) by {
            reveal_strlit("omenu://order");
            reveal_strlit("?v=");
            reveal_strlit("omenu://order?v=");
        }
        assert(OMS_URL_SCHEME@ + "view"@ =~= "omenu://view"@) by {
            reveal_strlit("omenu://");
            reveal_strlit("view");
            reveal_strlit("omenu://view");
        }
        assert("omenu://view"@ + "?v="@ =~= "omenu://view?v="@) by {
            reveal_strlit("omenu://view");
            reveal_strlit("?v=");
            reveal_strlit("omenu://view?v=");
        }
        if let Ok(u) = &r {
            assert(u@ =~= crate::document::document_url(*document));
        }
    }
    r
}

/// The URL with "&key=value" appended for each given pair, in order.
pub open spec fn with_params(url: Seq<char>, ps: Seq<(String, String)>, k: int) -> Seq<char>
    decreases k,
{
    if k <= 0 {
        url
    } else {
        with_params(url, ps, k - 1) + "&"@ + ps[k - 1].0@ + "="@ + ps[k - 1].1@
    }
}

/// Append custom parameters to an OMS URL, in the order given. A URL that
/// does not start with the OMS scheme is rejected.
pub fn add_custom_params(url: &str, params: &Vec<(String, String)>) -> (r: OmsResult<String>)
    ensures
        r is Ok <==> starts_with(url@, OMS_URL_SCHEME@),
        r matches Ok(u) ==> u@ == with_params(url@, params@, params@.len() as int),
        r matches Err(e) ==> e matches OmsError::InvalidOmsUrl(m) && m@ == url@,
{
    if !str_starts_with(url, OMS_URL_SCHEME) {
        return Err(OmsError::InvalidOmsUrl(String::from_str(url)));
    }
    let mut result = String::from_str(url);
    let n = params.len();
    let mut k: usize = 0;
    while k < n
        invariant
            n == params@.len(),
            0 <= k <= n,
            result@ == with_params(url@, params@, k as int),
        decreases n - k,
    {
        result.append("&");
        result.append(params[k].0.as_str());
        result.append("=");
        result.append(params[k].1.as_str());
        k = k + 1;
    }
    Ok(result)
}

/// Encode text as a base64 URL parameter.
pub fn encode_text_as_param(text: &str) -> (r: String)
    ensures
        r@ == base64_of(text.spec_bytes()),
{
    base64_encode(text.as_bytes())
}

/// Decode a base64 URL parameter back into text, distinguishing invalid
/// base64 from invalid UTF-8: the two failures carry different messages.
pub fn decode_text_from_param(encoded: &str) -> (r: OmsResult<String>)
    ensures
        match base64_decoded(encoded@) {
            None => r matches Err(e) && (e matches OmsError::InvalidFieldValue(m) && m@
                == "Invalid base64 encoding"@),
            Some(bytes) => match utf8_decoded(bytes) {
                None => r matches Err(e) && (e matches OmsError::InvalidFieldValue(m) && m@
                    == "Invalid UTF-8 encoding"@),
                Some(text) => r matches Ok(s) && s@ == text,
            },
        },
{
    match base64_decode(encoded) {
        None => Err(OmsError::InvalidFieldValue(String::from_str("Invalid base64 encoding"))),
        Some(bytes) => match utf8_to_string(bytes) {
            None => Err(OmsError::InvalidFieldValue(String::from_str("Invalid UTF-8 encoding"))),
            Some(text) => Ok(text),
        },
    }
}

/// Whether `prefix` starts `s`.
fn str_starts_with(s: &str, prefix: &str) -> (r: bool)
    ensures
        r == starts_with(s@, prefix@),
{
    let n = s.unicode_len();
    let m = prefix.unicode_len();
    if n < m {
        return false;
    }
    let mut k: usize = 0;
    while k < m
        invariant
            n == s@.len(),
            m == prefix@.len(),
            m <= n,
            0 <= k <= m,
            forall|i: int| 0 <= i < k ==> s@[i] == prefix@[i],
        decreases m - k,
    {
        if s.get_char(k) != prefix.get_char(k) {
            proof {
                assert(s@.subrange(0, m as int)[k as int] != prefix@[k as int]);
            }
            return false;
        }
        k = k + 1;
    }
    proof {
        assert(s@.subrange(0, m as int) =~= prefix@);
    }
    true
}

/// The index of the first occurrence of `c` in `s` at or after `from`.
fn find_char_at(s: &str, c: char, from: usize) -> (r: Option<usize>)
    requires
        from <= s@.len(),
    ensures
        match r {
            Some(i) => find_char_from(s@, c, from as int) == i && from <= i < s@.len(),
            None => find_char_from(s@, c, from as int) == -1,
        },
{
    let n = s.unicode_len();
    let mut k: usize = from;
    while k < n
        invariant
            n == s@.len(),
            from <= k <= n,
            find_char_from(s@, c, from as int) == find_char_from(s@, c, k as int),
        decreases n - k,
    {
        if s.get_char(k) == c {
            return Some(k);
        }
        k = k + 1;
    }
    None
}

/// Parse an OMS URL into its parameters: the action from the path segment,
/// then every query pair verbatim, later pairs overwriting earlier ones
/// with the same key. A URL that does not start with the OMS scheme is
/// rejected, and the error carries the offending URL.
pub fn parse_oms_url(url: &str) -> (r: OmsResult<UrlParams>)
    ensures
        r is Ok <==> starts_with(url@, OMS_URL_SCHEME@),
        r matches Ok(p) ==> {
            &&& p.wf()
            &&& forall|i: int|
                0 <= i < p.entries().len() ==> lookup_last(
                    url_pairs(url@),
                    (#[trigger] p.entries()[i]).0@,
                ) == Some(p.entries()[i].1@)
            &&& forall|j: int|
                0 <= j < url_pairs(url@).len() ==> pair_key_in(
                    p.entries(),
                    (#[trigger] url_pairs(url@)[j]).0,
                )
        },
        r matches Err(e) ==> e matches OmsError::InvalidOmsUrl(m) && m@ == url@,
{
    if !str_starts_with(url, OMS_URL_SCHEME) {
        return Err(OmsError::InvalidOmsUrl(String::from_str(url)));
    }
    let scheme_len = OMS_URL_SCHEME.unicode_len();
    let n = url.unicode_len();
    let rest = url.substring_char(scheme_len, n);
    let ghost rest_view = url@.subrange(OMS_URL_SCHEME@.len() as int, url@.len() as int);

    let rest_len = rest.unicode_len();
    let (action, query) = match find_char_at(rest, '?', 0) {
        Some(q) => (rest.substring_char(0, q), rest.substring_char(q + 1, rest_len)),
        None => (rest, ""),
    };
    proof {
        if find_char_from(rest_view, '?', 0) < 0 {
            assert(query@ =~= query_of(rest_view)) by {
                reveal_strlit("");
            }
        }
    }

    let mut params = UrlParams::new();
    let ghost empty_entries = params.entries();
    params.insert("action", String::from_str(action));

    let ghost all = url_pairs(url@);
    let ghost done: Seq<(Seq<char>, Seq<char>)> = seq![("action"@, action_of(rest_view))];
    proof {
        assert(action@ =~= action_of(rest_view));
        assert(all =~= done + pairs_from(query_of(rest_view), 0));
        assert(lookup_last(done, "action"@) == Some(action_of(rest_view)));
        assert forall|i: int| 0 <= i < params.entries().len() implies lookup_last(
            done,
            (#[trigger] params.entries()[i]).0@,
        ) == Some(params.entries()[i].1@) by {
            let e = params.entries()[i];
            if e.0@ != "action"@ {
                assert(empty_entries.contains(e));
                assert(false);
            }
            lemma_unique_value(params.entries(), i, "action"@, action_of(rest_view));
        }
        assert forall|j: int| 0 <= j < done.len() implies pair_key_in(
            params.entries(),
            (#[trigger] done[j]).0,
        ) by {
            assert(exists|x: int|
                0 <= x < params.entries().len() && (#[trigger] params.entries()[x].0@)
                    == "action"@);
        }
    }
    let query_len = query.unicode_len();
    let mut start: usize = 0;
    while start < query_len
        invariant
            query_len == query@.len(),
            0 <= start <= query_len,
            all == url_pairs(url@),
            all =~= done + pairs_from(query@, start as int),
            params.wf(),
            forall|i: int|
                0 <= i < params.entries().len() ==> lookup_last(
                    done,
                    (#[trigger] params.entries()[i]).0@,
                ) == Some(params.entries()[i].1@),
            forall|j: int|
                0 <= j < done.len() ==> pair_key_in(params.entries(), (#[trigger] done[j]).0),
        decreases query_len - start,
    {
        let seg_end = match find_char_at(query, '&', start) {
            Some(a) => a,
            None => query_len,
        };
        let next_start = if seg_end < query_len {
            seg_end + 1
        } else {
            query_len
        };
        if seg_end > start {
            let seg = query.substring_char(start, seg_end);
            let (key, value) = match find_char_at(seg, '=', 0) {
                Some(e) => {
                    let seg_n = seg.unicode_len();
                    (seg.substring_char(0, e), seg.substring_char(e + 1, seg_n))
                },
                None => (seg, ""),
            };
            proof {
                if find_char_from(seg@, '=', 0) < 0 {
                    assert(value@ =~= pair_of_segment(seg@).1) by {
                        reveal_strlit("");
                    }
                }
                assert((key@, value@) == pair_of_segment(seg@));
            }
            let ghost prev_entries = params.entries();
            let ghost prev_done = done;
            params.insert(key, String::from_str(value));
            proof {
                done = done.push(pair_of_segment(seg@));
                lemma_pairs_step(query@, start as int, seg_end as int);
                assert(all =~= done + pairs_from(query@, next_start as int));
                lemma_lookup_push(prev_done, pair_of_segment(seg@));
                assert forall|i: int| 0 <= i < params.entries().len() implies lookup_last(
                    done,
                    (#[trigger] params.entries()[i]).0@,
                ) == Some(params.entries()[i].1@) by {
                    let e = params.entries()[i];
                    if e.0@ == key@ {
                        assert(lookup_last(done, key@) == Some(value@));
                        lemma_unique_value(params.entries(), i, key@, value@);
                    } else {
                        assert(prev_entries.contains(e));
                        let i0 = choose|x: int|
                            0 <= x < prev_entries.len() && prev_entries[x] == e;
                        assert(lookup_last(prev_done, e.0@) == Some(e.1@));
                    }
                }
                assert forall|j: int| 0 <= j < done.len() implies pair_key_in(
                    params.entries(),
                    (#[trigger] done[j]).0,
                ) by {
                    if j < prev_done.len() {
                        assert(pair_key_in(prev_entries, prev_done[j].0));
                        let i0 = choose|x: int|
                            0 <= x < prev_entries.len() && (#[trigger] prev_entries[x].0@)
                                == prev_done[j].0;
                        if prev_entries[i0].0@ == key@ {
                            assert(exists|x: int|
                                0 <= x < params.entries().len()
                                    && (#[trigger] params.entries()[x].0@) == key@);
                        } else {
                            assert(params.entries().contains(prev_entries[i0]));
                            let i1 = choose|x: int|
                                0 <= x < params.entries().len() && params.entries()[x]
                                    == prev_entries[i0];
                            assert(params.entries()[i1].0@ == prev_done[j].0);
                        }
                    } else {
                        assert(done[j].0 == key@);
                        assert(exists|x: int|
                            0 <= x < params.entries().len() && (#[trigger] params.entries()[x].0@)
                                == key@);
                    }
                }
            }
        } else {
            proof {
                lemma_pairs_step_empty(query@, start as int);
                assert(all =~= done + pairs_from(query@, next_start as int));
            }
        }
        start = next_start;
    }
    proof {
        assert(pairs_from(query@, start as int) =~= Seq::<(Seq<char>, Seq<char>)>::empty());
        assert(all =~= done);
    }
    Ok(params)
}

/// Splitting off one non-empty segment advances the pair list by one.
proof fn lemma_pairs_step(q: Seq<char>, i: int, a: int)
    requires
        0 <= i < q.len(),
        a == find_char_from(q, '&', i) || (find_char_from(q, '&', i) == -1 && a == q.len()),
        i < a,
    ensures
        find_char_from(q, '&', i) >= 0 ==> pairs_from(q, i) =~= seq![
            pair_of_segment(q.subrange(i, a)),
        ] + pairs_from(q, a + 1),
        find_char_from(q, '&', i) == -1 ==> pairs_from(q, i) =~= seq![
            pair_of_segment(q.subrange(i, a)),
        ],
{
}

/// Skipping an empty segment leaves the pair list unchanged.
proof fn lemma_pairs_step_empty(q: Seq<char>, i: int)
    requires
        0 <= i < q.len(),
        find_char_from(q, '&', i) == i,
    ensures
        pairs_from(q, i) =~= pairs_from(q, i + 1),
{
}

/// A key that a last-write-wins lookup finds occurs among the pairs.
pub proof fn lemma_lookup_key_exists(pairs: Seq<(Seq<char>, Seq<char>)>, k: Seq<char>)
    requires
        lookup_last(pairs, k) is Some,
    ensures
        exists|j: int| 0 <= j < pairs.len() && (#[trigger] pairs[j].0) == k,
    decreases pairs.len(),
{
    if pairs.len() > 0 {
        if pairs.last().0 == k {
            assert(pairs[pairs.len() - 1].0 == k);
        } else {
            lemma_lookup_key_exists(pairs.drop_last(), k);
            let j = choose|j: int|
                0 <= j < pairs.drop_last().len() && (#[trigger] pairs.drop_last()[j].0) == k;
            assert(pairs[j].0 == k);
        }
    }
}

/// Last-write-wins lookup over one appended pair.
proof fn lemma_lookup_push(pairs: Seq<(Seq<char>, Seq<char>)>, p: (Seq<char>, Seq<char>))
    ensures
        lookup_last(pairs.push(p), p.0) == Some(p.1),
        forall|k: Seq<char>|
            k != p.0 ==> #[trigger] lookup_last(pairs.push(p), k) == lookup_last(pairs, k),
{
    assert(pairs.push(p).last() == p);
    assert(pairs.push(p).drop_last() =~= pairs);
}

/// In a map with unique keys, any entry whose key maps to a value holds
/// that value.
proof fn lemma_unique_value(entries: Seq<(String, String)>, i: int, k: Seq<char>, v: Seq<char>)
    requires
        forall|a: int, b: int|
            0 <= a < b < entries.len() ==> (#[trigger] entries[a].0@) != (#[trigger] entries[b].0@),
        0 <= i < entries.len(),
        entries[i].0@ == k,
        exists|x: int|
            0 <= x < entries.len() && (#[trigger] entries[x].0@) == k && entries[x].1@ == v,
    ensures
        entries[i].1@ == v,
{
    let x0 = choose|x: int|
        0 <= x < entries.len() && (#[trigger] entries[x].0@) == k && entries[x].1@ == v;
    if x0 != i {
        assert(entries[x0].0@ != entries[i].0@);
    }
}

} // verus!
