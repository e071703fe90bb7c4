use vstd::prelude::*;
use vstd::utf8::*;
use crate::text::{lowercase, to_lowercase};

verus! {

/// `pat` stands in `hay` at byte position `i`.
pub open spec fn bytes_at(hay: Seq<u8>, i: int, pat: Seq<u8>) -> bool {
    0 <= i && i + pat.len() <= hay.len() && hay.subrange(i, i + pat.len()) == pat
}

/// The first position, from `start` on, at which `pat` stands in `hay`
/// (`str::find`, which reports byte offsets).
pub open spec fn first_match(hay: Seq<u8>, pat: Seq<u8>, start: int) -> Option<int>
    decreases hay.len() + 1 - start,
{
    if start < 0 || start + pat.len() > hay.len() {
        None
    } else if bytes_at(hay, start, pat) {
        Some(start)
    } else {
        first_match(hay, pat, start + 1)
    }
}

/// A first match is a match, and none comes before it.
pub proof fn lemma_first_match(hay: Seq<u8>, pat: Seq<u8>, start: int)
    ensures
        first_match(hay, pat, start) matches Some(i) ==> start <= i && bytes_at(hay, i, pat)
            && forall|j: int| start <= j < i ==> !bytes_at(hay, j, pat),
    decreases hay.len() + 1 - start,
{
    if start < 0 || start + pat.len() > hay.len() {
    } else if bytes_at(hay, start, pat) {
    } else {
        lemma_first_match(hay, pat, start + 1);
    }
}

/// Finds the first position at which `pat` stands in `hay`.
pub fn find_bytes(hay: &[u8], pat: &[u8]) -> (r: Option<usize>)
    ensures
        match r {
            Some(i) => first_match(hay@, pat@, 0) == Some(i as int),
            None => first_match(hay@, pat@, 0) is None,
        },
{
    if pat.len() > hay.len() {
        return None;
    }
    let mut i: usize = 0;
    while i <= hay.len() - pat.len()
        invariant
            pat.len() <= hay.len(),
            i <= hay.len() - pat.len() + 1,
            first_match(hay@, pat@, 0) == first_match(hay@, pat@, i as int),
        decreases hay.len() - i,
    {
        let mut j: usize = 0;
        let mut same = true;
        while j < pat.len()
            invariant
                i + pat.len() <= hay.len(),
                j <= pat.len(),
                same == (forall|t: int| 0 <= t < j ==> hay@[i + t] == pat@[t]),
            decreases pat.len() - j,
        {
            if hay[i + j] != pat[j] {
                same = false;
            }
            j += 1;
        }
        if same {
            assert(hay@.subrange(i as int, i + pat.len()) =~= pat@);
            return Some(i);
        }
        assert(!bytes_at(hay@, i as int, pat@)) by {
            let t = choose|t: int| 0 <= t < pat.len() && hay@[i + t] != pat@[t];
            assert(hay@.subrange(i as int, i + pat.len())[t] == hay@[i + t]);
        }
        i += 1;
    }
    None
}

fn copy_bytes(src: &[u8], start: usize, end: usize) -> (r: Vec<u8>)
    requires
        start <= end <= src.len(),
    ensures
        r@ == src@.subrange(start as int, end as int),
{
    let mut out: Vec<u8> = Vec::new();
    let mut k: usize = start;
    while k < end
        invariant
            start <= k <= end <= src.len(),
            out@ == src@.subrange(start as int, k as int),
        decreases end - k,
    {
        out.push(src[k]);
        k += 1;
        assert(src@.subrange(start as int, k as int) == src@.subrange(start as int, k - 1 as int).push(src@[k - 1]));
    }
    out
}

/// `String::from_utf8`: a string exactly when the bytes are valid UTF-8,
/// holding the characters they encode.
#[verifier::external_body]
pub(crate) fn utf8_to_string(bytes: Vec<u8>) -> (r: Option<String>)
    ensures
        r is Some <==> valid_utf8(bytes@),
        r matches Some(s) ==> s@ == decode_utf8(bytes@),
{
    String::from_utf8(bytes).ok()
}

/// The bytes of `rel="canonical"`.
pub open spec fn rel_canonical() -> Seq<u8> {
    seq![114u8, 101, 108, 61, 34, 99, 97, 110, 111, 110, 105, 99, 97, 108, 34]
}

/// The bytes of `href="`.
pub open spec fn href_open() -> Seq<u8> {
    seq![104u8, 114, 101, 102, 61, 34]
}

/// The byte of `"`.
pub open spec fn quote() -> Seq<u8> {
    seq![34u8]
}

/// The bytes of `http`.
pub open spec fn http() -> Seq<u8> {
    seq![104u8, 116, 116, 112]
}

/// Where the search for a canonical link starts and ends, in bytes of the
/// page: from 200 bytes before the first `rel="canonical"` of the lower-cased
/// page to 50 bytes after its start.
pub open spec fn canonical_area(html: Seq<char>) -> Option<(int, int)> {
    match first_match(encode_utf8(lowercase(html)), rel_canonical(), 0) {
        None => None,
        Some(p) => Some((if p >= 200 { p - 200 } else { 0 }, p + 50)),
    }
}

/// The page's bytes can be cut at `i` without splitting a character.
pub open spec fn cuttable(html: Seq<char>, i: int) -> bool {
    i <= encode_utf8(html).len() && is_char_boundary(encode_utf8(html), i)
}

/// Where, in bytes of the page, the value of the `href` near the canonical
/// marker starts: six bytes after the first `href="` of the lower-cased area.
pub open spec fn href_value_start(html: Seq<char>, ss: int, e: int) -> Option<int> {
    let area = decode_utf8(encode_utf8(html).subrange(ss, e));
    match first_match(encode_utf8(lowercase(area)), href_open(), 0) {
        None => None,
        Some(q) => Some(ss + q + 6),
    }
}

/// The page can be searched for its canonical link without slicing it out of
/// range or inside a character: where the search finds the markers, the
/// byte positions it cuts at are on character boundaries of the page.
pub open spec fn canonical_search_defined(html: Seq<char>) -> bool {
    match canonical_area(html) {
        None => true,
        Some((ss, e)) => cuttable(html, ss) && cuttable(html, e) && match href_value_start(
            html,
            ss,
            e,
        ) {
            None => true,
            Some(hs) => cuttable(html, hs),
        },
    }
}

/// The canonical link of a page, found as the reader looks for it: the
/// `href` value near the first `rel="canonical"` (case-insensitively), up
/// to the next `"`, kept when it starts with `http`.
pub open spec fn canonical_url_of(html: Seq<char>) -> Option<Seq<char>> {
    match canonical_area(html) {
        None => None,
        Some((ss, e)) => match href_value_start(html, ss, e) {
            None => None,
            Some(hs) => {
                let rest = encode_utf8(html).skip(hs);
                match first_match(rest, quote(), 0) {
                    None => None,
                    Some(end) => {
                        let url = rest.take(end);
                        if url.len() >= 4 && url.take(4) == http() {
                            Some(decode_utf8(url))
                        } else {
                            None
                        }
                    },
                }
            },
        }
    }
}

proof fn lemma_cut_valid(b: Seq<u8>, ss: int, e: int)
    requires
        valid_utf8(b),
        0 <= ss <= e <= b.len(),
        is_char_boundary(b, ss),
        is_char_boundary(b, e),
    ensures
        valid_utf8(b.subrange(ss, e)),
{
    valid_utf8_split(b, ss);
    let t = b.subrange(ss, b.len() as int);
    is_char_boundary_start_end_of_seq(t);
    if e < b.len() {
        is_char_boundary_iff_not_is_continuation_byte(b, e);
        is_char_boundary_iff_not_is_continuation_byte(t, e - ss);
    }
    valid_utf8_split(t, e - ss);
    assert(t.subrange(0, e - ss) =~= b.subrange(ss, e));
}

/// Looks for the canonical link of a page. `None` stands for the pages on
/// which the search would cut the page out of range or inside a character;
/// otherwise the link found, if any.
pub fn try_extract_canonical_url(html: &str) -> (r: Option<Option<String>>)
    ensures
        r is Some <==> canonical_search_defined(html@),
        r matches Some(u) ==> match u {
            Some(s) => canonical_url_of(html@) == Some(s@),
            None => canonical_url_of(html@) is None,
        },
{
    let hb = html.as_bytes();
    proof {
        encode_utf8_valid_utf8(html@);
    }
    let lower = to_lowercase(html);
    let rel: Vec<u8> = vec![114u8, 101, 108, 61, 34, 99, 97, 110, 111, 110, 105, 99, 97, 108, 34];
    assert(rel@ == rel_canonical());
    let lower_bytes = lower.as_str().as_bytes();
    let p = match find_bytes(lower_bytes, &rel) {
        None => return Some(None),
        Some(p) => p,
    };
    let ss: usize = if p >= 200 {
        p - 200
    } else {
        0
    };
    assert(lower_bytes@ == encode_utf8(lowercase(html@)));
    assert(canonical_area(html@) == Some((ss as int, p + 50)));
    if hb.len() < 50 || p > hb.len() - 50 {
        return None;
    }
    let e: usize = p + 50;
    if !html.is_char_boundary(ss) || !html.is_char_boundary(e) {
        return None;
    }
    proof {
        lemma_cut_valid(hb@, ss as int, e as int);
    }
    let area_bytes = copy_bytes(hb, ss, e);
    let area = match utf8_to_string(area_bytes) {
        Some(a) => a,
        None => return None,
    };
    let lower_area = to_lowercase(area.as_str());
    let href: Vec<u8> = vec![104u8, 114, 101, 102, 61, 34];
    assert(href@ == href_open());
    assert(area@ == decode_utf8(encode_utf8(html@).subrange(ss as int, e as int)));
    let lower_area_bytes = lower_area.as_str().as_bytes();
    assert(lower_area_bytes@ == encode_utf8(lowercase(area@)));
    let q = match find_bytes(lower_area_bytes, &href) {
        None => return Some(None),
        Some(q) => q,
    };
    if q > hb.len() - ss || 6 > hb.len() - ss - q {
        return None;
    }
    let hs: usize = ss + q + 6;
    if !html.is_char_boundary(hs) {
        return None;
    }
    proof {
        is_char_boundary_start_end_of_seq(hb@);
        lemma_cut_valid(hb@, hs as int, hb@.len() as int);
    }
    let rest = copy_bytes(hb, hs, hb.len());
    assert(rest@ == hb@.skip(hs as int));
    let q1: Vec<u8> = vec![34u8];
    assert(q1@ == quote());
    let end = match find_bytes(&rest, &q1) {
        None => return Some(None),
        Some(end) => end,
    };
    assert(rest@[end as int] == 34u8) by {
        lemma_first_match(rest@, quote(), 0);
        assert(rest@.subrange(end as int, end + 1)[0] == rest@[end as int]);
    }
    proof {
        assert(rest@ =~= hb@.subrange(hs as int, hb@.len() as int));
        lemma_first_match(rest@, quote(), 0);
        is_char_boundary_start_end_of_seq(rest@);
        is_char_boundary_iff_not_is_continuation_byte(rest@, end as int);
        lemma_cut_valid(rest@, 0, end as int);
    }
    let url = copy_bytes(&rest, 0, end);
    assert(url@ == rest@.take(end as int));
    let starts_http = url.len() >= 4 && url[0] == 104u8 && url[1] == 116u8 && url[2] == 116u8
        && url[3] == 112u8;
    if !starts_http {
        assert(!(url@.len() >= 4 && url@.take(4) == http())) by {
            if url@.len() >= 4 && url@.take(4) == http() {
                assert(url@.take(4)[0] == url@[0]);
                assert(url@.take(4)[1] == url@[1]);
                assert(url@.take(4)[2] == url@[2]);
                assert(url@.take(4)[3] == url@[3]);
            }
        }
        return Some(None);
    }
    assert(url@.take(4) =~= http());
    match utf8_to_string(url) {
        Some(s) => Some(Some(s)),
        None => None,
    }
}

/// The canonical link of a page, for the pages on which the search is
/// defined (on others it would cut the page out of range or inside a
/// character).
pub fn extract_canonical_url(html: &str) -> (r: Option<String>)
    requires
        canonical_search_defined(html@),
    ensures
        match r {
            Some(s) => canonical_url_of(html@) == Some(s@),
            None => canonical_url_of(html@) is None,
        },
{
    match try_extract_canonical_url(html) {
        Some(u) => u,
        None => None,
    }
}

/// The page to read in place of the one fetched: its canonical link, when it
/// names another address than the one fetched.
pub open spec fn canonical_target_of(url: Seq<char>, html: Seq<char>) -> Option<Seq<char>> {
    match canonical_url_of(html) {
        Some(c) => if c != url {
            Some(c)
        } else {
            None
        },
        None => None,
    }
}

/// Decides which address an article is read from: the canonical link of
/// the fetched page when it differs from the fetched address.
pub fn canonical_target(url: &str, html: &str) -> (r: Option<String>)
    requires
        canonical_search_defined(html@),
    ensures
        match r {
            Some(s) => canonical_target_of(url@, html@) == Some(s@),
            None => canonical_target_of(url@, html@) is None,
        },
{
    match extract_canonical_url(html) {
        Some(c) => {
            let same = crate::text::chars_equal(
                &crate::text::chars_of(c.as_str()),
                &crate::text::chars_of(url),
            );
            if same {
                None
            } else {
                Some(c)
            }
        },
        None => None,
    }
}

/// Decides which address an article is read from, for any page: `None` for
/// the pages on which the search for a canonical link would cut the page
/// out of range or inside a character; otherwise the canonical link, when it
/// names another address than the one fetched.
pub fn try_canonical_target(url: &str, html: &str) -> (r: Option<Option<String>>)
    ensures
        r is Some <==> canonical_search_defined(html@),
        r matches Some(t) ==> match t {
            Some(s) => canonical_target_of(url@, html@) == Some(s@),
            None => canonical_target_of(url@, html@) is None,
        },
{
    if try_extract_canonical_url(html).is_none() {
        return None;
    }
    Some(canonical_target(url, html))
}

} // verus!
