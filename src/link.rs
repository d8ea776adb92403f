use vstd::prelude::*;
use crate::error::Error;
use crate::text::{ascii_chars, ascii_string, bytes_to_vec};

verus! {

/// A byte that may stand in a header value read as text: visible ASCII or a tab.
pub open spec fn is_visible_ascii(b: u8) -> bool {
    (32 <= b && b < 127) || b == 9
}

/// The raw value of a field can be read as text.
pub open spec fn is_text(s: Seq<u8>) -> bool {
    forall|k: int| 0 <= k < s.len() ==> is_visible_ascii(#[trigger] s[k])
}

/// The bytes of `>; rel="next"`, which close the URL of a next-page entry.
pub open spec fn next_suffix() -> Seq<u8> {
    seq![62u8, 59u8, 32u8, 114u8, 101u8, 108u8, 61u8, 34u8, 110u8, 101u8, 120u8, 116u8, 34u8]
}

/// `s[i..j + 13]` reads `<URL>; rel="next"`, where the URL `s[i + 1..j]` is
/// not empty and holds no `>`.
pub open spec fn match_at(s: Seq<u8>, i: int, j: int) -> bool {
    &&& 0 <= i
    &&& i + 1 < j
    &&& j + next_suffix().len() <= s.len()
    &&& s[i] == 60u8
    &&& forall|k: int| i < k < j ==> s[k] != 62u8
    &&& s.subrange(j, j + next_suffix().len()) == next_suffix()
}

/// A next-page entry starts at `i`, and none starts before it.
pub open spec fn first_match(s: Seq<u8>, i: int, j: int) -> bool {
    &&& match_at(s, i, j)
    &&& forall|i2: int, j2: int| #[trigger] match_at(s, i2, j2) ==> i <= i2
}

/// The URL of the first next-page entry of `s`, if there is one.
pub open spec fn next_link(s: Seq<u8>) -> Option<Seq<u8>> {
    if exists|i: int, j: int| first_match(s, i, j) {
        let (i, j) = choose|i: int, j: int| first_match(s, i, j);
        Some(s.subrange(i + 1, j))
    } else {
        None
    }
}

/// What parsing the raw field `s` gives: `r` is the outcome of a call.
pub open spec fn parsed_as(s: Seq<u8>, r: Result<Option<String>, Error>) -> bool {
    if !is_text(s) {
        r matches Err(Error::InvalidLink(Some(raw))) && raw@ == s
    } else {
        match next_link(s) {
            None => r matches Ok(None),
            Some(url) => r matches Ok(Some(u)) && u@ == ascii_chars(url),
        }
    }
}

/// A match starts at `i` and closes at `j` only where `j` is the first `>` after `i`.
proof fn lemma_match_closes_at_first(s: Seq<u8>, i: int, j: int, j2: int)
    requires
        match_at(s, i, j),
        match_at(s, i, j2),
    ensures
        j == j2,
{
    assert(s[j] == s.subrange(j, j + next_suffix().len())[0]);
    assert(s[j2] == s.subrange(j2, j2 + next_suffix().len())[0]);
}

/// The first match is unique: whatever `choose` picks is `(i, j)`.
proof fn lemma_next_link_at(s: Seq<u8>, i: int, j: int)
    requires
        first_match(s, i, j),
    ensures
        next_link(s) == Some(s.subrange(i + 1, j)),
{
    let (i2, j2) = choose|i2: int, j2: int| first_match(s, i2, j2);
    assert(i <= i2 && i2 <= i);
    lemma_match_closes_at_first(s, i, j, j2);
}

/// Where any next-page entry occurs, a first one occurs.
proof fn lemma_first_match_exists(s: Seq<u8>, i: int, j: int)
    requires
        match_at(s, i, j),
    ensures
        exists|i2: int, j2: int| first_match(s, i2, j2),
    decreases i,
{
    if exists|i2: int, j2: int| match_at(s, i2, j2) && i2 < i {
        let (i2, j2) = choose|i2: int, j2: int| match_at(s, i2, j2) && i2 < i;
        lemma_first_match_exists(s, i2, j2);
    } else {
        assert(first_match(s, i, j));
    }
}

/// Whether every byte of `b` is visible ASCII or a tab.
fn check_text(b: &[u8]) -> (r: bool)
    ensures
        r == is_text(b@),
{
    let mut k: usize = 0;
    while k < b.len()
        invariant
            k <= b@.len(),
            forall|m: int| 0 <= m < k ==> is_visible_ascii(#[trigger] b@[m]),
        decreases b@.len() - k,
    {
        let c = b[k];
        if !((32 <= c && c < 127) || c == 9) {
            return false;
        }
        k += 1;
    }
    true
}

/// The index of the first `>` at or after `from`, or the length if there is none.
fn find_close(b: &[u8], from: usize) -> (j: usize)
    requires
        from <= b@.len(),
    ensures
        from <= j <= b@.len(),
        forall|k: int| from <= k < j ==> b@[k] != 62u8,
        j < b@.len() ==> b@[j as int] == 62u8,
{
    let mut j: usize = from;
    while j < b.len() && b[j] != 62
        invariant
            from <= j <= b@.len(),
            forall|k: int| from <= k < j ==> b@[k] != 62u8,
        decreases b@.len() - j,
    {
        j += 1;
    }
    j
}

/// Whether `b[j..]` starts with `>; rel="next"`.
fn suffix_at(b: &[u8], j: usize) -> (r: bool)
    requires
        j <= b@.len(),
    ensures
        r == (j + next_suffix().len() <= b@.len()
            && b@.subrange(j as int, j + next_suffix().len()) == next_suffix()),
{
    let suffix: Vec<u8> = vec![62u8, 59u8, 32u8, 114u8, 101u8, 108u8, 61u8, 34u8, 110u8, 101u8, 120u8, 116u8, 34u8];
    assert(suffix@ == next_suffix());
    if b.len() - j < suffix.len() {
        return false;
    }
    let mut k: usize = 0;
    while k < suffix.len()
        invariant
            j + suffix@.len() <= b@.len(),
            b@.len() <= usize::MAX,
            suffix@ == next_suffix(),
            k <= suffix@.len(),
            forall|m: int| 0 <= m < k ==> b@[j + m] == suffix@[m],
        decreases suffix@.len() - k,
    {
        if b[j + k] != suffix[k] {
            assert(b@.subrange(j as int, j + next_suffix().len())[k as int] != next_suffix()[k as int]);
            return false;
        }
        k += 1;
    }
    assert(b@.subrange(j as int, j + next_suffix().len()) == next_suffix());
    true
}

/// Reads the URL of the `next` relation out of the raw value of a link field.
///
/// The value must be text (visible ASCII or tabs); otherwise the call fails
/// with `InvalidLink` carrying the raw bytes. The first `<URL>; rel="next"`
/// that occurs gives the URL, wherever it stands among the entries; a value
/// with no such entry, the empty one included, gives `Ok(None)`.
pub fn parse_link_header(value: &[u8]) -> (r: Result<Option<String>, Error>)
    ensures
        parsed_as(value@, r),
        r matches Err(e) ==> !is_text(value@),
        is_text(value@) && next_link(value@) is None ==> r matches Ok(None),
{
    let ghost s = value@;
    if !check_text(value) {
        return Err(Error::InvalidLink(Some(bytes_to_vec(value))));
    }
    let n = value.len();
    let mut i: usize = 0;
    while i < n
        invariant
            n == s.len(),
            s == value@,
            is_text(s),
            i <= n,
            forall|i2: int, j2: int| #[trigger] match_at(s, i2, j2) ==> i <= i2,
        decreases n - i,
    {
        if value[i] == 60 {
            let j = find_close(value, i + 1);
            if j > i + 1 && j < n && suffix_at(value, j) {
                assert(match_at(s, i as int, j as int));
                proof {
                    lemma_next_link_at(s, i as int, j as int);
                }
                return Ok(Some(ascii_string(value, i + 1, j)));
            }
            assert forall|i2: int, j2: int| #[trigger] match_at(s, i2, j2) implies i + 1 <= i2 by {
                if i2 == i {
                    if j2 < j {
                        assert(s[j2] == s.subrange(j2, j2 + next_suffix().len())[0]);
                    } else if j < j2 {
                        assert(s[j as int] == 62u8);
                    }
                }
            }
        }
        i += 1;
    }
    assert(!exists|i2: int, j2: int| first_match(s, i2, j2));
    Ok(None)
}

/// The first `<URL>; rel="next"` entry decides: parsing a text value whose
/// first next-page entry starts at `i` and closes at `j` gives exactly the URL
/// between those angle brackets, whatever entries stand before or after it.
pub proof fn lemma_first_next_entry_wins(s: Seq<u8>, i: int, j: int, r: Result<Option<String>, Error>)
    requires
        is_text(s),
        first_match(s, i, j),
        parsed_as(s, r),
    ensures
        r matches Ok(Some(u)) && u@ == ascii_chars(s.subrange(i + 1, j)),
{
    lemma_next_link_at(s, i, j);
}

/// A text value with no `<URL>; rel="next"` entry, the empty value included,
/// parses to "no next page" and not to an error.
pub proof fn lemma_no_next_entry(s: Seq<u8>, r: Result<Option<String>, Error>)
    requires
        is_text(s),
        forall|i: int, j: int| !match_at(s, i, j),
        parsed_as(s, r),
    ensures
        r matches Ok(None),
{
}

/// A text value parses to a next URL exactly when it holds a
/// `<URL>; rel="next"` entry somewhere, and to "no next page" otherwise.
pub proof fn lemma_next_iff_entry(s: Seq<u8>, r: Result<Option<String>, Error>)
    requires
        is_text(s),
        parsed_as(s, r),
    ensures
        r matches Ok(Some(_)) <==> exists|i: int, j: int| match_at(s, i, j),
        r matches Ok(None) <==> !exists|i: int, j: int| match_at(s, i, j),
{
    if exists|i: int, j: int| match_at(s, i, j) {
        let (i, j) = choose|i: int, j: int| match_at(s, i, j);
        lemma_first_match_exists(s, i, j);
    }
}

/// A value that is not text parses to `InvalidLink` with the raw bytes, never
/// to "no next page".
pub proof fn lemma_not_text_is_invalid(s: Seq<u8>, r: Result<Option<String>, Error>)
    requires
        !is_text(s),
        parsed_as(s, r),
    ensures
        r matches Err(Error::InvalidLink(Some(raw))) && raw@ == s,
        !(r matches Ok(None)),
{
}

/// Parsing is deterministic: two parses of the same value agree, on the URL,
/// on its absence, and on the raw bytes of an error.
pub proof fn lemma_parse_twice_agrees(
    s: Seq<u8>,
    r1: Result<Option<String>, Error>,
    r2: Result<Option<String>, Error>,
)
    requires
        parsed_as(s, r1),
        parsed_as(s, r2),
    ensures
        r1 is Ok <==> r2 is Ok,
        r1 matches Ok(None) <==> r2 matches Ok(None),
        r1 matches Ok(Some(u1)) ==> (r2 matches Ok(Some(u2)) && u1@ == u2@),
        r1 matches Err(Error::InvalidLink(Some(b1))) ==> (r2 matches Err(Error::InvalidLink(Some(b2))) && b1@ == b2@),
{
}

} // verus!
