use vstd::prelude::*;

verus! {

/// The characters that stand for a sequence of ASCII bytes, one for each byte.
pub open spec fn ascii_chars(b: Seq<u8>) -> Seq<char> {
    b.map_values(|x: u8| x as char)
}

/// Relies on `String::push`: appends one character at the end.
#[verifier::external_body]
pub(crate) fn push_char(s: &mut String, c: char)
    ensures
        final(s)@ == old(s)@.push(c),
{
    s.push(c);
}

/// The characters of `b[start..end]`, each byte taken as one character.
pub(crate) fn ascii_string(b: &[u8], start: usize, end: usize) -> (r: String)
    requires
        start <= end <= b@.len(),
    ensures
        r@ == ascii_chars(b@.subrange(start as int, end as int)),
{
    let mut r = String::new();
    let mut k: usize = start;
    while k < end
        invariant
            start <= k <= end <= b@.len(),
            r@ == ascii_chars(b@.subrange(start as int, k as int)),
        decreases end - k,
    {
        push_char(&mut r, b[k] as char);
        assert(b@.subrange(start as int, k + 1) == b@.subrange(start as int, k as int).push(b@[k as int]));
        k += 1;
    }
    r
}

/// A copy of the bytes of `b`.
pub(crate) fn bytes_to_vec(b: &[u8]) -> (r: Vec<u8>)
    ensures
        r@ == b@,
{
    let mut r: Vec<u8> = Vec::new();
    let mut k: usize = 0;
    while k < b.len()
        invariant
            k <= b@.len(),
            r@ == b@.subrange(0, k as int),
        decreases b@.len() - k,
    {
        r.push(b[k]);
        assert(b@.subrange(0, k + 1) == b@.subrange(0, k as int).push(b@[k as int]));
        k += 1;
    }
    assert(b@.subrange(0, b@.len() as int) == b@);
    r
}

} // verus!
