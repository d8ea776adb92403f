use vstd::prelude::*;
use crate::error::Error;
use crate::json::Json;
use crate::link::{parse_link_header, parsed_as};
use crate::text::push_char;
use vstd::string::StringExecFns;

verus! {

/// How many items each page of the listing is asked for.
pub const PER_PAGE: u8 = 100;

/// The listing that a traversal starts from, without its page-size parameter.
pub const LISTING_URL: &'static str = "https://api.github.com/gists?per_page=";

/// The decimal digit for `d`, which is below ten.
pub open spec fn digit_char(d: nat) -> char {
    seq!['0', '1', '2', '3', '4', '5', '6', '7', '8', '9'][d as int]
}

/// The decimal text of `n`, without leading zeros.
pub open spec fn decimal(n: nat) -> Seq<char>
    decreases n,
{
    if n < 10 {
        seq![digit_char(n)]
    } else {
        decimal(n / 10).push(digit_char(n % 10))
    }
}

/// One decoded page: its body, and the URL of the page after it, if any.
#[derive(Debug)]
pub struct Response {
    pub body: Json,
    pub next: Option<String>,
}

/// Appends the decimal text of `n` to `s`.
fn push_decimal(s: &mut String, n: u8)
    ensures
        final(s)@ == old(s)@ + decimal(n as nat),
    decreases n,
{
    let digits: Vec<char> = vec!['0', '1', '2', '3', '4', '5', '6', '7', '8', '9'];
    assert(digits@ == seq!['0', '1', '2', '3', '4', '5', '6', '7', '8', '9']);
    if n >= 10 {
        push_decimal(s, n / 10);
    }
    push_char(s, digits[(n % 10) as usize]);
    if n >= 10 {
        assert(old(s)@ + decimal(n as nat) == (old(s)@ + decimal((n / 10) as nat)).push(
            digit_char((n % 10) as nat),
        ));
    }
}

/// The URL of the first page: the listing, asking for `PER_PAGE` items a page.
pub fn first_page_url() -> (r: String)
    ensures
        r@ == LISTING_URL@ + decimal(PER_PAGE as nat),
{
    let mut r = String::from_str(LISTING_URL);
    push_decimal(&mut r, PER_PAGE);
    r
}

/// The cursor that follows a response, from the raw value of its link field.
///
/// A response must carry the field: without it (`None`) the traversal fails
/// with `InvalidLink(None)`, even on what would be the last page. A field that
/// is present is parsed by `parse_link_header`, whose `Ok(None)` ends the
/// traversal normally.
pub fn next_from_link(link: Option<&[u8]>) -> (r: Result<Option<String>, Error>)
    ensures
        link is None ==> r matches Err(Error::InvalidLink(None)),
        link matches Some(v) ==> parsed_as(v@, r),
{
    match link {
        None => Err(Error::InvalidLink(None)),
        Some(v) => parse_link_header(v),
    }
}

/// The items of a page, in body order, and the cursor to go on with.
///
/// The body must be a sequence: any other shape fails with `InvalidBody`,
/// carrying the body, and no item of it is given out.
pub fn page_items(response: Response) -> (r: Result<(Vec<Json>, Option<String>), Error>)
    ensures
        response.body is Array <==> r is Ok,
        response.body matches Json::Array(items) ==> r == Ok::<(Vec<Json>, Option<String>), Error>((items, response.next)),
        !(response.body is Array) ==> r == Err::<(Vec<Json>, Option<String>), Error>(Error::InvalidBody(response.body)),
{
    match response.body {
        Json::Array(items) => Ok((items, response.next)),
        body => Err(Error::InvalidBody(body)),
    }
}

} // verus!
