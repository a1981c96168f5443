//! Decisions of the transfer layer that do not depend on the network: how
//! a response status maps to a failure, which bytes an upload part carries,
//! and where paginated listings continue.
use url::form_urlencoded;
use vstd::prelude::*;

use crate::text::str_eq;

verus! {

/// Why a response counts as failed.
#[derive(Debug, Clone, Copy, PartialEq, Eq, Structural)]
pub enum ResponseFailure {
    /// 401: the API token is missing or invalid.
    ApiTokenInvalid,
    /// 404: the requested resource does not exist.
    NotFound,
    /// Any other client or server error status.
    Other,
}

/// How a response status is read: client and server errors (400 to 599)
/// fail, and 401 and 404 have failures of their own.
pub fn classify_status(code: u16) -> (r: Option<ResponseFailure>)
    ensures
        r is None <==> !(400 <= code <= 599),
        code == 401 ==> r == Some(ResponseFailure::ApiTokenInvalid),
        code == 404 ==> r == Some(ResponseFailure::NotFound),
        400 <= code <= 599 && code != 401 && code != 404 ==> r == Some(ResponseFailure::Other),
{
    if code < 400 || code > 599 {
        None
    } else if code == 401 {
        Some(ResponseFailure::ApiTokenInvalid)
    } else if code == 404 {
        Some(ResponseFailure::NotFound)
    } else {
        Some(ResponseFailure::Other)
    }
}

/// The byte range `[start, end)` of an upload part at `offset` with
/// `length` bytes, within data of `total` bytes; `None` when the part does
/// not lie inside the data.
pub fn part_bounds(offset: u64, length: u64, total: usize) -> (r: Option<(usize, usize)>)
    ensures
        match r {
            Some((start, end)) => start == offset && end == offset + length && end <= total,
            None => offset + length > total,
        },
{
    if offset as u128 + length as u128 > total as u128 {
        None
    } else {
        Some((offset as usize, (offset + length) as usize))
    }
}

/// Returned by paginated listings: the cursors of the next and the previous
/// page, where there are such pages.
#[derive(Debug, Clone)]
pub struct CursorState {
    pub next: Option<String>,
    pub prev: Option<String>,
}

/// The decoded name/value pairs of a URL query string, in order.
pub uninterp spec fn form_pairs_of(query: Seq<char>) -> Seq<(Seq<char>, Seq<char>)>;

/// The texts of name/value pairs.
pub open spec fn pair_texts(pairs: Seq<(String, String)>) -> Seq<(Seq<char>, Seq<char>)> {
    pairs.map_values(|p: (String, String)| (p.0@, p.1@))
}

/// The value of the first pair named `key`.
pub open spec fn first_value_for(pairs: Seq<(Seq<char>, Seq<char>)>, key: Seq<char>) -> Option<
    Seq<char>,
>
    decreases pairs.len(),
{
    if pairs.len() == 0 {
        None
    } else if pairs[0].0 == key {
        Some(pairs[0].1)
    } else {
        first_value_for(pairs.drop_first(), key)
    }
}

/// The name of the query parameter that holds a page cursor.
pub open spec fn cursor_key() -> Seq<char> {
    seq!['c', 'u', 'r', 's', 'o', 'r']
}

/// Relies on `form_urlencoded::parse`, as `url` re-exports it: the decoded
/// name/value pairs of a query string, in order, which depend on the text
/// alone.
#[verifier::external_body]
fn decode_query(query: &str) -> (r: Vec<(String, String)>)
    ensures
        pair_texts(r@) == form_pairs_of(query@),
{
    form_urlencoded::parse(query.as_bytes()).map(|(k, v)| (k.into_owned(), v.into_owned())).collect()
}

/// The value of the first `cursor` pair.
pub fn find_cursor(pairs: &Vec<(String, String)>) -> (r: Option<String>)
    ensures
        match r {
            Some(v) => first_value_for(pair_texts(pairs@), cursor_key()) == Some(v@),
            None => first_value_for(pair_texts(pairs@), cursor_key()) is None,
        },
{
    let key = "cursor";
    proof {
        reveal_strlit("cursor");
        assert(key@ =~= cursor_key());
    }
    let ghost all = pair_texts(pairs@);
    let mut i: usize = 0;
    proof {
        assert(all.skip(0) =~= all);
    }
    while i < pairs.len()
        invariant
            all == pair_texts(pairs@),
            key@ == cursor_key(),
            0 <= i <= pairs@.len(),
            first_value_for(all, cursor_key()) == first_value_for(all.skip(i as int), cursor_key()),
        decreases pairs@.len() - i,
    {
        proof {
            assert(all.skip(i as int).drop_first() =~= all.skip(i + 1));
            assert(all.skip(i as int)[0] == all[i as int]);
        }
        if str_eq(pairs[i].0.as_str(), key) {
            return Some(pairs[i].1.clone());
        }
        i = i + 1;
    }
    proof {
        assert(all.skip(i as int).len() == 0);
    }
    None
}

/// The page cursor in a URL query string: the value of its first `cursor`
/// parameter, decoded.
pub fn cursor_from_query(query: &str) -> (r: Option<String>)
    ensures
        match r {
            Some(v) => first_value_for(form_pairs_of(query@), cursor_key()) == Some(v@),
            None => first_value_for(form_pairs_of(query@), cursor_key()) is None,
        },
{
    let pairs = decode_query(query);
    find_cursor(&pairs)
}

} // verus!
