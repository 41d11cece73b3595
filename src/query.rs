//! Decisions of the search endpoint around the full-text query.
use vstd::prelude::*;
use vstd::slice::slice_to_vec;
use vstd::string::*;
use vstd::utf8::{decode_utf8, valid_utf8};
use crate::entry::Entry;
use crate::text::{decode_utf8_bytes, trim_str, trimmed};

verus! {

/// Largest accepted request body, in bytes.
pub const MAX_BODY_BYTES: usize = 32768;

/// Shortest query, in characters, that the trigram index can match.
pub const TRIGRAM_WIDTH: usize = 3;

/// Most results returned for one query.
pub const RESULT_LIMIT: usize = 20;

/// What to do with a request body.
#[derive(Debug)]
pub enum Plan {
    /// The body is over `MAX_BODY_BYTES`.
    TooLarge,
    /// The body is not UTF-8.
    NotText,
    /// The trimmed query is too short to match anything: answer `[]`.
    NoMatch,
    /// Run the full-text match with this trimmed query.
    Search(String),
}

/// The query a well-formed body carries.
pub open spec fn query_of(body: Seq<u8>) -> Seq<char> {
    trimmed(decode_utf8(body))
}

/// Decides how to answer a request whose body is `body`.
pub fn plan_request(body: &[u8]) -> (r: Plan)
    ensures
        r is TooLarge <==> body@.len() > MAX_BODY_BYTES,
        r is NotText <==> body@.len() <= MAX_BODY_BYTES && !valid_utf8(body@),
        r is NoMatch <==> body@.len() <= MAX_BODY_BYTES && valid_utf8(body@) && query_of(body@).len()
            < TRIGRAM_WIDTH,
        r is Search <==> body@.len() <= MAX_BODY_BYTES && valid_utf8(body@) && query_of(body@).len()
            >= TRIGRAM_WIDTH,
        r matches Plan::Search(q) ==> q@ == query_of(body@),
{
    if body.len() > MAX_BODY_BYTES {
        return Plan::TooLarge;
    }
    match decode_utf8_bytes(slice_to_vec(body)) {
        None => Plan::NotText,
        Some(s) => {
            let q = trim_str(s.as_str());
            if q.unicode_len() < TRIGRAM_WIDTH {
                Plan::NoMatch
            } else {
                Plan::Search(q.to_owned())
            }
        },
    }
}

impl Plan {
    /// The HTTP status of the answer, where it does not depend on the store.
    pub fn status(&self) -> (r: u16)
        ensures
            self is TooLarge ==> r == 413,
            self is NotText ==> r == 500,
            self is NoMatch || self is Search ==> r == 200,
    {
        match self {
            Plan::TooLarge => 413,
            Plan::NotText => 500,
            Plan::NoMatch => 200,
            Plan::Search(_) => 200,
        }
    }
}

/// The best-ranked rows of a match, given best first: at most `RESULT_LIMIT`
/// of them, in the order given.
pub fn take_ranked(rows: Vec<Entry>) -> (r: Vec<Entry>)
    ensures
        r@.len() <= RESULT_LIMIT,
        r@ == rows@.take(if rows@.len() <= RESULT_LIMIT { rows@.len() as int } else { RESULT_LIMIT as int }),
{
    let mut rows = rows;
    if rows.len() > RESULT_LIMIT {
        rows.truncate(RESULT_LIMIT);
    } else {
        assert(rows@.take(rows@.len() as int) =~= rows@);
    }
    rows
}

} // verus!
