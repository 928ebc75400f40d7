//! Lookup over a request's parsed query pairs.
//!
//! The transport layer hands the broker the query string already split and
//! percent-decoded into key/value pairs; here a required parameter is
//! fetched from those pairs, the first binding winning.

use crate::errors::BrokerError;
use crate::text::str_eq;
use vstd::prelude::*;

verus! {

/// The first value bound to `key` among the parsed query pairs, if any.
pub open spec fn spec_query_lookup(q: Seq<(String, String)>, key: Seq<char>) -> Option<Seq<char>>
    decreases q.len(),
{
    if q.len() == 0 {
        None
    } else if q[0].0@ == key {
        Some(q[0].1@)
    } else {
        spec_query_lookup(q.drop_first(), key)
    }
}

proof fn lemma_query_lookup_absent(q: Seq<(String, String)>, key: Seq<char>)
    requires
        forall|i: int| 0 <= i < q.len() ==> q[i].0@ != key,
    ensures
        spec_query_lookup(q, key) is None,
    decreases q.len(),
{
    if q.len() > 0 {
        assert(forall|j: int|
            0 <= j < q.drop_first().len() ==> q.drop_first()[j] == q[j + 1]);
        lemma_query_lookup_absent(q.drop_first(), key);
    }
}

proof fn lemma_query_lookup_at(q: Seq<(String, String)>, key: Seq<char>, i: int)
    requires
        0 <= i < q.len(),
        q[i].0@ == key,
        forall|j: int| 0 <= j < i ==> q[j].0@ != key,
    ensures
        spec_query_lookup(q, key) == Some(q[i].1@),
    decreases i,
{
    assert(forall|j: int|
        0 <= j < q.drop_first().len() ==> q.drop_first()[j] == q[j + 1]);
    if i > 0 {
        lemma_query_lookup_at(q.drop_first(), key, i - 1);
    }
}

/// Returns the value bound to `key` among the query's parsed pairs, or
/// `InvalidInput` when the parameter is missing.
pub fn required_query<'a>(query: &'a Vec<(String, String)>, key: &str) -> (r: Result<
    &'a String,
    BrokerError,
>)
    ensures
        (match r {
            Ok(v) => spec_query_lookup(query@, key@) == Some(v@),
            Err(e) => e == BrokerError::InvalidInput && spec_query_lookup(query@, key@) is None,
        }),
{
    let n = query.len();
    let mut i: usize = 0;
    while i < n
        invariant
            i <= n,
            n == query@.len(),
            forall|j: int| 0 <= j < i ==> query@[j].0@ != key@,
        decreases n - i,
    {
        if str_eq(query[i].0.as_str(), key) {
            proof {
                lemma_query_lookup_at(query@, key@, i as int);
            }
            return Ok(&query[i].1);
        }
        i += 1;
    }
    proof {
        lemma_query_lookup_absent(query@, key@);
    }
    Err(BrokerError::InvalidInput)
}

} // verus!
