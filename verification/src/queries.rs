//! SQL text that the database layer builds from its arguments.

use vstd::prelude::*;

verus! {

/// The query that lists the stored prices of a token, optionally only those
/// of one refresh interval (bound as the second parameter).
pub open spec fn prices_query_text(filter_by_interval: bool) -> Seq<char> {
    if filter_by_interval {
        "SELECT id, price, timestamp, interval FROM prices WHERE token_id = ?1"@
            + " AND interval = ?2"@
    } else {
        "SELECT id, price, timestamp, interval FROM prices WHERE token_id = ?1"@
    }
}

/// Builds the query that lists the stored prices of a token.
pub fn prices_query(filter_by_interval: bool) -> (r: String)
    ensures
        r@ == prices_query_text(filter_by_interval),
{
    let mut query = String::from_str(
        "SELECT id, price, timestamp, interval FROM prices WHERE token_id = ?1",
    );
    if filter_by_interval {
        query.append(" AND interval = ?2");
    }
    query
}

} // verus!
