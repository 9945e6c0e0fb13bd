//! The non-interactive entry point's decisions: the query-length gate that
//! runs before any walk, the effective result cap, and the exit status for
//! each outcome. Argument parsing, output and the timeout clock stay with
//! the caller.

use vstd::prelude::*;

use vstd::string::StringSliceAdditionalSpecFns;

use crate::search::{scores_sorted, valid_result, FileSearcher, SearchResult};

verus! {

/// Maximum accepted query length in bytes; longer queries are rejected
/// before any filesystem walk begins.
pub const MAX_QUERY_LENGTH: usize = 1000;

/// Why a find invocation was rejected without searching.
#[derive(Debug, PartialEq, Eq, Structural)]
pub enum FindError {
    QueryTooLong,
}

/// The result cap actually used: 1 when only the top result was asked for.
pub fn effective_limit(limit: usize, first: bool) -> (r: usize)
    ensures
        r == (if first {
            1usize
        } else {
            limit
        }),
{
    if first {
        1
    } else {
        limit
    }
}

/// The process exit status for a search outcome: 0 with at least one
/// result, 1 with none, 124 when the wait timed out (`None`).
pub fn find_exit_code(outcome: &Option<Vec<SearchResult>>) -> (r: i32)
    ensures
        r == (match outcome {
            Some(results) => (if results@.len() == 0 {
                1int
            } else {
                0int
            }),
            None => 124int,
        }),
{
    match outcome {
        Some(results) => {
            if results.len() == 0 {
                1
            } else {
                0
            }
        },
        None => 124,
    }
}

/// Whether the query passes the length gate.
pub fn query_within_limit(query: &str) -> (r: bool)
    ensures
        r == ((query.spec_bytes().len() as usize) <= MAX_QUERY_LENGTH),
{
    query.len() <= MAX_QUERY_LENGTH
}

/// One find invocation without the waiting: rejects an over-long query
/// before any walk, otherwise searches with the effective cap. An `Err`
/// comes back if and only if the query exceeds the length gate.
pub fn find_files(
    searcher: &mut FileSearcher,
    base_dir: &str,
    query: &str,
    limit: usize,
    first: bool,
    dir_only: bool,
    exact: bool,
) -> (r: Result<Vec<SearchResult>, FindError>)
    ensures
        r is Err <==> (query.spec_bytes().len() as usize) > MAX_QUERY_LENGTH,
        r matches Ok(results) ==> {
            let cap = if first {
                1int
            } else {
                limit as int
            };
            &&& query@.len() == 0 ==> results@.len() == 0
            &&& results@.len() <= cap
            &&& scores_sorted(results@)
            &&& forall|i: int|
                0 <= i < results@.len() ==> valid_result(
                    base_dir@,
                    query@,
                    dir_only,
                    exact,
                    #[trigger] results@[i],
                )
        },
{
    if !query_within_limit(query) {
        return Err(FindError::QueryTooLong);
    }
    let cap = effective_limit(limit, first);
    Ok(searcher.search(base_dir, query, cap, dir_only, exact))
}

} // verus!
