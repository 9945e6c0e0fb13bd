//! File search: candidates walked beneath a base directory are admitted by
//! the matching policy (exact name equality or fuzzy scoring, with a
//! path-query refinement), scored, sorted by descending score, and truncated
//! to the requested cap.
//!
//! The directory walk and the fuzzy scoring primitive are outside
//! collaborators; everything from their answers to the final result list is
//! verified here.

use vstd::prelude::*;

use crate::seqs::lemma_insert_to_multiset;
use crate::text::{
    contains_char, contains_seq, is_prefix_of, lower_of, lowercase, str_contains,
    str_contains_char, str_eq, str_starts_with, str_tail_after_last, tail_after_last,
};

verus! {

/// Maximum directory depth for file search.
pub const MAX_SEARCH_DEPTH: usize = 10;

/// Score assigned to exact matches; it sorts above any fuzzy score observed
/// in practice.
pub const EXACT_MATCH_SCORE: u32 = 1000;

#[derive(Debug)]
pub struct SearchResult {
    pub path: String,
    pub display_path: String,
    pub score: u32,
    pub is_dir: bool,
}

/// The score nucleo_matcher's fuzzy pattern, built with smart case and smart
/// normalization over the default matcher configuration, assigns `target`
/// for `query`; `None` when the pattern does not match.
pub uninterp spec fn fuzzy_score_of(query: Seq<char>, target: Seq<char>) -> Option<u32>;

/// Relies on nucleo_matcher's Pattern::score: with a fixed configuration the
/// score depends on the query and haystack characters alone.
#[verifier::external_body]
fn fuzzy_score(query: &str, target: &str) -> (r: Option<u32>)
    ensures
        r == fuzzy_score_of(query@, target@),
{
    let mut matcher = nucleo_matcher::Matcher::new(nucleo_matcher::Config::DEFAULT);
    let pattern = nucleo_matcher::pattern::Pattern::new(
        query,
        nucleo_matcher::pattern::CaseMatching::Smart,
        nucleo_matcher::pattern::Normalization::Smart,
        nucleo_matcher::pattern::AtomKind::Fuzzy,
    );
    let mut buf = Vec::new();
    let haystack = nucleo_matcher::Utf32Str::new(target, &mut buf);
    pattern.score(haystack, &mut matcher)
}

/// Relies on ignore's WalkBuilder: yields the paths beneath `base` down to
/// `max_depth` levels, honoring gitignore rules, each tagged as directory or
/// not. What comes back depends on the filesystem, so nothing is promised of
/// it; everything done with it is verified downstream.
#[verifier::external_body]
fn walk_paths(base: &str, max_depth: usize) -> (r: Vec<(String, bool)>) {
    let walker = ignore::WalkBuilder::new(base)
        .hidden(false)
        .git_ignore(true)
        .git_global(true)
        .git_exclude(true)
        .max_depth(Some(max_depth))
        .build();
    let mut out = Vec::new();
    for entry in walker.flatten() {
        let p = entry.path();
        out.push((p.to_string_lossy().to_string(), p.is_dir()));
    }
    out
}

/// The final path segment: what stands after the last `/`.
pub open spec fn name_of(path: Seq<char>) -> Seq<char> {
    tail_after_last(path, '/')
}

/// The query text names a path when it holds a separator.
pub open spec fn is_path_query(query: Seq<char>) -> bool {
    contains_char(query, '/')
}

/// A path as displayed relative to the search base: the base itself shows as
/// empty, anything beneath it loses the base prefix, anything else shows
/// unchanged.
pub open spec fn display_path_of(base: Seq<char>, path: Seq<char>) -> Seq<char> {
    let pre = if base.len() > 0 && base[base.len() - 1] == '/' {
        base
    } else {
        base.push('/')
    };
    if path == base {
        Seq::empty()
    } else if is_prefix_of(pre, path) {
        path.skip(pre.len() as int)
    } else {
        path
    }
}

/// The matching policy's score for one candidate, or `None` when it is
/// rejected. Exact mode wants case-insensitive name equality (for a path
/// query: the display path must contain the query and the name must equal
/// its last segment) and awards the sentinel score. Fuzzy mode scores the
/// display path for path queries and the bare name otherwise, and discards a
/// path-query candidate whose name does not contain the query's last
/// segment.
pub open spec fn match_score(query: Seq<char>, name: Seq<char>, display: Seq<char>, exact: bool) -> Option<u32> {
    let path_query = is_path_query(query);
    let tail = tail_after_last(query, '/');
    if exact {
        if path_query {
            if contains_seq(lower_of(display), lower_of(query)) && lower_of(name) == lower_of(
                tail,
            ) {
                Some(EXACT_MATCH_SCORE)
            } else {
                None
            }
        } else {
            if lower_of(name) == lower_of(query) {
                Some(EXACT_MATCH_SCORE)
            } else {
                None
            }
        }
    } else {
        let target = if path_query {
            display
        } else {
            name
        };
        match fuzzy_score_of(query, target) {
            Some(s) => {
                if path_query && !contains_seq(lower_of(name), lower_of(tail)) {
                    None
                } else {
                    Some(s)
                }
            },
            None => None,
        }
    }
}

/// A walked candidate is admitted when it survives the directory filter, has
/// a name and a non-empty display path, and the matching policy scores it.
pub open spec fn admitted(
    base: Seq<char>,
    query: Seq<char>,
    dir_only: bool,
    exact: bool,
    path: Seq<char>,
    is_dir: bool,
) -> bool {
    &&& (dir_only ==> is_dir)
    &&& name_of(path).len() > 0
    &&& display_path_of(base, path).len() > 0
    &&& match_score(query, name_of(path), display_path_of(base, path), exact) is Some
}

/// A result is sound for the search that produced it: its display path and
/// score are exactly what the policy derives from its path.
pub open spec fn valid_result(
    base: Seq<char>,
    query: Seq<char>,
    dir_only: bool,
    exact: bool,
    r: SearchResult,
) -> bool {
    &&& r.display_path@ == display_path_of(base, r.path@)
    &&& r.display_path@.len() > 0
    &&& name_of(r.path@).len() > 0
    &&& (dir_only ==> r.is_dir)
    &&& match_score(query, name_of(r.path@), display_path_of(base, r.path@), exact) == Some(
        r.score,
    )
}

/// Every result of an exact-match search carries the sentinel score.
pub proof fn lemma_exact_score_is_sentinel(
    base: Seq<char>,
    query: Seq<char>,
    dir_only: bool,
    r: SearchResult,
)
    requires
        valid_result(base, query, dir_only, true, r),
    ensures
        r.score == EXACT_MATCH_SCORE,
{
}

/// Every result of a fuzzy search carries the matcher's own score for the
/// target the policy matched it against (the display path for a path query,
/// the bare name otherwise), never an invented one.
pub proof fn lemma_fuzzy_score_is_matcher_score(
    base: Seq<char>,
    query: Seq<char>,
    dir_only: bool,
    r: SearchResult,
)
    requires
        valid_result(base, query, dir_only, false, r),
    ensures
        ({
            let target = if is_path_query(query) {
                display_path_of(base, r.path@)
            } else {
                name_of(r.path@)
            };
            fuzzy_score_of(query, target) == Some(r.score)
        }),
{
}

/// Scores never increase along the result list.
pub open spec fn scores_sorted(s: Seq<SearchResult>) -> bool {
    forall|i: int, j: int| 0 <= i < j < s.len() ==> (#[trigger] s[i]).score >= (#[trigger] s[j]).score
}

/// How many walked candidates the policy admits.
pub open spec fn admitted_count(
    base: Seq<char>,
    query: Seq<char>,
    dir_only: bool,
    exact: bool,
    cands: Seq<(String, bool)>,
) -> int {
    cands.filter(|c: (String, bool)| admitted(base, query, dir_only, exact, c.0@, c.1)).len() as int
}

/// The paths of a result list, in order.
pub open spec fn result_paths(s: Seq<SearchResult>) -> Seq<Seq<char>> {
    s.map_values(|r: SearchResult| r.path@)
}

/// The paths of the walked candidates the policy admits, in walk order.
pub open spec fn admitted_paths(
    base: Seq<char>,
    query: Seq<char>,
    dir_only: bool,
    exact: bool,
    cands: Seq<(String, bool)>,
) -> Seq<Seq<char>> {
    cands.filter(|c: (String, bool)| admitted(base, query, dir_only, exact, c.0@, c.1)).map_values(
        |c: (String, bool)| c.0@,
    )
}

/// Sequences with the same elements (as multisets) list the same paths.
proof fn lemma_result_paths_multiset(s1: Seq<SearchResult>, s2: Seq<SearchResult>)
    requires
        s1.to_multiset() == s2.to_multiset(),
    ensures
        result_paths(s1).to_multiset() == result_paths(s2).to_multiset(),
    decreases s1.len(),
{
    broadcast use vstd::seq_lib::group_to_multiset_ensures;

    if s1.len() == 0 {
        assert(s1.to_multiset().len() == s1.len());
        assert(s2.to_multiset().len() == s2.len());
        assert(s2.len() == 0);
        assert(result_paths(s1) =~= result_paths(s2));
    } else {
        let x = s1.last();
        assert(s1.contains(x));
        assert(s1.to_multiset().count(x) > 0);
        assert(s2.contains(x));
        let i = choose|i: int| 0 <= i < s2.len() && s2[i] == x;
        let s1p = s1.drop_last();
        let s2p = s2.remove(i);
        assert(s1p =~= s1.remove(s1.len() - 1));
        assert(s1p.to_multiset() == s1.to_multiset().remove(x));
        assert(s2p.to_multiset() == s2.to_multiset().remove(x));
        lemma_result_paths_multiset(s1p, s2p);
        assert(result_paths(s1p).push(x.path@) =~= result_paths(s1));
        assert(result_paths(s1).to_multiset() == result_paths(s1p).to_multiset().insert(x.path@));
        assert(result_paths(s2p) =~= result_paths(s2).remove(i));
        assert(result_paths(s2).remove(i).to_multiset() == result_paths(s2).to_multiset().remove(
            x.path@,
        )) by {
            assert(result_paths(s2)[i] == x.path@);
        }
        assert(result_paths(s2).to_multiset().count(x.path@) > 0) by {
            assert(result_paths(s2).contains(x.path@)) by {
                assert(result_paths(s2)[i] == x.path@);
            }
        }
        assert(result_paths(s1).to_multiset() =~= result_paths(s2).to_multiset());
    }
}

/// Computes the display form of `path` relative to `base`.
pub fn display_path_exec(base: &str, path: &str) -> (r: String)
    ensures
        r@ == display_path_of(base@, path@),
{
    if str_eq(path, base) {
        return String::new();
    }
    let base_len: usize = base.unicode_len();
    let ends_slash: bool = if base_len > 0 {
        base.get_char(base_len - 1) == '/'
    } else {
        false
    };
    let mut pre = String::from_str(base);
    if !ends_slash {
        pre.append("/");
        proof {
            reveal_strlit("/");
            assert("/"@ =~= seq!['/']);
            assert(pre@ =~= base@.push('/'));
        }
    }
    if str_starts_with(path, pre.as_str()) {
        let path_len: usize = path.unicode_len();
        let pre_len: usize = pre.as_str().unicode_len();
        let rest = path.substring_char(pre_len, path_len);
        let r = String::from_str(rest);
        proof {
            assert(path@.subrange(pre@.len() as int, path@.len() as int) =~= path@.skip(
                pre@.len() as int,
            ));
        }
        r
    } else {
        String::from_str(path)
    }
}

/// Applies the matching policy to one candidate.
fn match_score_exec(query: &str, name: &str, display: &str, exact: bool) -> (r: Option<u32>)
    ensures
        r == match_score(query@, name@, display@, exact),
{
    let path_query = str_contains_char(query, '/');
    let tail = str_tail_after_last(query, '/');
    if exact {
        let name_low = lowercase(name);
        if path_query {
            let display_low = lowercase(display);
            let query_low = lowercase(query);
            let tail_low = lowercase(tail.as_str());
            if str_contains(display_low.as_str(), query_low.as_str()) && str_eq(
                name_low.as_str(),
                tail_low.as_str(),
            ) {
                Some(EXACT_MATCH_SCORE)
            } else {
                None
            }
        } else {
            let query_low = lowercase(query);
            if str_eq(name_low.as_str(), query_low.as_str()) {
                Some(EXACT_MATCH_SCORE)
            } else {
                None
            }
        }
    } else {
        let target = if path_query {
            display
        } else {
            name
        };
        match fuzzy_score(query, target) {
            Some(s) => {
                if path_query {
                    let name_low = lowercase(name);
                    let tail_low = lowercase(tail.as_str());
                    if !str_contains(name_low.as_str(), tail_low.as_str()) {
                        None
                    } else {
                        Some(s)
                    }
                } else {
                    Some(s)
                }
            },
            None => None,
        }
    }
}

/// Copies a search result field by field.
pub fn clone_result(r: &SearchResult) -> (out: SearchResult)
    ensures
        out == *r,
{
    SearchResult {
        path: r.path.clone(),
        display_path: r.display_path.clone(),
        score: r.score,
        is_dir: r.is_dir,
    }
}

proof fn lemma_scores_sorted_insert(s: Seq<SearchResult>, x: SearchResult, j: int)
    requires
        scores_sorted(s),
        0 <= j <= s.len(),
        forall|k: int| 0 <= k < j ==> (#[trigger] s[k]).score >= x.score,
        forall|k: int| j <= k < s.len() ==> x.score >= (#[trigger] s[k]).score,
    ensures
        scores_sorted(s.insert(j, x)),
{
    let t = s.insert(j, x);
    assert forall|i1: int, i2: int| 0 <= i1 < i2 < t.len() implies (#[trigger] t[i1]).score >= (
    #[trigger] t[i2]).score by {
        if i1 < j && i2 < j {
            assert(t[i1] == s[i1] && t[i2] == s[i2]);
        } else if i1 < j && i2 == j {
            assert(t[i1] == s[i1] && t[i2] == x);
        } else if i1 < j && i2 > j {
            assert(t[i1] == s[i1] && t[i2] == s[i2 - 1]);
        } else if i1 == j {
            if i2 > j {
                assert(t[i1] == x && t[i2] == s[i2 - 1]);
            }
        } else {
            assert(t[i1] == s[i1 - 1] && t[i2] == s[i2 - 1]);
        }
    }
}

/// Inserts a result into a score-sorted vector, keeping it sorted.
fn insert_by_score(v: Vec<SearchResult>, x: SearchResult) -> (r: Vec<SearchResult>)
    requires
        scores_sorted(v@),
    ensures
        scores_sorted(r@),
        r@.to_multiset() == v@.to_multiset().insert(x),
        r@.len() == v@.len() + 1,
{
    let ghost orig = v@;
    let mut j: usize = 0;
    loop
        invariant
            j <= v@.len(),
            v@ == orig,
            forall|k: int| 0 <= k < j ==> (#[trigger] v@[k]).score >= x.score,
        ensures
            j <= v@.len(),
            v@ == orig,
            forall|k: int| 0 <= k < j ==> (#[trigger] v@[k]).score >= x.score,
            j < v@.len() ==> x.score >= v@[j as int].score,
        decreases v@.len() - j,
    {
        if j == v.len() {
            break ;
        }
        if v[j].score < x.score {
            break ;
        }
        j = j + 1;
    }
    proof {
        assert forall|k: int| j <= k < v@.len() implies x.score >= (#[trigger] v@[k]).score by {
            if k > j {
                assert(v@[j as int].score >= v@[k].score);
            }
        }
        lemma_scores_sorted_insert(v@, x, j as int);
        lemma_insert_to_multiset(v@, x, j as int);
    }
    let mut v = v;
    v.insert(j, x);
    v
}

/// Sorts results by descending score.
fn sort_by_score(v: Vec<SearchResult>) -> (r: Vec<SearchResult>)
    ensures
        scores_sorted(r@),
        r@.to_multiset() == v@.to_multiset(),
        r@.len() == v@.len(),
{
    broadcast use vstd::seq_lib::group_to_multiset_ensures;

    let ghost orig = v@;
    let rest = v;
    let mut out: Vec<SearchResult> = Vec::new();
    proof {
        assert(out@.to_multiset() =~= Seq::<SearchResult>::empty().to_multiset());
    }
    let mut i: usize = 0;
    while i < rest.len()
        invariant
            i <= rest@.len(),
            rest@ == orig,
            scores_sorted(out@),
            out@.len() == i,
            out@.to_multiset() == orig.take(i as int).to_multiset(),
        decreases rest@.len() - i,
    {
        let x = clone_result(&rest[i]);
        out = insert_by_score(out, x);
        proof {
            broadcast use vstd::seq_lib::group_to_multiset_ensures;

            let t1 = orig.take(i as int);
            let t2 = orig.take(i as int + 1);
            assert(t2 =~= t1.push(orig[i as int]));
            assert(t1.push(orig[i as int]).to_multiset() =~= t1.to_multiset().insert(
                orig[i as int],
            ));
        }
        i = i + 1;
    }
    proof {
        assert(orig.take(orig.len() as int) =~= orig);
    }
    out
}

/// Ranks walked candidates under the matching policy: every admitted
/// candidate is scored, the results are sorted by descending score, and the
/// list is cut to `max_results`. The result length is exactly the admitted
/// count, capped; every element is sound for the search.
pub fn rank_candidates(
    base: &str,
    cands: Vec<(String, bool)>,
    query: &str,
    max_results: usize,
    dir_only: bool,
    exact: bool,
) -> (r: Vec<SearchResult>)
    ensures
        forall|i: int|
            0 <= i < r@.len() ==> valid_result(base@, query@, dir_only, exact, #[trigger] r@[i]),
        scores_sorted(r@),
        r@.len() == (if admitted_count(base@, query@, dir_only, exact, cands@) < max_results {
            admitted_count(base@, query@, dir_only, exact, cands@)
        } else {
            max_results as int
        }),
        result_paths(r@).to_multiset().subset_of(
            admitted_paths(base@, query@, dir_only, exact, cands@).to_multiset(),
        ),
{
    broadcast use vstd::seq_lib::group_to_multiset_ensures;

    let ghost pred = |c: (String, bool)| admitted(base@, query@, dir_only, exact, c.0@, c.1);
    let ghost pathf = |c: (String, bool)| c.0@;
    let ghost cands_view = cands@;
    let mut matched: Vec<SearchResult> = Vec::new();
    proof {
        reveal(Seq::filter);
        assert(matched@.len() == cands_view.take(0).filter(pred).len());
        assert(result_paths(matched@) =~= cands_view.take(0).filter(pred).map_values(pathf));
    }
    let mut i: usize = 0;
    while i < cands.len()
        invariant
            0 <= i <= cands@.len(),
            cands@ == cands_view,
            pred == (|c: (String, bool)| admitted(base@, query@, dir_only, exact, c.0@, c.1)),
            matched@.len() == cands_view.take(i as int).filter(pred).len(),
            pathf == (|c: (String, bool)| c.0@),
            result_paths(matched@) == cands_view.take(i as int).filter(pred).map_values(pathf),
            forall|k: int|
                0 <= k < matched@.len() ==> valid_result(
                    base@,
                    query@,
                    dir_only,
                    exact,
                    #[trigger] matched@[k],
                ),
        decreases cands@.len() - i,
    {
        let path = &cands[i].0;
        let cand_is_dir = cands[i].1;
        let mut keep: bool = true;
        let mut score: u32 = 0;
        let mut display = String::new();
        if dir_only && !cand_is_dir {
            keep = false;
        } else {
            let name = str_tail_after_last(path.as_str(), '/');
            if name.as_str().unicode_len() == 0 {
                keep = false;
            } else {
                display = display_path_exec(base, path.as_str());
                if display.as_str().unicode_len() == 0 {
                    keep = false;
                } else {
                    match match_score_exec(query, name.as_str(), display.as_str(), exact) {
                        Some(s) => {
                            score = s;
                        },
                        None => {
                            keep = false;
                        },
                    }
                }
            }
        }
        assert(keep == pred(cands_view[i as int]));
        proof {
            reveal(Seq::filter);
            assert(cands_view.take(i as int + 1).drop_last() =~= cands_view.take(i as int));
            assert(cands_view.take(i as int + 1).last() == cands_view[i as int]);
        }
        let ghost matched_before = matched@;
        if keep {
            let result = SearchResult {
                path: path.clone(),
                display_path: display,
                score,
                is_dir: cand_is_dir,
            };
            assert(valid_result(base@, query@, dir_only, exact, result));
            assert(result.path@ == cands_view[i as int].0@);
            matched.push(result);
            proof {
                assert(result_paths(matched@) =~= result_paths(matched_before).push(
                    cands_view[i as int].0@,
                ));
                assert(cands_view.take(i as int + 1).filter(pred).map_values(pathf)
                    =~= cands_view.take(i as int).filter(pred).map_values(pathf).push(
                    cands_view[i as int].0@,
                ));
            }
        } else {
            proof {
                assert(cands_view.take(i as int + 1).filter(pred).map_values(pathf)
                    =~= cands_view.take(i as int).filter(pred).map_values(pathf));
            }
        }
        i = i + 1;
    }
    proof {
        assert(cands_view.take(cands_view.len() as int) =~= cands_view);
    }
    let ghost matched_view = matched@;
    let mut sorted = sort_by_score(matched);
    proof {
        assert forall|k: int| 0 <= k < sorted@.len() implies valid_result(
            base@,
            query@,
            dir_only,
            exact,
            #[trigger] sorted@[k],
        ) by {
            assert(sorted@.to_multiset().contains(sorted@[k]));
            assert(matched_view.to_multiset().count(sorted@[k]) > 0);
            assert(matched_view.contains(sorted@[k]));
            let m = choose|m: int| 0 <= m < matched_view.len() && matched_view[m] == sorted@[k];
            assert(valid_result(base@, query@, dir_only, exact, matched_view[m]));
        }
    }
    let ghost sorted_view = sorted@;
    sorted.truncate(max_results);
    proof {
        assert(sorted@.len() == (if matched_view.len() < max_results {
            matched_view.len() as int
        } else {
            max_results as int
        }));
        lemma_result_paths_multiset(sorted_view, matched_view);
        assert(sorted@ =~= sorted_view.take(sorted@.len() as int));
        assert(result_paths(sorted@) =~= result_paths(sorted_view).take(sorted@.len() as int));
        crate::seqs::lemma_take_submultiset(result_paths(sorted_view), sorted@.len() as int);
        assert(result_paths(matched_view) == admitted_paths(
            base@,
            query@,
            dir_only,
            exact,
            cands_view,
        ));
    }
    sorted
}

pub struct FileSearcher {}

impl FileSearcher {
    /// A searcher ready to run matching passes.
    pub fn new() -> (r: FileSearcher) {
        FileSearcher {  }
    }

    /// Walks `base_dir` (to the fixed depth, honoring ignore rules) and
    /// ranks what it finds under the matching policy. Whatever the walk
    /// yields: an empty query returns nothing, no more than `max_results`
    /// results come back, scores never increase along the list, and every
    /// result's display path and score are exactly what the policy derives
    /// from its path — with the sentinel score if and only if in exact mode.
    pub fn search(
        &mut self,
        base_dir: &str,
        query: &str,
        max_results: usize,
        dir_only: bool,
        exact: bool,
    ) -> (r: Vec<SearchResult>)
        ensures
            query@.len() == 0 ==> r@.len() == 0,
            r@.len() <= max_results,
            scores_sorted(r@),
            forall|i: int|
                0 <= i < r@.len() ==> valid_result(
                    base_dir@,
                    query@,
                    dir_only,
                    exact,
                    #[trigger] r@[i],
                ),
    {
        if query.unicode_len() == 0 {
            return Vec::new();
        }
        let cands = walk_paths(base_dir, MAX_SEARCH_DEPTH);
        rank_candidates(base_dir, cands, query, max_results, dir_only, exact)
    }
}

} // verus!
