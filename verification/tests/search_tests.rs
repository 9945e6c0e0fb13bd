use vfv::cli::{find_exit_code, find_files, FindError, MAX_QUERY_LENGTH};
use vfv::search::{rank_candidates, FileSearcher, SearchResult, EXACT_MATCH_SCORE, MAX_SEARCH_DEPTH};

// The walked candidates of a project tree holding src/, tests/ and docs/api/
// directories and a handful of source files, as the walker would tag them.
fn setup_tree() -> (String, Vec<(String, bool)>) {
    let base = "/proj".to_string();
    let cands = vec![
        ("/proj".to_string(), true),
        ("/proj/src".to_string(), true),
        ("/proj/tests".to_string(), true),
        ("/proj/docs".to_string(), true),
        ("/proj/docs/api".to_string(), true),
        ("/proj/src/main.rs".to_string(), false),
        ("/proj/src/lib.rs".to_string(), false),
        ("/proj/src/config.rs".to_string(), false),
        ("/proj/tests/test_main.rs".to_string(), false),
        ("/proj/docs/api/readme.md".to_string(), false),
        ("/proj/README.md".to_string(), false),
    ];
    (base, cands)
}

fn file_name(path: &str) -> &str {
    path.rsplit('/').next().unwrap()
}

#[test]
fn test_empty_query_returns_empty() {
    let mut searcher = FileSearcher::new();
    // An empty query returns before any walk begins.
    let results = searcher.search("/proj", "", 10, false, false);
    assert!(results.is_empty());
}

#[test]
fn test_fuzzy_search_finds_files() {
    let (base, cands) = setup_tree();
    let results = rank_candidates(&base, cands, "main", 10, false, false);
    assert!(!results.is_empty());
    assert!(results.iter().any(|r| r.display_path.contains("main")));
}

#[test]
fn test_exact_match() {
    let (base, cands) = setup_tree();
    let results = rank_candidates(&base, cands, "main.rs", 10, false, true);
    assert!(!results.is_empty());
    assert!(results.iter().all(|r| file_name(&r.path) == "main.rs"));
}

#[test]
fn test_dir_only_mode() {
    let (base, cands) = setup_tree();
    let results = rank_candidates(&base, cands, "src", 10, true, false);
    assert!(results.iter().all(|r| r.is_dir));
}

#[test]
fn test_path_query() {
    let (base, cands) = setup_tree();
    let results = rank_candidates(&base, cands, "src/main", 10, false, false);
    assert!(!results.is_empty());
    assert!(
        results.iter().any(|r| r.display_path.contains("src") && r.display_path.contains("main"))
    );
}

#[test]
fn test_max_results_limit() {
    let (base, cands) = setup_tree();
    let results = rank_candidates(&base, cands, "r", 2, false, false);
    assert!(results.len() <= 2);
}

#[test]
fn test_results_sorted_by_score() {
    let (base, cands) = setup_tree();
    let results = rank_candidates(&base, cands, "main", 10, false, false);
    for i in 1..results.len() {
        assert!(results[i - 1].score >= results[i].score);
    }
}

#[test]
fn test_exact_match_uses_constant_score() {
    let (base, cands) = setup_tree();
    let results = rank_candidates(&base, cands, "main.rs", 10, false, true);
    assert!(!results.is_empty());
    // All exact matches should have EXACT_MATCH_SCORE
    for result in &results {
        assert_eq!(result.score, EXACT_MATCH_SCORE);
    }
}

#[test]
fn test_constants_have_expected_values() {
    assert_eq!(MAX_SEARCH_DEPTH, 10);
    assert_eq!(EXACT_MATCH_SCORE, 1000);
}

#[test]
fn test_max_results_zero_returns_empty() {
    let (base, cands) = setup_tree();
    let results = rank_candidates(&base, cands, "main", 0, false, false);
    assert!(results.is_empty());
}

#[test]
fn test_search_nonexistent_directory() {
    let mut searcher = FileSearcher::new();
    let results = searcher.search("/nonexistent/path", "test", 10, false, false);
    assert!(results.is_empty());
}

#[test]
fn test_path_query_with_deep_nesting() {
    let (base, cands) = setup_tree();
    // Search for nested path
    let results = rank_candidates(&base, cands, "docs/api", 10, true, false);
    assert!(results.iter().any(|r| r.display_path.contains("api")));
}

#[test]
fn test_exact_match_no_match() {
    let (base, cands) = setup_tree();
    let results = rank_candidates(&base, cands, "nonexistent.xyz", 10, false, true);
    assert!(results.is_empty());
}

#[test]
fn test_fuzzy_search_partial_match() {
    let (base, cands) = setup_tree();
    // Search with partial name
    let results = rank_candidates(&base, cands, "mai", 10, false, false);
    assert!(results.iter().any(|r| r.display_path.contains("main")));
}

// The walked candidates of a small tree: src/main.rs, src/lib.rs, README.md.
fn small_tree() -> (String, Vec<(String, bool)>) {
    let base = "/proj".to_string();
    let cands = vec![
        ("/proj".to_string(), true),
        ("/proj/src".to_string(), true),
        ("/proj/src/main.rs".to_string(), false),
        ("/proj/src/lib.rs".to_string(), false),
        ("/proj/README.md".to_string(), false),
    ];
    (base, cands)
}

#[test]
fn test_fuzzy_main_query_in_small_tree() {
    let (base, cands) = small_tree();
    let results = rank_candidates(&base, cands, "main", 10, false, false);
    assert!(results.iter().any(|r| r.display_path.contains("main")));
    for i in 1..results.len() {
        assert!(results[i - 1].score >= results[i].score);
    }
}

#[test]
fn test_exact_main_rs_in_small_tree() {
    let (base, cands) = small_tree();
    let results = rank_candidates(&base, cands, "main.rs", 10, false, true);
    assert!(!results.is_empty());
    for r in &results {
        assert_eq!(file_name(&r.path), "main.rs");
        assert_eq!(r.score, EXACT_MATCH_SCORE);
    }
}

#[test]
fn test_dirs_only_src_in_small_tree() {
    let (base, cands) = small_tree();
    let results = rank_candidates(&base, cands, "src", 10, true, false);
    assert!(!results.is_empty());
    assert!(results.iter().all(|r| r.is_dir));
}

#[test]
fn test_over_long_query_rejected_before_walk() {
    // A query over the length gate is rejected without touching the
    // filesystem: the base directory does not even exist.
    let long_query = "a".repeat(MAX_QUERY_LENGTH + 1);
    let mut searcher = FileSearcher::new();
    let r = find_files(&mut searcher, "/nonexistent/path", &long_query, 10, false, false, false);
    assert!(matches!(r, Err(FindError::QueryTooLong)));
}

#[test]
fn test_query_at_limit_accepted() {
    let query = "a".repeat(MAX_QUERY_LENGTH);
    let mut searcher = FileSearcher::new();
    let r = find_files(&mut searcher, "/nonexistent/path", &query, 10, false, false, false);
    assert!(r.is_ok());
}

#[test]
fn test_cap_of_zero_returns_empty_without_error() {
    let mut searcher = FileSearcher::new();
    let r = find_files(&mut searcher, "/nonexistent/path", "main", 0, false, false, false);
    assert!(r.unwrap().is_empty());
}

#[test]
fn test_first_flag_caps_at_one() {
    let (base, cands) = setup_tree();
    // The non-interactive entry point turns --first into a cap of one.
    let results = rank_candidates(&base, cands, "r", 1, false, false);
    assert!(results.len() <= 1);
}

#[test]
fn test_exit_codes() {
    let none: Option<Vec<SearchResult>> = None;
    assert_eq!(find_exit_code(&none), 124);
    let empty = Some(Vec::new());
    assert_eq!(find_exit_code(&empty), 1);
    let one = Some(vec![SearchResult {
        path: "/t/a".to_string(),
        display_path: "a".to_string(),
        score: 5,
        is_dir: false,
    }]);
    assert_eq!(find_exit_code(&one), 0);
}

#[test]
fn test_display_paths_are_relative_and_nonempty() {
    let (base, cands) = setup_tree();
    let results = rank_candidates(&base, cands, "r", 50, false, false);
    assert!(!results.is_empty());
    for r in &results {
        assert!(!r.display_path.is_empty());
        assert!(!r.display_path.starts_with(&base));
        assert!(r.path.starts_with(&base));
    }
}

#[test]
fn test_base_directory_itself_is_excluded() {
    // The base directory's own relative path would be empty, so it never
    // appears among the results.
    let (base, cands) = setup_tree();
    let results = rank_candidates(&base, cands, "proj", 50, false, false);
    assert!(results.iter().all(|r| r.path != base));
}
