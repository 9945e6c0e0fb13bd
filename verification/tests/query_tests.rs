use vfv::query::parse;

#[test]
fn test_parse_plain_query() {
    let q = parse("main", false, None);
    assert_eq!(q.text, "main");
    assert!(!q.exact);
    assert!(!q.dirs_only);
    assert!(q.base_path.is_none());
}

#[test]
fn test_parse_flags_any_order() {
    let q = parse("-e main -d", false, None);
    assert_eq!(q.text, "main");
    assert!(q.exact);
    assert!(q.dirs_only);
}

#[test]
fn test_parse_long_flags() {
    let q = parse("--exact config --dir", false, None);
    assert_eq!(q.text, "config");
    assert!(q.exact);
    assert!(q.dirs_only);
}

#[test]
fn test_parse_keeps_token_order_in_text() {
    let q = parse("foo -e bar baz", false, None);
    assert_eq!(q.text, "foo bar baz");
    assert!(q.exact);
}

#[test]
fn test_parse_default_dirs_only_carries_over() {
    let q = parse("main", true, None);
    assert!(q.dirs_only);
}

#[test]
fn test_parse_base_flag() {
    let q = parse("main -b /srv/data", false, None);
    assert_eq!(q.text, "main");
    assert_eq!(q.base_path.as_deref(), Some("/srv/data"));
}

#[test]
fn test_parse_last_base_wins() {
    let q = parse("-b /one main -b /two", false, None);
    assert_eq!(q.base_path.as_deref(), Some("/two"));
    assert_eq!(q.text, "main");
}

#[test]
fn test_parse_trailing_base_without_path_is_ignored() {
    let q = parse("main -b", false, None);
    assert_eq!(q.text, "main");
    assert!(q.base_path.is_none());
}

#[test]
fn test_parse_tilde_expansion() {
    let q = parse("main -b ~/dev", false, Some("/home/someone"));
    assert_eq!(q.base_path.as_deref(), Some("/home/someone/dev"));

    let q2 = parse("main -b ~", false, Some("/home/someone"));
    assert_eq!(q2.base_path.as_deref(), Some("/home/someone"));
}

#[test]
fn test_parse_tilde_without_home_stays_literal() {
    let q = parse("main -b ~/dev", false, None);
    assert_eq!(q.base_path.as_deref(), Some("~/dev"));
}

#[test]
fn test_parse_only_flags_leaves_empty_text() {
    let q = parse("-e -d", false, None);
    assert_eq!(q.text, "");
}
