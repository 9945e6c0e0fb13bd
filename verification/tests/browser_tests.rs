use vfv::browser::{FileBrowser, FileEntry};
use vfv::jump::jump;

fn entry(name: &str, path: &str, is_dir: bool) -> FileEntry {
    FileEntry { name: name.to_string(), path: path.to_string(), is_dir }
}

// The raw entries of a directory holding three directories (one hidden) and
// three files (one hidden), in the arbitrary order a read might yield them.
fn setup_raw() -> Vec<FileEntry> {
    vec![
        entry("file_b.rs", "/t/file_b.rs", false),
        entry(".hidden_dir", "/t/.hidden_dir", true),
        entry("alpha_dir", "/t/alpha_dir", true),
        entry(".hidden_file", "/t/.hidden_file", false),
        entry("beta_dir", "/t/beta_dir", true),
        entry("file_a.txt", "/t/file_a.txt", false),
    ]
}

#[test]
fn test_new_browser() {
    let browser = FileBrowser::new("/t".to_string(), setup_raw(), false);

    assert!(!browser.entries.is_empty());
    assert_eq!(browser.selected_index, 0);
    assert!(!browser.show_hidden);
}

#[test]
fn test_directories_sorted_first() {
    let browser = FileBrowser::new("/t".to_string(), setup_raw(), false);

    let dirs: Vec<_> = browser.entries.iter().take_while(|e| e.is_dir).collect();
    assert!(!dirs.is_empty());

    let files: Vec<_> = browser.entries.iter().skip_while(|e| e.is_dir).collect();
    assert!(files.iter().all(|e| !e.is_dir));
}

#[test]
fn test_hidden_files_filtered() {
    let browser = FileBrowser::new("/t".to_string(), setup_raw(), false);

    assert!(!browser.entries.iter().any(|e| e.name.starts_with('.')));
}

#[test]
fn test_hidden_files_shown() {
    let browser = FileBrowser::new("/t".to_string(), setup_raw(), true);

    assert!(browser.entries.iter().any(|e| e.name.starts_with('.')));
}

#[test]
fn test_move_up_down() {
    let mut browser = FileBrowser::new("/t".to_string(), setup_raw(), false);

    assert_eq!(browser.selected_index, 0);

    browser.move_down();
    assert_eq!(browser.selected_index, 1);

    browser.move_up();
    assert_eq!(browser.selected_index, 0);

    // Wrap around
    browser.move_up();
    assert_eq!(browser.selected_index, browser.entries.len() - 1);

    browser.move_down();
    assert_eq!(browser.selected_index, 0);
}

#[test]
fn test_go_to_top_bottom() {
    let mut browser = FileBrowser::new("/t".to_string(), setup_raw(), false);

    browser.go_to_bottom();
    assert_eq!(browser.selected_index, browser.entries.len() - 1);

    browser.go_to_top();
    assert_eq!(browser.selected_index, 0);
}

#[test]
fn test_enter_directory() {
    let mut browser = FileBrowser::new("/t".to_string(), setup_raw(), false);

    let alpha_idx = browser.entries.iter().position(|e| e.name == "alpha_dir").unwrap();
    for _ in 0..alpha_idx {
        browser.move_down();
    }

    let old_dir = browser.current_dir.clone();
    let alpha_raw = vec![entry("nested", "/t/alpha_dir/nested", true)];
    assert!(browser.enter_directory(alpha_raw));
    assert_ne!(browser.current_dir, old_dir);
    assert!(browser.current_dir.ends_with("alpha_dir"));
}

#[test]
fn test_go_parent() {
    let alpha_raw = vec![entry("nested", "/t/alpha_dir/nested", true)];
    let mut browser = FileBrowser::new("/t/alpha_dir".to_string(), alpha_raw, false);

    let old_dir = browser.current_dir.clone();
    assert!(browser.go_parent(setup_raw()));
    assert_ne!(browser.current_dir, old_dir);
}

#[test]
fn test_go_parent_reselects_old_directory() {
    let alpha_raw = vec![entry("nested", "/t/alpha_dir/nested", true)];
    let mut browser = FileBrowser::new("/t/alpha_dir".to_string(), alpha_raw, false);

    assert!(browser.go_parent(setup_raw()));
    assert_eq!(browser.entries[browser.selected_index].name, "alpha_dir");
}

#[test]
fn test_toggle_hidden() {
    let mut browser = FileBrowser::new("/t".to_string(), setup_raw(), false);

    let count_without_hidden = browser.entries.len();
    browser.toggle_hidden(setup_raw());
    let count_with_hidden = browser.entries.len();

    assert!(count_with_hidden > count_without_hidden);
}

#[test]
fn test_selected_entry() {
    let browser = FileBrowser::new("/t".to_string(), setup_raw(), false);

    let entry = browser.selected_entry();
    assert!(entry.is_some());
}

#[test]
fn test_listing_partition_and_case_insensitive_order() {
    let raw = vec![
        entry("Zeta.txt", "/t/Zeta.txt", false),
        entry("apple", "/t/apple", true),
        entry("banana.txt", "/t/banana.txt", false),
        entry("Cherry", "/t/Cherry", true),
        entry("APRICOT.md", "/t/APRICOT.md", false),
    ];
    let browser = FileBrowser::new("/t".to_string(), raw, false);
    let names: Vec<&str> = browser.entries.iter().map(|e| e.name.as_str()).collect();
    assert_eq!(names, vec!["apple", "Cherry", "APRICOT.md", "banana.txt", "Zeta.txt"]);
}

#[test]
fn test_moves_on_empty_listing_are_noops() {
    let mut browser = FileBrowser::new("/t".to_string(), Vec::new(), false);
    browser.move_up();
    assert_eq!(browser.selected_index, 0);
    browser.move_down();
    assert_eq!(browser.selected_index, 0);
    browser.go_to_bottom();
    assert_eq!(browser.selected_index, 0);
    assert!(browser.selected_entry().is_none());
}

#[test]
fn test_jump_on_empty_listing_is_none() {
    let entries: Vec<FileEntry> = Vec::new();
    assert!(jump(&entries, 0, 'a', true).is_none());
    assert!(jump(&entries, 0, 'a', false).is_none());
}

#[test]
fn test_jump_finds_next_and_wraps() {
    let entries = vec![
        entry("apple", "/t/apple", false),
        entry("banana", "/t/banana", false),
        entry("Avocado", "/t/Avocado", false),
        entry("cherry", "/t/cherry", false),
    ];
    // Forward from 0: the next name starting with 'a' (case-folded) is at 2.
    assert_eq!(jump(&entries, 0, 'a', true), Some(2));
    // Forward from 2 wraps around to 0.
    assert_eq!(jump(&entries, 2, 'A', true), Some(0));
    // No name starts with 'z'.
    assert_eq!(jump(&entries, 0, 'z', true), None);
}

#[test]
fn test_jump_round_trip_returns_to_match() {
    let entries = vec![
        entry("apple", "/t/apple", false),
        entry("banana", "/t/banana", false),
        entry("avocado", "/t/avocado", false),
        entry("cherry", "/t/cherry", false),
    ];
    let there = jump(&entries, 0, 'a', true).unwrap();
    assert_eq!(there, 2);
    let back = jump(&entries, there, 'a', false).unwrap();
    assert_eq!(back, 0);
    assert!(entries[back].name.to_lowercase().starts_with('a'));
}
