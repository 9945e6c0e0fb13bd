use vfv::browser::FileEntry;
use vfv::config::Config;
use vfv::preview::{PreviewContent, Style};
use vfv::search::SearchResult;
use vfv::session::{App, InputMode, SearchPoll, StatusMessage};

fn entry(name: &str, path: &str, is_dir: bool) -> FileEntry {
    FileEntry { name: name.to_string(), path: path.to_string(), is_dir }
}

fn raw_listing() -> Vec<FileEntry> {
    vec![
        entry("docs", "/t/docs", true),
        entry("main.rs", "/t/main.rs", false),
        entry("notes.txt", "/t/notes.txt", false),
    ]
}

fn fresh_app() -> App {
    App::new("/t".to_string(), raw_listing(), Config::default())
}

fn result(path: &str, display: &str, score: u32, is_dir: bool) -> SearchResult {
    SearchResult {
        path: path.to_string(),
        display_path: display.to_string(),
        score,
        is_dir,
    }
}

#[test]
fn test_session_starts_in_normal_mode() {
    let app = fresh_app();
    assert_eq!(app.input_mode, InputMode::Normal);
    assert!(!app.should_quit);
    assert_eq!(app.browser.selected_index, 0);
    assert!(app.search_results.is_empty());
}

#[test]
fn test_enter_on_file_switches_to_preview() {
    let mut app = fresh_app();
    // Move to "main.rs", the first file after the directory.
    app.move_down();
    assert!(!app.browser.entries[app.browser.selected_index].is_dir);
    app.enter(None);
    assert_eq!(app.input_mode, InputMode::Preview);
    app.exit_preview();
    assert_eq!(app.input_mode, InputMode::Normal);
}

#[test]
fn test_enter_on_directory_changes_root() {
    let mut app = fresh_app();
    assert!(app.browser.entries[app.browser.selected_index].is_dir);
    let docs_raw = vec![entry("guide.md", "/t/docs/guide.md", false)];
    app.enter(Some(docs_raw));
    assert_eq!(app.input_mode, InputMode::Normal);
    assert_eq!(app.browser.current_dir, "/t/docs");
    assert_eq!(app.browser.entries.len(), 1);
}

#[test]
fn test_go_parent_reselects_left_directory() {
    let mut app = fresh_app();
    let docs_raw = vec![entry("guide.md", "/t/docs/guide.md", false)];
    app.enter(Some(docs_raw));
    assert_eq!(app.parent_dir().as_deref(), Some("/t"));
    assert!(app.go_parent(raw_listing()));
    assert_eq!(app.browser.current_dir, "/t");
    assert_eq!(app.browser.entries[app.browser.selected_index].name, "docs");
}

#[test]
fn test_search_submission_moves_to_searching() {
    let mut app = fresh_app();
    app.start_search();
    assert_eq!(app.input_mode, InputMode::SearchInput);
    for c in "main -e".chars() {
        app.search_input_char(c);
    }
    assert_eq!(app.search_input, "main -e");
    let req = app.execute_search(None).unwrap();
    assert_eq!(app.input_mode, InputMode::Searching);
    assert!(app.search_pending);
    assert_eq!(req.query, "main");
    assert!(req.exact);
    assert!(!req.dirs_only);
    assert_eq!(req.base_dir, "/t");
    assert_eq!(req.max_results, 100);
}

#[test]
fn test_search_submission_with_empty_text_cancels() {
    let mut app = fresh_app();
    app.start_search();
    for c in "-e -d".chars() {
        app.search_input_char(c);
    }
    assert!(app.execute_search(None).is_none());
    assert_eq!(app.input_mode, InputMode::Normal);
    assert_eq!(app.search_input, "");
}

#[test]
fn test_search_input_backspace_edits_text() {
    let mut app = fresh_app();
    app.start_search();
    app.search_input_char('a');
    app.search_input_char('b');
    app.search_input_backspace();
    assert_eq!(app.search_input, "a");
}

#[test]
fn test_poll_pending_advances_spinner_and_stays() {
    let mut app = fresh_app();
    app.start_search();
    app.search_input_char('m');
    app.execute_search(None).unwrap();
    let glyph_before = app.spinner_char();
    assert!(!app.poll_search(SearchPoll::Pending));
    assert_eq!(app.input_mode, InputMode::Searching);
    assert_eq!(app.spinner_frame, 1);
    assert_ne!(app.spinner_char(), glyph_before);
}

#[test]
fn test_poll_ready_with_results_moves_to_search_result() {
    let mut app = fresh_app();
    app.start_search();
    app.search_input_char('m');
    app.execute_search(None).unwrap();
    let results = vec![
        result("/t/main.rs", "main.rs", 50, false),
        result("/t/docs", "docs", 10, true),
    ];
    assert!(app.poll_search(SearchPoll::Ready(results)));
    assert_eq!(app.input_mode, InputMode::SearchResult);
    assert_eq!(app.search_results.len(), 2);
    assert_eq!(app.search_selected, 0);
    assert!(!app.search_pending);
}

#[test]
fn test_poll_ready_empty_reports_no_results() {
    let mut app = fresh_app();
    app.start_search();
    app.search_input_char('m');
    app.execute_search(None).unwrap();
    assert!(app.poll_search(SearchPoll::Ready(Vec::new())));
    assert_eq!(app.input_mode, InputMode::Normal);
    assert!(matches!(app.status_message, Some(StatusMessage::NoResults)));
}

#[test]
fn test_poll_failed_reports_and_returns_to_normal() {
    let mut app = fresh_app();
    app.start_search();
    app.search_input_char('m');
    app.execute_search(None).unwrap();
    assert!(app.poll_search(SearchPoll::Failed));
    assert_eq!(app.input_mode, InputMode::Normal);
    assert!(matches!(app.status_message, Some(StatusMessage::SearchFailed)));
    assert!(!app.search_pending);
}

#[test]
fn test_search_result_selection_wraps() {
    let mut app = fresh_app();
    app.start_search();
    app.search_input_char('m');
    app.execute_search(None).unwrap();
    let results = vec![
        result("/t/main.rs", "main.rs", 50, false),
        result("/t/docs", "docs", 10, true),
    ];
    app.poll_search(SearchPoll::Ready(results));
    app.search_move_down();
    assert_eq!(app.search_selected, 1);
    app.search_move_down();
    assert_eq!(app.search_selected, 0);
    app.search_move_up();
    assert_eq!(app.search_selected, 1);
}

#[test]
fn test_confirm_directory_result_reroots_browser() {
    let mut app = fresh_app();
    app.start_search();
    app.search_input_char('d');
    app.execute_search(None).unwrap();
    app.poll_search(SearchPoll::Ready(vec![result("/t/docs", "docs", 10, true)]));
    assert_eq!(app.confirm_read_target().as_deref(), Some("/t/docs"));
    let docs_raw = vec![entry("guide.md", "/t/docs/guide.md", false)];
    app.confirm_search_result(Some(docs_raw));
    assert_eq!(app.input_mode, InputMode::Normal);
    assert_eq!(app.browser.current_dir, "/t/docs");
    assert!(app.search_results.is_empty());
}

#[test]
fn test_confirm_file_result_selects_it_and_previews() {
    let mut app = fresh_app();
    app.start_search();
    app.search_input_char('m');
    app.execute_search(None).unwrap();
    app.poll_search(SearchPoll::Ready(vec![result("/t/main.rs", "main.rs", 50, false)]));
    assert_eq!(app.confirm_read_target().as_deref(), Some("/t"));
    app.confirm_search_result(Some(raw_listing()));
    assert_eq!(app.input_mode, InputMode::Preview);
    assert_eq!(app.browser.entries[app.browser.selected_index].name, "main.rs");
}

fn preview_of(n: usize) -> PreviewContent {
    let segs: Vec<Vec<(Style, String)>> = (0..n)
        .map(|i| vec![(Style { red: 0, green: 0, blue: 0 }, format!("line {}", i))])
        .collect();
    PreviewContent::from_segments(segs, n)
}

#[test]
fn test_preview_scroll_stays_in_bounds() {
    let mut app = fresh_app();
    app.update_preview(Some(preview_of(50)));
    app.set_preview_height(10);
    // max scroll is 40
    app.scroll_preview_down(100);
    assert_eq!(app.preview_scroll, 40);
    app.scroll_preview_up(7);
    assert_eq!(app.preview_scroll, 33);
    app.scroll_preview_up(1000);
    assert_eq!(app.preview_scroll, 0);
    app.scroll_preview_down(12);
    assert_eq!(app.preview_scroll, 12);
    // Growing the viewport re-clamps the offset.
    app.scroll_preview_down(1000);
    app.set_preview_height(45);
    assert_eq!(app.preview_scroll, 5);
    app.set_preview_height(60);
    assert_eq!(app.preview_scroll, 0);
}

#[test]
fn test_update_preview_rewinds_scroll() {
    let mut app = fresh_app();
    app.update_preview(Some(preview_of(50)));
    app.set_preview_height(10);
    app.scroll_preview_down(20);
    assert_eq!(app.preview_scroll, 20);
    app.update_preview(Some(preview_of(30)));
    assert_eq!(app.preview_scroll, 0);
}

#[test]
fn test_jump_moves_selection_and_remembers() {
    let mut app = fresh_app();
    app.start_jump();
    assert_eq!(app.input_mode, InputMode::JumpInput);
    app.execute_jump('n');
    assert_eq!(app.input_mode, InputMode::Normal);
    assert_eq!(app.browser.entries[app.browser.selected_index].name, "notes.txt");
    assert_eq!(app.last_jump_char, Some('n'));
    // Ordinary movement clears the memory.
    app.move_down();
    assert_eq!(app.last_jump_char, None);
}

#[test]
fn test_jump_without_match_notes_it() {
    let mut app = fresh_app();
    app.execute_jump('z');
    assert!(matches!(app.status_message, Some(StatusMessage::NoMatch('z'))));
    assert_eq!(app.browser.selected_index, 0);
}

#[test]
fn test_jump_next_and_prev_reuse_character() {
    let mut app = fresh_app();
    app.execute_jump('m');
    let at_main = app.browser.selected_index;
    app.jump_next();
    // Only one name starts with 'm': wrapping lands on it again.
    assert_eq!(app.browser.selected_index, at_main);
    app.jump_prev();
    assert_eq!(app.browser.selected_index, at_main);
}

#[test]
fn test_help_toggles() {
    let mut app = fresh_app();
    app.show_help();
    assert_eq!(app.input_mode, InputMode::Help);
    app.close_help();
    assert_eq!(app.input_mode, InputMode::Normal);
}

#[test]
fn test_quit_sets_flag() {
    let mut app = fresh_app();
    app.quit();
    assert!(app.should_quit);
}

#[test]
fn test_reload_notes_it() {
    let mut app = fresh_app();
    app.reload(raw_listing());
    assert!(matches!(app.status_message, Some(StatusMessage::Reloaded)));
}

#[test]
fn test_toggle_hidden_via_session() {
    let mut app = fresh_app();
    let with_hidden = vec![
        entry(".git", "/t/.git", true),
        entry("docs", "/t/docs", true),
        entry("main.rs", "/t/main.rs", false),
    ];
    app.toggle_hidden(with_hidden);
    assert!(app.browser.show_hidden);
    assert!(app.browser.entries.iter().any(|e| e.name == ".git"));
}

#[test]
fn test_selected_file_path_distinguishes_files() {
    let mut app = fresh_app();
    assert!(app.selected_file_path().is_none());
    assert_eq!(app.selected_path().as_deref(), Some("/t/docs"));
    app.move_down();
    assert_eq!(app.selected_file_path().as_deref(), Some("/t/main.rs"));
}
