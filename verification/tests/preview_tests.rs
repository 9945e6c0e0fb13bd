use vfv::preview::{is_binary, PreviewContent, Style};

#[test]
fn test_is_binary_detects_binary() {
    // Content with >10% null bytes is binary
    let binary: Vec<u8> = vec![0, 0, 0, 1, 2, 3, 4, 5, 6, 7];
    assert!(is_binary(&binary));
}

#[test]
fn test_is_binary_allows_text() {
    // Normal text content
    let text = b"Hello, World!\nThis is a text file.";
    assert!(!is_binary(text));
}

#[test]
fn test_is_binary_empty_content() {
    let empty: Vec<u8> = vec![];
    assert!(!is_binary(&empty));
}

#[test]
fn test_is_binary_boundary() {
    // Exactly one null in ten bytes is not over the tenth-of-content line.
    let borderline: Vec<u8> = vec![0, 1, 2, 3, 4, 5, 6, 7, 8, 9];
    assert!(!is_binary(&borderline));
    // Two nulls in ten bytes are.
    let over: Vec<u8> = vec![0, 0, 2, 3, 4, 5, 6, 7, 8, 9];
    assert!(over.len() == 10);
    assert!(is_binary(&over));
}

fn plain(text: &str) -> Vec<(Style, String)> {
    vec![(Style { red: 1, green: 2, blue: 3 }, text.to_string())]
}

#[test]
fn test_from_segments_numbers_lines_from_one() {
    let segs = vec![plain("alpha"), plain("beta"), plain("gamma")];
    let content = PreviewContent::from_segments(segs, 100);
    assert_eq!(content.lines.len(), 3);
    assert_eq!(content.lines[0].line_number, 1);
    assert_eq!(content.lines[2].line_number, 3);
    assert_eq!(content.lines[1].segments[0].1, "beta");
}

#[test]
fn test_from_segments_respects_max_lines() {
    let segs: Vec<_> = (0..100).map(|i| plain(&format!("line {}", i))).collect();
    let content = PreviewContent::from_segments(segs, 10);
    assert_eq!(content.lines.len(), 10);
}

#[test]
fn test_directory_message() {
    let content = PreviewContent::directory_message();
    assert_eq!(content.lines.len(), 1);
    assert!(content.lines[0].segments.iter().any(|(_, text)| text.contains("[Directory]")));
}

#[test]
fn test_binary_message() {
    let content = PreviewContent::binary_message();
    assert_eq!(content.lines.len(), 1);
    assert!(content.lines[0].segments.iter().any(|(_, text)| text.contains("[Binary file]")));
}

#[test]
fn test_visible_slice_clips() {
    let segs: Vec<_> = (0..10).map(|i| plain(&format!("line {}", i))).collect();
    let content = PreviewContent::from_segments(segs, 100);
    let slice = content.visible_slice(7, 5);
    assert_eq!(slice.len(), 3);
    assert_eq!(slice[0].line_number, 8);
    let past_end = content.visible_slice(50, 5);
    assert!(past_end.is_empty());
}
