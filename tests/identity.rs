use rizeclone::identity::{clean_key, derive_identity, resolve_identity, title_segment_of};
use rizeclone::window::{WindowInfo, WindowState};

#[test]
fn title_only_window_gets_derived_key() {
    assert_eq!(derive_identity("Report.docx - WordProcessor"), Some("report.docx".to_string()));
    let w = WindowInfo::observed(None, Some("Report.docx - WordProcessor"), None, WindowState::plain()).unwrap();
    assert_eq!(w.identity, "report.docx");
    assert_eq!(w.title, Some("Report.docx - WordProcessor".to_string()));
}

#[test]
fn separators_are_tried_in_order() {
    assert_eq!(title_segment_of("a | b - c"), "a | b");
    assert_eq!(title_segment_of("Inbox \u{2014} Mail | x"), "Inbox");
    assert_eq!(title_segment_of("  Music | Player "), "Music");
    assert_eq!(title_segment_of("plain"), "plain");
    assert_eq!(title_segment_of("a-b"), "a-b");
}

#[test]
fn noise_words_are_stripped() {
    assert_eq!(clean_key("terminal window"), Some("terminal".to_string()));
    assert_eq!(clean_key(" web browser client "), Some("web".to_string()));
    assert_eq!(clean_key("window"), None);
    assert_eq!(clean_key("   "), None);
    assert_eq!(derive_identity("Main Window - App"), Some("main".to_string()));
    assert_eq!(derive_identity("Browser - Something"), None);
}

#[test]
fn derivation_lowercases() {
    assert_eq!(derive_identity("HELLO World"), Some("hello world".to_string()));
}

#[test]
fn derivation_is_deterministic_and_idempotent() {
    let titles = ["Report.docx - WordProcessor", "Notes \u{2014} Editor", "MAIL | inbox", "Terminal"];
    for t in titles.iter() {
        let a = derive_identity(t).unwrap();
        let b = derive_identity(t).unwrap();
        assert_eq!(a, b);
        assert_eq!(derive_identity(&a), Some(a.clone()));
    }
}

#[test]
fn class_wins_over_title() {
    assert_eq!(resolve_identity(Some("Editor"), Some("x - y")), Some("Editor".to_string()));
    assert_eq!(resolve_identity(Some(""), Some("X - y")), Some("x".to_string()));
    assert_eq!(resolve_identity(None, None), None);
    assert_eq!(resolve_identity(Some(""), None), None);
    assert!(WindowInfo::observed(None, Some(" - x"), None, WindowState::plain()).is_none());
}
