use rizeclone::process_tracker::{AppInfo, DetectorKind, HostOs, ProcessTracker, select_detector};
use rizeclone::window::{WindowInfo, WindowState};

fn window(class: &str) -> Option<WindowInfo> {
    WindowInfo::observed(Some(class), None, None, WindowState::plain())
}

fn entry<'a>(t: &'a ProcessTracker, name: &str) -> &'a AppInfo {
    t.get_active_apps().iter().find(|a| a.name == name).expect("entry")
}

fn active_count(t: &ProcessTracker) -> usize {
    t.get_active_apps().iter().filter(|a| a.is_active).count()
}

#[test]
fn editor_then_gap_then_browser() {
    let mut t = ProcessTracker::new_at(0, DetectorKind::X11);
    t.record_poll(0, window("Editor"));
    t.record_poll(10, window("Editor"));
    t.record_poll(20, window("Editor"));
    t.record_poll(30, None);
    t.record_poll(40, window("Browser"));
    assert_eq!(t.get_active_apps().len(), 2);
    let editor = entry(&t, "Editor");
    assert_eq!(editor.duration, 20);
    assert!(!editor.is_active);
    let browser = entry(&t, "Browser");
    assert_eq!(browser.duration, 10);
    assert!(browser.is_active);
    assert_eq!(t.current_focused(), Some("Browser".to_string()));
}

#[test]
fn duration_is_sum_of_focused_intervals() {
    let mut t = ProcessTracker::new_at(100, DetectorKind::X11);
    t.record_poll(105, window("a"));
    t.record_poll(112, window("b"));
    t.record_poll(120, window("a"));
    t.record_poll(121, None);
    t.record_poll(150, window("a"));
    assert_eq!(entry(&t, "a").duration, 5 + 8 + 29);
    assert_eq!(entry(&t, "b").duration, 7);
}

#[test]
fn at_most_one_active_after_each_poll() {
    let mut t = ProcessTracker::new_at(0, DetectorKind::Wayland);
    for (i, k) in ["x", "y", "z", "x", "y"].iter().enumerate() {
        t.record_poll(i as i64 * 3, window(k));
        assert_eq!(active_count(&t), 1);
    }
    t.record_poll(100, None);
    assert_eq!(active_count(&t), 0);
}

#[test]
fn gap_changes_no_duration() {
    let mut t = ProcessTracker::new_at(0, DetectorKind::X11);
    t.record_poll(4, window("a"));
    t.record_poll(9, window("b"));
    let before: Vec<(String, u64)> = t.get_active_apps().iter().map(|a| (a.name.clone(), a.duration)).collect();
    t.record_poll(60, None);
    let after: Vec<(String, u64)> = t.get_active_apps().iter().map(|a| (a.name.clone(), a.duration)).collect();
    assert_eq!(before, after);
    assert!(t.get_active_apps().iter().all(|a| !a.is_active));
    assert_eq!(t.current_focused(), None);
    assert_eq!(t.last_update(), 60);
}

#[test]
fn new_key_creates_one_active_entry() {
    let mut t = ProcessTracker::new_at(0, DetectorKind::X11);
    t.record_poll(3, window("a"));
    t.record_poll(5, window("c"));
    assert_eq!(t.get_active_apps().len(), 2);
    let c = entry(&t, "c");
    assert!(c.is_active);
    assert_eq!(c.duration, 2);
    assert_eq!(c.start_time, 5);
    assert_eq!(t.get_active_apps().iter().filter(|a| a.name == "c").count(), 1);
    t.record_poll(9, window("c"));
    assert_eq!(t.get_active_apps().len(), 2);
    assert_eq!(entry(&t, "c").duration, 6);
    assert_eq!(entry(&t, "c").start_time, 5);
    assert_eq!(entry(&t, "c").last_updated, 9);
}

#[test]
fn poll_reports_credited_seconds() {
    let mut t = ProcessTracker::new_at(0, DetectorKind::X11);
    assert_eq!(t.record_poll(4, window("a")), Some(("a".to_string(), 4)));
    assert_eq!(t.record_poll(10, window("a")), Some(("a".to_string(), 6)));
    assert_eq!(t.record_poll(12, None), None);
    assert_eq!(t.record_poll(20, window("b")), Some(("b".to_string(), 8)));
    assert_eq!(t.record_poll(15, window("b")), Some(("b".to_string(), 0)));
}

#[test]
fn clock_going_back_adds_nothing() {
    let mut t = ProcessTracker::new_at(50, DetectorKind::X11);
    t.record_poll(40, window("a"));
    assert_eq!(entry(&t, "a").duration, 0);
    assert_eq!(t.elapsed_since_last(30), 0);
    assert_eq!(t.elapsed_since_last(45), 5);
}

#[test]
fn sample_title_and_flags_are_mirrored() {
    let mut t = ProcessTracker::new_at(0, DetectorKind::X11);
    let mut st = WindowState::plain();
    t.record_poll(1, WindowInfo::observed(Some("term"), Some("one"), Some(7), st));
    st.fullscreen = true;
    t.record_poll(2, WindowInfo::observed(Some("term"), Some("two"), Some(7), st));
    let e = entry(&t, "term");
    assert_eq!(e.window_title, Some("two".to_string()));
    assert!(e.state.fullscreen);
}

#[test]
fn detector_is_chosen_from_host() {
    assert_eq!(select_detector(HostOs::Linux, true), DetectorKind::Wayland);
    assert_eq!(select_detector(HostOs::Linux, false), DetectorKind::X11);
    assert_eq!(select_detector(HostOs::MacOs, false), DetectorKind::MacOs);
    assert_eq!(select_detector(HostOs::Windows, true), DetectorKind::Windows);
    assert_eq!(select_detector(HostOs::Other, false), DetectorKind::Unsupported);
    let t = ProcessTracker::new(DetectorKind::MacOs);
    assert_eq!(t.detector(), DetectorKind::MacOs);
    assert!(t.get_active_apps().is_empty());
}

#[test]
fn update_uses_the_clock() {
    let mut t = ProcessTracker::new(DetectorKind::X11);
    t.update(window("a"));
    assert_eq!(t.get_active_apps().len(), 1);
    assert!(entry(&t, "a").is_active);
    assert!(t.last_update() > 1_600_000_000);
}
