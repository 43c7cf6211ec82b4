use rizeclone::calendar::{Calendar, CivilDate};
use rizeclone::focus_mode::FocusSessionSummary;
use rizeclone::process_tracker::{DetectorKind, ProcessTracker};
use rizeclone::window::{WindowInfo, WindowState};

fn date(year: i32, month: u32, day: u32) -> CivilDate {
    CivilDate { year, month, day }
}

fn total(c: &Calendar, d: CivilDate, name: &str) -> u64 {
    c.get_activity_for_date(d)
        .and_then(|a| a.process_durations.iter().find(|p| p.name == name).map(|p| p.seconds))
        .unwrap_or(0)
}

#[test]
fn activity_adds_up_per_day_and_app() {
    let mut c = Calendar::new();
    let d1 = date(2024, 3, 1);
    let d2 = date(2024, 3, 2);
    assert!(c.get_activity_for_date(d1).is_none());
    c.add_activity_on(d1, "editor".to_string(), 30);
    c.add_activity_on(d1, "editor".to_string(), 12);
    c.add_activity_on(d1, "shell".to_string(), 5);
    c.add_activity_on(d2, "editor".to_string(), 7);
    assert_eq!(total(&c, d1, "editor"), 42);
    assert_eq!(total(&c, d1, "shell"), 5);
    assert_eq!(total(&c, d2, "editor"), 7);
    assert_eq!(total(&c, d2, "shell"), 0);
    assert_eq!(c.get_activity_for_date(d1).unwrap().process_durations.len(), 2);
    c.add_activity_on(d1, "editor".to_string(), u64::MAX);
    assert_eq!(total(&c, d1, "editor"), u64::MAX);
}

#[test]
fn sessions_are_filed_by_day() {
    let mut c = Calendar::new();
    let d = date(2024, 1, 31);
    let s1 = FocusSessionSummary { start_time: 10, duration: 1500, music_used: false };
    let s2 = FocusSessionSummary { start_time: 20, duration: 600, music_used: true };
    c.add_focus_session_on(d, s1);
    c.add_focus_session_on(d, s2);
    let a = c.get_activity_for_date(d).unwrap();
    assert_eq!(a.focus_sessions, vec![s1, s2]);
    assert_eq!(a.focus_total(), 2100);
    assert!(a.process_durations.is_empty());
}

#[test]
fn session_date_comes_from_start_time() {
    let mut c = Calendar::new();
    let s = FocusSessionSummary { start_time: 1431648000, duration: 60, music_used: false };
    assert_eq!(c.add_focus_session(s), Ok(()));
    let a = c.get_activity_for_date(date(2015, 5, 15)).unwrap();
    assert_eq!(a.focus_sessions.len(), 1);
    assert!(c.get_activity_at(1431648000 + 3600).is_some());
    assert!(c.get_activity_at(1431648000 - 1).is_none());
    assert_eq!(c.add_activity("x".to_string(), 3), Ok(()));
}

#[test]
fn dates_follow_utc_days() {
    let mut c = Calendar::new();
    let cases = [
        (0i64, date(1970, 1, 1)),
        (-1, date(1969, 12, 31)),
        (-86400, date(1969, 12, 31)),
        (951782400, date(2000, 2, 29)),
        (951868799, date(2000, 2, 29)),
        (4107542400, date(2100, 3, 1)),
        (-2208988800, date(1900, 1, 1)),
    ];
    for (ts, d) in cases.iter() {
        let s = FocusSessionSummary { start_time: *ts, duration: 1, music_used: false };
        assert_eq!(c.add_focus_session(s), Ok(()));
        assert!(c.get_activity_for_date(*d).is_some(), "{:?}", d);
        assert_eq!(c.get_activity_at(*ts).unwrap().date, *d);
    }
    assert_eq!(c.get_activity_for_date(date(1969, 12, 31)).unwrap().focus_sessions.len(), 2);
}

#[test]
fn dashboard_lists_longest_first() {
    let mut t = ProcessTracker::new_at(0, DetectorKind::X11);
    let w = |k: &str| WindowInfo::observed(Some(k), None, None, WindowState::plain());
    t.record_poll(0, w("a"));
    t.record_poll(5, w("b"));
    t.record_poll(25, w("c"));
    t.record_poll(30, w("d"));
    t.record_poll(35, w("a"));
    let order = t.dashboard_order();
    let names: Vec<&str> = order.iter().map(|&i| t.get_active_apps()[i].name.as_str()).collect();
    assert_eq!(names, vec!["c", "a", "b", "d"]);
}
