use rizeclone::config::Config;
use rizeclone::focus_mode::{FocusError, FocusMode};
use rizeclone::utils::{format_duration, get_timestamp, get_window_title};

#[test]
fn durations_are_formatted() {
    assert_eq!(format_duration(0), "00:00");
    assert_eq!(format_duration(59), "00:59");
    assert_eq!(format_duration(61), "01:01");
    assert_eq!(format_duration(3599), "59:59");
    assert_eq!(format_duration(3600), "01:00:00");
    assert_eq!(format_duration(45296), "12:34:56");
    assert_eq!(format_duration(360000), "100:00:00");
    assert_eq!(format_duration(-30), "00:-30");
    assert_eq!(format_duration(-90), "-1:-30");
}

#[test]
fn window_title_is_not_read_here() {
    assert_eq!(get_window_title(), Ok(None));
    assert!(get_timestamp().unwrap() > 1_600_000_000);
}

#[test]
fn focus_session_runs_and_ends() {
    let mut f = FocusMode::new();
    assert!(!f.is_session_active());
    assert_eq!(f.start_session_at(100, 25, false), Ok(()));
    assert!(f.is_session_active());
    let s = f.get_current_session().unwrap();
    assert_eq!(s.duration, 1500);
    assert_eq!(s.start_time, 100);
    assert_eq!(s.music_path, None);
    assert_eq!(f.remaining_at(400), Some(1200));
    assert_eq!(f.remaining_at(2000), Some(-400));
    let summary = f.end_session().unwrap();
    assert_eq!(summary.duration, 1500);
    assert!(!summary.music_used);
    assert!(!f.is_session_active());
    assert_eq!(f.end_session(), None);
    assert_eq!(f.remaining_at(0), None);
}

#[test]
fn focus_session_with_music() {
    let mut f = FocusMode::new();
    assert_eq!(f.start_session_at(0, 5, true), Ok(()));
    assert_eq!(f.get_current_session().unwrap().music_path, None);
    f.add_music("a.mp3".to_string());
    f.add_music("b.mp3".to_string());
    assert_eq!(f.start_session(25, true), Ok(()));
    let s = f.get_current_session().unwrap();
    assert_eq!(s.music_path, Some("a.mp3".to_string()));
    assert_eq!(s.duration, 25 * 60);
    assert!(s.start_time > 1_600_000_000);
}

#[test]
fn focus_session_too_long_is_refused() {
    let mut f = FocusMode::new();
    assert_eq!(f.start_session_at(0, i64::MAX, false), Err(FocusError::DurationOutOfRange));
    assert_eq!(f.start_session(i64::MIN, false), Err(FocusError::DurationOutOfRange));
    assert!(!f.is_session_active());
}

#[test]
fn config_defaults() {
    let c = Config::with_dirs("/data/rizeclone".to_string(), None);
    assert_eq!(c.default_focus_duration, 25);
    assert!(!c.auto_start_focus);
    assert!(c.track_window_titles);
    assert!(!c.music_enabled());
    let c = Config::with_dirs("d".to_string(), Some("m".to_string()));
    assert!(c.music_enabled());
}
