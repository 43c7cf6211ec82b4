//! User settings.

use vstd::prelude::*;

verus! {

/// Minutes in a focus session unless the user picks another length.
pub const DEFAULT_FOCUS_MINUTES: i64 = 25;

/// Settings of the application. Paths are held as strings.
#[derive(Debug)]
pub struct Config {
    pub data_dir: String,
    pub music_dir: Option<String>,
    /// In minutes.
    pub default_focus_duration: i64,
    pub auto_start_focus: bool,
    pub track_window_titles: bool,
}

impl Config {
    /// The default settings for the given data and music directories: a
    /// 25-minute focus session, no automatic start, window titles tracked.
    pub fn with_dirs(data_dir: String, music_dir: Option<String>) -> (r: Config)
        ensures
            r.data_dir@ == data_dir@,
            r.music_dir == music_dir,
            r.default_focus_duration == DEFAULT_FOCUS_MINUTES,
            !r.auto_start_focus,
            r.track_window_titles,
    {
        Config {
            data_dir,
            music_dir,
            default_focus_duration: DEFAULT_FOCUS_MINUTES,
            auto_start_focus: false,
            track_window_titles: true,
        }
    }

    /// Whether sessions started from these settings play music.
    pub fn music_enabled(&self) -> (r: bool)
        ensures
            r == self.music_dir is Some,
    {
        self.music_dir.is_some()
    }
}

} // verus!
