//! Focus sessions: a countdown of a chosen length, optionally with music.

use vstd::prelude::*;
use crate::utils::get_timestamp;

verus! {

/// A running focus session. Times are Unix timestamps in seconds, the
/// duration is in seconds.
#[derive(Debug)]
pub struct FocusSession {
    pub start_time: i64,
    pub duration: i64,
    pub music_enabled: bool,
    pub music_path: Option<String>,
}

/// What is kept of a session once it is over.
#[derive(Clone, Copy, PartialEq, Eq, Structural, Debug)]
pub struct FocusSessionSummary {
    pub start_time: i64,
    pub duration: i64,
    pub music_used: bool,
}

/// Why a session could not start.
#[derive(Clone, Copy, PartialEq, Eq, Structural, Debug)]
pub enum FocusError {
    /// The length in minutes does not fit in seconds.
    DurationOutOfRange,
    /// The clock reads before the Unix epoch.
    ClockUnavailable,
}

pub struct FocusMode {
    current_session: Option<FocusSession>,
    music_playlist: Vec<String>,
}

impl FocusMode {
    pub closed spec fn session(&self) -> Option<FocusSession> {
        self.current_session
    }

    pub closed spec fn playlist(&self) -> Seq<Seq<char>> {
        self.music_playlist@.map_values(|p: String| p@)
    }

    pub fn new() -> (r: FocusMode)
        ensures
            r.session() is None,
            r.playlist().len() == 0,
    {
        let r = FocusMode { current_session: None, music_playlist: Vec::new() };
        assert(r.playlist() =~= Seq::<Seq<char>>::empty());
        r
    }

    /// Starts a session of `duration_minutes` minutes at time `now`, with the
    /// first track of the playlist where music is enabled. A running session
    /// is replaced.
    pub fn start_session_at(&mut self, now: i64, duration_minutes: i64, music_enabled: bool) -> (r:
        Result<(), FocusError>)
        ensures
            r is Err <==> !(i64::MIN <= duration_minutes * 60 <= i64::MAX),
            r is Err ==> final(self).session() == old(self).session(),
            r is Ok ==> (final(self).session() matches Some(s) && s.start_time == now && s.duration
                == duration_minutes * 60 && s.music_enabled == music_enabled && (
            if music_enabled && old(self).playlist().len() > 0 {
                s.music_path matches Some(p) && p@ == old(self).playlist()[0]
            } else {
                s.music_path is None
            })),
            final(self).playlist() == old(self).playlist(),
    {
        let secs = match duration_minutes.checked_mul(60) {
            Some(v) => v,
            None => {
                return Err(FocusError::DurationOutOfRange);
            },
        };
        let music_path = if music_enabled && self.music_playlist.len() > 0 {
            Some(self.music_playlist[0].clone())
        } else {
            None
        };
        self.current_session = Some(
            FocusSession { start_time: now, duration: secs, music_enabled, music_path },
        );
        Ok(())
    }

    /// Starts a session of `duration_minutes` minutes now, with the first
    /// track of the playlist where music is enabled.
    pub fn start_session(&mut self, duration_minutes: i64, music_enabled: bool) -> (r: Result<(), FocusError>)
        ensures
            !(i64::MIN <= duration_minutes * 60 <= i64::MAX) ==> r == Err::<(), FocusError>(
                FocusError::DurationOutOfRange,
            ),
            r is Err ==> final(self).session() == old(self).session(),
            r is Ok ==> (final(self).session() matches Some(s) && s.duration == duration_minutes * 60
                && s.music_enabled == music_enabled && s.start_time >= 0 && (
            if music_enabled && old(self).playlist().len() > 0 {
                s.music_path matches Some(p) && p@ == old(self).playlist()[0]
            } else {
                s.music_path is None
            })),
            final(self).playlist() == old(self).playlist(),
    {
        if duration_minutes.checked_mul(60).is_none() {
            return Err(FocusError::DurationOutOfRange);
        }
        match get_timestamp() {
            Some(now) => self.start_session_at(now, duration_minutes, music_enabled),
            None => Err(FocusError::ClockUnavailable),
        }
    }

    /// Ends the running session, if any, and returns what is kept of it.
    pub fn end_session(&mut self) -> (r: Option<FocusSessionSummary>)
        ensures
            final(self).session() is None,
            final(self).playlist() == old(self).playlist(),
            r is None <==> old(self).session() is None,
            r matches Some(x) ==> (old(self).session() matches Some(s) && x.start_time == s.start_time
                && x.duration == s.duration && x.music_used == s.music_enabled),
    {
        let r = match &self.current_session {
            Some(s) => Some(
                FocusSessionSummary {
                    start_time: s.start_time,
                    duration: s.duration,
                    music_used: s.music_enabled,
                },
            ),
            None => None,
        };
        self.current_session = None;
        r
    }

    pub fn add_music(&mut self, path: String)
        ensures
            final(self).playlist() == old(self).playlist().push(path@),
            final(self).session() == old(self).session(),
    {
        self.music_playlist.push(path);
        assert(self.playlist() =~= old(self).playlist().push(path@));
    }

    pub fn get_current_session(&self) -> (r: Option<&FocusSession>)
        ensures
            r is None <==> self.session() is None,
            r matches Some(s) ==> self.session() == Some(*s),
    {
        match &self.current_session {
            Some(s) => Some(s),
            None => None,
        }
    }

    pub fn is_session_active(&self) -> (r: bool)
        ensures
            r == self.session() is Some,
    {
        self.current_session.is_some()
    }

    /// Seconds left at time `now` in the running session; negative once it
    /// has overrun.
    pub fn remaining_at(&self, now: i64) -> (r: Option<i128>)
        ensures
            r is None <==> self.session() is None,
            r matches Some(x) ==> (self.session() matches Some(s) && x == s.duration - (now - s.start_time)),
    {
        match &self.current_session {
            Some(s) => Some((s.duration as i128) - ((now as i128) - (s.start_time as i128))),
            None => None,
        }
    }
}

} // verus!
