//! The daily roll-up: focused time per application and finished focus
//! sessions, kept per calendar day (UTC).

use vstd::prelude::*;
use chrono::Datelike;
use crate::focus_mode::FocusSessionSummary;
use crate::process_tracker::sat_add;
use crate::utils::get_timestamp;

verus! {

/// A day of the proleptic Gregorian calendar.
#[derive(Clone, Copy, PartialEq, Eq, Structural, Debug)]
pub struct CivilDate {
    pub year: i32,
    pub month: u32,
    pub day: u32,
}

/// The proleptic Gregorian date, as (year, month, day), of the day `days`
/// after 1 January 1970 (the civil-from-days computation; `/` floors here).
pub open spec fn civil_from_days(days: int) -> (int, int, int) {
    let z = days + 719468;
    let era = z / 146097;
    let doe = z - era * 146097;
    let yoe = (doe - doe / 1460 + doe / 36524 - doe / 146096) / 365;
    let doy = doe - (365 * yoe + yoe / 4 - yoe / 100);
    let mp = (5 * doy + 2) / 153;
    let d = doy - (153 * mp + 2) / 5 + 1;
    let m = if mp < 10 { mp + 3 } else { mp - 9 };
    let y = yoe + era * 400 + if m <= 2 { 1int } else { 0int };
    (y, m, d)
}

/// The UTC date, as (year, month, day), of a Unix timestamp in seconds.
pub open spec fn utc_date_of(ts: int) -> (int, int, int) {
    civil_from_days(ts / 86400)
}

/// Timestamps whose date chrono represents: about 253,000 years either side
/// of 1970.
pub open spec fn date_in_range(ts: int) -> bool {
    -8_000_000_000_000 <= ts <= 8_000_000_000_000
}

pub open spec fn date_of(d: CivilDate) -> (int, int, int) {
    (d.year as int, d.month as int, d.day as int)
}

/// Relies on `chrono::DateTime::from_timestamp` and the `Datelike` getters:
/// the UTC date of the timestamp `ts`; `None` only outside chrono's range of
/// years, which the range here stays well within.
#[verifier::external_body]
fn utc_date(ts: i64) -> (r: Option<CivilDate>)
    ensures
        r matches Some(d) ==> date_of(d) == utc_date_of(ts as int),
        date_in_range(ts as int) ==> r is Some,
{
    match chrono::DateTime::from_timestamp(ts, 0) {
        Some(t) => Some(CivilDate { year: t.year(), month: t.month(), day: t.day() }),
        None => None,
    }
}

/// Seconds of focus one application had on one day.
#[derive(Debug)]
pub struct ProcessTotal {
    pub name: String,
    pub seconds: u64,
}

/// What one day holds.
#[derive(Debug)]
pub struct DailyActivity {
    pub date: CivilDate,
    pub process_durations: Vec<ProcessTotal>,
    pub focus_sessions: Vec<FocusSessionSummary>,
}

/// Why an event could not be filed under a day.
#[derive(Clone, Copy, PartialEq, Eq, Structural, Debug)]
pub enum CalendarError {
    /// The date lies outside the calendar's range of years.
    DateOutOfRange,
    /// The clock reads before the Unix epoch.
    ClockUnavailable,
}

/// The first position at or after `i` whose element satisfies `p`.
pub open spec fn first_where<T>(s: Seq<T>, p: spec_fn(T) -> bool, i: int) -> Option<int>
    decreases s.len() - i,
{
    if i < 0 || i >= s.len() {
        None
    } else if p(s[i]) {
        Some(i)
    } else {
        first_where(s, p, i + 1)
    }
}

pub open spec fn is_day(d: CivilDate) -> spec_fn(DailyActivity) -> bool {
    |a: DailyActivity| a.date == d
}

pub open spec fn is_named(n: Seq<char>) -> spec_fn(ProcessTotal) -> bool {
    |t: ProcessTotal| t.name@ == n
}

/// The seconds recorded for `n` among `ps`; zero where there are none.
pub open spec fn total_in(ps: Seq<ProcessTotal>, n: Seq<char>) -> u64 {
    match first_where(ps, is_named(n), 0) {
        Some(j) => ps[j].seconds,
        None => 0,
    }
}

proof fn lemma_first_where_found<T>(s: Seq<T>, p: spec_fn(T) -> bool, i: int)
    ensures
        first_where(s, p, i) matches Some(j) ==> i <= j < s.len() && p(s[j]),
    decreases s.len() - i,
{
    if 0 <= i < s.len() && !p(s[i]) {
        lemma_first_where_found(s, p, i + 1);
    }
}

proof fn lemma_first_where_update<T>(s: Seq<T>, p: spec_fn(T) -> bool, k: int, x: T, i: int)
    requires
        0 <= k < s.len(),
        p(x) == p(s[k]),
    ensures
        first_where(s.update(k, x), p, i) == first_where(s, p, i),
    decreases s.len() - i,
{
    if 0 <= i < s.len() {
        lemma_first_where_update(s, p, k, x, i + 1);
    }
}

proof fn lemma_first_where_push<T>(s: Seq<T>, p: spec_fn(T) -> bool, x: T, i: int)
    requires
        0 <= i <= s.len(),
    ensures
        first_where(s.push(x), p, i) == (match first_where(s, p, i) {
            Some(j) => Some(j),
            None => if p(x) {
                Some(s.len() as int)
            } else {
                None
            },
        }),
    decreases s.len() - i,
{
    assert(s.push(x)[s.len() as int] == x);
    if i < s.len() {
        assert(s.push(x)[i] == s[i]);
        lemma_first_where_push(s, p, x, i + 1);
    } else {
        assert(first_where(s.push(x), p, i + 1) is None);
        assert(first_where(s, p, i) is None);
    }
}

fn find_name(ps: &Vec<ProcessTotal>, name: &String) -> (r: Option<usize>)
    ensures
        r matches Some(j) ==> first_where(ps@, is_named(name@), 0) == Some(j as int),
        r is None ==> first_where(ps@, is_named(name@), 0) is None,
{
    let mut j: usize = 0;
    while j < ps.len()
        invariant
            j <= ps@.len(),
            first_where(ps@, is_named(name@), 0) == first_where(ps@, is_named(name@), j as int),
        decreases ps@.len() - j,
    {
        if ps[j].name == *name {
            return Some(j);
        }
        j += 1;
    }
    None
}

fn add_to_totals(ps: &mut Vec<ProcessTotal>, name: String, secs: u64)
    ensures
        total_in(final(ps)@, name@) == sat_add(total_in(old(ps)@, name@), secs),
        forall|n: Seq<char>| n != name@ ==> total_in(final(ps)@, n) == total_in(old(ps)@, n),
{
    let ghost s = ps@;
    match find_name(ps, &name) {
        Some(j) => {
            proof {
                lemma_first_where_found(s, is_named(name@), 0);
            }
            let mut e = ps.remove(j);
            e.seconds = e.seconds.saturating_add(secs);
            ps.insert(j, e);
            proof {
                assert(ps@ =~= s.update(j as int, e));
                assert forall|n: Seq<char>| true implies first_where(ps@, is_named(n), 0) == first_where(
                    s,
                    is_named(n),
                    0,
                ) by {
                    lemma_first_where_update(s, is_named(n), j as int, e, 0);
                }
                assert forall|n: Seq<char>| n != name@ implies total_in(ps@, n) == total_in(s, n) by {
                    lemma_first_where_found(s, is_named(n), 0);
                }
            }
        },
        None => {
            let ghost nm = name@;
            let e = ProcessTotal { name, seconds: secs };
            ps.push(e);
            proof {
                assert forall|n: Seq<char>| true implies first_where(ps@, is_named(n), 0) == (match first_where(
                    s,
                    is_named(n),
                    0,
                ) {
                    Some(j) => Some(j),
                    None => if n == nm {
                        Some(s.len() as int)
                    } else {
                        None
                    },
                }) by {
                    lemma_first_where_push(s, is_named(n), e, 0);
                }
                assert forall|n: Seq<char>| n != nm implies total_in(ps@, n) == total_in(s, n) by {
                    lemma_first_where_found(s, is_named(n), 0);
                }
            }
        },
    }
}

/// The summed durations of `s`.
pub open spec fn sessions_total(s: Seq<FocusSessionSummary>) -> int
    decreases s.len(),
{
    if s.len() == 0 {
        0
    } else {
        sessions_total(s.drop_last()) + s.last().duration
    }
}

impl DailyActivity {
    /// Seconds spent in the day's focus sessions.
    pub fn focus_total(&self) -> (r: i128)
        requires
            self.focus_sessions@.len() <= u64::MAX,
        ensures
            r == sessions_total(self.focus_sessions@),
    {
        let mut sum: i128 = 0;
        let mut i: usize = 0;
        while i < self.focus_sessions.len()
            invariant
                i <= self.focus_sessions@.len() <= u64::MAX,
                sum == sessions_total(self.focus_sessions@.subrange(0, i as int)),
                -(i as int) * 0x8000_0000_0000_0000 <= sum <= (i as int) * 0x8000_0000_0000_0000,
            decreases self.focus_sessions@.len() - i,
        {
            let ghost prefix = self.focus_sessions@.subrange(0, i + 1);
            assert(prefix.drop_last() =~= self.focus_sessions@.subrange(0, i as int));
            sum = sum + (self.focus_sessions[i].duration as i128);
            i += 1;
        }
        assert(self.focus_sessions@.subrange(0, i as int) =~= self.focus_sessions@);
        sum
    }
}

/// Daily activity, one entry per day.
pub struct Calendar {
    activities: Vec<DailyActivity>,
}

impl Calendar {
    pub closed spec fn days(&self) -> Seq<DailyActivity> {
        self.activities@
    }

    /// A day for `d` is held.
    pub open spec fn has_day(&self, d: CivilDate) -> bool {
        first_where(self.days(), is_day(d), 0) is Some
    }

    /// Seconds of focus recorded for application `n` on day `d`.
    pub open spec fn total(&self, d: CivilDate, n: Seq<char>) -> u64 {
        match first_where(self.days(), is_day(d), 0) {
            Some(i) => total_in(self.days()[i].process_durations@, n),
            None => 0,
        }
    }

    /// Focus sessions recorded on day `d`, oldest first.
    pub open spec fn sessions(&self, d: CivilDate) -> Seq<FocusSessionSummary> {
        match first_where(self.days(), is_day(d), 0) {
            Some(i) => self.days()[i].focus_sessions@,
            None => Seq::empty(),
        }
    }

    pub fn new() -> (r: Calendar)
        ensures
            forall|d: CivilDate| !r.has_day(d),
    {
        Calendar { activities: Vec::new() }
    }

    fn find_day(&self, date: CivilDate) -> (r: Option<usize>)
        ensures
            r matches Some(i) ==> first_where(self.days(), is_day(date), 0) == Some(i as int),
            r is None ==> first_where(self.days(), is_day(date), 0) is None,
    {
        let mut i: usize = 0;
        while i < self.activities.len()
            invariant
                i <= self.days().len(),
                first_where(self.days(), is_day(date), 0) == first_where(self.days(), is_day(date), i as int),
            decreases self.days().len() - i,
        {
            if self.activities[i].date == date {
                return Some(i);
            }
            i += 1;
        }
        None
    }

    /// Adds `secs` seconds of focus for `name` on day `date`, saturating.
    pub fn add_activity_on(&mut self, date: CivilDate, name: String, secs: u64)
        ensures
            final(self).has_day(date),
            final(self).total(date, name@) == sat_add(old(self).total(date, name@), secs),
            forall|d: CivilDate, n: Seq<char>|
                (d != date || n != name@) ==> final(self).total(d, n) == old(self).total(d, n),
            forall|d: CivilDate| d != date ==> final(self).has_day(d) == old(self).has_day(d),
            forall|d: CivilDate| final(self).sessions(d) == old(self).sessions(d),
    {
        let ghost s = self.days();
        let ghost nm = name@;
        match self.find_day(date) {
            Some(i) => {
                proof {
                    lemma_first_where_found(s, is_day(date), 0);
                }
                let mut day = self.activities.remove(i);
                let ghost before = day.process_durations@;
                assert(day == s[i as int]);
                add_to_totals(&mut day.process_durations, name, secs);
                self.activities.insert(i, day);
                proof {
                    assert(self.days() =~= s.update(i as int, day));
                    assert forall|d: CivilDate| true implies first_where(self.days(), is_day(d), 0)
                        == first_where(s, is_day(d), 0) by {
                        lemma_first_where_update(s, is_day(d), i as int, day, 0);
                        lemma_first_where_found(s, is_day(d), 0);
                    }
                    assert forall|d: CivilDate, n: Seq<char>| (d != date || n != nm) implies self.total(
                        d,
                        n,
                    ) == old(self).total(d, n) by {
                        lemma_first_where_found(s, is_day(d), 0);
                    }
                    assert forall|d: CivilDate| true implies self.sessions(d) == old(self).sessions(d) by {
                        lemma_first_where_found(s, is_day(d), 0);
                    }
                }
            },
            None => {
                let mut ps: Vec<ProcessTotal> = Vec::new();
                let ghost empty = ps@;
                add_to_totals(&mut ps, name, secs);
                let day = DailyActivity { date, process_durations: ps, focus_sessions: Vec::new() };
                self.activities.push(day);
                proof {
                    assert(total_in(empty, nm) == 0);
                    assert forall|n: Seq<char>| n != nm implies total_in(ps@, n) == 0 by {
                        assert(total_in(empty, n) == 0);
                    }
                    assert forall|d: CivilDate| true implies first_where(self.days(), is_day(d), 0) == (
                    match first_where(s, is_day(d), 0) {
                        Some(j) => Some(j),
                        None => if d == date {
                            Some(s.len() as int)
                        } else {
                            None
                        },
                    }) by {
                        lemma_first_where_push(s, is_day(d), day, 0);
                        lemma_first_where_found(s, is_day(d), 0);
                    }
                    assert(day.focus_sessions@ =~= Seq::<FocusSessionSummary>::empty());
                    assert forall|d: CivilDate, n: Seq<char>| (d != date || n != nm) implies self.total(
                        d,
                        n,
                    ) == old(self).total(d, n) by {
                        lemma_first_where_found(s, is_day(d), 0);
                        assert(self.days()[s.len() as int] == day);
                        if let Some(j) = first_where(s, is_day(d), 0) {
                            assert(self.days()[j] == s[j]);
                        }
                    }
                    assert forall|d: CivilDate| true implies self.sessions(d) == old(self).sessions(d) by {
                        lemma_first_where_found(s, is_day(d), 0);
                        assert(self.days()[s.len() as int] == day);
                        if let Some(j) = first_where(s, is_day(d), 0) {
                            assert(self.days()[j] == s[j]);
                        }
                    }
                }
            },
        }
    }

    /// Adds `secs` seconds of focus for `name` today (UTC). Fails, changing
    /// nothing, where the clock cannot be read.
    pub fn add_activity(&mut self, process_name: String, secs: u64) -> (r: Result<(), CalendarError>)
        ensures
            r is Err ==> final(self).days() == old(self).days(),
            r is Ok ==> exists|d: CivilDate|
                {
                    &&& final(self).has_day(d)
                    &&& final(self).total(d, process_name@) == sat_add(
                        old(self).total(d, process_name@),
                        secs,
                    )
                    &&& forall|e: CivilDate, n: Seq<char>|
                        (e != d || n != process_name@) ==> final(self).total(e, n) == old(self).total(e, n)
                    &&& forall|e: CivilDate| e != d ==> final(self).has_day(e) == old(self).has_day(e)
                    &&& forall|e: CivilDate| final(self).sessions(e) == old(self).sessions(e)
                },
    {
        let now = match get_timestamp() {
            Some(t) => t,
            None => {
                return Err(CalendarError::ClockUnavailable);
            },
        };
        match utc_date(now) {
            Some(d) => {
                self.add_activity_on(d, process_name, secs);
                Ok(())
            },
            None => Err(CalendarError::DateOutOfRange),
        }
    }

    /// Files a finished focus session under day `date`.
    pub fn add_focus_session_on(&mut self, date: CivilDate, session: FocusSessionSummary)
        ensures
            final(self).has_day(date),
            final(self).sessions(date) == old(self).sessions(date).push(session),
            forall|d: CivilDate| d != date ==> final(self).sessions(d) == old(self).sessions(d),
            forall|d: CivilDate| d != date ==> final(self).has_day(d) == old(self).has_day(d),
            forall|d: CivilDate, n: Seq<char>| final(self).total(d, n) == old(self).total(d, n),
    {
        let ghost s = self.days();
        match self.find_day(date) {
            Some(i) => {
                proof {
                    lemma_first_where_found(s, is_day(date), 0);
                }
                let mut day = self.activities.remove(i);
                assert(day == s[i as int]);
                day.focus_sessions.push(session);
                self.activities.insert(i, day);
                proof {
                    assert(self.days() =~= s.update(i as int, day));
                    assert forall|d: CivilDate| true implies first_where(self.days(), is_day(d), 0)
                        == first_where(s, is_day(d), 0) by {
                        lemma_first_where_update(s, is_day(d), i as int, day, 0);
                        lemma_first_where_found(s, is_day(d), 0);
                    }
                    assert forall|d: CivilDate| d != date implies self.sessions(d) == old(self).sessions(d) by {
                        lemma_first_where_found(s, is_day(d), 0);
                    }
                    assert forall|d: CivilDate, n: Seq<char>| true implies self.total(d, n) == old(self).total(
                        d,
                        n,
                    ) by {
                        lemma_first_where_found(s, is_day(d), 0);
                    }
                }
            },
            None => {
                let mut sessions: Vec<FocusSessionSummary> = Vec::new();
                sessions.push(session);
                let day = DailyActivity { date, process_durations: Vec::new(), focus_sessions: sessions };
                self.activities.push(day);
                proof {
                    assert(day.focus_sessions@ =~= Seq::<FocusSessionSummary>::empty().push(session));
                    assert forall|d: CivilDate| true implies first_where(self.days(), is_day(d), 0) == (
                    match first_where(s, is_day(d), 0) {
                        Some(j) => Some(j),
                        None => if d == date {
                            Some(s.len() as int)
                        } else {
                            None
                        },
                    }) by {
                        lemma_first_where_push(s, is_day(d), day, 0);
                        lemma_first_where_found(s, is_day(d), 0);
                    }
                    assert forall|n: Seq<char>| true implies total_in(day.process_durations@, n) == 0 by {
                        assert(first_where(day.process_durations@, is_named(n), 0) is None);
                    }
                    assert forall|d: CivilDate| d != date implies self.sessions(d) == old(self).sessions(d) by {
                        lemma_first_where_found(s, is_day(d), 0);
                        assert(self.days()[s.len() as int] == day);
                        if let Some(j) = first_where(s, is_day(d), 0) {
                            assert(self.days()[j] == s[j]);
                        }
                    }
                    assert forall|d: CivilDate, n: Seq<char>| true implies self.total(d, n) == old(self).total(
                        d,
                        n,
                    ) by {
                        lemma_first_where_found(s, is_day(d), 0);
                        assert(self.days()[s.len() as int] == day);
                        if let Some(j) = first_where(s, is_day(d), 0) {
                            assert(self.days()[j] == s[j]);
                        }
                    }
                }
            },
        }
    }

    /// Files a finished focus session under the UTC day on which it started.
    pub fn add_focus_session(&mut self, session: FocusSessionSummary) -> (r: Result<(), CalendarError>)
        ensures
            date_in_range(session.start_time as int) ==> r is Ok,
            r is Err ==> final(self).days() == old(self).days(),
            r is Ok ==> exists|d: CivilDate|
                {
                    &&& date_of(d) == utc_date_of(session.start_time as int)
                    &&& final(self).has_day(d)
                    &&& final(self).sessions(d) == old(self).sessions(d).push(session)
                    &&& forall|e: CivilDate| e != d ==> final(self).sessions(e) == old(self).sessions(e)
                    &&& forall|e: CivilDate| e != d ==> final(self).has_day(e) == old(self).has_day(e)
                    &&& forall|e: CivilDate, n: Seq<char>| final(self).total(e, n) == old(self).total(e, n)
                },
    {
        match utc_date(session.start_time) {
            Some(d) => {
                self.add_focus_session_on(d, session);
                Ok(())
            },
            None => Err(CalendarError::DateOutOfRange),
        }
    }

    /// The activity recorded on day `date`.
    pub fn get_activity_for_date(&self, date: CivilDate) -> (r: Option<&DailyActivity>)
        ensures
            r is None <==> !self.has_day(date),
            r matches Some(a) ==> a.date == date && a.focus_sessions@ == self.sessions(date) && forall|
                n: Seq<char>,
            | total_in(a.process_durations@, n) == self.total(date, n),
    {
        match self.find_day(date) {
            Some(i) => {
                proof {
                    lemma_first_where_found(self.days(), is_day(date), 0);
                }
                Some(&self.activities[i])
            },
            None => None,
        }
    }

    /// The activity recorded on the UTC day of the timestamp `ts`.
    pub fn get_activity_at(&self, ts: i64) -> (r: Option<&DailyActivity>)
        ensures
            date_in_range(ts as int) ==> (r is Some <==> exists|d: CivilDate|
                date_of(d) == utc_date_of(ts as int) && self.has_day(d)),
            r matches Some(a) ==> date_of(a.date) == utc_date_of(ts as int) && self.has_day(a.date)
                && a.focus_sessions@ == self.sessions(a.date) && forall|n: Seq<char>|
                total_in(a.process_durations@, n) == self.total(a.date, n),
    {
        match utc_date(ts) {
            Some(d) => {
                let r = self.get_activity_for_date(d);
                proof {
                    assert forall|e: CivilDate| date_of(e) == utc_date_of(ts as int) implies e == d by {}
                }
                r
            },
            None => None,
        }
    }
}

} // verus!
