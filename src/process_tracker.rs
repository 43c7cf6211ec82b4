//! The duration ledger: one entry per application identity, fed one focus
//! sample per poll.

use vstd::prelude::*;
use crate::identity::view_opt_string;
use crate::utils::get_timestamp;
use crate::window::{WindowInfo, WindowState};

verus! {

/// A ledger entry: how long an application has held focus, and what was last
/// seen of it. Times are Unix timestamps in seconds, durations in seconds.
#[derive(Debug)]
pub struct AppInfo {
    pub name: String,
    pub start_time: i64,
    pub duration: u64,
    pub window_title: Option<String>,
    pub is_active: bool,
    pub state: WindowState,
    pub last_updated: i64,
}

/// The mathematical value of a ledger entry.
pub struct AppView {
    pub name: Seq<char>,
    pub start_time: i64,
    pub duration: u64,
    pub window_title: Option<Seq<char>>,
    pub is_active: bool,
    pub state: WindowState,
    pub last_updated: i64,
}

impl View for AppInfo {
    type V = AppView;

    open spec fn view(&self) -> AppView {
        AppView {
            name: self.name@,
            start_time: self.start_time,
            duration: self.duration,
            window_title: view_opt_string(self.window_title),
            is_active: self.is_active,
            state: self.state,
            last_updated: self.last_updated,
        }
    }
}

/// The window-detection backend, chosen once when a tracker is made.
#[derive(Clone, Copy, PartialEq, Eq, Structural, Debug)]
pub enum DetectorKind {
    Wayland,
    X11,
    MacOs,
    Windows,
    Unsupported,
}

/// The operating system the tracker runs on.
#[derive(Clone, Copy, PartialEq, Eq, Structural, Debug)]
pub enum HostOs {
    Linux,
    MacOs,
    Windows,
    Other,
}

/// The detector for a host: on Linux the Wayland one where a Wayland session
/// is present, and the X11 one otherwise.
pub open spec fn detector_for(os: HostOs, wayland_session: bool) -> DetectorKind {
    match os {
        HostOs::Linux => if wayland_session {
            DetectorKind::Wayland
        } else {
            DetectorKind::X11
        },
        HostOs::MacOs => DetectorKind::MacOs,
        HostOs::Windows => DetectorKind::Windows,
        HostOs::Other => DetectorKind::Unsupported,
    }
}

pub fn select_detector(os: HostOs, wayland_session: bool) -> (r: DetectorKind)
    ensures
        r == detector_for(os, wayland_session),
{
    match os {
        HostOs::Linux => if wayland_session {
            DetectorKind::Wayland
        } else {
            DetectorKind::X11
        },
        HostOs::MacOs => DetectorKind::MacOs,
        HostOs::Windows => DetectorKind::Windows,
        HostOs::Other => DetectorKind::Unsupported,
    }
}

/// Seconds from `last` to `now`; a clock that went back gives zero.
pub open spec fn elapsed_between(last: i64, now: i64) -> u64 {
    if now <= last {
        0
    } else {
        (now - last) as u64
    }
}

pub open spec fn sat_add(a: u64, b: u64) -> u64 {
    if a + b > u64::MAX {
        u64::MAX
    } else {
        (a + b) as u64
    }
}

pub open spec fn deactivated(a: AppView) -> AppView {
    AppView { is_active: false, ..a }
}

/// An entry seen focused again: it accrues `el` and mirrors the sample.
pub open spec fn refreshed(a: AppView, w: WindowInfo, now: i64, el: u64) -> AppView {
    AppView {
        duration: sat_add(a.duration, el),
        window_title: view_opt_string(w.title),
        is_active: true,
        state: w.state,
        last_updated: now,
        ..a
    }
}

/// The entry made for a key seen for the first time; it is attributed `el`.
pub open spec fn new_entry(w: WindowInfo, now: i64, el: u64) -> AppView {
    AppView {
        name: w.identity@,
        start_time: now,
        duration: el,
        window_title: view_opt_string(w.title),
        is_active: true,
        state: w.state,
        last_updated: now,
    }
}

pub open spec fn has_key(s: Seq<AppView>, k: Seq<char>) -> bool {
    exists|i: int| 0 <= i < s.len() && s[i].name == k
}

/// The ledger after one poll that took `el` seconds and saw `sample`.
pub open spec fn reconcile(s: Seq<AppView>, now: i64, el: u64, sample: Option<WindowInfo>) -> Seq<
    AppView,
> {
    match sample {
        None => Seq::new(s.len(), |i: int| deactivated(s[i])),
        Some(w) => {
            let upd = Seq::new(
                s.len(),
                |i: int|
                    if s[i].name == w.identity@ {
                        refreshed(s[i], w, now, el)
                    } else {
                        deactivated(s[i])
                    },
            );
            if has_key(s, w.identity@) {
                upd
            } else {
                upd.push(new_entry(w, now, el))
            }
        },
    }
}

pub open spec fn names_unique(s: Seq<AppView>) -> bool {
    forall|i: int, j: int| 0 <= i < j < s.len() ==> s[i].name != s[j].name
}

pub open spec fn at_most_one_active(s: Seq<AppView>) -> bool {
    forall|i: int, j: int| 0 <= i < s.len() && 0 <= j < s.len() && s[i].is_active && s[j].is_active ==> i == j
}

/// `k` is the key of `sample`, and the entry for `k` in `after` holds `c`
/// seconds more than it held in `before` (where a new entry held none).
pub open spec fn credited(
    before: Seq<AppView>,
    after: Seq<AppView>,
    sample: Option<WindowInfo>,
    k: Seq<char>,
    c: u64,
) -> bool {
    &&& sample matches Some(w) && w.identity@ == k
    &&& exists|i: int| 0 <= i < after.len() && after[i].name == k
    &&& forall|i: int|
        0 <= i < after.len() && after[i].name == k ==> after[i].duration == (if i < before.len() {
            before[i].duration as int
        } else {
            0
        }) + c
}

/// One poll keeps the keys unique and leaves at most one entry active: the
/// one of the sampled key, or none where nothing was sampled.
pub proof fn lemma_reconcile_wf(s: Seq<AppView>, now: i64, el: u64, sample: Option<WindowInfo>)
    requires
        names_unique(s),
    ensures
        names_unique(reconcile(s, now, el, sample)),
        at_most_one_active(reconcile(s, now, el, sample)),
        forall|i: int|
            0 <= i < reconcile(s, now, el, sample).len() && reconcile(s, now, el, sample)[i].is_active
                ==> (sample matches Some(w) && reconcile(s, now, el, sample)[i].name == w.identity@),
        sample matches Some(w) ==> exists|i: int|
            0 <= i < reconcile(s, now, el, sample).len() && reconcile(s, now, el, sample)[i].is_active
                && reconcile(s, now, el, sample)[i].name == w.identity@,
{
    let t = reconcile(s, now, el, sample);
    if let Some(w) = sample {
        let k = w.identity@;
        if has_key(s, k) {
            let i = choose|i: int| 0 <= i < s.len() && s[i].name == k;
            assert(t[i].is_active && t[i].name == k);
        } else {
            assert(t[s.len() as int].is_active);
        }
        assert forall|i: int, j: int| 0 <= i < j < t.len() implies t[i].name != t[j].name by {
            if j == s.len() {
                assert(s[i].name == t[i].name);
            }
        }
    }
}

/// A poll that finds no window changes no duration and no name, and leaves
/// every entry inactive.
pub proof fn lemma_gap_keeps_durations(s: Seq<AppView>, now: i64, el: u64)
    ensures
        reconcile(s, now, el, None).len() == s.len(),
        forall|i: int|
            0 <= i < s.len() ==> reconcile(s, now, el, None)[i].duration == s[i].duration
                && reconcile(s, now, el, None)[i].name == s[i].name && !reconcile(
                s,
                now,
                el,
                None,
            )[i].is_active,
{
}

/// The first poll that reports a key not in the ledger adds exactly one entry,
/// active, for that key.
pub proof fn lemma_new_key_adds_one_entry(s: Seq<AppView>, now: i64, el: u64, w: WindowInfo)
    requires
        !has_key(s, w.identity@),
    ensures
        reconcile(s, now, el, Some(w)).len() == s.len() + 1,
        reconcile(s, now, el, Some(w)).last() == new_entry(w, now, el),
        reconcile(s, now, el, Some(w)).last().is_active,
        forall|i: int|
            0 <= i < s.len() ==> reconcile(s, now, el, Some(w))[i].name == s[i].name
                && reconcile(s, now, el, Some(w))[i].name != w.identity@,
{
}

/// After any run of polls, each entry's duration is the sum of the elapsed
/// times of the polls that saw its key focused, the poll that made the entry
/// included; a key that no poll saw has no entry. Durations saturate at
/// `u64::MAX`, so this holds where all the elapsed times together fit in a
/// `u64`.
pub proof fn lemma_tracker_durations(t: &ProcessTracker)
    requires
        t.wf(),
        total_elapsed(t.started(), t.polls()) <= u64::MAX,
    ensures
        forall|i: int|
            0 <= i < t.ledger().len() ==> t.ledger()[i].duration == focused_time(
                t.started(),
                t.polls(),
                t.ledger()[i].name,
            ),
        forall|k: Seq<char>| !has_key(t.ledger(), k) ==> focused_time(t.started(), t.polls(), k) == 0,
{
    lemma_duration_is_focused_time(t.started(), t.polls());
}

/// The time at which the poll before the last of `polls` was taken, or
/// `start` where there is none.
pub open spec fn prev_time(start: i64, polls: Seq<(i64, Option<WindowInfo>)>) -> i64 {
    if polls.len() <= 1 {
        start
    } else {
        polls[polls.len() - 2].0
    }
}

/// The seconds elapsed over a sequence of polls `(time, sample)`, counted from
/// `start`.
pub open spec fn total_elapsed(start: i64, polls: Seq<(i64, Option<WindowInfo>)>) -> nat
    decreases polls.len(),
{
    if polls.len() == 0 {
        0
    } else {
        total_elapsed(start, polls.drop_last()) + elapsed_between(
            prev_time(start, polls),
            polls.last().0,
        ) as nat
    }
}

/// The seconds elapsed over the polls whose sample had the key `k`.
pub open spec fn focused_time(start: i64, polls: Seq<(i64, Option<WindowInfo>)>, k: Seq<char>) -> nat
    decreases polls.len(),
{
    if polls.len() == 0 {
        0
    } else {
        focused_time(start, polls.drop_last(), k) + match polls.last().1 {
            Some(w) => if w.identity@ == k {
                elapsed_between(prev_time(start, polls), polls.last().0) as nat
            } else {
                0
            },
            None => 0,
        }
    }
}

/// The ledger of a tracker made at `start` after the polls `polls`.
pub open spec fn replay(start: i64, polls: Seq<(i64, Option<WindowInfo>)>) -> Seq<AppView>
    decreases polls.len(),
{
    if polls.len() == 0 {
        Seq::empty()
    } else {
        reconcile(
            replay(start, polls.drop_last()),
            polls.last().0,
            elapsed_between(prev_time(start, polls), polls.last().0),
            polls.last().1,
        )
    }
}

proof fn lemma_focused_within_total(start: i64, polls: Seq<(i64, Option<WindowInfo>)>, k: Seq<char>)
    ensures
        focused_time(start, polls, k) <= total_elapsed(start, polls),
    decreases polls.len(),
{
    if polls.len() > 0 {
        lemma_focused_within_total(start, polls.drop_last(), k);
    }
}

/// For any sequence of polls, from a new tracker, each entry's duration is the
/// sum of the elapsed times of the polls that saw its key focused, and a key
/// that no poll saw has no entry. Durations saturate at `u64::MAX`, so this
/// holds where all the elapsed times together fit in a `u64`.
pub proof fn lemma_duration_is_focused_time(start: i64, polls: Seq<(i64, Option<WindowInfo>)>)
    requires
        total_elapsed(start, polls) <= u64::MAX,
    ensures
        names_unique(replay(start, polls)),
        forall|i: int|
            0 <= i < replay(start, polls).len() ==> replay(start, polls)[i].duration == focused_time(
                start,
                polls,
                replay(start, polls)[i].name,
            ),
        forall|k: Seq<char>| !has_key(replay(start, polls), k) ==> focused_time(start, polls, k) == 0,
    decreases polls.len(),
{
    if polls.len() > 0 {
        let p = polls.drop_last();
        let s = replay(start, p);
        let now = polls.last().0;
        let el = elapsed_between(prev_time(start, polls), now);
        let t = replay(start, polls);
        lemma_duration_is_focused_time(start, p);
        lemma_reconcile_wf(s, now, el, polls.last().1);
        assert(t == reconcile(s, now, el, polls.last().1));
        assert(total_elapsed(start, polls) == total_elapsed(start, p) + el);
        assert forall|k: Seq<char>|
            focused_time(start, polls, k) == focused_time(start, p, k) + (match polls.last().1 {
                Some(w) => if w.identity@ == k {
                    el as nat
                } else {
                    0
                },
                None => 0,
            }) by {}
        assert forall|i: int| 0 <= i < t.len() implies t[i].duration == focused_time(
            start,
            polls,
            t[i].name,
        ) by {
            if i < s.len() {
                assert(t[i].name == s[i].name);
                lemma_focused_within_total(start, p, s[i].name);
                assert(s[i].duration == focused_time(start, p, s[i].name));
            } else {
                let w = polls.last().1->Some_0;
                assert(!has_key(s, w.identity@));
                assert(focused_time(start, p, w.identity@) == 0);
            }
        }
        assert forall|k: Seq<char>| !has_key(t, k) implies focused_time(start, polls, k) == 0 by {
            if has_key(s, k) {
                let i = choose|i: int| 0 <= i < s.len() && s[i].name == k;
                assert(t[i].name == k);
            }
            assert(focused_time(start, p, k) == 0);
            if let Some(w) = polls.last().1 {
                if w.identity@ == k {
                    if has_key(s, k) {
                        let i = choose|i: int| 0 <= i < s.len() && s[i].name == k;
                        assert(t[i].name == k);
                    } else {
                        assert(t[s.len() as int].name == k);
                    }
                }
            }
        }
    }
}

/// `order` lists each position of `apps` once, longest duration first; equal
/// durations keep their ledger order.
pub open spec fn is_dashboard_order(apps: Seq<AppView>, order: Seq<usize>) -> bool {
    &&& order.len() == apps.len()
    &&& forall|a: int| 0 <= a < order.len() ==> order[a] < apps.len()
    &&& forall|a: int, b: int| 0 <= a < b < order.len() ==> order[a] != order[b]
    &&& forall|a: int, b: int|
        0 <= a < b < order.len() ==> apps[order[a] as int].duration > apps[order[b] as int].duration
            || (apps[order[a] as int].duration == apps[order[b] as int].duration && order[a] < order[b])
}

/// Owns the ledger and folds each poll's sample into it.
pub struct ProcessTracker {
    apps: Vec<AppInfo>,
    last_update: i64,
    current_focused: Option<String>,
    detector: DetectorKind,
    start: Ghost<i64>,
    history: Ghost<Seq<(i64, Option<WindowInfo>)>>,
}

/// The time of the last of `polls`, or `start` where there is none.
pub open spec fn last_time(start: i64, polls: Seq<(i64, Option<WindowInfo>)>) -> i64 {
    if polls.len() == 0 {
        start
    } else {
        polls.last().0
    }
}

impl ProcessTracker {
    /// The time the tracker was made with.
    pub closed spec fn started(&self) -> i64 {
        self.start@
    }

    /// Every poll folded in so far, as (time, sample), oldest first.
    pub closed spec fn polls(&self) -> Seq<(i64, Option<WindowInfo>)> {
        self.history@
    }

    pub closed spec fn ledger(&self) -> Seq<AppView> {
        self.apps@.map_values(|a: AppInfo| a@)
    }

    pub closed spec fn last_poll(&self) -> i64 {
        self.last_update
    }

    pub closed spec fn detector_view(&self) -> DetectorKind {
        self.detector
    }

    /// The recorded focus is the name of the active entry, if any.
    pub closed spec fn focus_recorded(&self) -> bool {
        match self.current_focused {
            Some(k) => exists|i: int|
                0 <= i < self.ledger().len() && self.ledger()[i].is_active && self.ledger()[i].name
                    == k@,
            None => forall|i: int| 0 <= i < self.ledger().len() ==> !self.ledger()[i].is_active,
        }
    }

    /// One entry per key, at most one of them active, the recorded focus
    /// naming that one, and the ledger being the fold of the polls so far.
    pub open spec fn wf(&self) -> bool {
        &&& names_unique(self.ledger())
        &&& at_most_one_active(self.ledger())
        &&& self.focus_recorded()
        &&& self.ledger() == replay(self.started(), self.polls())
        &&& self.last_poll() == last_time(self.started(), self.polls())
    }

    /// An empty ledger whose first poll counts from `now`.
    pub fn new_at(now: i64, detector: DetectorKind) -> (r: ProcessTracker)
        ensures
            r.wf(),
            r.ledger().len() == 0,
            r.last_poll() == now,
            r.started() == now,
            r.polls().len() == 0,
            r.detector_view() == detector,
    {
        let r = ProcessTracker {
            apps: Vec::new(),
            last_update: now,
            current_focused: None,
            detector,
            start: Ghost(now),
            history: Ghost(Seq::empty()),
        };
        assert(r.ledger() =~= Seq::<AppView>::empty());
        r
    }

    /// An empty ledger whose first poll counts from the current time, or from
    /// the epoch where the clock cannot be read.
    pub fn new(detector: DetectorKind) -> (r: ProcessTracker)
        ensures
            r.wf(),
            r.ledger().len() == 0,
            r.polls().len() == 0,
            r.detector_view() == detector,
    {
        let now = match get_timestamp() {
            Some(t) => t,
            None => 0,
        };
        ProcessTracker::new_at(now, detector)
    }

    pub fn detector(&self) -> (r: DetectorKind)
        ensures
            r == self.detector_view(),
    {
        self.detector
    }

    pub fn last_update(&self) -> (r: i64)
        ensures
            r == self.last_poll(),
    {
        self.last_update
    }

    /// The key that the last poll found focused.
    pub fn current_focused(&self) -> (r: Option<String>)
        requires
            self.wf(),
        ensures
            r is None ==> forall|i: int| 0 <= i < self.ledger().len() ==> !self.ledger()[i].is_active,
            r is Some ==> exists|i: int|
                0 <= i < self.ledger().len() && self.ledger()[i].is_active && self.ledger()[i].name
                    == r->Some_0@,
    {
        match &self.current_focused {
            Some(k) => Some(k.clone()),
            None => None,
        }
    }

    /// A read-only view of the ledger.
    pub fn get_active_apps(&self) -> (r: &Vec<AppInfo>)
        ensures
            r@.map_values(|a: AppInfo| a@) == self.ledger(),
    {
        &self.apps
    }

    /// Folds one poll into the ledger: `now` is the time of the poll and
    /// `sample` the focused window it found, if any.
    /// Returns the key of the sample and the seconds this poll credited to
    /// its entry, for a daily roll-up.
    pub fn record_poll(&mut self, now: i64, sample: Option<WindowInfo>) -> (r: Option<(String, u64)>)
        requires
            old(self).wf(),
        ensures
            final(self).wf(),
            final(self).started() == old(self).started(),
            final(self).polls() == old(self).polls().push((now, sample)),
            r is None <==> sample is None,
            r matches Some(p) ==> credited(old(self).ledger(), final(self).ledger(), sample, p.0@, p.1),
            final(self).ledger() == reconcile(
                old(self).ledger(),
                now,
                elapsed_between(old(self).last_poll(), now),
                sample,
            ),
            final(self).last_poll() == now,
            final(self).detector_view() == old(self).detector_view(),
    {
        let el = self.elapsed_since_last(now);
        let ghost s = self.ledger();
        let ghost sample_g = sample;
        let mut credit: u64 = 0;
        let ghost target = reconcile(s, now, el, sample);
        let mut rest: Vec<AppInfo> = Vec::new();
        std::mem::swap(&mut rest, &mut self.apps);
        let ghost orig = rest@;
        assert(orig.map_values(|a: AppInfo| a@) == s);
        let n = rest.len();
        let mut done: Vec<AppInfo> = Vec::new();
        let mut result: Option<(String, u64)> = None;
        match sample {
            None => {
                let mut j: usize = 0;
                while j < n
                    invariant
                        n == orig.len(),
                        j <= n,
                        rest@ == orig.subrange(j as int, n as int),
                        done@.len() == j,
                        forall|k: int| 0 <= k < j ==> done@[k]@ == target[k],
                        target == Seq::new(s.len(), |i: int| deactivated(s[i])),
                        s == orig.map_values(|a: AppInfo| a@),
                    decreases n - j,
                {
                    let mut e = rest.remove(0);
                    assert(e == orig[j as int]);
                    e.is_active = false;
                    done.push(e);
                    j += 1;
                }
                self.current_focused = None;
            },
            Some(w) => {
                let WindowInfo { identity, title, state, .. } = w;
                let ghost key = identity@;
                let ghost wtitle = view_opt_string(title);
                let mut slot = title;
                let mut found = false;
                let ghost mut found_at: int = 0;
                let mut j: usize = 0;
                while j < n
                    invariant
                        n == orig.len(),
                        j <= n,
                        rest@ == orig.subrange(j as int, n as int),
                        done@.len() == j,
                        s == orig.map_values(|a: AppInfo| a@),
                        names_unique(s),
                        key == w.identity@,
                        identity@ == key,
                        wtitle == view_opt_string(w.title),
                        state == w.state,
                        forall|k: int|
                            0 <= k < j ==> done@[k]@ == (if s[k].name == key {
                                refreshed(s[k], w, now, el)
                            } else {
                                deactivated(s[k])
                            }),
                        found == exists|k: int| 0 <= k < j && s[k].name == key,
                        found ==> 0 <= found_at < j && s[found_at].name == key && credit as int
                            == sat_add(s[found_at].duration, el) - s[found_at].duration,
                        !found ==> credit == 0,
                        !found ==> view_opt_string(slot) == wtitle,
                    decreases n - j,
                {
                    let mut e = rest.remove(0);
                    assert(e == orig[j as int]);
                    assert(e@ == s[j as int]);
                    if e.name == identity {
                        proof {
                            if found {
                                let k = choose|k: int| 0 <= k < j && s[k].name == key;
                                assert(s[k].name == s[j as int].name);
                            }
                        }
                        let before = e.duration;
                        e.duration = e.duration.saturating_add(el);
                        credit = e.duration - before;
                        proof {
                            found_at = j as int;
                        }
                        e.window_title = slot.take();
                        e.is_active = true;
                        e.state = state;
                        e.last_updated = now;
                        found = true;
                    } else {
                        e.is_active = false;
                    }
                    done.push(e);
                    j += 1;
                }
                if !found {
                    credit = el;
                    done.push(
                        AppInfo {
                            name: identity.clone(),
                            start_time: now,
                            duration: el,
                            window_title: slot,
                            is_active: true,
                            state,
                            last_updated: now,
                        },
                    );
                }
                self.current_focused = Some(identity.clone());
                proof {
                    lemma_reconcile_wf(s, now, el, sample_g);
                    let t = reconcile(s, now, el, sample_g);
                    assert(done@.len() == t.len());
                    assert forall|i: int|
                        0 <= i < t.len() && t[i].name == key implies t[i].duration == (if i < s.len() {
                            s[i].duration as int
                        } else {
                            0
                        }) + credit by {
                        if i < s.len() {
                            assert(found);
                            assert(s[i].name == s[found_at].name);
                        }
                    }
                }
                result = Some((identity, credit));
            },
        }
        self.apps = done;
        self.last_update = now;
        let ghost old_polls = self.history@;
        self.history = Ghost(old_polls.push((now, sample_g)));
        proof {
            assert(self.ledger() =~= target);
            lemma_reconcile_wf(s, now, el, sample_g);
            assert(self.history@.drop_last() =~= old_polls);
            assert(prev_time(self.start@, self.history@) == last_time(self.start@, old_polls));
        }
        result
    }

    /// Folds one poll, taken at the current time, into the ledger. Where the
    /// clock cannot be read the poll is taken at the last poll's time, so it
    /// credits nothing.
    pub fn update(&mut self, sample: Option<WindowInfo>) -> (r: Option<(String, u64)>)
        requires
            old(self).wf(),
        ensures
            final(self).wf(),
            final(self).started() == old(self).started(),
            final(self).polls() == old(self).polls().push((final(self).last_poll(), sample)),
            r is None <==> sample is None,
            r matches Some(p) ==> credited(old(self).ledger(), final(self).ledger(), sample, p.0@, p.1),
            final(self).ledger() == reconcile(
                old(self).ledger(),
                final(self).last_poll(),
                elapsed_between(old(self).last_poll(), final(self).last_poll()),
                sample,
            ),
            final(self).detector_view() == old(self).detector_view(),
    {
        let now = match get_timestamp() {
            Some(t) => t,
            None => self.last_update,
        };
        self.record_poll(now, sample)
    }

    /// The positions of the ledger entries in the order a dashboard lists
    /// them: longest duration first.
    pub fn dashboard_order(&self) -> (r: Vec<usize>)
        ensures
            is_dashboard_order(self.ledger(), r@),
    {
        let n = self.apps.len();
        let mut out: Vec<usize> = Vec::new();
        let mut k: usize = 0;
        while k < n
            invariant
                n == self.ledger().len(),
                k <= n,
                out@.len() == k,
                forall|a: int| 0 <= a < k ==> out@[a] < k,
                forall|a: int, b: int| 0 <= a < b < k ==> out@[a] != out@[b],
                forall|a: int, b: int|
                    0 <= a < b < k ==> self.ledger()[out@[a] as int].duration > self.ledger()[out@[b] as int].duration
                        || (self.ledger()[out@[a] as int].duration == self.ledger()[out@[b] as int].duration
                        && out@[a] < out@[b]),
            decreases n - k,
        {
            let dk = self.apps[k].duration;
            let mut p: usize = 0;
            while p < out.len() && self.apps[out[p]].duration >= dk
                invariant
                    n == self.ledger().len(),
                    k < n,
                    out@.len() == k,
                    p <= k,
                    dk == self.ledger()[k as int].duration,
                    forall|a: int| 0 <= a < k ==> out@[a] < k,
                    forall|a: int| 0 <= a < p ==> self.ledger()[out@[a] as int].duration >= dk,
                decreases k - p,
            {
                p += 1;
            }
            let ghost prev = out@;
            out.insert(p, k);
            proof {
                assert(p < prev.len() ==> self.ledger()[prev[p as int] as int].duration < dk);
                assert forall|a: int, b: int| 0 <= a < b < k + 1 implies out@[a] != out@[b] by {
                    if a < p && b < p {
                        assert(out@[a] == prev[a] && out@[b] == prev[b]);
                    } else if a < p && b > p {
                        assert(out@[a] == prev[a] && out@[b] == prev[b - 1]);
                    } else if a > p {
                        assert(out@[a] == prev[a - 1] && out@[b] == prev[b - 1]);
                    }
                }
                assert forall|a: int, b: int| 0 <= a < b < k + 1 implies self.ledger()[out@[a] as int].duration
                    > self.ledger()[out@[b] as int].duration || (self.ledger()[out@[a] as int].duration
                    == self.ledger()[out@[b] as int].duration && out@[a] < out@[b]) by {
                    if a < p && b < p {
                        assert(out@[a] == prev[a] && out@[b] == prev[b]);
                    } else if a < p && b == p {
                        assert(out@[a] == prev[a] && out@[b] == k);
                    } else if a < p && b > p {
                        assert(out@[a] == prev[a] && out@[b] == prev[b - 1]);
                    } else if a == p {
                        assert(out@[a] == k && out@[b] == prev[b - 1]);
                        assert(self.ledger()[prev[p as int] as int].duration < dk);
                        if b - 1 > p {
                            assert(self.ledger()[prev[p as int] as int].duration >= self.ledger()[prev[b - 1] as int].duration);
                        }
                    } else {
                        assert(out@[a] == prev[a - 1] && out@[b] == prev[b - 1]);
                    }
                }
            }
            k += 1;
        }
        out
    }

    pub fn elapsed_since_last(&self, now: i64) -> (r: u64)
        ensures
            r == elapsed_between(self.last_poll(), now),
    {
        if now <= self.last_update {
            0
        } else {
            ((now as i128) - (self.last_update as i128)) as u64
        }
    }
}

} // verus!
