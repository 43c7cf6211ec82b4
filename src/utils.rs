//! Small helpers for presenting durations and reading the clock.

use vstd::prelude::*;
use crate::text::string_of;

verus! {

pub open spec fn digit_char(d: nat) -> char {
    if d == 0 { '0' } else if d == 1 { '1' } else if d == 2 { '2' } else if d == 3 { '3' }
    else if d == 4 { '4' } else if d == 5 { '5' } else if d == 6 { '6' } else if d == 7 { '7' }
    else if d == 8 { '8' } else { '9' }
}

/// The decimal digits of `n`, without leading zeros.
pub open spec fn decimal(n: nat) -> Seq<char>
    decreases n,
{
    if n < 10 {
        seq![digit_char(n)]
    } else {
        decimal(n / 10).push(digit_char(n % 10))
    }
}

/// `n` as `format!("{:02}", n)` writes it: at least two digits, with a sign
/// in front of a negative number.
pub open spec fn two_digits(n: int) -> Seq<char> {
    if 0 <= n < 10 {
        seq!['0'].add(decimal(n as nat))
    } else if n >= 10 {
        decimal(n as nat)
    } else {
        seq!['-'].add(decimal((-n) as nat))
    }
}

/// Hours, minutes and seconds of a signed number of seconds, each truncated
/// toward zero as chrono's `num_hours`, `num_minutes % 60` and
/// `num_seconds % 60` give them.
pub open spec fn clock_parts(secs: int) -> (int, int, int) {
    let m = if secs < 0 { -secs } else { secs };
    let sign = if secs < 0 { -1int } else { 1int };
    (sign * (m / 3600), sign * ((m / 60) % 60), sign * (m % 60))
}

/// `HH:MM:SS` where there is at least one whole hour, else `MM:SS`.
pub open spec fn clock_text(secs: int) -> Seq<char> {
    let (h, m, s) = clock_parts(secs);
    if h > 0 {
        two_digits(h) + seq![':'] + two_digits(m) + seq![':'] + two_digits(s)
    } else {
        two_digits(m) + seq![':'] + two_digits(s)
    }
}

fn digit_of(d: u64) -> (c: char)
    requires
        d < 10,
    ensures
        c == digit_char(d as nat),
{
    if d == 0 { '0' } else if d == 1 { '1' } else if d == 2 { '2' } else if d == 3 { '3' }
    else if d == 4 { '4' } else if d == 5 { '5' } else if d == 6 { '6' } else if d == 7 { '7' }
    else if d == 8 { '8' } else { '9' }
}

fn decimal_chars(n: u64) -> (r: Vec<char>)
    ensures
        r@ == decimal(n as nat),
{
    let mut cur = n;
    let mut out: Vec<char> = Vec::new();
    assert(decimal(n as nat) =~= decimal(cur as nat) + out@);
    while cur >= 10
        invariant
            decimal(n as nat) == decimal(cur as nat) + out@,
        decreases cur,
    {
        let d = digit_of(cur % 10);
        let ghost prev = out@;
        out.insert(0, d);
        proof {
            assert(out@ =~= seq![d] + prev);
            assert(decimal(cur as nat) == decimal((cur / 10) as nat).push(d));
            assert(decimal((cur / 10) as nat).push(d) + prev =~= decimal((cur / 10) as nat) + out@);
        }
        cur = cur / 10;
    }
    let d = digit_of(cur);
    let ghost prev = out@;
    out.insert(0, d);
    assert(out@ =~= seq![d] + prev);
    out
}

fn signed_two_digits(neg: bool, mag: u64) -> (r: Vec<char>)
    ensures
        r@ == two_digits(if neg { -(mag as int) } else { mag as int }),
{
    let mut digits = decimal_chars(mag);
    if mag == 0 || (!neg && mag < 10) {
        let mut out = vec!['0'];
        out.append(&mut digits);
        proof {
            assert(decimal(0) =~= seq!['0']);
        }
        out
    } else if !neg {
        digits
    } else {
        let mut out = vec!['-'];
        out.append(&mut digits);
        out
    }
}

/// A duration of `secs` seconds as `MM:SS`, or `HH:MM:SS` from one hour on.
/// A negative duration gives each part its sign, as the signed `{:02}` of
/// each part does.
pub fn format_duration(secs: i64) -> (r: String)
    ensures
        r@ == clock_text(secs as int),
{
    let neg = secs < 0;
    let m: u64 = if neg {
        (-(secs as i128)) as u64
    } else {
        secs as u64
    };
    let h = m / 3600;
    let mi = (m / 60) % 60;
    let s = m % 60;
    let mut out: Vec<char> = Vec::new();
    if !neg && h > 0 {
        out = signed_two_digits(false, h);
        out.push(':');
    }
    let mut mid = signed_two_digits(neg, mi);
    out.append(&mut mid);
    out.push(':');
    let mut last = signed_two_digits(neg, s);
    out.append(&mut last);
    proof {
        assert(mi as int == (m as int / 60) % 60);
        assert(s as int == m as int % 60);
        assert(h as int == m as int / 3600);
        if neg {
            assert(m as int == -(secs as int));
            assert(clock_parts(secs as int) == (-1 * (m as int / 3600), -1 * (mi as int), -1 * (s as int)));
            assert(-1 * (m as int / 3600) <= 0);
        } else {
            assert(clock_parts(secs as int) == (1 * (h as int), 1 * (mi as int), 1 * (s as int)));
        }
        assert(out@ =~= clock_text(secs as int));
    }
    string_of(&out)
}

/// Window titles are read by the detectors; this one reports none.
pub fn get_window_title() -> (r: Result<Option<String>, ()>)
    ensures
        r == Ok::<Option<String>, ()>(None),
{
    Ok(None)
}

/// Relies on `SystemTime::now` and `SystemTime::duration_since`: whole
/// seconds since the Unix epoch, `None` where the clock reads earlier.
#[verifier::external_body]
fn seconds_since_epoch() -> Option<u64> {
    match std::time::SystemTime::now().duration_since(std::time::UNIX_EPOCH) {
        Ok(d) => Some(d.as_secs()),
        Err(_) => None,
    }
}

/// The current time in whole seconds since the Unix epoch; `None` where the
/// clock reads before the epoch or past what an `i64` holds.
pub fn get_timestamp() -> (r: Option<i64>)
    ensures
        r matches Some(t) ==> t >= 0,
{
    match seconds_since_epoch() {
        Some(s) => if s <= i64::MAX as u64 {
            Some(s as i64)
        } else {
            None
        },
        None => None,
    }
}

} // verus!
