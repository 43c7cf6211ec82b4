//! Character-sequence helpers: substring search, removal of every occurrence
//! of a pattern, and whitespace trimming, each with a spec function that says
//! what it computes.

use vstd::prelude::*;
use vstd::string::*;

verus! {

/// `pat` occurs in `s` starting at position `i`.
pub open spec fn occurs_at(s: Seq<char>, pat: Seq<char>, i: int) -> bool {
    0 <= i && i + pat.len() <= s.len() && s.subrange(i, i + pat.len()) == pat
}

/// `pat` occurs somewhere in `s`.
pub open spec fn has_occurrence(s: Seq<char>, pat: Seq<char>) -> bool {
    exists|i: int| occurs_at(s, pat, i)
}

/// The first position at or after `start` where `pat` occurs in `s`.
pub open spec fn first_index(s: Seq<char>, pat: Seq<char>, start: int) -> Option<int>
    decreases s.len() + 1 - start,
{
    if start < 0 || start + pat.len() > s.len() {
        None
    } else if occurs_at(s, pat, start) {
        Some(start)
    } else {
        first_index(s, pat, start + 1)
    }
}

/// `s` with every non-overlapping occurrence of `pat` removed, scanning from
/// the left (the matches that `str::replace(pat, "")` removes).
pub open spec fn remove_all(s: Seq<char>, pat: Seq<char>) -> Seq<char>
    decreases s.len(),
{
    if pat.len() == 0 || s.len() < pat.len() {
        s
    } else if s.subrange(0, pat.len() as int) == pat {
        remove_all(s.subrange(pat.len() as int, s.len() as int), pat)
    } else {
        seq![s[0]].add(remove_all(s.subrange(1, s.len() as int), pat))
    }
}

/// Unicode `White_Space`, the set that `char::is_whitespace` tests.
pub open spec fn is_ws(c: char) -> bool {
    let u = c as u32;
    (0x9 <= u && u <= 0xd) || u == 0x20 || u == 0x85 || u == 0xa0 || u == 0x1680
        || (0x2000 <= u && u <= 0x200a) || u == 0x2028 || u == 0x2029 || u == 0x202f
        || u == 0x205f || u == 0x3000
}

/// `s` without its leading whitespace.
pub open spec fn trim_start(s: Seq<char>) -> Seq<char>
    decreases s.len(),
{
    if s.len() > 0 && is_ws(s[0]) {
        trim_start(s.subrange(1, s.len() as int))
    } else {
        s
    }
}

/// `s` without its trailing whitespace.
pub open spec fn trim_end(s: Seq<char>) -> Seq<char>
    decreases s.len(),
{
    if s.len() > 0 && is_ws(s.last()) {
        trim_end(s.drop_last())
    } else {
        s
    }
}

/// `s` without leading or trailing whitespace.
pub open spec fn trim(s: Seq<char>) -> Seq<char> {
    trim_end(trim_start(s))
}

pub fn is_whitespace_char(c: char) -> (r: bool)
    ensures
        r == is_ws(c),
{
    let u = c as u32;
    (0x9 <= u && u <= 0xd) || u == 0x20 || u == 0x85 || u == 0xa0 || u == 0x1680
        || (0x2000 <= u && u <= 0x200a) || u == 0x2028 || u == 0x2029 || u == 0x202f
        || u == 0x205f || u == 0x3000
}

/// The characters of `s`, in order.
pub fn chars_of(s: &str) -> (r: Vec<char>)
    ensures
        r@ == s@,
{
    let n = s.unicode_len();
    let mut out: Vec<char> = Vec::new();
    let mut i: usize = 0;
    while i < n
        invariant
            n == s@.len(),
            i <= n,
            out@ == s@.subrange(0, i as int),
        decreases n - i,
    {
        out.push(s.get_char(i));
        i += 1;
    }
    assert(out@ =~= s@);
    out
}

/// Relies on `String::push`: appends one character at the end.
#[verifier::external_body]
fn push_char(s: &mut String, c: char)
    ensures
        final(s)@ == old(s)@.push(c),
{
    s.push(c)
}

/// A `String` holding exactly the characters `v`.
pub fn string_of(v: &Vec<char>) -> (r: String)
    ensures
        r@ == v@,
{
    let mut out = String::new();
    let mut i: usize = 0;
    while i < v.len()
        invariant
            i <= v@.len(),
            out@ == v@.subrange(0, i as int),
        decreases v@.len() - i,
    {
        push_char(&mut out, v[i]);
        assert(v@.subrange(0, i + 1) =~= v@.subrange(0, i as int).push(v@[i as int]));
        i += 1;
    }
    assert(out@ =~= v@);
    out
}

fn occurs_at_exec(s: &Vec<char>, pat: &Vec<char>, i: usize) -> (r: bool)
    ensures
        r == occurs_at(s@, pat@, i as int),
{
    if i > s.len() || pat.len() > s.len() - i {
        return false;
    }
    let mut j: usize = 0;
    while j < pat.len()
        invariant
            i + pat@.len() <= s@.len(),
            s@.len() <= usize::MAX,
            j <= pat@.len(),
            forall|k: int| 0 <= k < j ==> s@[i + k] == pat@[k],
        decreases pat@.len() - j,
    {
        if s[i + j] != pat[j] {
            assert(s@.subrange(i as int, i + pat@.len())[j as int] != pat@[j as int]);
            return false;
        }
        j += 1;
    }
    assert(s@.subrange(i as int, i + pat@.len()) =~= pat@);
    true
}

/// A position that `first_index` gives is an occurrence, at or after `start`.
pub proof fn lemma_first_index_some(s: Seq<char>, pat: Seq<char>, start: int)
    ensures
        first_index(s, pat, start) matches Some(i) ==> start <= i && occurs_at(s, pat, i),
    decreases s.len() + 1 - start,
{
    if start >= 0 && start + pat.len() <= s.len() && !occurs_at(s, pat, start) {
        lemma_first_index_some(s, pat, start + 1);
    }
}

/// Where `pat` occurs nowhere in `s`, `first_index` finds nothing.
pub proof fn lemma_first_index_absent(s: Seq<char>, pat: Seq<char>, start: int)
    requires
        !has_occurrence(s, pat),
    ensures
        first_index(s, pat, start) is None,
    decreases s.len() + 1 - start,
{
    if start >= 0 && start + pat.len() <= s.len() {
        assert(!occurs_at(s, pat, start));
        lemma_first_index_absent(s, pat, start + 1);
    }
}

/// The first position at or after `start` where `pat` occurs in `s`.
pub fn find_first(s: &Vec<char>, pat: &Vec<char>, start: usize) -> (r: Option<usize>)
    ensures
        r matches Some(i) ==> first_index(s@, pat@, start as int) == Some(i as int)
            && start <= i && occurs_at(s@, pat@, i as int),
        r is None ==> first_index(s@, pat@, start as int) is None,
{
    proof {
        lemma_first_index_some(s@, pat@, start as int);
    }
    if pat.len() == 0 {
        if start <= s.len() {
            assert(s@.subrange(start as int, start as int) =~= pat@);
            return Some(start);
        }
        return None;
    }
    if pat.len() > s.len() || start > s.len() - pat.len() {
        return None;
    }
    let mut i = start;
    while i <= s.len() - pat.len()
        invariant
            start <= i,
            1 <= pat@.len() <= s@.len(),
            first_index(s@, pat@, start as int) == first_index(s@, pat@, i as int),
        decreases s@.len() + 1 - i,
    {
        if occurs_at_exec(s, pat, i) {
            return Some(i);
        }
        i += 1;
    }
    None
}

/// `s` with every non-overlapping occurrence of `pat` removed, from the left.
pub fn remove_all_exec(s: &Vec<char>, pat: &Vec<char>) -> (r: Vec<char>)
    ensures
        r@ == remove_all(s@, pat@),
{
    if pat.len() == 0 {
        return s.clone();
    }
    let mut out: Vec<char> = Vec::new();
    let mut i: usize = 0;
    assert(s@.subrange(0, s@.len() as int) =~= s@);
    while i < s.len()
        invariant
            pat@.len() > 0,
            i <= s@.len(),
            out@ + remove_all(s@.subrange(i as int, s@.len() as int), pat@) == remove_all(s@, pat@),
        decreases s@.len() - i,
    {
        let ghost rest = s@.subrange(i as int, s@.len() as int);
        if occurs_at_exec(s, pat, i) {
            assert(rest.subrange(0, pat@.len() as int) =~= s@.subrange(i as int, i + pat@.len()));
            assert(rest.subrange(pat@.len() as int, rest.len() as int)
                =~= s@.subrange(i + pat@.len(), s@.len() as int));
            i += pat.len();
        } else {
            proof {
                assert(rest.subrange(1, rest.len() as int) =~= s@.subrange(i + 1, s@.len() as int));
                if rest.len() >= pat@.len() {
                    assert(rest.subrange(0, pat@.len() as int) =~= s@.subrange(i as int, i + pat@.len()));
                }
                let tail = remove_all(s@.subrange(i + 1, s@.len() as int), pat@);
                assert(remove_all(rest, pat@) == seq![s@[i as int]].add(tail)) by {
                    if rest.len() < pat@.len() {
                        assert(remove_all(rest, pat@) == rest);
                        lemma_remove_all_short(s@.subrange(i + 1, s@.len() as int), pat@);
                        assert(rest =~= seq![s@[i as int]].add(s@.subrange(i + 1, s@.len() as int)));
                    }
                }
                assert(out@.push(s@[i as int]) + tail =~= out@ + seq![s@[i as int]].add(tail));
            }
            out.push(s[i]);
            i += 1;
        }
    }
    assert(s@.subrange(i as int, s@.len() as int) =~= Seq::<char>::empty());
    out
}

proof fn lemma_remove_all_short(s: Seq<char>, pat: Seq<char>)
    requires
        s.len() < pat.len(),
    ensures
        remove_all(s, pat) == s,
{
}

/// `s` without leading or trailing whitespace.
pub fn trim_chars(s: &Vec<char>) -> (r: Vec<char>)
    ensures
        r@ == trim(s@),
{
    let mut lo: usize = 0;
    assert(s@.subrange(0, s@.len() as int) =~= s@);
    while lo < s.len() && is_whitespace_char(s[lo])
        invariant
            lo <= s@.len(),
            trim_start(s@) == trim_start(s@.subrange(lo as int, s@.len() as int)),
        decreases s@.len() - lo,
    {
        let ghost rest = s@.subrange(lo as int, s@.len() as int);
        assert(rest.subrange(1, rest.len() as int) =~= s@.subrange(lo + 1, s@.len() as int));
        lo += 1;
    }
    let ghost ts = s@.subrange(lo as int, s@.len() as int);
    assert(trim_start(ts) == ts);
    let mut hi: usize = s.len();
    while hi > lo && is_whitespace_char(s[hi - 1])
        invariant
            lo <= hi <= s@.len(),
            trim_end(ts) == trim_end(s@.subrange(lo as int, hi as int)),
        decreases hi,
    {
        let ghost cur = s@.subrange(lo as int, hi as int);
        assert(cur.drop_last() =~= s@.subrange(lo as int, hi - 1));
        hi -= 1;
    }
    let mut out: Vec<char> = Vec::new();
    let mut k: usize = lo;
    while k < hi
        invariant
            lo <= k <= hi <= s@.len(),
            out@ == s@.subrange(lo as int, k as int),
        decreases hi - k,
    {
        out.push(s[k]);
        assert(s@.subrange(lo as int, k + 1) =~= s@.subrange(lo as int, k as int).push(s@[k as int]));
        k += 1;
    }
    out
}

/// Removing a pattern that does not occur leaves the sequence as it is.
pub proof fn lemma_remove_all_absent(s: Seq<char>, pat: Seq<char>)
    requires
        pat.len() > 0,
        !has_occurrence(s, pat),
    ensures
        remove_all(s, pat) == s,
    decreases s.len(),
{
    if s.len() >= pat.len() {
        assert(!occurs_at(s, pat, 0));
        let tail = s.subrange(1, s.len() as int);
        assert forall|i: int| !occurs_at(tail, pat, i) by {
            if occurs_at(tail, pat, i) {
                assert(tail.subrange(i, i + pat.len()) =~= s.subrange(i + 1, i + 1 + pat.len()));
                assert(occurs_at(s, pat, i + 1));
            }
        }
        lemma_remove_all_absent(tail, pat);
        assert(seq![s[0]].add(tail) =~= s);
    }
}

proof fn lemma_trim_start_shape(s: Seq<char>)
    ensures
        trim_start(s).len() > 0 ==> !is_ws(trim_start(s)[0]),
    decreases s.len(),
{
    if s.len() > 0 && is_ws(s[0]) {
        lemma_trim_start_shape(s.subrange(1, s.len() as int));
    }
}

proof fn lemma_trim_end_shape(s: Seq<char>)
    ensures
        trim_end(s).len() <= s.len(),
        trim_end(s) == s.subrange(0, trim_end(s).len() as int),
        trim_end(s).len() > 0 ==> !is_ws(trim_end(s).last()),
    decreases s.len(),
{
    if s.len() > 0 && is_ws(s.last()) {
        lemma_trim_end_shape(s.drop_last());
        let n = trim_end(s.drop_last()).len() as int;
        assert(s.drop_last().subrange(0, n) =~= s.subrange(0, n));
    } else {
        assert(s.subrange(0, s.len() as int) =~= s);
    }
}

/// Trimming twice is trimming once.
pub proof fn lemma_trim_idempotent(s: Seq<char>)
    ensures
        trim(trim(s)) == trim(s),
{
    let u = trim_start(s);
    let t = trim_end(u);
    lemma_trim_start_shape(s);
    lemma_trim_end_shape(u);
    if t.len() > 0 {
        assert(t[0] == u[0]);
        assert(trim_start(t) == t);
        assert(trim_end(t) == t);
    } else {
        assert(trim_start(t) == t);
        assert(trim_end(t) == t);
    }
}

/// `pat` occurs in `s`, as `first_index` finds it.
pub open spec fn contains(s: Seq<char>, pat: Seq<char>) -> bool {
    first_index(s, pat, 0) is Some
}

/// Where the first line of `s` ends: its first newline, or its end.
pub open spec fn line_end(s: Seq<char>) -> int {
    match first_index(s, seq!['\n'], 0) {
        Some(i) => i,
        None => s.len() as int,
    }
}

pub open spec fn first_line(s: Seq<char>) -> Seq<char> {
    s.subrange(0, line_end(s))
}

/// `s` holds a newline, so another line follows its first.
pub open spec fn has_more(s: Seq<char>) -> bool {
    line_end(s) < s.len()
}

/// What follows the first newline of `s`.
pub open spec fn rest_lines(s: Seq<char>) -> Seq<char> {
    s.subrange(line_end(s) + 1, s.len() as int)
}

/// The first line of `s` in which `pat` occurs.
pub open spec fn find_line(s: Seq<char>, pat: Seq<char>) -> Option<Seq<char>>
    decreases s.len(),
{
    if contains(first_line(s), pat) {
        Some(first_line(s))
    } else if has_more(s) && line_end(s) >= 0 {
        find_line(rest_lines(s), pat)
    } else {
        None
    }
}

/// The part of `s` between the `n`-th and the next occurrence of `c`
/// (`s.split(c).nth(n)`).
pub open spec fn nth_segment(s: Seq<char>, c: char, n: nat) -> Option<Seq<char>>
    decreases n,
{
    match first_index(s, seq![c], 0) {
        Some(i) => if n == 0 {
            Some(s.subrange(0, i))
        } else if 0 <= i < s.len() {
            nth_segment(s.subrange(i + 1, s.len() as int), c, (n - 1) as nat)
        } else {
            None
        },
        None => if n == 0 {
            Some(s)
        } else {
            None
        },
    }
}

/// The leading run of non-whitespace characters of `s`.
pub open spec fn word(s: Seq<char>) -> Seq<char>
    decreases s.len(),
{
    if s.len() > 0 && !is_ws(s[0]) {
        seq![s[0]].add(word(s.subrange(1, s.len() as int)))
    } else {
        Seq::empty()
    }
}

/// The first whitespace-separated token of `s` (`split_whitespace().next()`).
pub open spec fn first_token(s: Seq<char>) -> Option<Seq<char>> {
    if trim_start(s).len() == 0 {
        None
    } else {
        Some(word(trim_start(s)))
    }
}

fn newline() -> (r: Vec<char>)
    ensures
        r@ == seq!['\n'],
{
    let r = vec!['\n'];
    assert(r@ =~= seq!['\n']);
    r
}

/// Whether `pat` occurs in `s`.
pub fn contains_exec(s: &Vec<char>, pat: &Vec<char>) -> (r: bool)
    ensures
        r == contains(s@, pat@),
{
    find_first(s, pat, 0).is_some()
}

/// The first line of `s` in which `pat` occurs.
pub fn find_line_exec(s: &Vec<char>, pat: &Vec<char>) -> (r: Option<Vec<char>>)
    ensures
        r matches Some(l) ==> find_line(s@, pat@) == Some(l@),
        r is None ==> find_line(s@, pat@) is None,
{
    let nl = newline();
    let mut cur = s.clone();
    assert(cur@ == s@);
    loop
        invariant
            nl@ == seq!['\n'],
            find_line(s@, pat@) == find_line(cur@, pat@),
        decreases cur@.len(),
    {
        let e = find_first(&cur, &nl, 0);
        let end = match e {
            Some(i) => i,
            None => cur.len(),
        };
        let line = prefix(&cur, end);
        if contains_exec(&line, pat) {
            return Some(line);
        }
        match e {
            None => {
                return None;
            },
            Some(i) => {
                assert(occurs_at(cur@, nl@, i as int));
                let cur_len = cur.len();
                assert(i + 1 <= cur_len);
                cur = suffix(&cur, i + 1);
            },
        }
    }
}

/// `s.split(c).nth(n)`.
pub fn nth_segment_exec(s: &Vec<char>, c: char, n: usize) -> (r: Option<Vec<char>>)
    ensures
        r matches Some(t) ==> nth_segment(s@, c, n as nat) == Some(t@),
        r is None ==> nth_segment(s@, c, n as nat) is None,
{
    let sep = vec![c];
    assert(sep@ =~= seq![c]);
    let mut cur = s.clone();
    let mut k: usize = n;
    assert(cur@ == s@);
    loop
        invariant
            sep@ == seq![c],
            k <= n,
            nth_segment(s@, c, n as nat) == nth_segment(cur@, c, k as nat),
        decreases k,
    {
        match find_first(&cur, &sep, 0) {
            Some(i) => {
                assert(occurs_at(cur@, sep@, i as int));
                let cur_len = cur.len();
                assert(i + 1 <= cur_len);
                if k == 0 {
                    return Some(prefix(&cur, i));
                }
                cur = suffix(&cur, i + 1);
                k -= 1;
            },
            None => {
                if k == 0 {
                    return Some(cur);
                }
                return None;
            },
        }
    }
}

/// The first whitespace-separated token of `s`.
pub fn first_token_exec(s: &Vec<char>) -> (r: Option<Vec<char>>)
    ensures
        r matches Some(t) ==> first_token(s@) == Some(t@),
        r is None ==> first_token(s@) is None,
{
    let mut lo: usize = 0;
    assert(s@.subrange(0, s@.len() as int) =~= s@);
    while lo < s.len() && is_whitespace_char(s[lo])
        invariant
            lo <= s@.len(),
            trim_start(s@) == trim_start(s@.subrange(lo as int, s@.len() as int)),
        decreases s@.len() - lo,
    {
        let ghost rest = s@.subrange(lo as int, s@.len() as int);
        assert(rest.subrange(1, rest.len() as int) =~= s@.subrange(lo + 1, s@.len() as int));
        lo += 1;
    }
    let ghost ts = s@.subrange(lo as int, s@.len() as int);
    assert(trim_start(ts) == ts);
    if lo == s.len() {
        return None;
    }
    let mut hi: usize = lo;
    let mut out: Vec<char> = Vec::new();
    assert(s@.subrange(lo as int, s@.len() as int) =~= ts);
    while hi < s.len() && !is_whitespace_char(s[hi])
        invariant
            lo <= hi <= s@.len(),
            ts == s@.subrange(lo as int, s@.len() as int),
            out@ + word(s@.subrange(hi as int, s@.len() as int)) == word(ts),
        decreases s@.len() - hi,
    {
        let ghost rest = s@.subrange(hi as int, s@.len() as int);
        assert(rest.subrange(1, rest.len() as int) =~= s@.subrange(hi + 1, s@.len() as int));
        assert(out@.push(s@[hi as int]) + word(s@.subrange(hi + 1, s@.len() as int))
            =~= out@ + seq![s@[hi as int]].add(word(s@.subrange(hi + 1, s@.len() as int))));
        out.push(s[hi]);
        hi += 1;
    }
    assert(out@ =~= word(ts));
    Some(out)
}

/// `v` from position `n` on.
pub fn suffix(v: &Vec<char>, n: usize) -> (r: Vec<char>)
    requires
        n <= v@.len(),
    ensures
        r@ == v@.subrange(n as int, v@.len() as int),
{
    let mut out: Vec<char> = Vec::new();
    let mut k: usize = n;
    while k < v.len()
        invariant
            n <= k <= v@.len(),
            out@ == v@.subrange(n as int, k as int),
        decreases v@.len() - k,
    {
        out.push(v[k]);
        assert(v@.subrange(n as int, k + 1) =~= v@.subrange(n as int, k as int).push(v@[k as int]));
        k += 1;
    }
    out
}

/// The first `n` characters of `v`.
pub fn prefix(v: &Vec<char>, n: usize) -> (r: Vec<char>)
    requires
        n <= v@.len(),
    ensures
        r@ == v@.subrange(0, n as int),
{
    let mut out: Vec<char> = Vec::new();
    let mut k: usize = 0;
    while k < n
        invariant
            k <= n <= v@.len(),
            out@ == v@.subrange(0, k as int),
        decreases n - k,
    {
        out.push(v[k]);
        assert(v@.subrange(0, k + 1) =~= v@.subrange(0, k as int).push(v@[k as int]));
        k += 1;
    }
    out
}

} // verus!
