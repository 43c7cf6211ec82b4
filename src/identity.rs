//! Identity keys: the string that tells one application from another across
//! polls. A window's class name is used as it is; without one, a key is
//! derived from the window title.

use vstd::prelude::*;
use crate::text::{
    chars_of, find_first, prefix, first_index, has_occurrence, is_ws, occurs_at, remove_all,
    remove_all_exec, string_of, lemma_first_index_absent, lemma_remove_all_absent,
    lemma_trim_idempotent, trim, trim_chars, trim_end, trim_start,
};

verus! {

/// What `str::to_lowercase` returns for the characters `s`.
pub uninterp spec fn lower_of(s: Seq<char>) -> Seq<char>;

/// Relies on `str::to_lowercase`: the result depends on the characters alone,
/// and an empty string stays empty.
#[verifier::external_body]
pub(crate) fn lowercase(s: &str) -> (r: String)
    ensures
        r@ == lower_of(s@),
        s@.len() == 0 ==> r@.len() == 0,
{
    s.to_lowercase()
}

/// `" - "`, the first title separator tried.
pub open spec fn sep_dash() -> Seq<char> {
    seq![' ', '-', ' ']
}

/// `" — "` (an em dash between spaces), the second title separator tried.
pub open spec fn sep_em() -> Seq<char> {
    seq![' ', '\u{2014}', ' ']
}

/// `" | "`, the last title separator tried.
pub open spec fn sep_bar() -> Seq<char> {
    seq![' ', '|', ' ']
}

pub open spec fn noise_window() -> Seq<char> {
    seq!['w', 'i', 'n', 'd', 'o', 'w']
}

pub open spec fn noise_browser() -> Seq<char> {
    seq!['b', 'r', 'o', 'w', 's', 'e', 'r']
}

pub open spec fn noise_client() -> Seq<char> {
    seq!['c', 'l', 'i', 'e', 'n', 't']
}

/// The part of a title before the first separator of the first kind that
/// occurs in it; the whole title where none does.
pub open spec fn left_segment(t: Seq<char>) -> Seq<char> {
    match first_index(t, sep_dash(), 0) {
        Some(i) => t.subrange(0, i),
        None => match first_index(t, sep_em(), 0) {
            Some(i) => t.subrange(0, i),
            None => match first_index(t, sep_bar(), 0) {
                Some(i) => t.subrange(0, i),
                None => t,
            },
        },
    }
}

/// The trimmed left segment of a title: what is lower-cased.
pub open spec fn title_segment(t: Seq<char>) -> Seq<char> {
    trim(left_segment(t))
}

/// `s` without the generic words "window", "browser" and "client".
pub open spec fn strip_noise(s: Seq<char>) -> Seq<char> {
    remove_all(remove_all(remove_all(s, noise_window()), noise_browser()), noise_client())
}

/// What is left of a lower-cased segment once noise and outer whitespace go.
pub open spec fn clean_lowered(l: Seq<char>) -> Seq<char> {
    trim(strip_noise(l))
}

/// The key derived from a title; empty means the title gives no identity.
pub open spec fn derived_key(t: Seq<char>) -> Seq<char> {
    clean_lowered(lower_of(title_segment(t)))
}

pub open spec fn key_or_none(k: Seq<char>) -> Option<Seq<char>> {
    if k.len() == 0 {
        None
    } else {
        Some(k)
    }
}

pub open spec fn view_opt_str(o: Option<&str>) -> Option<Seq<char>> {
    match o {
        Some(s) => Some(s@),
        None => None,
    }
}

pub open spec fn view_opt_string(o: Option<String>) -> Option<Seq<char>> {
    match o {
        Some(s) => Some(s@),
        None => None,
    }
}

/// The identity of a window: its class when that is non-empty, else the key
/// derived from its title when that is non-empty, else none.
pub open spec fn resolved_identity(class: Option<Seq<char>>, title: Option<Seq<char>>) -> Option<
    Seq<char>,
> {
    match class {
        Some(c) if c.len() > 0 => Some(c),
        _ => match title {
            Some(t) => key_or_none(derived_key(t)),
            None => None,
        },
    }
}

/// `k` holds one of the title separators.
pub open spec fn holds_separator(k: Seq<char>) -> bool {
    has_occurrence(k, sep_dash()) || has_occurrence(k, sep_em()) || has_occurrence(k, sep_bar())
}

/// `k` holds one of the noise words.
pub open spec fn holds_noise(k: Seq<char>) -> bool {
    has_occurrence(k, noise_window()) || has_occurrence(k, noise_browser()) || has_occurrence(
        k,
        noise_client(),
    )
}

/// Identity derivation is deterministic: equal class and title give equal
/// identities. And it is idempotent: deriving a key again from a derived key
/// gives that key back, wherever lower-casing leaves the key as it is and the
/// key holds no separator and no noise word (a key such as `"a | b"`, from the
/// title `"a | b - c"`, is cut again at its `" | "`).
pub proof fn lemma_identity_stable(
    class_a: Option<Seq<char>>,
    title_a: Option<Seq<char>>,
    class_b: Option<Seq<char>>,
    title_b: Option<Seq<char>>,
    title: Seq<char>,
)
    requires
        lower_of(derived_key(title)) == derived_key(title),
        !holds_separator(derived_key(title)),
        !holds_noise(derived_key(title)),
    ensures
        class_a == class_b && title_a == title_b ==> resolved_identity(class_a, title_a)
            == resolved_identity(class_b, title_b),
        derived_key(derived_key(title)) == derived_key(title),
{
    let k = derived_key(title);
    lemma_first_index_absent(k, sep_dash(), 0);
    lemma_first_index_absent(k, sep_em(), 0);
    lemma_first_index_absent(k, sep_bar(), 0);
    assert(left_segment(k) == k);
    lemma_trim_idempotent(strip_noise(lower_of(title_segment(title))));
    assert(title_segment(k) == k);
    lemma_remove_all_absent(k, noise_window());
    lemma_remove_all_absent(k, noise_browser());
    lemma_remove_all_absent(k, noise_client());
    assert(strip_noise(k) == k);
}

fn separator(which: u8) -> (r: Vec<char>)
    requires
        which < 3,
    ensures
        which == 0 ==> r@ == sep_dash(),
        which == 1 ==> r@ == sep_em(),
        which == 2 ==> r@ == sep_bar(),
{
    let r = if which == 0 {
        vec![' ', '-', ' ']
    } else if which == 1 {
        vec![' ', '\u{2014}', ' ']
    } else {
        vec![' ', '|', ' ']
    };
    assert(which == 0 ==> r@ =~= sep_dash());
    assert(which == 1 ==> r@ =~= sep_em());
    assert(which == 2 ==> r@ =~= sep_bar());
    r
}

/// The trimmed part of `title` before its first separator.
pub fn title_segment_of(title: &str) -> (r: String)
    ensures
        r@ == title_segment(title@),
{
    let t = chars_of(title);
    let seg = match find_first(&t, &separator(0), 0) {
        Some(i) => prefix(&t, i),
        None => match find_first(&t, &separator(1), 0) {
            Some(i) => prefix(&t, i),
            None => match find_first(&t, &separator(2), 0) {
                Some(i) => prefix(&t, i),
                None => t.clone(),
            },
        },
    };
    string_of(&trim_chars(&seg))
}

/// Cleans an already lower-cased segment: removes the noise words and the
/// outer whitespace, and gives `None` where nothing is left.
pub fn clean_key(lowered: &str) -> (r: Option<String>)
    ensures
        view_opt_string(r) == key_or_none(clean_lowered(lowered@)),
{
    let l = chars_of(lowered);
    let nw = vec!['w', 'i', 'n', 'd', 'o', 'w'];
    let nb = vec!['b', 'r', 'o', 'w', 's', 'e', 'r'];
    let nc = vec!['c', 'l', 'i', 'e', 'n', 't'];
    assert(nw@ =~= noise_window());
    assert(nb@ =~= noise_browser());
    assert(nc@ =~= noise_client());
    let w = remove_all_exec(&l, &nw);
    let b = remove_all_exec(&w, &nb);
    let c = remove_all_exec(&b, &nc);
    let k = trim_chars(&c);
    if k.len() == 0 {
        None
    } else {
        Some(string_of(&k))
    }
}

/// The key derived from a window title, or `None` where the title gives no
/// usable identity.
pub fn derive_identity(title: &str) -> (r: Option<String>)
    ensures
        view_opt_string(r) == key_or_none(derived_key(title@)),
{
    let seg = title_segment_of(title);
    let lowered = lowercase(seg.as_str());
    clean_key(lowered.as_str())
}

/// The identity of a window from its class and its title.
pub fn resolve_identity(class: Option<&str>, title: Option<&str>) -> (r: Option<String>)
    ensures
        view_opt_string(r) == resolved_identity(view_opt_str(class), view_opt_str(title)),
{
    if let Some(c) = class {
        if c.unicode_len() > 0 {
            return Some(c.to_string());
        }
    }
    match title {
        Some(t) => derive_identity(t),
        None => None,
    }
}

} // verus!
