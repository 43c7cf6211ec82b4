//! Reading the output of the X11 tools: the window ids listed by
//! `xwininfo -root -tree`, and the title, class and visibility that
//! `xprop -id <window>` reports for one window.

use vstd::prelude::*;
use crate::identity::{
    clean_key, clean_lowered, derive_identity, derived_key, key_or_none, lower_of, lowercase,
    view_opt_string,
};
use crate::text::{
    chars_of, contains, contains_exec, find_line, find_line_exec, first_line, first_token,
    first_token_exec, has_more, line_end, nth_segment, nth_segment_exec, rest_lines, string_of,
    suffix, find_first, prefix, trim, trim_chars, occurs_at,
};
use crate::window::{WindowInfo, WindowState};

verus! {

pub open spec fn no_name_marker() -> Seq<char> {
    seq!['h', 'a', 's', ' ', 'n', 'o', ' ', 'n', 'a', 'm', 'e']
}

pub open spec fn wm_name() -> Seq<char> {
    seq!['W', 'M', '_', 'N', 'A', 'M', 'E']
}

pub open spec fn wm_class() -> Seq<char> {
    seq!['W', 'M', '_', 'C', 'L', 'A', 'S', 'S']
}

pub open spec fn state_atom() -> Seq<char> {
    seq!['_', 'N', 'E', 'T', '_', 'W', 'M', '_', 'S', 'T', 'A', 'T', 'E', '(', 'A', 'T', 'O', 'M', ')']
}

pub open spec fn state_hidden() -> Seq<char> {
    seq!['_', 'N', 'E', 'T', '_', 'W', 'M', '_', 'S', 'T', 'A', 'T', 'E', '_', 'H', 'I', 'D', 'D', 'E', 'N']
}

pub open spec fn state_focused() -> Seq<char> {
    seq!['_', 'N', 'E', 'T', '_', 'W', 'M', '_', 'S', 'T', 'A', 'T', 'E', '_', 'F', 'O', 'C', 'U', 'S', 'E', 'D']
}

pub open spec fn active_window_prop() -> Seq<char> {
    seq!['_', 'N', 'E', 'T', '_', 'A', 'C', 'T', 'I', 'V', 'E', '_', 'W', 'I', 'N', 'D', 'O', 'W']
}

/// The window id that `xprop -root _NET_ACTIVE_WINDOW` reports: the first
/// token after the `#` of the property's line; `0x0` means no window.
pub open spec fn active_window_id(s: Seq<char>) -> Option<Seq<char>> {
    match find_line(s, active_window_prop()) {
        Some(l) => match nth_segment(l, '#', 1) {
            Some(t) => match first_token(t) {
                Some(id) => if id == seq!['0', 'x', '0'] {
                    None
                } else {
                    Some(id)
                },
                None => None,
            },
            None => None,
        },
        None => None,
    }
}

/// The id a tree line gives: its first token, unless the window has no name.
pub open spec fn line_window_id(l: Seq<char>) -> Seq<Seq<char>> {
    if contains(l, no_name_marker()) {
        Seq::empty()
    } else {
        match first_token(l) {
            Some(t) => seq![t],
            None => Seq::empty(),
        }
    }
}

/// The window ids of a tree listing, in order.
pub open spec fn window_ids(s: Seq<char>) -> Seq<Seq<char>>
    decreases s.len(),
{
    if has_more(s) && line_end(s) >= 0 {
        line_window_id(first_line(s)) + window_ids(rest_lines(s))
    } else {
        line_window_id(first_line(s))
    }
}

/// The window is mapped and not hidden.
pub open spec fn xprop_visible(s: Seq<char>) -> bool {
    contains(s, state_atom()) && !contains(s, state_hidden())
}

/// The title: the first quoted part of the first line naming `WM_NAME`.
pub open spec fn xprop_title(s: Seq<char>) -> Option<Seq<char>> {
    match find_line(s, wm_name()) {
        Some(l) => match nth_segment(l, '"', 1) {
            Some(t) => Some(trim(t)),
            None => None,
        },
        None => None,
    }
}

/// The class: the second quoted part of the first line naming `WM_CLASS`.
pub open spec fn xprop_class(s: Seq<char>) -> Option<Seq<char>> {
    match find_line(s, wm_class()) {
        Some(l) => match nth_segment(l, '"', 3) {
            Some(t) => Some(trim(t)),
            None => None,
        },
        None => None,
    }
}

/// The key of a visible window: its class, lower-cased and cleaned, where
/// that leaves something; else the key derived from its title.
pub open spec fn xprop_key(s: Seq<char>) -> Option<Seq<char>> {
    if !xprop_visible(s) {
        None
    } else {
        match xprop_class(s) {
            Some(c) if c.len() > 0 && clean_lowered(lower_of(c)).len() > 0 => Some(
                clean_lowered(lower_of(c)),
            ),
            _ => match xprop_title(s) {
                Some(t) => key_or_none(derived_key(t)),
                None => None,
            },
        }
    }
}

fn lit_no_name() -> (r: Vec<char>)
    ensures
        r@ == no_name_marker(),
{
    let r = vec!['h', 'a', 's', ' ', 'n', 'o', ' ', 'n', 'a', 'm', 'e'];
    assert(r@ =~= no_name_marker());
    r
}

/// The window ids listed in the output of `xwininfo -root -tree`, skipping
/// windows that have no name.
pub fn x11_window_ids(tree: &str) -> (r: Vec<String>)
    ensures
        r@.map_values(|x: String| x@) == window_ids(tree@),
{
    let marker = lit_no_name();
    let nl = vec!['\n'];
    assert(nl@ =~= seq!['\n']);
    let mut cur = chars_of(tree);
    let mut out: Vec<String> = Vec::new();
    assert(out@.map_values(|x: String| x@) =~= Seq::<Seq<char>>::empty());
    loop
        invariant
            nl@ == seq!['\n'],
            marker@ == no_name_marker(),
            out@.map_values(|x: String| x@) + window_ids(cur@) == window_ids(tree@),
        decreases cur@.len(),
    {
        let e = find_first(&cur, &nl, 0);
        let end = match e {
            Some(i) => i,
            None => cur.len(),
        };
        let line = prefix(&cur, end);
        let ghost before = out@.map_values(|x: String| x@);
        if !contains_exec(&line, &marker) {
            if let Some(t) = first_token_exec(&line) {
                out.push(string_of(&t));
            }
        }
        assert(out@.map_values(|x: String| x@) =~= before + line_window_id(line@));
        match e {
            None => {
                assert(out@.map_values(|x: String| x@) =~= window_ids(tree@));
                return out;
            },
            Some(i) => {
                assert(occurs_at(cur@, nl@, i as int));
                let cur_len = cur.len();
                assert(i + 1 <= cur_len);
                cur = suffix(&cur, i + 1);
            },
        }
    }
}

/// The active window's id in the output of `xprop -root _NET_ACTIVE_WINDOW`.
pub fn x11_active_window_id(root_props: &str) -> (r: Option<String>)
    ensures
        view_opt_string(r) == active_window_id(root_props@),
{
    let t = chars_of(root_props);
    let prop = vec!['_', 'N', 'E', 'T', '_', 'A', 'C', 'T', 'I', 'V', 'E', '_', 'W', 'I', 'N', 'D', 'O', 'W'];
    assert(prop@ =~= active_window_prop());
    let none = vec!['0', 'x', '0'];
    assert(none@ =~= seq!['0', 'x', '0']);
    match find_line_exec(&t, &prop) {
        Some(l) => match nth_segment_exec(&l, '#', 1) {
            Some(rest) => match first_token_exec(&rest) {
                Some(id) => {
                    let is_none = id.len() == 3 && id[0] == '0' && id[1] == 'x' && id[2] == '0';
                    assert(is_none == (id@ == seq!['0', 'x', '0'])) by {
                        if id@.len() == 3 && !is_none {
                            assert(id@[0] != '0' || id@[1] != 'x' || id@[2] != '0');
                        }
                        if is_none {
                            assert(id@ =~= seq!['0', 'x', '0']);
                        }
                    }
                    if is_none {
                        None
                    } else {
                        Some(string_of(&id))
                    }
                },
                None => None,
            },
            None => None,
        },
        None => None,
    }
}

/// What `xprop -id <window>` says of one window.
pub struct XpropInfo {
    pub visible: bool,
    pub title: Option<String>,
    pub class: Option<String>,
}

fn quoted_field(text: &Vec<char>, label: &Vec<char>, n: usize) -> (r: Option<String>)
    ensures
        view_opt_string(r) == (match find_line(text@, label@) {
            Some(l) => match nth_segment(l, '"', n as nat) {
                Some(t) => Some(trim(t)),
                None => None,
            },
            None => None,
        }),
{
    match find_line_exec(text, label) {
        Some(l) => match nth_segment_exec(&l, '"', n) {
            Some(t) => Some(string_of(&trim_chars(&t))),
            None => None,
        },
        None => None,
    }
}

/// Reads the visibility, title and class out of xprop's output.
pub fn parse_xprop(text: &str) -> (r: XpropInfo)
    ensures
        r.visible == xprop_visible(text@),
        view_opt_string(r.title) == xprop_title(text@),
        view_opt_string(r.class) == xprop_class(text@),
{
    let t = chars_of(text);
    let atom = vec!['_', 'N', 'E', 'T', '_', 'W', 'M', '_', 'S', 'T', 'A', 'T', 'E', '(', 'A', 'T', 'O', 'M', ')'];
    let hidden = vec!['_', 'N', 'E', 'T', '_', 'W', 'M', '_', 'S', 'T', 'A', 'T', 'E', '_', 'H', 'I', 'D', 'D', 'E', 'N'];
    let name = vec!['W', 'M', '_', 'N', 'A', 'M', 'E'];
    let class = vec!['W', 'M', '_', 'C', 'L', 'A', 'S', 'S'];
    assert(atom@ =~= state_atom());
    assert(hidden@ =~= state_hidden());
    assert(name@ =~= wm_name());
    assert(class@ =~= wm_class());
    XpropInfo {
        visible: contains_exec(&t, &atom) && !contains_exec(&t, &hidden),
        title: quoted_field(&t, &name, 1),
        class: quoted_field(&t, &class, 3),
    }
}

/// The focused-window sample that xprop's output gives, or `None` where the
/// window is hidden or gives no identity. The title is kept as read.
pub fn x11_sample(text: &str) -> (r: Option<WindowInfo>)
    ensures
        r is None <==> xprop_key(text@) is None,
        r matches Some(w) ==> xprop_key(text@) == Some(w.identity@) && view_opt_string(w.title)
            == xprop_title(text@) && w.pid is None,
{
    let info = parse_xprop(text);
    if !info.visible {
        return None;
    }
    let XpropInfo { title, class, .. } = info;
    if let Some(c) = &class {
        if c.unicode_len() > 0 {
            let lowered = lowercase(c.as_str());
            if let Some(k) = clean_key(lowered.as_str()) {
                return Some(
                    WindowInfo {
                        identity: k,
                        title,
                        pid: None,
                        state: WindowState::plain(),
                        workspace: None,
                        sequence: None,
                    },
                );
            }
        }
    }
    match title {
        Some(t) => match derive_identity(t.as_str()) {
            Some(k) => Some(
                WindowInfo {
                    identity: k,
                    title: Some(t),
                    pid: None,
                    state: WindowState::plain(),
                    workspace: None,
                    sequence: None,
                },
            ),
            None => None,
        },
        None => None,
    }
}

/// The sample of a window that xprop marks focused (`_NET_WM_STATE_FOCUSED`),
/// as `x11_sample` gives it; `None` for any other window.
pub fn x11_focused_sample(text: &str) -> (r: Option<WindowInfo>)
    ensures
        r is None <==> !contains(text@, state_focused()) || xprop_key(text@) is None,
        r matches Some(w) ==> xprop_key(text@) == Some(w.identity@) && view_opt_string(w.title)
            == xprop_title(text@),
{
    let t = chars_of(text);
    let focused = vec!['_', 'N', 'E', 'T', '_', 'W', 'M', '_', 'S', 'T', 'A', 'T', 'E', '_', 'F', 'O', 'C', 'U', 'S', 'E', 'D'];
    assert(focused@ =~= state_focused());
    if contains_exec(&t, &focused) {
        x11_sample(text)
    } else {
        None
    }
}

} // verus!
