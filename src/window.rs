//! One observed window, as a detector reports it.

use vstd::prelude::*;
use crate::identity::{resolve_identity, resolved_identity, view_opt_str, view_opt_string};
use crate::text::{chars_of, string_of, trim, trim_chars};

verus! {

/// State flags of a window.
#[derive(Clone, Copy, PartialEq, Eq, Structural, Debug)]
pub struct WindowState {
    pub minimized: bool,
    pub maximized: bool,
    pub fullscreen: bool,
    pub urgent: bool,
    pub skip_taskbar: bool,
}

impl WindowState {
    /// A window with no flag set.
    pub fn plain() -> (r: WindowState)
        ensures
            !r.minimized && !r.maximized && !r.fullscreen && !r.urgent && !r.skip_taskbar,
    {
        WindowState {
            minimized: false,
            maximized: false,
            fullscreen: false,
            urgent: false,
            skip_taskbar: false,
        }
    }
}

/// The focused window of one poll. `identity` is the key under which the
/// window's application is tracked.
#[derive(Debug)]
pub struct WindowInfo {
    pub identity: String,
    pub title: Option<String>,
    pub pid: Option<u32>,
    pub state: WindowState,
    pub workspace: Option<u32>,
    pub sequence: Option<u64>,
}

impl WindowInfo {
    /// The window seen with the given class and title, keyed by the class
    /// when it is non-empty and by the key derived from the title otherwise;
    /// `None` where neither gives an identity.
    pub fn observed(class: Option<&str>, title: Option<&str>, pid: Option<u32>, state: WindowState) -> (r:
        Option<WindowInfo>)
        ensures
            resolved_identity(view_opt_str(class), view_opt_str(title)) is None ==> r is None,
            resolved_identity(view_opt_str(class), view_opt_str(title)) matches Some(k) ==> (r matches Some(
                w,
            ) && w.identity@ == k && view_opt_string(w.title) == view_opt_str(title) && w.pid == pid
                && w.state == state && w.workspace is None && w.sequence is None),
    {
        match resolve_identity(class, title) {
            None => None,
            Some(identity) => Some(
                WindowInfo {
                    identity,
                    title: match title {
                        Some(t) => Some(t.to_string()),
                        None => None,
                    },
                    pid,
                    state,
                    workspace: None,
                    sequence: None,
                },
            ),
        }
    }
}

/// The macOS sample: the frontmost process name, trimmed, is the identity,
/// and the frontmost window's name, trimmed, the title; an empty name gives
/// no window.
pub fn macos_sample(process_out: &str, title_out: Option<&str>) -> (r: Option<WindowInfo>)
    ensures
        r is None <==> trim(process_out@).len() == 0,
        r matches Some(w) ==> w.identity@ == trim(process_out@) && view_opt_string(w.title) == (
        match title_out {
            Some(t) => Some(trim(t@)),
            None => None,
        }),
{
    let name = trim_chars(&chars_of(process_out));
    if name.len() == 0 {
        return None;
    }
    let title = match title_out {
        Some(t) => Some(string_of(&trim_chars(&chars_of(t)))),
        None => None,
    };
    Some(
        WindowInfo {
            identity: string_of(&name),
            title,
            pid: None,
            state: WindowState::plain(),
            workspace: None,
            sequence: None,
        },
    )
}

/// The Windows sample: the foreground window's process name is its class,
/// and its text, where non-empty, its title; the identity follows
/// `resolved_identity`.
pub fn windows_sample(pid: u32, process_name: &str, window_text: &str) -> (r: Option<WindowInfo>)
    ensures
        ({
            let title = if window_text@.len() > 0 {
                Some(window_text@)
            } else {
                None
            };
            &&& r is None <==> resolved_identity(Some(process_name@), title) is None
            &&& r matches Some(w) ==> Some(w.identity@) == resolved_identity(Some(process_name@), title)
                && view_opt_string(w.title) == title && w.pid == Some(pid)
        }),
{
    let title = if window_text.unicode_len() > 0 {
        Some(window_text)
    } else {
        None
    };
    WindowInfo::observed(Some(process_name), title, Some(pid), WindowState::plain())
}

} // verus!
