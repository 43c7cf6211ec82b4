//! The focused window in the tree that `swaymsg -t get_tree` reports.

use vstd::prelude::*;
use crate::identity::view_opt_string;
use crate::window::{WindowInfo, WindowState};

verus! {

/// One node of the tree: whether it holds focus, its `name` and `title`
/// (`None` where the key is absent, empty where it is not a string), and its
/// child nodes.
pub struct SwayNode {
    pub focused: bool,
    pub name: Option<String>,
    pub title: Option<String>,
    pub nodes: Vec<SwayNode>,
}

/// The first node in pre-order that is marked focused.
pub open spec fn focused_node(n: SwayNode) -> Option<SwayNode>
    decreases n, n.nodes@.len() + 1,
{
    if n.focused {
        Some(n)
    } else {
        focused_child(n, 0)
    }
}

/// The first focused node in the subtrees of the children of `n` from the
/// `i`-th on.
pub open spec fn focused_child(n: SwayNode, i: int) -> Option<SwayNode>
    decreases n, n.nodes@.len() - i,
{
    if 0 <= i < n.nodes@.len() {
        match focused_node(n.nodes@[i]) {
            Some(f) => Some(f),
            None => focused_child(n, i + 1),
        }
    } else {
        None
    }
}

/// The focused node of the tree below `node`, `node` included.
pub fn find_focused_window(node: &SwayNode) -> (r: Option<&SwayNode>)
    ensures
        r matches Some(f) ==> focused_node(*node) == Some(*f),
        r is None ==> focused_node(*node) is None,
    decreases node,
{
    if node.focused {
        return Some(node);
    }
    let mut i: usize = 0;
    while i < node.nodes.len()
        invariant
            i <= node.nodes@.len(),
            !node.focused,
            focused_child(*node, 0) == focused_child(*node, i as int),
        decreases node.nodes@.len() - i,
    {
        proof {
            assert(decreases_to!(node.nodes => node.nodes[i as int]));
        }
        if let Some(f) = find_focused_window(&node.nodes[i]) {
            return Some(f);
        }
        i += 1;
    }
    None
}

/// The application name and title of the focused node, where the node has
/// both keys and a non-empty name.
pub open spec fn sway_key(tree: SwayNode) -> Option<(Seq<char>, Seq<char>)> {
    match focused_node(tree) {
        Some(f) => match (f.name, f.title) {
            (Some(n), Some(t)) => if n@.len() > 0 {
                Some((n@, t@))
            } else {
                None
            },
            _ => None,
        },
        None => None,
    }
}

/// The focused-window sample of a sway tree: the focused node's name is its
/// identity, and its title is kept.
pub fn sway_sample(tree: &SwayNode) -> (r: Option<WindowInfo>)
    ensures
        r is None <==> sway_key(*tree) is None,
        r matches Some(w) ==> (sway_key(*tree) matches Some(p) && w.identity@ == p.0
            && view_opt_string(w.title) == Some(p.1)),
{
    match find_focused_window(tree) {
        Some(f) => match (&f.name, &f.title) {
            (Some(n), Some(t)) => if n.unicode_len() > 0 {
                Some(
                    WindowInfo {
                        identity: n.clone(),
                        title: Some(t.clone()),
                        pid: None,
                        state: WindowState::plain(),
                        workspace: None,
                        sequence: None,
                    },
                )
            } else {
                None
            },
            _ => None,
        },
        None => None,
    }
}

} // verus!
