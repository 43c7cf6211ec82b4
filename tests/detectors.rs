use rizeclone::sway::{SwayNode, find_focused_window, sway_sample};
use rizeclone::window::{macos_sample, windows_sample};
use rizeclone::x11::{parse_xprop, x11_active_window_id, x11_focused_sample, x11_sample, x11_window_ids};

fn node(focused: bool, name: Option<&str>, title: Option<&str>, nodes: Vec<SwayNode>) -> SwayNode {
    SwayNode { focused, name: name.map(|s| s.to_string()), title: title.map(|s| s.to_string()), nodes }
}

const XPROP: &str = "_NET_WM_STATE(ATOM) = _NET_WM_STATE_FOCUSED\nWM_NAME(STRING) = \"notes.txt - Text Editor\"\nWM_CLASS(STRING) = \"gedit\", \"Gedit\"\n";

#[test]
fn xprop_fields_are_read() {
    let info = parse_xprop(XPROP);
    assert!(info.visible);
    assert_eq!(info.title, Some("notes.txt - Text Editor".to_string()));
    assert_eq!(info.class, Some("Gedit".to_string()));
}

#[test]
fn xprop_class_gives_key() {
    let w = x11_sample(XPROP).unwrap();
    assert_eq!(w.identity, "gedit");
    assert_eq!(w.title, Some("notes.txt - Text Editor".to_string()));
    let w = x11_sample("_NET_WM_STATE(ATOM) =\nWM_CLASS(STRING) = \"x\", \"TerminalWindow\"\n").unwrap();
    assert_eq!(w.identity, "terminal");
    assert_eq!(w.title, None);
}

#[test]
fn xprop_title_fallback() {
    let w = x11_sample("_NET_WM_STATE(ATOM) =\nWM_NAME(STRING) = \"Report.docx - WordProcessor\"\n").unwrap();
    assert_eq!(w.identity, "report.docx");
    assert_eq!(w.title, Some("Report.docx - WordProcessor".to_string()));
}

#[test]
fn hidden_or_unmapped_windows_give_nothing() {
    assert!(x11_sample("_NET_WM_STATE(ATOM) = _NET_WM_STATE_HIDDEN\nWM_CLASS(STRING) = \"a\", \"B\"\n").is_none());
    assert!(x11_sample("WM_CLASS(STRING) = \"a\", \"B\"\n").is_none());
    assert!(x11_sample("").is_none());
    let info = parse_xprop("WM_CLASS(STRING) = \"only\"\n");
    assert_eq!(info.class, None);
    assert!(!info.visible);
}

#[test]
fn tree_ids_skip_unnamed_windows() {
    let tree = "0x01 \"A\": ()\n0x02 (has no name): ()\n\n   0x03 \"B\": ()\n";
    assert_eq!(x11_window_ids(tree), vec!["0x01".to_string(), "0x03".to_string()]);
    assert!(x11_window_ids("").is_empty());
}

#[test]
fn sway_focused_node_is_found() {
    let tree = node(false, Some("root"), None, vec![
        node(false, Some("ws"), None, vec![node(false, Some("a"), Some("t"), vec![])]),
        node(false, Some("ws2"), None, vec![node(true, Some("kitty"), Some("~"), vec![])]),
    ]);
    let f = find_focused_window(&tree).unwrap();
    assert_eq!(f.name, Some("kitty".to_string()));
    let w = sway_sample(&tree).unwrap();
    assert_eq!(w.identity, "kitty");
    assert_eq!(w.title, Some("~".to_string()));
}

#[test]
fn sway_needs_name_and_title() {
    let none = node(false, None, None, vec![node(false, Some("a"), Some("b"), vec![])]);
    assert!(find_focused_window(&none).is_none());
    assert!(sway_sample(&none).is_none());
    let no_title = node(true, Some("a"), None, vec![]);
    assert!(sway_sample(&no_title).is_none());
    let empty_name = node(true, Some(""), Some("t"), vec![]);
    assert!(sway_sample(&empty_name).is_none());
}

#[test]
fn macos_output_is_trimmed() {
    let w = macos_sample("Safari\n", Some("Apple\n")).unwrap();
    assert_eq!(w.identity, "Safari");
    assert_eq!(w.title, Some("Apple".to_string()));
    assert!(macos_sample(" \n", None).is_none());
}

#[test]
fn windows_process_name_is_identity() {
    let w = windows_sample(42, "notepad.exe", "a.txt - Notepad").unwrap();
    assert_eq!(w.identity, "notepad.exe");
    assert_eq!(w.pid, Some(42));
    assert_eq!(w.title, Some("a.txt - Notepad".to_string()));
    let w = windows_sample(1, "", "Report.docx - Word").unwrap();
    assert_eq!(w.identity, "report.docx");
    assert!(windows_sample(1, "", "").is_none());
}

#[test]
fn only_the_focused_window_is_taken_from_the_tree() {
    assert!(x11_focused_sample(XPROP).is_some());
    assert_eq!(x11_focused_sample(XPROP).unwrap().identity, "gedit");
    let unfocused = "_NET_WM_STATE(ATOM) = _NET_WM_STATE_MAXIMIZED_VERT\nWM_CLASS(STRING) = \"a\", \"Other\"\n";
    assert!(x11_sample(unfocused).is_some());
    assert!(x11_focused_sample(unfocused).is_none());
}

#[test]
fn active_window_id_is_read() {
    assert_eq!(x11_active_window_id("_NET_ACTIVE_WINDOW(WINDOW): window id # 0x3a00007\n"), Some("0x3a00007".to_string()));
    assert_eq!(x11_active_window_id("_NET_ACTIVE_WINDOW(WINDOW): window id # 0x0\n"), None);
    assert_eq!(x11_active_window_id("_NET_ACTIVE_WINDOW:  not found.\n"), None);
    assert_eq!(x11_active_window_id(""), None);
}
