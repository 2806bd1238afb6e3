use tkbar::workspaces::hypr::{focus_target, hypr_workspaces, HyprWorkspace};
use tkbar::workspaces::niri::{apply_event, step, NiriEvent, NiriWorkspace};
use tkbar::workspaces::sway::{
    focus_command, focus_id, sway_workspaces, SwayNode, SwayNodeKind, SwayWorkspace,
};
use tkbar::workspaces::{fill_missing, fixed_slots, shown, sort_by_key, SortKey, Ws, WORKSPACE_COUNT};

fn summary(list: &[Ws]) -> Vec<(u64, u8, String, bool, bool)> {
    list.iter().map(|w| (w.id, w.idx, w.label.clone(), w.is_active, w.is_focused)).collect()
}

fn niri(id: u64, idx: u8, name: Option<&str>, active: bool, focused: bool) -> NiriWorkspace {
    NiriWorkspace {
        id,
        idx,
        name: name.map(|s| s.to_string()),
        has_active_window: active,
        is_focused: focused,
    }
}

#[test]
fn niri_events_build_the_strip() {
    let ev = NiriEvent::WorkspacesChanged(vec![
        niri(7, 2, Some("web"), true, false),
        niri(3, 1, None, false, true),
    ]);
    let s = step(Vec::new(), &ev, false, false, WORKSPACE_COUNT);
    assert_eq!(
        summary(&s),
        vec![
            (3, 1, "1".to_string(), false, true),
            (7, 2, "2".to_string(), true, false),
        ]
    );
    let s = step(s, &NiriEvent::WorkspaceActivated { id: 7, focused: true }, false, false, 10);
    assert_eq!(summary(&s)[0].4, false);
    assert_eq!(summary(&s)[1].4, true);
    let s = step(s, &NiriEvent::WorkspaceActivated { id: 3, focused: false }, false, false, 10);
    assert_eq!(summary(&s)[1].4, true);
    let s = step(
        s,
        &NiriEvent::WorkspaceActiveWindowChanged { workspace_id: 3, has_active_window: true },
        false,
        false,
        10,
    );
    assert_eq!(summary(&s)[0].3, true);
    let s = step(s, &NiriEvent::Other, false, false, 10);
    assert_eq!(s.len(), 2);
}

#[test]
fn niri_labels_need_permission() {
    let ev = NiriEvent::WorkspacesChanged(vec![niri(7, 2, Some("web"), true, false)]);
    let s = apply_event(Vec::new(), &ev, true);
    assert_eq!(s[0].label, "web");
    let s = apply_event(Vec::new(), &ev, false);
    assert_eq!(s[0].label, "2");
}

#[test]
fn names_never_reach_the_strip_without_labels() {
    let named = NiriEvent::WorkspacesChanged(vec![
        niri(7, 2, Some("\u{1b}[31mevil"), true, false),
        niri(3, 1, Some("web"), false, true),
    ]);
    let unnamed = NiriEvent::WorkspacesChanged(vec![
        niri(7, 2, None, true, false),
        niri(3, 1, Some("other"), false, true),
    ]);
    let a = step(Vec::new(), &named, false, true, 3);
    let b = step(Vec::new(), &unnamed, false, true, 3);
    assert_eq!(summary(&a), summary(&b));
    assert!(a.iter().all(|w| w.label == w.idx.to_string()));
    let hypr = |name: &str| vec![HyprWorkspace { id: 2, name: name.to_string(), windows: 1 }];
    assert_eq!(
        summary(&hypr_workspaces(2, &hypr("mail"), false, 2)),
        summary(&hypr_workspaces(2, &hypr("chat"), false, 2))
    );
}

#[test]
fn empty_workspaces_are_filled_in_order() {
    let ev = NiriEvent::WorkspacesChanged(vec![niri(40, 3, None, true, true)]);
    let s = step(Vec::new(), &ev, false, true, 4);
    assert_eq!(
        summary(&s),
        vec![
            (1, 1, "1".to_string(), false, false),
            (2, 2, "2".to_string(), false, false),
            (40, 3, "3".to_string(), true, true),
            (4, 4, "4".to_string(), false, false),
        ]
    );
    let mut list: Vec<Ws> = Vec::new();
    fill_missing(&mut list, false, 10);
    assert!(list.is_empty());
}

#[test]
fn fixed_slots_give_ten_buttons() {
    let ev = NiriEvent::WorkspacesChanged(vec![niri(40, 3, None, true, true)]);
    let s = apply_event(Vec::new(), &ev, false);
    let slots = fixed_slots(&s, WORKSPACE_COUNT);
    assert_eq!(slots.len(), 10);
    assert_eq!(slots[2].id, 40);
    assert_eq!(slots[0].id, 1);
    assert_eq!(slots[9].label, "10");
}

#[test]
fn only_occupied_workspaces_are_shown_when_empty_ones_are_hidden() {
    let ev = NiriEvent::WorkspacesChanged(vec![
        niri(1, 1, None, false, true),
        niri(2, 2, None, true, false),
    ]);
    let s = apply_event(Vec::new(), &ev, false);
    assert_eq!(shown(&s, true).len(), 2);
    let hidden = shown(&s, false);
    assert_eq!(hidden.len(), 1);
    assert_eq!(hidden[0].id, 2);
}

#[test]
fn sorting_orders_by_key() {
    let w = |id, idx| Ws { id, idx, label: String::new(), is_active: false, is_focused: false };
    let s = sort_by_key(vec![w(5, 1), w(2, 9), w(3, 4)], SortKey::Id);
    assert_eq!(s.iter().map(|w| w.id).collect::<Vec<_>>(), vec![2, 3, 5]);
    let s = sort_by_key(s, SortKey::Idx);
    assert_eq!(s.iter().map(|w| w.idx).collect::<Vec<_>>(), vec![1, 4, 9]);
}

#[test]
fn equal_keys_keep_their_order() {
    let w = |id, idx| Ws { id, idx, label: String::new(), is_active: false, is_focused: false };
    let s = sort_by_key(vec![w(5, 2), w(1, 7), w(6, 2), w(2, 1), w(7, 2)], SortKey::Idx);
    assert_eq!(s.iter().map(|w| w.id).collect::<Vec<_>>(), vec![2, 5, 6, 7, 1]);
    let h = |id, name: &str| HyprWorkspace { id, name: name.to_string(), windows: 1 };
    let list = vec![h(2, "first"), h(1, "one"), h(2, "second")];
    let s = hypr_workspaces(1, &list, true, 0);
    assert_eq!(
        s.iter().map(|w| w.label.clone()).collect::<Vec<_>>(),
        vec!["one".to_string(), "first".to_string(), "second".to_string()]
    );
}

#[test]
fn niri_window_changes_mark_only_their_workspace() {
    let ev = NiriEvent::WorkspacesChanged(vec![
        niri(7, 2, None, false, false),
        niri(3, 1, None, false, true),
    ]);
    let s = step(Vec::new(), &ev, false, false, 10);
    let before = summary(&s);
    let s = step(s, &NiriEvent::WorkspaceActivated { id: 7, focused: false }, false, false, 10);
    assert_eq!(summary(&s), before);
    let s = step(
        s,
        &NiriEvent::WorkspaceActiveWindowChanged { workspace_id: 7, has_active_window: true },
        false,
        false,
        10,
    );
    assert_eq!(
        summary(&s),
        vec![(3, 1, "1".to_string(), false, true), (7, 2, "2".to_string(), true, false)]
    );
}

#[test]
fn hyprland_snapshot() {
    let h = |id, name: &str, windows| HyprWorkspace { id, name: name.to_string(), windows };
    let list = vec![h(3, "three", 2), h(-98, "special", 1), h(300, "big", 1), h(1, "one", 0)];
    let s = hypr_workspaces(3, &list, false, 4);
    assert_eq!(
        summary(&s),
        vec![
            (1, 1, "1".to_string(), false, false),
            (2, 2, "2".to_string(), false, false),
            (3, 3, "3".to_string(), true, true),
            (4, 4, "4".to_string(), false, false),
        ]
    );
    let s = hypr_workspaces(2, &list, true, 2);
    assert_eq!(summary(&s)[1], (2, 2, "2".to_string(), false, true));
    assert_eq!(summary(&s)[2].2, "three");
    assert_eq!(focus_target(5), Some(5));
    assert_eq!(focus_target(u64::MAX), None);
}

fn node(id: i64, kind: SwayNodeKind, nodes: Vec<SwayNode>, floating: Vec<SwayNode>) -> SwayNode {
    SwayNode { id, kind, nodes, floating_nodes: floating }
}

#[test]
fn sway_snapshot_counts_windows_in_the_tree() {
    let leaf = |id| node(id, SwayNodeKind::Con, vec![], vec![]);
    let tree = node(
        1,
        SwayNodeKind::Other,
        vec![node(
            2,
            SwayNodeKind::Other,
            vec![
                node(10, SwayNodeKind::Workspace, vec![node(11, SwayNodeKind::Con, vec![leaf(12), leaf(13)], vec![])], vec![leaf(14)]),
                node(20, SwayNodeKind::Workspace, vec![], vec![]),
            ],
            vec![],
        )],
        vec![],
    );
    let sw = |id, num, name: &str, focused| SwayWorkspace { id, num, name: name.to_string(), focused };
    let list = vec![sw(20, 2, "2: mail", false), sw(10, 1, "1: web", true), sw(30, -1, "scratch", false)];
    let s = sway_workspaces(&list, &tree, false, false, 10).unwrap();
    assert_eq!(
        summary(&s),
        vec![
            (30, 0, "-1".to_string(), false, false),
            (10, 1, "1".to_string(), true, true),
            (20, 2, "2".to_string(), false, false),
        ]
    );
    let s = sway_workspaces(&list, &tree, true, true, 3).unwrap();
    assert_eq!(s.len(), 4);
    assert_eq!(summary(&s)[1].2, "1: web");
    assert_eq!(summary(&s)[3], (3, 3, "3".to_string(), false, false));
    assert_eq!(focus_id(9), Some(9));
    assert_eq!(focus_id(u64::MAX), None);
    assert_eq!(focus_command(20, &list), "workspace number 2");
    assert_eq!(focus_command(99, &list), "workspace number 99");
}
