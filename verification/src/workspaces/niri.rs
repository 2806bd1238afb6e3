//! The niri backend: niri streams events, and the strip is the state those
//! events build.

use vstd::prelude::*;
use crate::text::decimal_digits;
use super::{
    all_numbered, fill_missing, filled, has_idx, law_filled_has_every_index,
    lemma_filled_numbered, lemma_has_idx_by_multiset, lemma_numbered_by_multiset, number_label,
    sort_by_key, sorted_by, sorted_stably, views, SortKey, Ws, WsView,
};

verus! {

/// What the strip reads of a niri workspace.
#[derive(Clone, Debug)]
pub struct NiriWorkspace {
    pub id: u64,
    pub idx: u8,
    pub name: Option<String>,
    /// The workspace has an active window.
    pub has_active_window: bool,
    pub is_focused: bool,
}

/// The niri events the strip follows; every other event is `Other`.
#[derive(Clone, Debug)]
pub enum NiriEvent {
    /// The full set of workspaces, replacing the previous one.
    WorkspacesChanged(Vec<NiriWorkspace>),
    WorkspaceActivated { id: u64, focused: bool },
    WorkspaceActiveWindowChanged { workspace_id: u64, has_active_window: bool },
    Other,
}

/// A workspace's button: labelled with its name when labels are allowed and
/// it has one, else with its index.
pub open spec fn niri_button(w: NiriWorkspace, allow_label: bool) -> WsView {
    WsView {
        id: w.id,
        idx: w.idx,
        label: if allow_label && w.name is Some {
            w.name->0@
        } else {
            decimal_digits(w.idx as nat)
        },
        is_active: w.has_active_window,
        is_focused: w.is_focused,
    }
}

/// The buttons of a list of niri workspaces.
pub open spec fn niri_buttons(ws: Seq<NiriWorkspace>, allow_label: bool) -> Seq<WsView> {
    ws.map_values(|w: NiriWorkspace| niri_button(w, allow_label))
}

/// The buttons with only workspace `id` focused.
pub open spec fn refocused(s: Seq<WsView>, id: u64) -> Seq<WsView> {
    s.map_values(|w: WsView| WsView { is_focused: w.id == id, ..w })
}

/// The first workspace of `s` with id `id`.
pub open spec fn first_with_id(s: Seq<WsView>, id: u64) -> Option<int> {
    if exists|i: int| 0 <= i < s.len() && s[i].id == id {
        Some(
            choose|i: int|
                0 <= i < s.len() && s[i].id == id && forall|j: int|
                    0 <= j < i ==> (#[trigger] s[j]).id != id,
        )
    } else {
        None
    }
}

/// The state after an event.
pub open spec fn after_event(s: Seq<WsView>, e: NiriEvent, allow_label: bool) -> Seq<WsView> {
    match e {
        NiriEvent::WorkspacesChanged(ws) => niri_buttons(ws@, allow_label),
        NiriEvent::WorkspaceActivated { id, focused } => if focused {
            refocused(s, id)
        } else {
            s
        },
        NiriEvent::WorkspaceActiveWindowChanged { workspace_id, has_active_window } => {
            match first_with_id(s, workspace_id) {
                Some(i) => s.update(i, WsView { is_active: has_active_window, ..s[i] }),
                None => s,
            }
        },
        NiriEvent::Other => s,
    }
}

fn button(w: &NiriWorkspace, allow_label: bool) -> (r: Ws)
    ensures
        r@ == niri_button(*w, allow_label),
{
    let label = match &w.name {
        Some(n) => if allow_label {
            n.clone()
        } else {
            number_label(w.idx as u64)
        },
        None => number_label(w.idx as u64),
    };
    Ws { id: w.id, idx: w.idx, label, is_active: w.has_active_window, is_focused: w.is_focused }
}

/// The position of the first workspace with id `id`.
fn position_of_id(state: &[Ws], id: u64) -> (r: Option<usize>)
    ensures
        match r {
            Some(k) => first_with_id(views(state@), id) == Some(k as int) && k < state@.len(),
            None => first_with_id(views(state@), id) is None,
        },
{
    let ghost vs = views(state@);
    let n = state.len();
    for i in 0..n
        invariant
            n == state@.len(),
            vs == views(state@),
            forall|j: int| 0 <= j < i ==> (#[trigger] vs[j]).id != id,
    {
        if state[i].id == id {
            proof {
                let c = choose|c: int|
                    0 <= c < vs.len() && vs[c].id == id && forall|j: int|
                        0 <= j < c ==> (#[trigger] vs[j]).id != id;
                assert(vs[i as int].id == id);
                if c < i {
                    assert(vs[c].id != id);
                } else if c > i {
                    assert(vs[i as int].id != id);
                }
            }
            return Some(i);
        }
    }
    None
}

/// The buttons of a list of niri workspaces.
fn buttons(ws: &[NiriWorkspace], allow_label: bool) -> (r: Vec<Ws>)
    ensures
        views(r@) == niri_buttons(ws@, allow_label),
{
    let mut out: Vec<Ws> = Vec::new();
    let n = ws.len();
    assert(niri_buttons(ws@.take(0), allow_label) =~= Seq::<WsView>::empty());
    for i in 0..n
        invariant
            n == ws@.len(),
            views(out@) == niri_buttons(ws@.take(i as int), allow_label),
    {
        let ghost before = views(out@);
        let b = button(&ws[i], allow_label);
        out.push(b);
        assert(niri_buttons(ws@.take(i + 1), allow_label) =~= niri_buttons(
            ws@.take(i as int),
            allow_label,
        ).push(niri_button(ws@[i as int], allow_label)));
        assert(views(out@) =~= before.push(b@));
    }
    assert(ws@.take(n as int) =~= ws@);
    out
}

/// Applies one niri event to the state.
pub fn apply_event(state: Vec<Ws>, event: &NiriEvent, allow_label: bool) -> (r: Vec<Ws>)
    ensures
        views(r@) == after_event(views(state@), *event, allow_label),
{
    match event {
        NiriEvent::WorkspacesChanged(ws) => buttons(ws.as_slice(), allow_label),
        NiriEvent::WorkspaceActivated { id, focused } => {
            if *focused {
                refocus(state.as_slice(), *id)
            } else {
                state
            }
        },
        NiriEvent::WorkspaceActiveWindowChanged { workspace_id, has_active_window } => {
            let mut state = state;
            let ghost vs = views(state@);
            if let Some(i) = position_of_id(state.as_slice(), *workspace_id) {
                let w = &state[i];
                let updated = Ws {
                    id: w.id,
                    idx: w.idx,
                    label: w.label.clone(),
                    is_active: *has_active_window,
                    is_focused: w.is_focused,
                };
                state.set(i, updated);
                assert(views(state@) =~= vs.update(
                    i as int,
                    WsView { is_active: *has_active_window, ..vs[i as int] },
                ));
            }
            state
        },
        NiriEvent::Other => state,
    }
}

/// The buttons with only workspace `id` focused.
fn refocus(state: &[Ws], id: u64) -> (r: Vec<Ws>)
    ensures
        views(r@) == refocused(views(state@), id),
{
    let ghost old_views = views(state@);
    let mut out: Vec<Ws> = Vec::new();
    let n = state.len();
    assert(refocused(old_views.take(0), id) =~= Seq::<WsView>::empty());
    for i in 0..n
        invariant
            n == state@.len(),
            old_views == views(state@),
            views(out@) == refocused(old_views.take(i as int), id),
    {
        let w = &state[i];
        let ghost before = views(out@);
        let b = Ws {
            id: w.id,
            idx: w.idx,
            label: w.label.clone(),
            is_active: w.is_active,
            is_focused: w.id == id,
        };
        out.push(b);
        assert(refocused(old_views.take(i + 1), id) =~= refocused(old_views.take(i as int), id).push(
            WsView { is_focused: old_views[i as int].id == id, ..old_views[i as int] },
        ));
        assert(views(out@) =~= before.push(b@));
    }
    assert(old_views.take(n as int) =~= old_views);
    out
}

/// The state after an event, as the strip shows it: the event applied,
/// placeholders added for missing numbered workspaces when empty ones are
/// shown, ordered by index.
pub open spec fn stepped(
    s: Seq<WsView>,
    e: NiriEvent,
    allow_label: bool,
    show_empty: bool,
    count: u8,
) -> Seq<WsView> {
    let a = after_event(s, e, allow_label);
    if show_empty {
        filled(a, count as nat)
    } else {
        a
    }
}

/// One turn of the niri event loop: the new state, which is also what the
/// strip shows. The new state holds exactly the workspaces of
/// [`stepped`], ordered by index (stably).
pub fn step(
    state: Vec<Ws>,
    event: &NiriEvent,
    allow_label: bool,
    show_empty: bool,
    count: u8,
) -> (r: Vec<Ws>)
    ensures
        views(r@) == sorted_stably(
            stepped(views(state@), *event, allow_label, show_empty, count),
            SortKey::Idx,
        ),
        sorted_by(views(r@), SortKey::Idx),
        views(r@).to_multiset() == stepped(
            views(state@),
            *event,
            allow_label,
            show_empty,
            count,
        ).to_multiset(),
        show_empty ==> forall|j: u8| 1 <= j <= count ==> has_idx(views(r@), j),
        !allow_label && all_numbered(views(state@)) ==> all_numbered(views(r@)),
{
    let mut s = apply_event(state, event, allow_label);
    fill_missing(&mut s, show_empty, count);
    let r = sort_by_key(s, SortKey::Idx);
    proof {
        if !allow_label && all_numbered(views(state@)) {
            law_names_never_shown_without_labels(
                views(state@),
                *event,
                *event,
                show_empty,
                count,
            );
            lemma_numbered_by_multiset(
                stepped(views(state@), *event, allow_label, show_empty, count),
                views(r@),
            );
        }
        if show_empty {
            let f = stepped(views(state@), *event, allow_label, show_empty, count);
            assert forall|j: u8| 1 <= j <= count implies has_idx(views(r@), j) by {
                law_filled_has_every_index(
                    after_event(views(state@), *event, allow_label),
                    count as nat,
                    j,
                );
                lemma_has_idx_by_multiset(f, views(r@), j);
            }
        }
    }
    r
}

/// A workspace with its name dropped.
pub open spec fn unnamed(w: NiriWorkspace) -> NiriWorkspace {
    NiriWorkspace { name: None, ..w }
}

/// Two events that are the same but for the names of the workspaces they
/// carry.
pub open spec fn differ_only_in_names(a: NiriEvent, b: NiriEvent) -> bool {
    match (a, b) {
        (NiriEvent::WorkspacesChanged(x), NiriEvent::WorkspacesChanged(y)) => x@.len() == y@.len()
            && forall|i: int| 0 <= i < x@.len() ==> unnamed(#[trigger] x@[i]) == unnamed(y@[i]),
        _ => a == b,
    }
}

proof fn lemma_names_do_not_matter(s: Seq<WsView>, a: NiriEvent, b: NiriEvent)
    requires
        differ_only_in_names(a, b),
    ensures
        after_event(s, a, false) == after_event(s, b, false),
{
    match a {
        NiriEvent::WorkspacesChanged(x) => match b {
            NiriEvent::WorkspacesChanged(y) => {
                assert forall|i: int| 0 <= i < x@.len() implies niri_buttons(x@, false)[i]
                    == niri_buttons(y@, false)[i] by {
                    assert(unnamed(x@[i]) == unnamed(y@[i]));
                }
                assert(niri_buttons(x@, false) =~= niri_buttons(y@, false));
            },
            _ => {},
        },
        _ => {},
    }
}

proof fn lemma_buttons_numbered(x: Seq<NiriWorkspace>)
    ensures
        all_numbered(niri_buttons(x, false)),
{
    let e = niri_buttons(x, false);
    assert forall|k: int| 0 <= k < e.len() implies (#[trigger] e[k]).label == decimal_digits(
        e[k].idx as nat,
    ) by {
        assert(e[k] == niri_button(x[k], false));
    }
}

proof fn lemma_refocused_numbered(s: Seq<WsView>, id: u64)
    requires
        all_numbered(s),
    ensures
        all_numbered(refocused(s, id)),
{
    let e = refocused(s, id);
    assert forall|k: int| 0 <= k < e.len() implies (#[trigger] e[k]).label == decimal_digits(
        e[k].idx as nat,
    ) by {
        assert(s[k].label == decimal_digits(s[k].idx as nat));
    }
}

proof fn lemma_update_numbered(s: Seq<WsView>, i: int, active: bool)
    requires
        all_numbered(s),
        0 <= i < s.len(),
    ensures
        all_numbered(s.update(i, WsView { is_active: active, ..s[i] })),
{
    let e = s.update(i, WsView { is_active: active, ..s[i] });
    assert forall|k: int| 0 <= k < e.len() implies (#[trigger] e[k]).label == decimal_digits(
        e[k].idx as nat,
    ) by {
        assert(s[k].label == decimal_digits(s[k].idx as nat));
    }
}

/// A workspace with id `id` at `k` means there is a first one.
proof fn lemma_first_witness(s: Seq<WsView>, id: u64, k: int)
    requires
        0 <= k < s.len(),
        s[k].id == id,
    ensures
        exists|i: int|
            0 <= i < s.len() && s[i].id == id && forall|j: int|
                0 <= j < i ==> (#[trigger] s[j]).id != id,
    decreases k,
{
    if exists|j: int| 0 <= j < k && s[j].id == id {
        let j = choose|j: int| 0 <= j < k && s[j].id == id;
        lemma_first_witness(s, id, j);
    } else {
        assert forall|j: int| 0 <= j < k implies (#[trigger] s[j]).id != id by {}
    }
}

/// The first workspace with an id is one of the list, with that id.
proof fn lemma_first_with_id_in_range(s: Seq<WsView>, id: u64)
    ensures
        first_with_id(s, id) matches Some(i) ==> 0 <= i < s.len() && s[i].id == id,
{
    if exists|i: int| 0 <= i < s.len() && s[i].id == id {
        let k = choose|i: int| 0 <= i < s.len() && s[i].id == id;
        lemma_first_witness(s, id, k);
    }
}

proof fn lemma_event_keeps_numbers(s: Seq<WsView>, a: NiriEvent)
    requires
        all_numbered(s),
    ensures
        all_numbered(after_event(s, a, false)),
{
    match a {
        NiriEvent::WorkspacesChanged(x) => lemma_buttons_numbered(x@),
        NiriEvent::WorkspaceActivated { id, focused } => lemma_refocused_numbered(s, id),
        NiriEvent::WorkspaceActiveWindowChanged { workspace_id, has_active_window } => {
            lemma_first_with_id_in_range(s, workspace_id);
            if let Some(i) = first_with_id(s, workspace_id) {
                lemma_update_numbered(s, i, has_active_window);
            }
        },
        NiriEvent::Other => {},
    }
}

/// With labels off no workspace name reaches the strip: events that differ
/// only in names give the same strip, and a strip labelled by index stays
/// labelled by index.
pub proof fn law_names_never_shown_without_labels(
    s: Seq<WsView>,
    a: NiriEvent,
    b: NiriEvent,
    show_empty: bool,
    count: u8,
)
    requires
        differ_only_in_names(a, b),
    ensures
        stepped(s, a, false, show_empty, count) == stepped(s, b, false, show_empty, count),
        all_numbered(s) ==> all_numbered(stepped(s, a, false, show_empty, count)),
{
    lemma_names_do_not_matter(s, a, b);
    if all_numbered(s) {
        lemma_event_keeps_numbers(s, a);
        if show_empty {
            lemma_filled_numbered(after_event(s, a, false), count as nat);
        }
    }
}

/// The strips the niri loop sends for the events `es`, starting from the
/// state `s`: each is the state after one more event.
pub open spec fn niri_messages(
    s: Seq<WsView>,
    es: Seq<NiriEvent>,
    allow_label: bool,
    show_empty: bool,
    count: u8,
) -> Seq<Seq<WsView>>
    decreases es.len(),
{
    if es.len() == 0 {
        seq![]
    } else {
        let next = sorted_stably(stepped(s, es[0], allow_label, show_empty, count), SortKey::Idx);
        seq![next] + niri_messages(next, es.drop_first(), allow_label, show_empty, count)
    }
}

proof fn lemma_inserted_numbered(s: Seq<WsView>, x: WsView, key: SortKey)
    requires
        all_numbered(s),
        x.label == decimal_digits(x.idx as nat),
    ensures
        all_numbered(super::inserted(s, x, key)),
    decreases s.len(),
{
    if s.len() > 0 {
        lemma_inserted_numbered(s.drop_last(), x, key);
        assert(s.last() == s[s.len() - 1]);
    }
}

proof fn lemma_sorted_numbered(s: Seq<WsView>, key: SortKey)
    requires
        all_numbered(s),
    ensures
        all_numbered(sorted_stably(s, key)),
    decreases s.len(),
{
    if s.len() > 0 {
        lemma_sorted_numbered(s.drop_last(), key);
        assert(s.last() == s[s.len() - 1]);
        lemma_inserted_numbered(sorted_stably(s.drop_last(), key), s.last(), key);
    }
}

/// With labels off, two runs of the niri loop whose events differ only in
/// workspace names send the same strips, and from a strip labelled by index
/// every strip sent is labelled by index.
pub proof fn law_runs_differing_in_names_send_the_same(
    s: Seq<WsView>,
    a: Seq<NiriEvent>,
    b: Seq<NiriEvent>,
    show_empty: bool,
    count: u8,
)
    requires
        a.len() == b.len(),
        forall|i: int| 0 <= i < a.len() ==> differ_only_in_names(#[trigger] a[i], b[i]),
    ensures
        niri_messages(s, a, false, show_empty, count).len() == a.len(),
        niri_messages(s, a, false, show_empty, count) == niri_messages(s, b, false, show_empty, count),
        all_numbered(s) ==> forall|i: int|
            0 <= i < a.len() ==> all_numbered(
                #[trigger] niri_messages(s, a, false, show_empty, count)[i],
            ),
    decreases a.len(),
{
    if a.len() > 0 {
        assert(differ_only_in_names(a[0], b[0]));
        law_names_never_shown_without_labels(s, a[0], b[0], show_empty, count);
        let next = sorted_stably(stepped(s, a[0], false, show_empty, count), SortKey::Idx);
        assert forall|i: int| 0 <= i < a.drop_first().len() implies differ_only_in_names(
            #[trigger] a.drop_first()[i],
            b.drop_first()[i],
        ) by {
            assert(differ_only_in_names(a[i + 1], b[i + 1]));
        }
        law_runs_differing_in_names_send_the_same(
            next,
            a.drop_first(),
            b.drop_first(),
            show_empty,
            count,
        );
        if all_numbered(s) {
            lemma_sorted_numbered(stepped(s, a[0], false, show_empty, count), SortKey::Idx);
            let m = niri_messages(s, a, false, show_empty, count);
            let rest = niri_messages(next, a.drop_first(), false, show_empty, count);
            assert(m == seq![next] + rest);
            assert forall|i: int| 0 <= i < a.len() implies all_numbered(#[trigger] m[i]) by {
                if i > 0 {
                    assert(m[i] == rest[i - 1]);
                }
            }
        }
    }
}

/// When niri reports a workspace activated but not focused, the buttons do
/// not change.
pub proof fn law_unfocused_activation_changes_nothing(s: Seq<WsView>, id: u64, allow_label: bool)
    ensures
        after_event(s, NiriEvent::WorkspaceActivated { id, focused: false }, allow_label) == s,
{
}

/// When niri reports whether a workspace holds the active window, and the
/// workspace ids are distinct, exactly the workspace with that id takes the
/// new flag and nothing else changes.
pub proof fn law_active_window_marks_only_its_workspace(
    s: Seq<WsView>,
    workspace_id: u64,
    has_active_window: bool,
    allow_label: bool,
)
    requires
        forall|i: int, j: int| 0 <= i < j < s.len() ==> (#[trigger] s[i]).id != (#[trigger] s[j]).id,
    ensures
        ({
            let e = NiriEvent::WorkspaceActiveWindowChanged { workspace_id, has_active_window };
            let r = after_event(s, e, allow_label);
            &&& r.len() == s.len()
            &&& forall|i: int|
                0 <= i < s.len() ==> #[trigger] r[i] == (if s[i].id == workspace_id {
                    WsView { is_active: has_active_window, ..s[i] }
                } else {
                    s[i]
                })
        }),
{
    lemma_first_with_id_in_range(s, workspace_id);
    if first_with_id(s, workspace_id) is None {
        assert forall|i: int| 0 <= i < s.len() implies (#[trigger] s[i]).id != workspace_id by {
            if s[i].id == workspace_id {
                assert(exists|k: int| 0 <= k < s.len() && s[k].id == workspace_id);
                lemma_first_witness(s, workspace_id, i);
            }
        }
    }
}

/// When niri reports a workspace focused, exactly the workspaces with its id
/// are focused, and nothing else about the buttons changes.
pub proof fn law_activation_focuses_only_target(s: Seq<WsView>, id: u64)
    ensures
        after_event(s, NiriEvent::WorkspaceActivated { id, focused: true }, false).len() == s.len(),
        forall|i: int|
            0 <= i < s.len() ==> {
                let w = #[trigger] after_event(
                    s,
                    NiriEvent::WorkspaceActivated { id, focused: true },
                    false,
                )[i];
                &&& w.is_focused == (s[i].id == id)
                &&& w.id == s[i].id && w.idx == s[i].idx && w.label == s[i].label
                &&& w.is_active == s[i].is_active
            },
{
}

} // verus!
