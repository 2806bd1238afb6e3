//! The sway backend: on every workspace or window event the strip is
//! rebuilt from sway's workspace list and layout tree. `get_workspaces` does
//! not expose window counts, so they are derived from the tree: a leaf
//! container is a window.

use std::collections::HashMap;
use vstd::prelude::*;
use crate::text::{signed_decimal, signed_to_chars, string_from_chars};
use super::{
    fill_missing, filled, has_idx, law_filled_has_every_index, lemma_has_idx_by_multiset,
    sort_by_key, sorted_by, views, SortKey, Ws, WsView,
};

verus! {

broadcast use vstd::std_specs::hash::group_hash_axioms;

/// The node types the window count distinguishes.
#[derive(Clone, Copy, Debug, PartialEq, Eq, Structural)]
pub enum SwayNodeKind {
    Workspace,
    Con,
    Other,
}

/// A node of sway's layout tree.
#[derive(Debug)]
pub struct SwayNode {
    pub id: i64,
    pub kind: SwayNodeKind,
    pub nodes: Vec<SwayNode>,
    pub floating_nodes: Vec<SwayNode>,
}

/// What the strip reads of a sway workspace.
#[derive(Clone, Debug)]
pub struct SwayWorkspace {
    pub id: i64,
    pub num: i32,
    pub name: String,
    pub focused: bool,
}

/// The windows under a node: a container without children is one window.
pub open spec fn node_windows(n: SwayNode) -> nat
    decreases n,
{
    if n.kind is Con && n.nodes@.len() == 0 && n.floating_nodes@.len() == 0 {
        1
    } else {
        list_windows(n.nodes@) + list_windows(n.floating_nodes@)
    }
}

/// The windows under a list of nodes.
pub open spec fn list_windows(ns: Seq<SwayNode>) -> nat
    decreases ns,
{
    if ns.len() == 0 {
        0
    } else {
        list_windows(ns.drop_last()) + node_windows(ns.last())
    }
}

/// Every workspace of the tree with its window count, in depth-first order
/// (tiled children before floating ones).
pub open spec fn node_counts(n: SwayNode) -> Seq<(i64, nat)>
    decreases n,
{
    (if n.kind is Workspace {
        seq![(n.id, node_windows(n))]
    } else {
        seq![]
    }) + list_counts(n.nodes@) + list_counts(n.floating_nodes@)
}

pub open spec fn list_counts(ns: Seq<SwayNode>) -> Seq<(i64, nat)>
    decreases ns,
{
    if ns.len() == 0 {
        seq![]
    } else {
        list_counts(ns.drop_last()) + node_counts(ns.last())
    }
}

/// `m` with each record of `cs` inserted in turn: a later record for a
/// workspace replaces an earlier one.
pub open spec fn insert_counts(m: Map<i64, nat>, cs: Seq<(i64, nat)>) -> Map<i64, nat>
    decreases cs.len(),
{
    if cs.len() == 0 {
        m
    } else {
        insert_counts(m, cs.drop_last()).insert(cs.last().0, cs.last().1)
    }
}

/// The window count of each workspace of the tree, by workspace id.
pub open spec fn count_map(cs: Seq<(i64, nat)>) -> Map<i64, nat> {
    insert_counts(Map::empty(), cs)
}

/// A map of `u32` counts as counts.
pub open spec fn widened(m: Map<i64, u32>) -> Map<i64, nat> {
    m.map_values(|c: u32| c as nat)
}

proof fn lemma_insert_counts_concat(m: Map<i64, nat>, a: Seq<(i64, nat)>, b: Seq<(i64, nat)>)
    ensures
        insert_counts(m, a + b) == insert_counts(insert_counts(m, a), b),
    decreases b.len(),
{
    if b.len() == 0 {
        assert(a + b =~= a);
    } else {
        assert((a + b).drop_last() =~= a + b.drop_last());
        assert((a + b).last() == b.last());
        lemma_insert_counts_concat(m, a, b.drop_last());
    }
}

/// Every count fits a `u32`.
pub open spec fn counts_fit(cs: Seq<(i64, nat)>) -> bool {
    forall|i: int| 0 <= i < cs.len() ==> (#[trigger] cs[i]).1 <= u32::MAX
}


proof fn lemma_list_windows_prefix(ns: Seq<SwayNode>, k: int)
    requires
        0 <= k <= ns.len(),
    ensures
        list_windows(ns.take(k)) <= list_windows(ns),
    decreases ns.len() - k,
{
    if k < ns.len() {
        lemma_list_windows_prefix(ns, k + 1);
        assert(ns.take(k + 1).drop_last() =~= ns.take(k));
    } else {
        assert(ns.take(k) =~= ns);
    }
}

/// The window count of a list of nodes, or `None` when it exceeds `u32`.
fn list_window_count(ns: &Vec<SwayNode>) -> (r: Option<u32>)
    ensures
        match r {
            Some(c) => c as nat == list_windows(ns@),
            None => list_windows(ns@) > u32::MAX,
        },
    decreases ns@, 0nat,
{
    let mut total: u32 = 0;
    let n = ns.len();
    assert(ns@.take(0) =~= Seq::<SwayNode>::empty());
    for i in 0..n
        invariant
            n == ns@.len(),
            total as nat == list_windows(ns@.take(i as int)),
    {
        assert(ns@.take(i + 1).drop_last() =~= ns@.take(i as int));
        assert(ns@.take(i + 1).last() == ns@[i as int]);
        proof {
            assert(decreases_to!(ns@ => ns@[i as int]));
        }
        let c = node_window_count(&ns[i]);
        match c {
            Some(c) => {
                if c > u32::MAX - total {
                    proof {
                        lemma_list_windows_prefix(ns@, i + 1);
                    }
                    return None;
                }
                total = total + c;
            },
            None => {
                proof {
                    lemma_list_windows_prefix(ns@, i + 1);
                }
                return None;
            },
        }
    }
    assert(ns@.take(n as int) =~= ns@);
    Some(total)
}

/// The window count of a node, or `None` when it exceeds `u32`.
fn node_window_count(node: &SwayNode) -> (r: Option<u32>)
    ensures
        match r {
            Some(c) => c as nat == node_windows(*node),
            None => node_windows(*node) > u32::MAX,
        },
    decreases *node, 1nat,
{
    if node.kind == SwayNodeKind::Con && node.nodes.len() == 0 && node.floating_nodes.len() == 0 {
        return Some(1);
    }
    proof {
        assert(decreases_to!(*node => node.nodes@));
        assert(decreases_to!(*node => node.floating_nodes@));
    }
    let tiled = list_window_count(&node.nodes);
    let floating = list_window_count(&node.floating_nodes);
    match (tiled, floating) {
        (Some(a), Some(b)) => if a > u32::MAX - b {
            None
        } else {
            Some(a + b)
        },
        _ => None,
    }
}

proof fn lemma_fit_concat(a: Seq<(i64, nat)>, b: Seq<(i64, nat)>)
    ensures
        counts_fit(a + b) <==> (counts_fit(a) && counts_fit(b)),
{
    if counts_fit(a + b) {
        assert forall|i: int| 0 <= i < a.len() implies (#[trigger] a[i]).1 <= u32::MAX by {
            assert((a + b)[i] == a[i]);
        }
        assert forall|i: int| 0 <= i < b.len() implies (#[trigger] b[i]).1 <= u32::MAX by {
            assert((a + b)[a.len() + i] == b[i]);
        }
    }
    if counts_fit(a) && counts_fit(b) {
        assert forall|i: int| 0 <= i < (a + b).len() implies (#[trigger] (a + b)[i]).1
            <= u32::MAX by {
            if i < a.len() {
                assert((a + b)[i] == a[i]);
            } else {
                assert((a + b)[i] == b[i - a.len()]);
            }
        }
    }
}

/// Inserts the window count of every workspace under the nodes `ns` into
/// `map`, in depth-first order; `false` when a count exceeds `u32`.
fn insert_list_counts(ns: &Vec<SwayNode>, map: &mut HashMap<i64, u32>) -> (ok: bool)
    ensures
        ok <==> counts_fit(list_counts(ns@)),
        ok ==> widened(final(map)@) == insert_counts(widened(old(map)@), list_counts(ns@)),
    decreases ns@, 0nat,
{
    let ghost start = widened(map@);
    let n = ns.len();
    assert(ns@.take(0) =~= Seq::<SwayNode>::empty());
    for i in 0..n
        invariant
            n == ns@.len(),
            counts_fit(list_counts(ns@.take(i as int))),
            widened(map@) == insert_counts(start, list_counts(ns@.take(i as int))),
    {
        assert(ns@.take(i + 1).drop_last() =~= ns@.take(i as int));
        assert(ns@.take(i + 1).last() == ns@[i as int]);
        proof {
            assert(decreases_to!(ns@ => ns@[i as int]));
            lemma_fit_concat(list_counts(ns@.take(i as int)), node_counts(ns@[i as int]));
            lemma_insert_counts_concat(
                start,
                list_counts(ns@.take(i as int)),
                node_counts(ns@[i as int]),
            );
        }
        if !insert_node_counts(&ns[i], map) {
            proof {
                lemma_list_counts_prefix(ns@, i + 1);
            }
            return false;
        }
    }
    assert(ns@.take(n as int) =~= ns@);
    true
}

proof fn lemma_list_counts_prefix(ns: Seq<SwayNode>, k: int)
    requires
        0 <= k <= ns.len(),
        !counts_fit(list_counts(ns.take(k))),
    ensures
        !counts_fit(list_counts(ns)),
    decreases ns.len() - k,
{
    if k < ns.len() {
        assert(ns.take(k + 1).drop_last() =~= ns.take(k));
        lemma_fit_concat(list_counts(ns.take(k)), node_counts(ns.take(k + 1).last()));
        lemma_list_counts_prefix(ns, k + 1);
    } else {
        assert(ns.take(k) =~= ns);
    }
}

/// Inserts the window count of every workspace under `node` (itself
/// included) into `map`, in depth-first order; `false` when a count exceeds
/// `u32`.
fn insert_node_counts(node: &SwayNode, map: &mut HashMap<i64, u32>) -> (ok: bool)
    ensures
        ok <==> counts_fit(node_counts(*node)),
        ok ==> widened(final(map)@) == insert_counts(widened(old(map)@), node_counts(*node)),
    decreases *node, 1nat,
{
    proof {
        assert(decreases_to!(*node => node.nodes@));
        assert(decreases_to!(*node => node.floating_nodes@));
    }
    let ghost start = widened(map@);
    let ghost own: Seq<(i64, nat)> = if node.kind is Workspace {
        seq![(node.id, node_windows(*node))]
    } else {
        seq![]
    };
    let ghost tiled = list_counts(node.nodes@);
    let ghost floating = list_counts(node.floating_nodes@);
    proof {
        lemma_fit_concat(own, tiled);
        lemma_fit_concat(own + tiled, floating);
        lemma_insert_counts_concat(start, own, tiled);
        lemma_insert_counts_concat(start, own + tiled, floating);
        assert(node_counts(*node) == own + tiled + floating);
    }
    if node.kind == SwayNodeKind::Workspace {
        match node_window_count(node) {
            Some(c) => {
                let ghost before = map@;
                map.insert(node.id, c);
                proof {
                    assert(widened(map@) =~= widened(before).insert(node.id, c as nat));
                    assert(own.drop_last() =~= Seq::<(i64, nat)>::empty());
                    assert(insert_counts(start, own.drop_last()) == start);
                    assert(insert_counts(start, own) == start.insert(node.id, c as nat));
                    assert(counts_fit(own)) by {
                        assert(own[0].1 <= u32::MAX);
                    }
                }
            },
            None => {
                proof {
                    assert(!counts_fit(own)) by {
                        assert(own[0].1 > u32::MAX);
                    }
                }
                return false;
            },
        }
    } else {
        assert(own =~= Seq::<(i64, nat)>::empty());
        assert(insert_counts(start, own) == start);
    }
    assert(widened(map@) == insert_counts(start, own));
    if !insert_list_counts(&node.nodes, map) {
        return false;
    }
    if !insert_list_counts(&node.floating_nodes, map) {
        return false;
    }
    true
}

/// The window count of every workspace of the tree, by workspace id, or
/// `None` when a count exceeds `u32`.
fn tree_window_counts(root: &SwayNode) -> (r: Option<HashMap<i64, u32>>)
    ensures
        r is None <==> !counts_fit(node_counts(*root)),
        r matches Some(m) ==> widened(m@) == count_map(node_counts(*root)),
{
    let mut map: HashMap<i64, u32> = HashMap::new();
    assert(widened(map@) =~= Map::<i64, nat>::empty());
    if insert_node_counts(root, &mut map) {
        Some(map)
    } else {
        None
    }
}

/// The button of a sway workspace, given the window counts of the tree.
pub open spec fn sway_button(w: SwayWorkspace, counts: Map<i64, nat>, allow_label: bool) -> WsView {
    WsView {
        id: if w.id >= 0 {
            w.id as u64
        } else {
            0
        },
        idx: if 0 <= w.num <= 255 {
            w.num as u8
        } else {
            0
        },
        label: if allow_label {
            w.name@
        } else {
            signed_decimal(w.num as int)
        },
        is_active: counts.contains_key(w.id) && counts[w.id] > 0,
        is_focused: w.focused,
    }
}

pub open spec fn sway_buttons(ws: Seq<SwayWorkspace>, counts: Map<i64, nat>, allow_label: bool) -> Seq<
    WsView,
> {
    ws.map_values(|w: SwayWorkspace| sway_button(w, counts, allow_label))
}

/// With labels off no sway workspace name reaches the strip: two lists that
/// differ only in names give the same buttons.
pub proof fn law_sway_names_never_shown(
    x: Seq<SwayWorkspace>,
    y: Seq<SwayWorkspace>,
    counts: Map<i64, nat>,
)
    requires
        x.len() == y.len(),
        forall|i: int|
            0 <= i < x.len() ==> (#[trigger] x[i]).id == y[i].id && x[i].num == y[i].num
                && x[i].focused == y[i].focused,
    ensures
        sway_buttons(x, counts, false) == sway_buttons(y, counts, false),
{
    assert(sway_buttons(x, counts, false) =~= sway_buttons(y, counts, false));
}

fn button(w: &SwayWorkspace, counts: &HashMap<i64, u32>, allow_label: bool) -> (r: Ws)
    ensures
        r@ == sway_button(*w, widened(counts@), allow_label),
{
    let label = if allow_label {
        w.name.clone()
    } else {
        let cs = signed_to_chars(w.num as i64);
        string_from_chars(cs.as_slice())
    };
    let is_active = match counts.get(&w.id) {
        Some(c) => *c > 0,
        None => false,
    };
    Ws {
        id: if w.id >= 0 {
            w.id as u64
        } else {
            0
        },
        idx: if 0 <= w.num && w.num <= 255 {
            w.num as u8
        } else {
            0
        },
        label,
        is_active,
        is_focused: w.focused,
    }
}

/// What the strip shows for a snapshot of sway: a button per workspace,
/// active when the tree holds a window on it, placeholders for missing
/// numbered workspaces when empty ones are shown, ordered by index; `None`
/// when a workspace holds more windows than a `u32` counts.
pub fn sway_workspaces(
    list: &[SwayWorkspace],
    tree: &SwayNode,
    allow_label: bool,
    show_empty: bool,
    count: u8,
) -> (r: Option<Vec<Ws>>)
    ensures
        r is None <==> !counts_fit(node_counts(*tree)),
        r matches Some(v) ==> {
            let b = sway_buttons(list@, count_map(node_counts(*tree)), allow_label);
            &&& sorted_by(views(v@), SortKey::Idx)
            &&& views(v@).to_multiset() == (if show_empty {
                filled(b, count as nat)
            } else {
                b
            }).to_multiset()
            &&& show_empty ==> forall|j: u8| 1 <= j <= count ==> has_idx(views(v@), j)
        },
{
    let counts = match tree_window_counts(tree) {
        Some(c) => c,
        None => return None,
    };
    let ghost cv = widened(counts@);
    let mut out: Vec<Ws> = Vec::new();
    let n = list.len();
    assert(sway_buttons(list@.take(0), cv, allow_label) =~= Seq::<WsView>::empty());
    for i in 0..n
        invariant
            n == list@.len(),
            cv == widened(counts@),
            views(out@) == sway_buttons(list@.take(i as int), cv, allow_label),
    {
        let ghost before = views(out@);
        let b = button(&list[i], &counts, allow_label);
        out.push(b);
        assert(sway_buttons(list@.take(i + 1), cv, allow_label) =~= sway_buttons(
            list@.take(i as int),
            cv,
            allow_label,
        ).push(sway_button(list@[i as int], cv, allow_label)));
        assert(views(out@) =~= before.push(b@));
    }
    assert(list@.take(n as int) =~= list@);
    let ghost b = views(out@);
    fill_missing(&mut out, show_empty, count);
    let r = sort_by_key(out, SortKey::Idx);
    proof {
        if show_empty {
            assert forall|j: u8| 1 <= j <= count implies has_idx(views(r@), j) by {
                law_filled_has_every_index(b, count as nat, j);
                lemma_has_idx_by_multiset(filled(b, count as nat), views(r@), j);
            }
        }
    }
    Some(r)
}

/// The workspace sway is asked to focus, for a button's id: `None` when
/// the id does not fit an `i64`.
pub fn focus_id(id: u64) -> (r: Option<i64>)
    ensures
        id <= i64::MAX ==> r == Some(id as i64),
        id > i64::MAX ==> r is None,
{
    if id <= 9223372036854775807u64 {
        Some(id as i64)
    } else {
        None
    }
}

/// The command that focuses workspace `id`: by the number of the first
/// workspace with that id, else by the id itself.
pub fn focus_command(id: i64, workspaces: &[SwayWorkspace]) -> (r: String)
    ensures
        r@ == "workspace number "@ + (match first_sway_with_id(workspaces@, id) {
            Some(i) => signed_decimal(workspaces@[i].num as int),
            None => signed_decimal(id as int),
        }),
{
    let mut text = crate::text::chars_of("workspace number ");
    let found = position_of_sway_id(workspaces, id);
    let number: i64 = match found {
        Some(k) => workspaces[k].num as i64,
        None => id,
    };
    let digits = signed_to_chars(number);
    let mut k: usize = 0;
    let ghost prefix = text@;
    while k < digits.len()
        invariant
            k <= digits@.len(),
            text@ == prefix + digits@.take(k as int),
        decreases digits@.len() - k,
    {
        text.push(digits[k]);
        k = k + 1;
        assert(text@ =~= prefix + digits@.take(k as int));
    }
    assert(digits@.take(k as int) =~= digits@);
    string_from_chars(text.as_slice())
}

fn position_of_sway_id(ws: &[SwayWorkspace], id: i64) -> (r: Option<usize>)
    ensures
        match r {
            Some(k) => first_sway_with_id(ws@, id) == Some(k as int) && k < ws@.len(),
            None => first_sway_with_id(ws@, id) is None,
        },
{
    let n = ws.len();
    for i in 0..n
        invariant
            n == ws@.len(),
            forall|j: int| 0 <= j < i ==> (#[trigger] ws@[j]).id != id,
    {
        if ws[i].id == id {
            proof {
                let c = choose|c: int|
                    0 <= c < ws@.len() && ws@[c].id == id && forall|j: int|
                        0 <= j < c ==> (#[trigger] ws@[j]).id != id;
                assert(ws@[i as int].id == id);
                if c < i {
                    assert(ws@[c].id != id);
                } else if c > i {
                    assert(ws@[i as int].id != id);
                }
            }
            return Some(i);
        }
    }
    None
}

/// The first workspace of `ws` with id `id`.
pub open spec fn first_sway_with_id(ws: Seq<SwayWorkspace>, id: i64) -> Option<int> {
    if exists|i: int| 0 <= i < ws.len() && ws[i].id == id {
        Some(
            choose|i: int|
                0 <= i < ws.len() && ws[i].id == id && forall|j: int|
                    0 <= j < i ==> (#[trigger] ws[j]).id != id,
        )
    } else {
        None
    }
}

} // verus!
