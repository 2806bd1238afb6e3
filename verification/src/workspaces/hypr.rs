//! The Hyprland backend: on every workspace or window event the strip is
//! rebuilt from a snapshot of Hyprland's workspaces.

use vstd::prelude::*;
use crate::text::{decimal_digits, string_from_chars, push_decimal};
use super::{
    law_sort_is_stable, make_placeholder, placeholder, sort_by_key, sorted_by, sorted_stably, views,
    with_key, SortKey, Ws, WsView,
};

verus! {

/// What the strip reads of a Hyprland workspace.
#[derive(Clone, Debug)]
pub struct HyprWorkspace {
    pub id: i32,
    pub name: String,
    /// How many windows it holds.
    pub windows: u16,
}

/// The button of a Hyprland workspace: only workspaces with an id from 1 to
/// 255 get one; labelled with the name when labels are allowed, else with the
/// id.
pub open spec fn hypr_button(w: HyprWorkspace, focused_id: i32, allow_label: bool) -> Option<
    WsView,
> {
    if w.id <= 0 || w.id > 255 {
        None
    } else {
        Some(
            WsView {
                id: w.id as u64,
                idx: w.id as u8,
                label: if allow_label {
                    w.name@
                } else {
                    decimal_digits(w.id as nat)
                },
                is_active: w.windows > 0,
                is_focused: w.id == focused_id,
            },
        )
    }
}

/// The buttons of the workspaces that get one, in the order listed.
pub open spec fn hypr_buttons(ws: Seq<HyprWorkspace>, focused_id: i32, allow_label: bool) -> Seq<
    WsView,
>
    decreases ws.len(),
{
    if ws.len() == 0 {
        seq![]
    } else {
        let s = hypr_buttons(ws.drop_last(), focused_id, allow_label);
        match hypr_button(ws.last(), focused_id, allow_label) {
            Some(b) => s.push(b),
            None => s,
        }
    }
}

/// With labels off no Hyprland workspace name reaches the strip: two lists
/// that differ only in names give the same buttons.
pub proof fn law_hypr_names_never_shown(x: Seq<HyprWorkspace>, y: Seq<HyprWorkspace>, focused_id: i32)
    requires
        x.len() == y.len(),
        forall|i: int|
            0 <= i < x.len() ==> (#[trigger] x[i]).id == y[i].id && x[i].windows == y[i].windows,
    ensures
        hypr_buttons(x, focused_id, false) == hypr_buttons(y, focused_id, false),
    decreases x.len(),
{
    if x.len() > 0 {
        assert(x.last() == x[x.len() - 1]);
        law_hypr_names_never_shown(x.drop_last(), y.drop_last(), focused_id);
    }
}

pub open spec fn has_id(s: Seq<WsView>, id: u64) -> bool {
    exists|i: int| 0 <= i < s.len() && (#[trigger] s[i]).id == id
}

/// `s` with a placeholder appended for each id of `1..=k` that no button of
/// `s` has; the placeholder of the focused workspace is focused.
pub open spec fn hypr_filled(s: Seq<WsView>, k: nat, focused_id: i32) -> Seq<WsView>
    decreases k,
{
    if k == 0 {
        s
    } else {
        let f = hypr_filled(s, (k - 1) as nat, focused_id);
        if k > 255 || has_id(f, k as u64) {
            f
        } else {
            f.push(placeholder(k as u8, focused_id == k))
        }
    }
}

/// The strip holds a button for `w`: same id and index, active exactly when
/// `w` holds a window, focused exactly when it is the focused workspace,
/// labelled by name when labels are allowed and by id otherwise.
pub open spec fn shows_workspace(s: Seq<WsView>, w: HyprWorkspace, focused_id: i32, allow_label: bool) -> bool {
    exists|j: int|
        0 <= j < s.len() && (#[trigger] s[j]).id == w.id && s[j].idx == w.id && s[j].is_active == (
        w.windows > 0) && s[j].is_focused == (w.id == focused_id) && s[j].label == (if allow_label {
            w.name@
        } else {
            decimal_digits(w.id as nat)
        })
}

proof fn lemma_buttons_show(x: Seq<HyprWorkspace>, focused_id: i32, allow_label: bool, i: int)
    requires
        0 <= i < x.len(),
        1 <= x[i].id <= 255,
    ensures
        shows_workspace(hypr_buttons(x, focused_id, allow_label), x[i], focused_id, allow_label),
    decreases x.len(),
{
    let b = hypr_buttons(x, focused_id, allow_label);
    let p = hypr_buttons(x.drop_last(), focused_id, allow_label);
    if i == x.len() - 1 {
        assert(x.last() == x[i]);
        assert(b[b.len() - 1] == hypr_button(x[i], focused_id, allow_label)->0);
    } else {
        assert(x.drop_last()[i] == x[i]);
        lemma_buttons_show(x.drop_last(), focused_id, allow_label, i);
        let j = choose|j: int|
            0 <= j < p.len() && (#[trigger] p[j]).id == x[i].id && p[j].idx == x[i].id
                && p[j].is_active == (x[i].windows > 0) && p[j].is_focused == (x[i].id
                == focused_id) && p[j].label == (if allow_label {
                x[i].name@
            } else {
                decimal_digits(x[i].id as nat)
            });
        assert(b[j] == p[j]);
    }
}

proof fn lemma_filled_keeps(s: Seq<WsView>, k: nat, focused_id: i32)
    ensures
        hypr_filled(s, k, focused_id).len() >= s.len(),
        forall|j: int| 0 <= j < s.len() ==> #[trigger] hypr_filled(s, k, focused_id)[j] == s[j],
    decreases k,
{
    if k > 0 {
        lemma_filled_keeps(s, (k - 1) as nat, focused_id);
    }
}

/// Every listed workspace with an id from 1 to 255 has its button in the
/// strip, active exactly when it holds at least one window.
pub proof fn law_hypr_listed_workspaces_shown(
    x: Seq<HyprWorkspace>,
    focused_id: i32,
    allow_label: bool,
    count: nat,
    i: int,
)
    requires
        0 <= i < x.len(),
        1 <= x[i].id <= 255,
    ensures
        shows_workspace(
            hypr_filled(hypr_buttons(x, focused_id, allow_label), count, focused_id),
            x[i],
            focused_id,
            allow_label,
        ),
{
    let b = hypr_buttons(x, focused_id, allow_label);
    lemma_buttons_show(x, focused_id, allow_label, i);
    lemma_filled_keeps(b, count, focused_id);
    let f = hypr_filled(b, count, focused_id);
    let j = choose|j: int|
        0 <= j < b.len() && (#[trigger] b[j]).id == x[i].id && b[j].idx == x[i].id
            && b[j].is_active == (x[i].windows > 0) && b[j].is_focused == (x[i].id == focused_id)
            && b[j].label == (if allow_label {
            x[i].name@
        } else {
            decimal_digits(x[i].id as nat)
        });
    assert(f[j] == b[j]);
}

fn button(w: &HyprWorkspace, focused_id: i32, allow_label: bool) -> (r: Option<Ws>)
    ensures
        match hypr_button(*w, focused_id, allow_label) {
            Some(b) => r matches Some(x) && x@ == b,
            None => r is None,
        },
{
    if w.id <= 0 || w.id > 255 {
        return None;
    }
    let label = if allow_label {
        w.name.clone()
    } else {
        let mut cs: Vec<char> = Vec::new();
        push_decimal(&mut cs, w.id as u64);
        assert(cs@ =~= decimal_digits(w.id as nat));
        string_from_chars(cs.as_slice())
    };
    Some(
        Ws {
            id: w.id as u64,
            idx: w.id as u8,
            label,
            is_active: w.windows > 0,
            is_focused: w.id == focused_id,
        },
    )
}

fn fill_missing_ids(list: &mut Vec<Ws>, focused_id: i32, count: u8)
    ensures
        views(final(list)@) == hypr_filled(views(old(list)@), count as nat, focused_id),
{
    let ghost start = views(list@);
    let mut idx: u8 = 1;
    while idx <= count
        invariant
            1 <= idx,
            idx as nat <= count as nat + 1,
            views(list@) == hypr_filled(start, (idx - 1) as nat, focused_id),
            start == views(old(list)@),
        decreases count as nat + 1 - idx as nat,
    {
        let mut present = false;
        let mut i: usize = 0;
        while i < list.len()
            invariant
                i <= list@.len(),
                present == exists|j: int| 0 <= j < i && (#[trigger] list@[j]).id == idx as u64,
            decreases list@.len() - i,
        {
            if list[i].id == idx as u64 {
                present = true;
            }
            i = i + 1;
        }
        proof {
            let vs = views(list@);
            if present {
                let j = choose|j: int| 0 <= j < i && (#[trigger] list@[j]).id == idx as u64;
                assert(vs[j].id == idx as u64);
            } else {
                assert forall|j: int| 0 <= j < vs.len() implies (#[trigger] vs[j]).id
                    != idx as u64 by {
                    assert(list@[j].id == vs[j].id);
                }
            }
        }
        if !present {
            let ghost before = list@;
            list.push(make_placeholder(idx, focused_id == idx as i32));
            assert(views(list@) =~= views(before).push(
                placeholder(idx, focused_id == idx as i32),
            ));
        }
        assert(views(list@) == hypr_filled(start, idx as nat, focused_id));
        if idx == 255 {
            return;
        }
        idx = idx + 1;
    }
}

/// The strip from a snapshot: the buttons of the workspaces with an id from
/// 1 to 255, a placeholder for each id of `1..=count` that has none, ordered
/// by id; workspaces with equal ids keep their order.
pub fn hypr_workspaces(focused_id: i32, list: &[HyprWorkspace], allow_label: bool, count: u8) -> (r:
    Vec<Ws>)
    ensures
        sorted_by(views(r@), SortKey::Id),
        views(r@).to_multiset() == hypr_filled(
            hypr_buttons(list@, focused_id, allow_label),
            count as nat,
            focused_id,
        ).to_multiset(),
        views(r@) == sorted_stably(
            hypr_filled(hypr_buttons(list@, focused_id, allow_label), count as nat, focused_id),
            SortKey::Id,
        ),
        forall|i: int|
            0 <= i < list@.len() && 1 <= list@[i].id <= 255 ==> shows_workspace(
                views(r@),
                #[trigger] list@[i],
                focused_id,
                allow_label,
            ),
        forall|k: int|
            #![trigger with_key(views(r@), SortKey::Id, k)]
            with_key(views(r@), SortKey::Id, k) == with_key(
                hypr_filled(hypr_buttons(list@, focused_id, allow_label), count as nat, focused_id),
                SortKey::Id,
                k,
            ),
{
    let mut out: Vec<Ws> = Vec::new();
    let n = list.len();
    assert(list@.take(0) =~= Seq::<HyprWorkspace>::empty());
    for i in 0..n
        invariant
            n == list@.len(),
            views(out@) == hypr_buttons(list@.take(i as int), focused_id, allow_label),
    {
        assert(list@.take(i + 1).drop_last() =~= list@.take(i as int));
        let ghost before = out@;
        match button(&list[i], focused_id, allow_label) {
            Some(b) => {
                out.push(b);
                assert(views(out@) =~= views(before).push(b@));
            },
            None => {},
        }
    }
    assert(list@.take(n as int) =~= list@);
    fill_missing_ids(&mut out, focused_id, count);
    let ghost filled_views = views(out@);
    let r = sort_by_key(out, SortKey::Id);
    proof {
        assert forall|k: int| #![trigger with_key(views(r@), SortKey::Id, k)]
            with_key(views(r@), SortKey::Id, k) == with_key(filled_views, SortKey::Id, k) by {
            law_sort_is_stable(filled_views, SortKey::Id, k);
        }
        assert forall|i: int| 0 <= i < list@.len() && 1 <= list@[i].id <= 255 implies shows_workspace(
            views(r@),
            #[trigger] list@[i],
            focused_id,
            allow_label,
        ) by {
            law_hypr_listed_workspaces_shown(list@, focused_id, allow_label, count as nat, i);
            lemma_shown_by_multiset(filled_views, views(r@), list@[i], focused_id, allow_label);
        }
    }
    r
}

proof fn lemma_shown_by_multiset(
    a: Seq<WsView>,
    b: Seq<WsView>,
    w: HyprWorkspace,
    focused_id: i32,
    allow_label: bool,
)
    requires
        a.to_multiset() == b.to_multiset(),
        shows_workspace(a, w, focused_id, allow_label),
    ensures
        shows_workspace(b, w, focused_id, allow_label),
{
    broadcast use vstd::seq_lib::group_to_multiset_ensures;

    let j = choose|j: int|
        0 <= j < a.len() && (#[trigger] a[j]).id == w.id && a[j].idx == w.id && a[j].is_active == (
        w.windows > 0) && a[j].is_focused == (w.id == focused_id) && a[j].label == (if allow_label {
            w.name@
        } else {
            decimal_digits(w.id as nat)
        });
    assert(a.contains(a[j]));
    assert(a.to_multiset().count(a[j]) > 0);
    assert(b.to_multiset().count(a[j]) > 0);
    assert(b.contains(a[j]));
    let k = choose|k: int| 0 <= k < b.len() && b[k] == a[j];
    assert(b[k].id == w.id);
}

/// The workspace id Hyprland is asked to focus: the button's id when it fits
/// an `i32`.
pub fn focus_target(id: u64) -> (r: Option<i32>)
    ensures
        id <= i32::MAX ==> r == Some(id as i32),
        id > i32::MAX ==> r is None,
{
    if id <= 2147483647u64 {
        Some(id as i32)
    } else {
        None
    }
}

} // verus!
