//! The workspace strip: the list of workspace buttons and how each
//! compositor backend keeps it.

use vstd::prelude::*;
use vstd::multiset::Multiset;
use crate::text::{decimal_digits, push_decimal, string_from_chars};

pub mod hypr;
pub mod niri;
pub mod sway;

verus! {

broadcast use vstd::seq_lib::group_to_multiset_ensures;

/// How many numbered workspaces the strip offers at least.
pub const WORKSPACE_COUNT: u8 = 10;

/// One workspace button.
#[derive(Clone, Debug)]
pub struct Ws {
    pub id: u64,
    /// Maximum of 255 workspaces.
    pub idx: u8,
    pub label: String,
    /// The workspace holds a window.
    pub is_active: bool,
    pub is_focused: bool,
}

/// A workspace button as a mathematical value.
#[verifier::ext_equal]
pub struct WsView {
    pub id: u64,
    pub idx: u8,
    pub label: Seq<char>,
    pub is_active: bool,
    pub is_focused: bool,
}

impl View for Ws {
    type V = WsView;

    open spec fn view(&self) -> WsView {
        WsView {
            id: self.id,
            idx: self.idx,
            label: self.label@,
            is_active: self.is_active,
            is_focused: self.is_focused,
        }
    }
}

impl Ws {
    pub fn copy(&self) -> (r: Ws)
        ensures
            r@ == self@,
    {
        Ws {
            id: self.id,
            idx: self.idx,
            label: self.label.clone(),
            is_active: self.is_active,
            is_focused: self.is_focused,
        }
    }
}

/// The views of a list of workspaces.
pub open spec fn views(s: Seq<Ws>) -> Seq<WsView> {
    s.map_values(|w: Ws| w@)
}

/// `n` as its decimal digits.
pub fn number_label(n: u64) -> (r: String)
    ensures
        r@ == decimal_digits(n as nat),
{
    let mut cs: Vec<char> = Vec::new();
    push_decimal(&mut cs, n);
    assert(cs@ =~= decimal_digits(n as nat));
    string_from_chars(cs.as_slice())
}

/// The button of a numbered workspace that does not exist yet.
pub open spec fn placeholder(idx: u8, is_focused: bool) -> WsView {
    WsView {
        id: idx as u64,
        idx,
        label: decimal_digits(idx as nat),
        is_active: false,
        is_focused,
    }
}

pub fn make_placeholder(idx: u8, is_focused: bool) -> (r: Ws)
    ensures
        r@ == placeholder(idx, is_focused),
{
    Ws { id: idx as u64, idx, label: number_label(idx as u64), is_active: false, is_focused }
}

pub open spec fn has_idx(s: Seq<WsView>, idx: u8) -> bool {
    exists|i: int| 0 <= i < s.len() && (#[trigger] s[i]).idx == idx
}

/// `s` with a placeholder appended for each of `1..=k` that no workspace of
/// `s` has as its index, in increasing order.
pub open spec fn filled(s: Seq<WsView>, k: nat) -> Seq<WsView>
    decreases k,
{
    if k == 0 {
        s
    } else {
        let f = filled(s, (k - 1) as nat);
        if k > 255 || has_idx(f, k as u8) {
            f
        } else {
            f.push(placeholder(k as u8, false))
        }
    }
}

proof fn lemma_filled_extends(s: Seq<WsView>, k: nat)
    ensures
        s.len() <= filled(s, k).len(),
        forall|i: int| 0 <= i < s.len() ==> filled(s, k)[i] == s[i],
    decreases k,
{
    if k > 0 {
        lemma_filled_extends(s, (k - 1) as nat);
    }
}

/// After filling up to `k`, every index of `1..=k` has a workspace.
pub proof fn law_filled_has_every_index(s: Seq<WsView>, k: nat, j: u8)
    requires
        1 <= j <= k,
    ensures
        has_idx(filled(s, k), j),
    decreases k,
{
    let f = filled(s, (k - 1) as nat);
    if j < k {
        law_filled_has_every_index(s, (k - 1) as nat, j);
        let i = choose|i: int| 0 <= i < f.len() && (#[trigger] f[i]).idx == j;
        if !(k > 255 || has_idx(f, k as u8)) {
            assert(filled(s, k)[i] == f[i]);
        }
    } else {
        if !has_idx(f, k as u8) {
            assert(filled(s, k)[f.len() as int].idx == j);
        }
    }
}

/// Two lists with the same workspaces have the same indices.
pub proof fn lemma_has_idx_by_multiset(a: Seq<WsView>, b: Seq<WsView>, j: u8)
    requires
        a.to_multiset() == b.to_multiset(),
        has_idx(a, j),
    ensures
        has_idx(b, j),
{
    let i = choose|i: int| 0 <= i < a.len() && (#[trigger] a[i]).idx == j;
    assert(a.contains(a[i]));
    assert(a.to_multiset().count(a[i]) > 0);
    assert(b.contains(a[i]));
    let k = choose|k: int| 0 <= k < b.len() && b[k] == a[i];
    assert(b[k].idx == j);
}

/// Every button is labelled with its own index, in decimal.
pub open spec fn all_numbered(s: Seq<WsView>) -> bool {
    forall|i: int| 0 <= i < s.len() ==> (#[trigger] s[i]).label == decimal_digits(s[i].idx as nat)
}

/// Placeholders are labelled with their index.
pub proof fn lemma_filled_numbered(s: Seq<WsView>, k: nat)
    requires
        all_numbered(s),
    ensures
        all_numbered(filled(s, k)),
    decreases k,
{
    if k > 0 {
        lemma_filled_numbered(s, (k - 1) as nat);
    }
}

/// Two lists with the same workspaces are numbered alike.
pub proof fn lemma_numbered_by_multiset(a: Seq<WsView>, b: Seq<WsView>)
    requires
        a.to_multiset() == b.to_multiset(),
        all_numbered(a),
    ensures
        all_numbered(b),
{
    assert forall|k: int| 0 <= k < b.len() implies (#[trigger] b[k]).label == decimal_digits(
        b[k].idx as nat,
    ) by {
        assert(b.contains(b[k]));
        assert(b.to_multiset().count(b[k]) > 0);
        assert(a.contains(b[k]));
        let i = choose|i: int| 0 <= i < a.len() && a[i] == b[k];
        assert(a[i].label == decimal_digits(a[i].idx as nat));
    }
}

/// Appends a placeholder for each index of `1..=count` no workspace has,
/// when empty workspaces are shown.
pub fn fill_missing(list: &mut Vec<Ws>, show_empty: bool, count: u8)
    ensures
        views(final(list)@) == (if show_empty {
            filled(views(old(list)@), count as nat)
        } else {
            views(old(list)@)
        }),
{
    if !show_empty {
        return;
    }
    let ghost start = views(list@);
    let mut idx: u8 = 1;
    while idx <= count
        invariant
            1 <= idx,
            idx as nat <= count as nat + 1,
            views(list@) == filled(start, (idx - 1) as nat),
            start == views(old(list)@),
            show_empty,
        decreases count as nat + 1 - idx as nat,
    {
        let mut present = false;
        let mut i: usize = 0;
        while i < list.len()
            invariant
                i <= list@.len(),
                present == exists|j: int| 0 <= j < i && (#[trigger] list@[j]).idx == idx,
            decreases list@.len() - i,
        {
            if list[i].idx == idx {
                present = true;
            }
            i = i + 1;
        }
        proof {
            let vs = views(list@);
            if present {
                let j = choose|j: int| 0 <= j < i && (#[trigger] list@[j]).idx == idx;
                assert(vs[j].idx == idx);
            } else {
                assert forall|j: int| 0 <= j < vs.len() implies (#[trigger] vs[j]).idx != idx by {
                    assert(list@[j].idx == vs[j].idx);
                }
            }
        }
        if !present {
            let ghost before = list@;
            list.push(make_placeholder(idx, false));
            assert(views(list@) =~= views(before).push(placeholder(idx, false)));
        }
        assert(views(list@) == filled(start, idx as nat));
        if idx == 255 {
            return;
        }
        idx = idx + 1;
    }
}

/// How a list of workspaces is ordered.
#[derive(Clone, Copy, Debug, PartialEq, Eq, Structural)]
pub enum SortKey {
    Idx,
    Id,
}

pub open spec fn key_of(w: WsView, key: SortKey) -> int {
    match key {
        SortKey::Idx => w.idx as int,
        SortKey::Id => w.id as int,
    }
}

pub open spec fn sorted_by(s: Seq<WsView>, key: SortKey) -> bool {
    forall|i: int, j: int| 0 <= i < j < s.len() ==> key_of(s[i], key) <= key_of(s[j], key)
}

fn exec_key(w: &Ws, key: SortKey) -> (r: u64)
    ensures
        r as int == key_of(w@, key),
{
    match key {
        SortKey::Idx => w.idx as u64,
        SortKey::Id => w.id,
    }
}

/// `s` (ordered by `key`) with `x` placed after every element whose key is
/// not larger than its own.
pub open spec fn inserted(s: Seq<WsView>, x: WsView, key: SortKey) -> Seq<WsView>
    decreases s.len(),
{
    if s.len() == 0 {
        seq![x]
    } else if key_of(s.last(), key) <= key_of(x, key) {
        s.push(x)
    } else {
        inserted(s.drop_last(), x, key).push(s.last())
    }
}

/// `s` ordered by `key` by insertion, so that elements with equal keys keep
/// their order.
pub open spec fn sorted_stably(s: Seq<WsView>, key: SortKey) -> Seq<WsView>
    decreases s.len(),
{
    if s.len() == 0 {
        seq![]
    } else {
        inserted(sorted_stably(s.drop_last(), key), s.last(), key)
    }
}

/// The elements of `s` whose key is `k`, in order.
pub open spec fn with_key(s: Seq<WsView>, key: SortKey, k: int) -> Seq<WsView>
    decreases s.len(),
{
    if s.len() == 0 {
        seq![]
    } else if key_of(s.last(), key) == k {
        with_key(s.drop_last(), key, k).push(s.last())
    } else {
        with_key(s.drop_last(), key, k)
    }
}

/// Inserting into a sorted list at the first place whose key is larger.
proof fn lemma_inserted_at(s: Seq<WsView>, x: WsView, key: SortKey, p: int)
    requires
        sorted_by(s, key),
        0 <= p <= s.len(),
        forall|j: int| 0 <= j < p ==> key_of(#[trigger] s[j], key) <= key_of(x, key),
        p < s.len() ==> key_of(s[p], key) > key_of(x, key),
    ensures
        inserted(s, x, key) == s.insert(p, x),
    decreases s.len(),
{
    if s.len() == 0 {
        assert(s.insert(p, x) =~= seq![x]);
    } else if p == s.len() {
        assert(key_of(s.last(), key) <= key_of(x, key));
        assert(s.insert(p, x) =~= s.push(x));
    } else {
        assert(key_of(s.last(), key) >= key_of(s[p], key));
        let t = s.drop_last();
        assert(sorted_by(t, key));
        assert forall|j: int| 0 <= j < p implies key_of(#[trigger] t[j], key) <= key_of(x, key) by {
            assert(t[j] == s[j]);
        }
        lemma_inserted_at(t, x, key, p);
        assert(t.insert(p, x).push(s.last()) =~= s.insert(p, x));
    }
}

/// Inserting adds `x` to the elements of its own key, after them.
proof fn lemma_inserted_with_key(s: Seq<WsView>, x: WsView, key: SortKey, k: int)
    ensures
        with_key(inserted(s, x, key), key, k) == with_key(s, key, k) + (if key_of(x, key) == k {
            seq![x]
        } else {
            seq![]
        }),
    decreases s.len(),
{
    if s.len() == 0 {
        assert(seq![x].drop_last() =~= Seq::<WsView>::empty());
        assert(with_key(Seq::<WsView>::empty(), key, k) =~= Seq::<WsView>::empty());
        if key_of(x, key) == k {
            assert(Seq::<WsView>::empty().push(x) =~= seq![x]);
        }
        assert(with_key(s, key, k) + Seq::<WsView>::empty() =~= with_key(s, key, k));
        assert(with_key(s, key, k) + seq![x] =~= with_key(s, key, k).push(x));
    } else if key_of(s.last(), key) <= key_of(x, key) {
        assert(s.push(x).drop_last() =~= s);
        assert(with_key(s, key, k) + seq![x] =~= with_key(s, key, k).push(x));
        assert(with_key(s, key, k) + Seq::<WsView>::empty() =~= with_key(s, key, k));
    } else {
        let t = s.drop_last();
        let l = s.last();
        lemma_inserted_with_key(t, x, key, k);
        let i = inserted(t, x, key);
        assert(i.push(l).drop_last() =~= i);
        let wx: Seq<WsView> = if key_of(x, key) == k {
            seq![x]
        } else {
            seq![]
        };
        if key_of(l, key) == k {
            assert(wx =~= Seq::<WsView>::empty());
            assert((with_key(t, key, k) + wx).push(l) =~= with_key(t, key, k).push(l) + wx);
        } else {
            assert(with_key(t, key, k) + wx =~= with_key(s, key, k) + wx);
        }
    }
}

/// Sorting keeps the order of the elements of each key: the sort is stable.
pub proof fn law_sort_is_stable(s: Seq<WsView>, key: SortKey, k: int)
    ensures
        with_key(sorted_stably(s, key), key, k) == with_key(s, key, k),
    decreases s.len(),
{
    if s.len() > 0 {
        let t = s.drop_last();
        law_sort_is_stable(t, key, k);
        lemma_inserted_with_key(sorted_stably(t, key), s.last(), key, k);
        if key_of(s.last(), key) == k {
            assert(with_key(t, key, k) + seq![s.last()] =~= with_key(t, key, k).push(s.last()));
        } else {
            assert(with_key(t, key, k) + Seq::<WsView>::empty() =~= with_key(t, key, k));
        }
    }
}

/// The workspaces of `list`, reordered by `key` by a stable insertion sort:
/// workspaces with equal keys keep their order.
pub fn sort_by_key(list: Vec<Ws>, key: SortKey) -> (r: Vec<Ws>)
    ensures
        views(r@) == sorted_stably(views(list@), key),
        sorted_by(views(r@), key),
        views(r@).to_multiset() == views(list@).to_multiset(),
{
    let mut out: Vec<Ws> = Vec::new();
    let ghost vs = views(list@);
    let n = list.len();
    assert(views(out@).to_multiset() =~= Multiset::empty());
    assert(vs.take(0) =~= Seq::<WsView>::empty());
    for i in 0..n
        invariant
            n == list@.len(),
            vs == views(list@),
            sorted_by(views(out@), key),
            views(out@) == sorted_stably(vs.take(i as int), key),
            views(out@).to_multiset() == vs.take(i as int).to_multiset(),
    {
        let w = list[i].copy();
        let k = exec_key(&w, key);
        let mut pos: usize = 0;
        while pos < out.len() && exec_key(&out[pos], key) <= k
            invariant
                pos <= out@.len(),
                forall|j: int| 0 <= j < pos ==> key_of(#[trigger] views(out@)[j], key) <= k,
            decreases out@.len() - pos,
        {
            pos = pos + 1;
        }
        let ghost before = out@;
        out.insert(pos, w);
        proof {
            let vb = views(before);
            assert(views(out@) =~= vb.insert(pos as int, w@));
            vstd::seq_lib::to_multiset_insert(vb, pos as int, w@);
            assert forall|a: int, b: int| 0 <= a < b < views(out@).len() implies key_of(
                views(out@)[a],
                key,
            ) <= key_of(views(out@)[b], key) by {
                if pos < vb.len() {
                    assert(key_of(vb[pos as int], key) > k);
                }
            }
            assert(w@ == vs[i as int]);
            lemma_inserted_at(vb, w@, key, pos as int);
            assert(vs.take(i + 1).drop_last() =~= vs.take(i as int));
            assert(vs.take(i + 1).last() == vs[i as int]);
            assert(vs.take(i + 1) =~= vs.take(i as int).push(vs[i as int]));
            assert(vs.take(i + 1).to_multiset() =~= vs.take(i as int).to_multiset().insert(
                vs[i as int],
            ));
            assert(vb.insert(pos as int, w@).to_multiset() =~= vb.to_multiset().insert(w@));
        }
    }
    assert(vs.take(n as int) =~= vs);
    out
}

/// The buttons shown: all of them when empty workspaces are shown, else
/// those holding a window.
pub open spec fn is_shown(w: WsView, show_empty: bool) -> bool {
    show_empty || w.is_active
}

pub fn shown(list: &[Ws], show_empty: bool) -> (r: Vec<Ws>)
    ensures
        views(r@) == views(list@).filter(|w: WsView| is_shown(w, show_empty)),
{
    let mut out: Vec<Ws> = Vec::new();
    let n = list.len();
    assert(views(list@).take(0).filter(|w: WsView| is_shown(w, show_empty)) =~= Seq::<
        WsView,
    >::empty()) by {
        reveal_with_fuel(Seq::filter, 1);
    }
    for i in 0..n
        invariant
            n == list@.len(),
            views(out@) == views(list@).take(i as int).filter(|w: WsView| is_shown(w, show_empty)),
    {
        reveal_with_fuel(Seq::filter, 1);
        assert(views(list@).take(i + 1).drop_last() =~= views(list@).take(i as int));
        if show_empty || list[i].is_active {
            let ghost before = views(out@);
            out.push(list[i].copy());
            assert(views(out@) =~= before.push(list@[i as int]@));
        }
    }
    assert(views(list@).take(n as int) =~= views(list@));
    out
}

/// For each index of `1..=count`, the first workspace with that index, or a
/// placeholder.
pub open spec fn slot(s: Seq<WsView>, idx: u8) -> WsView {
    if has_idx(s, idx) {
        s[choose|i: int|
            0 <= i < s.len() && s[i].idx == idx && forall|j: int|
                0 <= j < i ==> (#[trigger] s[j]).idx != idx]
    } else {
        placeholder(idx, false)
    }
}

/// Exactly `count` buttons, numbered `1..=count`: each the first workspace
/// with that index, or a placeholder.
pub fn fixed_slots(list: &[Ws], count: u8) -> (r: Vec<Ws>)
    ensures
        r@.len() == count,
        forall|k: int| 0 <= k < count ==> (#[trigger] r@[k])@ == slot(views(list@), (k + 1) as u8),
{
    let mut out: Vec<Ws> = Vec::new();
    let mut idx: u8 = 1;
    let ghost vs = views(list@);
    while (idx as usize) <= (count as usize)
        invariant
            1 <= idx,
            idx as int <= count as int + 1,
            vs == views(list@),
            out@.len() == idx - 1,
            forall|k: int| 0 <= k < idx - 1 ==> (#[trigger] out@[k])@ == slot(vs, (k + 1) as u8),
        decreases count as int + 1 - idx as int,
    {
        let mut found: Option<usize> = None;
        let mut i: usize = 0;
        while i < list.len()
            invariant
                i <= list@.len(),
                vs == views(list@),
                match found {
                    Some(f) => f < i && list@[f as int].idx == idx && forall|j: int|
                        0 <= j < f ==> (#[trigger] list@[j]).idx != idx,
                    None => forall|j: int| 0 <= j < i ==> (#[trigger] list@[j]).idx != idx,
                },
            decreases list@.len() - i,
        {
            if found.is_none() && list[i].idx == idx {
                found = Some(i);
            }
            i = i + 1;
        }
        let w = match found {
            Some(f) => {
                proof {
                    assert(vs[f as int].idx == idx);
                    let c = choose|c: int|
                        0 <= c < vs.len() && vs[c].idx == idx && forall|j: int|
                            0 <= j < c ==> (#[trigger] vs[j]).idx != idx;
                    assert(forall|j: int| 0 <= j < f ==> (#[trigger] vs[j]).idx != idx);
                    if c < f {
                        assert(vs[c].idx != idx);
                    } else if c > f {
                        assert(vs[f as int].idx != idx);
                    }
                }
                list[f].copy()
            },
            None => {
                proof {
                    assert forall|j: int| 0 <= j < vs.len() implies (#[trigger] vs[j]).idx
                        != idx by {
                        assert(list@[j].idx == vs[j].idx);
                    }
                }
                make_placeholder(idx, false)
            },
        };
        out.push(w);
        if idx == 255 {
            return out;
        }
        idx = idx + 1;
    }
    out
}

} // verus!
