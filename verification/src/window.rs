//! Window records, the filter that narrows them, and the hint codes that
//! select them.

use vstd::prelude::*;

verus! {

/// A window's handle, as the compositor gives it.
pub type Window = u64;

/// One open window.
#[derive(Debug)]
pub struct WindowRecord {
    pub id: Window,
    pub desktop_id: u32,
    pub title: String,
    pub class: String,
}

/// The mathematical value of a [`WindowRecord`].
pub struct WindowModel {
    pub id: u64,
    pub desktop_id: u32,
    pub title: Seq<char>,
    pub class: Seq<char>,
}

impl View for WindowRecord {
    type V = WindowModel;

    open spec fn view(&self) -> WindowModel {
        WindowModel { id: self.id, desktop_id: self.desktop_id, title: self.title@, class: self.class@ }
    }
}

impl Clone for WindowRecord {
    fn clone(&self) -> (r: Self)
        ensures
            r@ == self@,
    {
        WindowRecord {
            id: self.id,
            desktop_id: self.desktop_id,
            title: self.title.clone(),
            class: self.class.clone(),
        }
    }
}

/// The mathematical values of `wins`, in order.
pub open spec fn window_models(wins: Seq<WindowRecord>) -> Seq<WindowModel> {
    Seq::new(wins.len(), |i: int| wins[i]@)
}

/// The ids of `wins`, in order.
pub open spec fn window_ids(wins: Seq<WindowRecord>) -> Seq<u64> {
    Seq::new(wins.len(), |i: int| wins[i].id)
}

/// The ids of the windows `wins`, in order.
pub open spec fn model_ids(wins: Seq<WindowModel>) -> Seq<u64> {
    Seq::new(wins.len(), |i: int| wins[i].id)
}

/// What the compositor told of the windows: the windows themselves and the
/// desktop that is shown.
#[derive(Debug)]
pub struct WM {
    pub wins: Vec<WindowRecord>,
    pub desktop: u32,
}

impl WM {
    /// The desktop to which the list is narrowed: the current one where
    /// only it is asked for, none where all desktops are.
    pub fn scope(&self, current_only: bool) -> (r: Option<u32>)
        ensures
            r == if current_only {
                Some(self.desktop)
            } else {
                None
            },
    {
        if current_only {
            Some(self.desktop)
        } else {
            None
        }
    }
}

/// A window class that is never shown.
#[derive(Debug)]
pub struct BlacklistedItem {
    pub class: String,
}

/// The window classes that are never shown.
#[derive(Debug)]
pub struct BlacklistedItems {
    pub item: Vec<BlacklistedItem>,
}

impl View for BlacklistedItems {
    type V = Seq<Seq<char>>;

    open spec fn view(&self) -> Seq<Seq<char>> {
        Seq::new(self.item@.len(), |i: int| self.item@[i].class@)
    }
}

impl BlacklistedItems {
    /// Whether `class` is one of the classes, character for character.
    pub fn contains(&self, class: &String) -> (r: bool)
        ensures
            r == self@.contains(class@),
    {
        let mut i: usize = 0;
        while i < self.item.len()
            invariant
                i <= self.item.len(),
                forall|j: int| 0 <= j < i ==> self@[j] != class@,
            decreases self.item.len() - i,
        {
            if self.item[i].class == *class {
                assert(self@[i as int] == class@);
                return true;
            }
            i += 1;
        }
        false
    }
}

/// Whether the window `w` passes the filter: it stands on the desktop
/// `scope`, where there is one, and its class is not in `blacklist`.
pub open spec fn is_shown(w: WindowModel, scope: Option<u32>, blacklist: Seq<Seq<char>>) -> bool {
    &&& scope matches Some(d) ==> w.desktop_id == d
    &&& !blacklist.contains(w.class)
}

/// The windows of `wins` that pass the filter, in the order of `wins`.
pub open spec fn shown(wins: Seq<WindowModel>, scope: Option<u32>, blacklist: Seq<Seq<char>>) -> Seq<
    WindowModel,
>
    decreases wins.len(),
{
    if wins.len() == 0 {
        Seq::empty()
    } else {
        let rest = shown(wins.drop_last(), scope, blacklist);
        if is_shown(wins.last(), scope, blacklist) {
            rest.push(wins.last())
        } else {
            rest
        }
    }
}

/// Every window that the filter keeps passes it and comes from the input:
/// with a scope all kept windows stand on that desktop, and none has a
/// blacklisted class. Every window of the input that passes is kept.
pub proof fn lemma_shown_members(wins: Seq<WindowModel>, scope: Option<u32>, blacklist: Seq<Seq<char>>)
    ensures
        shown(wins, scope, blacklist).len() <= wins.len(),
        forall|i: int|
            0 <= i < shown(wins, scope, blacklist).len() ==> {
                let w = #[trigger] shown(wins, scope, blacklist)[i];
                &&& wins.contains(w)
                &&& scope matches Some(d) ==> w.desktop_id == d
                &&& !blacklist.contains(w.class)
            },
        forall|j: int|
            0 <= j < wins.len() && is_shown(#[trigger] wins[j], scope, blacklist) ==> shown(
                wins,
                scope,
                blacklist,
            ).contains(wins[j]),
    decreases wins.len(),
{
    let out = shown(wins, scope, blacklist);
    if wins.len() > 0 {
        let head = wins.drop_last();
        let rest = shown(head, scope, blacklist);
        lemma_shown_members(head, scope, blacklist);
        assert forall|i: int| 0 <= i < out.len() implies {
            let w = #[trigger] out[i];
            &&& wins.contains(w)
            &&& scope matches Some(d) ==> w.desktop_id == d
            &&& !blacklist.contains(w.class)
        } by {
            if i < rest.len() {
                let w = rest[i];
                assert(out[i] == w);
                let k = choose|k: int| 0 <= k < head.len() && head[k] == w;
                assert(wins[k] == w);
            } else {
                assert(out[i] == wins.last());
                assert(wins[wins.len() - 1] == wins.last());
            }
        }
        assert forall|j: int|
            0 <= j < wins.len() && is_shown(#[trigger] wins[j], scope, blacklist) implies out.contains(
            wins[j],
        ) by {
            if j < head.len() {
                assert(head[j] == wins[j]);
                let k = choose|k: int| 0 <= k < rest.len() && rest[k] == wins[j];
                assert(out[k] == wins[j]);
            } else {
                assert(out[out.len() - 1] == wins[j]);
            }
        }
    }
}

/// The filter keeps the order of its input: of two windows that it keeps,
/// the one that comes first in the output came first in the input.
pub proof fn lemma_shown_order(
    wins: Seq<WindowModel>,
    scope: Option<u32>,
    blacklist: Seq<Seq<char>>,
    i: int,
    j: int,
) -> (at: (int, int))
    requires
        0 <= i < j < shown(wins, scope, blacklist).len(),
    ensures
        0 <= at.0 < at.1 < wins.len(),
        wins[at.0] == shown(wins, scope, blacklist)[i],
        wins[at.1] == shown(wins, scope, blacklist)[j],
    decreases wins.len(),
{
    let out = shown(wins, scope, blacklist);
    let head = wins.drop_last();
    let rest = shown(head, scope, blacklist);
    lemma_shown_members(head, scope, blacklist);
    if j < rest.len() {
        let at = lemma_shown_order(head, scope, blacklist, i, j);
        assert(out[i] == rest[i] && out[j] == rest[j]);
        at
    } else {
        assert(is_shown(wins.last(), scope, blacklist));
        assert(out[j] == wins.last());
        assert(out[i] == rest[i]);
        let p = choose|p: int| 0 <= p < head.len() && head[p] == rest[i];
        assert(wins[p] == head[p]);
        (p, wins.len() - 1)
    }
}

/// The filter works window by window: filtering two lists one after
/// the other is filtering the two as one.
pub proof fn lemma_shown_concat(
    a: Seq<WindowModel>,
    b: Seq<WindowModel>,
    scope: Option<u32>,
    blacklist: Seq<Seq<char>>,
)
    ensures
        shown(a + b, scope, blacklist) == shown(a, scope, blacklist) + shown(b, scope, blacklist),
    decreases b.len(),
{
    if b.len() == 0 {
        assert(a + b =~= a);
        assert(shown(a, scope, blacklist) + shown(b, scope, blacklist) =~= shown(a, scope, blacklist));
    } else {
        assert((a + b).drop_last() =~= a + b.drop_last());
        assert((a + b).last() == b.last());
        lemma_shown_concat(a, b.drop_last(), scope, blacklist);
        let sa = shown(a, scope, blacklist);
        let sb = shown(b.drop_last(), scope, blacklist);
        assert((sa + sb).push(b.last()) =~= sa + sb.push(b.last()));
    }
}

/// Narrows `wins` to the desktop `desktop_scope`, where there is one, and
/// to the classes that `blacklist` does not name. The survivors keep their
/// order.
pub fn filter(wins: &Vec<WindowRecord>, desktop_scope: Option<u32>, blacklist: &BlacklistedItems) -> (r:
    Vec<WindowRecord>)
    ensures
        window_models(r@) == shown(window_models(wins@), desktop_scope, blacklist@),
        forall|i: int|
            0 <= i < r@.len() ==> {
                &&& desktop_scope matches Some(d) ==> (#[trigger] r@[i]).desktop_id == d
                &&& !blacklist@.contains(r@[i].class@)
            },
{
    let ghost all = window_models(wins@);
    let mut out: Vec<WindowRecord> = Vec::new();
    let mut i: usize = 0;
    assert(all.take(0) =~= Seq::<WindowModel>::empty());
    assert(window_models(out@) =~= Seq::<WindowModel>::empty());
    while i < wins.len()
        invariant
            i <= wins.len(),
            all == window_models(wins@),
            window_models(out@) == shown(all.take(i as int), desktop_scope, blacklist@),
        decreases wins.len() - i,
    {
        let w = &wins[i];
        assert(all.take(i + 1).drop_last() =~= all.take(i as int));
        assert(all.take(i + 1).last() == w@);
        let on_desktop = match desktop_scope {
            Some(d) => d == w.desktop_id,
            None => true,
        };
        if on_desktop && !blacklist.contains(&w.class) {
            let ghost before = window_models(out@);
            out.push(w.clone());
            assert(window_models(out@) =~= before.push(w@));
        }
        i += 1;
    }
    assert(all.take(wins.len() as int) =~= all);
    proof {
        lemma_shown_members(all, desktop_scope, blacklist@);
        assert forall|i: int| 0 <= i < out@.len() implies {
            &&& desktop_scope matches Some(d) ==> (#[trigger] out@[i]).desktop_id == d
            &&& !blacklist@.contains(out@[i].class@)
        } by {
            assert(window_models(out@)[i] == out@[i]@);
        }
    }
    out
}

} // verus!
