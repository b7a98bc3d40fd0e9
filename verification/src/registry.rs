//! The ordered strip of tabs: one slot per session, numbered and labelled
//! by position.

use crate::label::format_titled;
use crate::label::label_text;
use crate::label::page_label;
use crate::label::Env;
use vstd::prelude::*;
use vstd::string::*;

verus! {

/// One entry of the tab strip.
#[derive(Clone, Debug, PartialEq, Eq)]
pub struct TabSlot {
    /// The session shown in this tab.
    pub handle: u64,
    /// Where the tab stands, counted from 0.
    pub position: usize,
    /// The title that the session last reported.
    pub title: Option<String>,
    /// The text shown on the tab.
    pub label_text: String,
}

/// A slot as a plain value.
pub struct TabView {
    pub handle: u64,
    pub position: nat,
    pub title: Option<Seq<char>>,
    pub label: Seq<char>,
}

impl View for TabSlot {
    type V = TabView;

    open spec fn view(&self) -> TabView {
        TabView {
            handle: self.handle,
            position: self.position as nat,
            title: match self.title {
                Some(t) => Some(t@),
                None => None,
            },
            label: self.label_text@,
        }
    }
}

/// The slot `t` as it stands at position `i`: session and title kept,
/// position and label by `i`.
pub open spec fn renumbered(t: TabView, i: nat, env: Env) -> TabView {
    TabView { handle: t.handle, position: i, title: t.title, label: label_text(i, t.title, env) }
}

/// The slot of a session that has reported no title, at position `i`.
pub open spec fn fresh_tab(handle: u64, i: nat, env: Env) -> TabView {
    TabView { handle, position: i, title: None, label: label_text(i, None, env) }
}

/// What the window shows as its own title while `t` is the active tab: the
/// session's title, or the tab's label where it has reported none.
pub open spec fn chrome_title(t: TabView) -> Seq<char> {
    match t.title {
        Some(title) => title,
        None => t.label,
    }
}

/// A registry as a plain value.
pub struct RegistryView {
    pub env: Env,
    pub tabs: Seq<TabView>,
    pub active: Option<nat>,
}

impl RegistryView {
    /// Positions count up from 0 in display order, every label is the one
    /// that its position and title give, no session has two tabs, and a tab
    /// is active exactly where there is one.
    pub open spec fn wf(self) -> bool {
        &&& forall|i: int|
            0 <= i < self.tabs.len() ==> #[trigger] self.tabs[i] == renumbered(
                self.tabs[i],
                i as nat,
                self.env,
            )
        &&& forall|i: int, j: int|
            0 <= i < self.tabs.len() && 0 <= j < self.tabs.len() && i != j
                ==> #[trigger] self.tabs[i].handle != #[trigger] self.tabs[j].handle
        &&& match self.active {
            Some(a) => a < self.tabs.len(),
            None => self.tabs.len() == 0,
        }
    }

    /// Whether the session `handle` has a tab.
    pub open spec fn contains(self, handle: u64) -> bool {
        exists|i: int| 0 <= i < self.tabs.len() && #[trigger] self.tabs[i].handle == handle
    }

    /// The registry with a new tab for `handle` at the end. The first tab of
    /// a registry becomes its active one.
    pub open spec fn inserted(self, handle: u64) -> RegistryView {
        RegistryView {
            env: self.env,
            tabs: self.tabs.push(fresh_tab(handle, self.tabs.len(), self.env)),
            active: match self.active {
                Some(a) => Some(a),
                None => Some(0),
            },
        }
    }

    /// Which tab is active once the tab at `r` has gone: the same session as
    /// before where it stays; after the active tab, its successor, or its
    /// predecessor where it was the last.
    pub open spec fn active_without(self, r: int) -> Option<nat> {
        match self.active {
            Some(a) => if self.tabs.len() <= 1 {
                None
            } else if a > r || (a == r && r == self.tabs.len() - 1) {
                Some((a - 1) as nat)
            } else {
                Some(a)
            },
            None => None,
        }
    }

    /// The registry without the tab at `r`: the tabs before it unchanged,
    /// those behind it one place down and labelled anew.
    pub open spec fn removed(self, r: int) -> RegistryView
        recommends
            0 <= r < self.tabs.len(),
    {
        RegistryView {
            env: self.env,
            tabs: Seq::new(
                (self.tabs.len() - 1) as nat,
                |i: int|
                    if i < r {
                        self.tabs[i]
                    } else {
                        renumbered(self.tabs[i + 1], i as nat, self.env)
                    },
            ),
            active: self.active_without(r),
        }
    }

    /// The registry after the session at `i` has reported `title`.
    pub open spec fn retitled(self, i: int, title: Seq<char>) -> RegistryView
        recommends
            0 <= i < self.tabs.len(),
    {
        RegistryView {
            env: self.env,
            tabs: self.tabs.update(
                i,
                TabView {
                    handle: self.tabs[i].handle,
                    position: i as nat,
                    title: Some(title),
                    label: label_text(i as nat, Some(title), self.env),
                },
            ),
            active: self.active,
        }
    }

    /// Where the tab of the session `handle` stands.
    pub open spec fn position_of(self, handle: u64) -> Option<int> {
        if self.contains(handle) {
            Some(choose|i: int| 0 <= i < self.tabs.len() && #[trigger] self.tabs[i].handle == handle)
        } else {
            None
        }
    }

    /// The registry after the tab of the session `handle` has been removed;
    /// the registry itself where the session has no tab.
    pub open spec fn without(self, handle: u64) -> RegistryView {
        match self.position_of(handle) {
            Some(r) => self.removed(r),
            None => self,
        }
    }

    /// What removing the tab of the session `handle` reports: the window
    /// has to close exactly where the only tab goes.
    pub open spec fn removal(self, handle: u64) -> Removal {
        match self.position_of(handle) {
            Some(r) => Removal::Removed {
                position: r as usize,
                close_window: self.tabs.len() == 1,
            },
            None => Removal::Absent,
        }
    }

    /// The registry with the tab at `position` active.
    pub open spec fn activated(self, position: nat) -> RegistryView {
        RegistryView { env: self.env, tabs: self.tabs, active: Some(position) }
    }
}

/// Removing a tab from a well-formed registry leaves a well-formed one:
/// positions count up from 0 again, and each label is the one that its new
/// position and its title give.
pub proof fn lemma_removed_wf(v: RegistryView, r: int)
    requires
        v.wf(),
        0 <= r < v.tabs.len(),
    ensures
        v.removed(r).wf(),
        v.removed(r).tabs.len() == v.tabs.len() - 1,
{
    let w = v.removed(r);
    assert forall|i: int, j: int|
        0 <= i < w.tabs.len() && 0 <= j < w.tabs.len() && i != j implies #[trigger] w.tabs[i].handle
        != #[trigger] w.tabs[j].handle by {
        let a = if i < r {
            i
        } else {
            i + 1
        };
        let b = if j < r {
            j
        } else {
            j + 1
        };
        assert(w.tabs[i].handle == v.tabs[a].handle);
        assert(w.tabs[j].handle == v.tabs[b].handle);
    }
    assert forall|i: int| 0 <= i < w.tabs.len() implies #[trigger] w.tabs[i] == renumbered(
        w.tabs[i],
        i as nat,
        w.env,
    ) by {
        if i < r {
            assert(w.tabs[i] == v.tabs[i]);
        }
    }
}

/// Where the tab at place `i` stood before the tab at `r` went.
pub open spec fn place_before(r: int, i: int) -> int {
    if i < r {
        i
    } else {
        i + 1
    }
}

/// What stands at place `i` once the tab at `r` has gone: the session and
/// title that stood there before, or one place behind from `r` on, under
/// the position `i` and the label that `i` and the title give.
pub proof fn lemma_removed_tab(v: RegistryView, r: int, i: int)
    requires
        v.wf(),
        0 <= r < v.tabs.len(),
        0 <= i < v.tabs.len() - 1,
    ensures
        v.removed(r).tabs[i].handle == v.tabs[place_before(r, i)].handle,
        v.removed(r).tabs[i].title == v.tabs[place_before(r, i)].title,
        v.removed(r).tabs[i].position == i,
        v.removed(r).tabs[i].label == label_text(
            i as nat,
            v.tabs[place_before(r, i)].title,
            v.env,
        ),
{
    if i < r {
        assert(v.removed(r).tabs[i] == v.tabs[i]);
    }
}

/// In a well-formed registry a session's tab is found at one place only.
pub proof fn lemma_position_unique(v: RegistryView, handle: u64, i: int)
    requires
        v.wf(),
        0 <= i < v.tabs.len(),
        v.tabs[i].handle == handle,
    ensures
        v.contains(handle),
        v.position_of(handle) == Some(i),
{
    assert(v.contains(handle));
    let c = choose|k: int| 0 <= k < v.tabs.len() && #[trigger] v.tabs[k].handle == handle;
    if c != i {
        assert(v.tabs[c].handle != v.tabs[i].handle);
    }
}

/// Appending a tab for a session that has none leaves a well-formed
/// registry, in which exactly the old sessions and the new one have a tab.
pub proof fn lemma_inserted_wf(v: RegistryView, handle: u64)
    requires
        v.wf(),
        !v.contains(handle),
    ensures
        v.inserted(handle).wf(),
        v.inserted(handle).tabs.len() == v.tabs.len() + 1,
        forall|h: u64| #[trigger]
            v.inserted(handle).contains(h) <==> (h == handle || v.contains(h)),
{
    let w = v.inserted(handle);
    assert forall|i: int, j: int|
        0 <= i < w.tabs.len() && 0 <= j < w.tabs.len() && i != j implies #[trigger] w.tabs[i].handle
        != #[trigger] w.tabs[j].handle by {
        if i < v.tabs.len() {
            assert(w.tabs[i].handle == v.tabs[i].handle);
        }
        if j < v.tabs.len() {
            assert(w.tabs[j].handle == v.tabs[j].handle);
        }
    }
    assert forall|i: int| 0 <= i < w.tabs.len() implies #[trigger] w.tabs[i] == renumbered(
        w.tabs[i],
        i as nat,
        w.env,
    ) by {
        if i < v.tabs.len() {
            assert(w.tabs[i] == v.tabs[i]);
        }
    }
    assert forall|h: u64| #[trigger] w.contains(h) <==> (h == handle || v.contains(h)) by {
        if w.contains(h) {
            let i = choose|i: int| 0 <= i < w.tabs.len() && #[trigger] w.tabs[i].handle == h;
            if i < v.tabs.len() {
                assert(v.tabs[i].handle == h);
            }
        }
        if h == handle {
            assert(w.tabs[v.tabs.len() as int].handle == h);
        }
        if v.contains(h) {
            let i = choose|i: int| 0 <= i < v.tabs.len() && #[trigger] v.tabs[i].handle == h;
            assert(w.tabs[i].handle == h);
        }
    }
}

/// A new title leaves a well-formed registry well formed, with tabs for the
/// same sessions.
pub proof fn lemma_retitled_wf(v: RegistryView, i: int, title: Seq<char>)
    requires
        v.wf(),
        0 <= i < v.tabs.len(),
    ensures
        v.retitled(i, title).wf(),
        forall|h: u64| #[trigger] v.retitled(i, title).contains(h) <==> v.contains(h),
{
    let w = v.retitled(i, title);
    assert forall|a: int, b: int|
        0 <= a < w.tabs.len() && 0 <= b < w.tabs.len() && a != b implies #[trigger] w.tabs[a].handle
        != #[trigger] w.tabs[b].handle by {
        assert(w.tabs[a].handle == v.tabs[a].handle);
        assert(w.tabs[b].handle == v.tabs[b].handle);
    }
    assert forall|a: int| 0 <= a < w.tabs.len() implies #[trigger] w.tabs[a] == renumbered(
        w.tabs[a],
        a as nat,
        w.env,
    ) by {
        if a != i {
            assert(w.tabs[a] == v.tabs[a]);
        }
    }
    assert forall|h: u64| #[trigger] w.contains(h) <==> v.contains(h) by {
        if w.contains(h) {
            let a = choose|a: int| 0 <= a < w.tabs.len() && #[trigger] w.tabs[a].handle == h;
            assert(v.tabs[a].handle == h);
        }
        if v.contains(h) {
            let a = choose|a: int| 0 <= a < v.tabs.len() && #[trigger] v.tabs[a].handle == h;
            assert(w.tabs[a].handle == h);
        }
    }
}

/// Once the tab of a session has been removed, that session has no tab, and
/// every other session has one exactly where it had one before.
pub proof fn lemma_without_absent(v: RegistryView, handle: u64)
    requires
        v.wf(),
    ensures
        !v.without(handle).contains(handle),
        forall|h: u64| #[trigger]
            v.without(handle).contains(h) <==> (h != handle && v.contains(h)),
{
    let w = v.without(handle);
    if v.contains(handle) {
        let r = v.position_of(handle).unwrap();
        assert forall|h: u64| #[trigger] w.contains(h) <==> (h != handle && v.contains(h)) by {
            if w.contains(h) {
                let i = choose|i: int| 0 <= i < w.tabs.len() && #[trigger] w.tabs[i].handle == h;
                let a = if i < r {
                    i
                } else {
                    i + 1
                };
                assert(v.tabs[a].handle == h);
                assert(v.tabs[a].handle != v.tabs[r].handle);
            }
            if h != handle && v.contains(h) {
                let a = choose|a: int| 0 <= a < v.tabs.len() && #[trigger] v.tabs[a].handle == h;
                let i = if a < r {
                    a
                } else {
                    a - 1
                };
                assert(w.tabs[i].handle == h);
            }
        }
    }
}

/// Removing the tab of one session twice is removing it once: the second
/// removal finds no tab, changes nothing and asks for no close.
pub proof fn lemma_remove_tab_idempotent(v: RegistryView, handle: u64)
    requires
        v.wf(),
    ensures
        v.without(handle).without(handle) == v.without(handle),
        v.without(handle).removal(handle) == Removal::Absent,
{
    lemma_without_absent(v, handle);
}

/// Removing the only tab asks the window to close; removing one of several
/// does not, and neither does removing a tab that is not there.
pub proof fn lemma_close_signal(v: RegistryView, handle: u64)
    requires
        v.wf(),
    ensures
        v.removal(handle) == (Removal::Removed { position: 0, close_window: true }) <==> (
        v.contains(handle) && v.tabs.len() == 1),
        v.tabs.len() > 1 && v.contains(handle) ==> v.removal(handle) == (Removal::Removed {
            position: v.position_of(handle).unwrap() as usize,
            close_window: false,
        }) && v.without(handle).tabs.len() > 0,
        !v.contains(handle) ==> v.removal(handle) == Removal::Absent,
        v.contains(handle) && v.tabs.len() == 1 ==> v.without(handle).tabs.len() == 0,
{
}

/// What `remove_tab` found and did.
#[derive(Clone, Copy, Debug, PartialEq, Eq)]
pub enum Removal {
    /// The session had no tab: nothing changed.
    Absent,
    /// The tab at `position` was removed; `close_window` says that it was
    /// the last one, so that the window has to close.
    Removed { position: usize, close_window: bool },
}

/// The tabs of one window, in display order.
pub struct TabRegistry {
    env: Env,
    slots: Vec<TabSlot>,
    active: Option<usize>,
}

impl View for TabRegistry {
    type V = RegistryView;

    closed spec fn view(&self) -> RegistryView {
        RegistryView {
            env: self.env,
            tabs: Seq::new(self.slots@.len(), |i: int| self.slots@[i]@),
            active: match self.active {
                Some(a) => Some(a as nat),
                None => None,
            },
        }
    }
}

impl TabRegistry {
    /// A registry without tabs.
    pub fn new(env: Env) -> (r: TabRegistry)
        ensures
            r@.env == env,
            r@.tabs == Seq::<TabView>::empty(),
            r@.active == None::<nat>,
            r@.wf(),
    {
        let r = TabRegistry { env, slots: Vec::new(), active: None };
        assert(r@.tabs =~= Seq::<TabView>::empty());
        r
    }

    /// The surroundings that default labels are made of.
    pub fn env(&self) -> (e: &Env)
        ensures
            *e == self@.env,
    {
        &self.env
    }

    /// The number of tabs.
    pub fn len(&self) -> (n: usize)
        ensures
            n == self@.tabs.len(),
    {
        self.slots.len()
    }

    /// Whether there is no tab.
    pub fn is_empty(&self) -> (b: bool)
        ensures
            b == (self@.tabs.len() == 0),
    {
        self.slots.len() == 0
    }

    /// Whether the tab strip is shown: with more than one tab.
    pub fn show_tabs(&self) -> (b: bool)
        ensures
            b == (self@.tabs.len() > 1),
    {
        self.slots.len() > 1
    }

    /// The position of the active tab.
    pub fn active(&self) -> (a: Option<usize>)
        ensures
            match a {
                Some(p) => self@.active == Some(p as nat),
                None => self@.active == None::<nat>,
            },
    {
        self.active
    }

    /// The slot at `position`.
    pub fn slot(&self, position: usize) -> (s: Option<&TabSlot>)
        ensures
            match s {
                Some(slot) => position < self@.tabs.len() && slot@ == self@.tabs[position as int],
                None => position >= self@.tabs.len(),
            },
    {
        if position < self.slots.len() {
            Some(&self.slots[position])
        } else {
            None
        }
    }

    /// The session shown at `position`.
    pub fn handle_at(&self, position: usize) -> (h: Option<u64>)
        ensures
            match h {
                Some(handle) => position < self@.tabs.len() && handle
                    == self@.tabs[position as int].handle,
                None => position >= self@.tabs.len(),
            },
    {
        if position < self.slots.len() {
            Some(self.slots[position].handle)
        } else {
            None
        }
    }

    /// The position of the first tab that shows `handle`.
    pub fn position_of(&self, handle: u64) -> (p: Option<usize>)
        ensures
            match p {
                Some(i) => i < self@.tabs.len() && self@.tabs[i as int].handle == handle
                    && forall|k: int| 0 <= k < i ==> self@.tabs[k].handle != handle,
                None => !self@.contains(handle),
            },
    {
        let mut i: usize = 0;
        while i < self.slots.len()
            invariant
                i <= self.slots@.len(),
                forall|k: int| 0 <= k < i ==> self@.tabs[k].handle != handle,
            decreases self.slots@.len() - i,
        {
            if self.slots[i].handle == handle {
                return Some(i);
            }
            i += 1;
        }
        None
    }

    /// Appends a tab for the session `handle`, labelled by the
    /// surroundings, and returns its position. A session that has a tab
    /// gets no second one: then nothing changes.
    pub fn insert_tab(&mut self, handle: u64) -> (p: Option<usize>)
        requires
            old(self)@.wf(),
        ensures
            final(self)@.wf(),
            match p {
                Some(i) => !old(self)@.contains(handle) && i == old(self)@.tabs.len()
                    && final(self)@ == old(self)@.inserted(handle),
                None => old(self)@.contains(handle) && final(self)@ == old(self)@,
            },
    {
        if self.position_of(handle).is_some() {
            return None;
        }
        let position = self.slots.len();
        let label = page_label(position, None, &self.env);
        self.slots.push(TabSlot { handle, position, title: None, label_text: label });
        if self.active.is_none() {
            self.active = Some(0);
        }
        assert(self@.tabs =~= old(self)@.inserted(handle).tabs);
        Some(position)
    }

    /// What the window shows as its own title while the tab at `position`
    /// is the active one.
    pub fn window_title_at(&self, position: usize) -> (t: Option<String>)
        ensures
            match t {
                Some(text) => position < self@.tabs.len() && text@ == chrome_title(
                    self@.tabs[position as int],
                ),
                None => position >= self@.tabs.len(),
            },
    {
        if position < self.slots.len() {
            match &self.slots[position].title {
                Some(title) => Some(title.clone()),
                None => Some(self.slots[position].label_text.clone()),
            }
        } else {
            None
        }
    }

    /// Makes the tab at `position` the active one. A position behind the
    /// last tab changes nothing.
    pub fn set_active(&mut self, position: usize) -> (switched: bool)
        requires
            old(self)@.wf(),
        ensures
            final(self)@.wf(),
            switched == (position < old(self)@.tabs.len()),
            switched ==> final(self)@ == old(self)@.activated(position as nat),
            !switched ==> final(self)@ == old(self)@,
    {
        if position < self.slots.len() {
            self.active = Some(position);
            true
        } else {
            false
        }
    }

    /// Notes the title that the session `handle` reports and labels its tab
    /// by it; returns the tab's position. A session without a tab changes
    /// nothing.
    pub fn set_title(&mut self, handle: u64, title: &str) -> (p: Option<usize>)
        requires
            old(self)@.wf(),
        ensures
            final(self)@.wf(),
            match p {
                Some(i) => i < old(self)@.tabs.len() && old(self)@.tabs[i as int].handle == handle
                    && final(self)@ == old(self)@.retitled(i as int, title@),
                None => !old(self)@.contains(handle) && final(self)@ == old(self)@,
            },
    {
        match self.position_of(handle) {
            None => None,
            Some(i) => {
                let label = format_titled(i, title);
                let slot = &mut self.slots[i];
                slot.title = Some(String::from_str(title));
                slot.label_text = label;
                assert(self@.tabs =~= old(self)@.retitled(i as int, title@).tabs);
                Some(i)
            },
        }
    }

    /// Removes the tab of the session `handle`. The tabs behind it move one
    /// place down and are labelled by their new positions, titles kept. A
    /// session without a tab changes nothing.
    pub fn remove_tab(&mut self, handle: u64) -> (r: Removal)
        requires
            old(self)@.wf(),
        ensures
            final(self)@.wf(),
            final(self)@ == old(self)@.without(handle),
            r == old(self)@.removal(handle),
            !final(self)@.contains(handle),
    {
        let r = match self.position_of(handle) {
            None => {
                return Removal::Absent;
            },
            Some(r) => r,
        };
        let ghost before = self@;
        proof {
            lemma_position_unique(before, handle, r as int);
        }
        self.slots.remove(r);
        let n = self.slots.len();
        let mut i: usize = r;
        while i < n
            invariant
                r <= i <= n,
                n == self.slots@.len(),
                n == before.tabs.len() - 1,
                self.env == before.env,
                self.active == old(self).active,
                forall|k: int| 0 <= k < r ==> (#[trigger] self.slots@[k])@ == before.tabs[k],
                forall|k: int|
                    r <= k < i ==> (#[trigger] self.slots@[k])@ == renumbered(
                        before.tabs[k + 1],
                        k as nat,
                        before.env,
                    ),
                forall|k: int| i <= k < n ==> (#[trigger] self.slots@[k])@ == before.tabs[k + 1],
            decreases n - i,
        {
            let label = match &self.slots[i].title {
                Some(title) => page_label(i, Some(title.as_str()), &self.env),
                None => page_label(i, None, &self.env),
            };
            let slot = &mut self.slots[i];
            slot.position = i;
            slot.label_text = label;
            i += 1;
        }
        self.active = match self.active {
            Some(a) => if n == 0 {
                None
            } else if a > r || (a == r && r == n) {
                Some(a - 1)
            } else {
                Some(a)
            },
            None => None,
        };
        proof {
            assert(self@.tabs =~= before.removed(r as int).tabs);
            assert(self@ == before.removed(r as int));
            lemma_removed_wf(before, r as int);
            lemma_without_absent(before, handle);
        }
        Removal::Removed { position: r, close_window: n == 0 }
    }
}

} // verus!
