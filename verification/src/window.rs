//! The window's reaction to what the user and the sessions do.
//!
//! Each event of the toolkit is one call here. The call changes the
//! registry and the store and returns what the window has to do in turn.

use crate::label::cwd_link_text;
use crate::label::label_text;
use crate::label::page_label;
use crate::label::Env;
use crate::registry::chrome_title;
use crate::registry::lemma_inserted_wf;
use crate::registry::lemma_without_absent;
use crate::registry::RegistryView;
use crate::registry::Removal;
use crate::registry::TabRegistry;
use crate::registry::TabView;
use crate::store::pending_meta;
use crate::store::running_meta;
use crate::store::Meta;
use crate::store::SpawnState;
use crate::store::Store;
use vstd::prelude::*;

verus! {

/// A window as a plain value: its tabs and the records of its sessions.
pub struct WindowView {
    pub registry: RegistryView,
    pub sessions: Map<u64, Meta>,
}

impl WindowView {
    /// The registry is well formed, and the sessions with a record are those
    /// with a tab, as many as there are tabs.
    pub open spec fn wf(self) -> bool {
        &&& self.registry.wf()
        &&& forall|h: u64| #[trigger] self.sessions.contains_key(h) <==> self.registry.contains(h)
        &&& self.sessions.dom().finite()
        &&& self.sessions.dom().len() == self.registry.tabs.len()
    }

    /// The session of the active tab, where there is one.
    pub open spec fn active_handle(self) -> u64
        recommends
            self.registry.active.is_some(),
    {
        self.registry.tabs[self.registry.active.unwrap() as int].handle
    }

    /// The window after a tab has been asked for the new session `handle`:
    /// the session is pending, its tab is the last and the active one. A
    /// session that has a tab changes nothing.
    pub open spec fn opened(self, handle: u64) -> WindowView {
        if self.registry.contains(handle) {
            self
        } else {
            WindowView {
                registry: self.registry.inserted(handle).activated(self.registry.tabs.len()),
                sessions: self.sessions.insert(handle, pending_meta()),
            }
        }
    }

    /// The window after the session `handle` has been closed: neither tab
    /// nor record is left of it.
    pub open spec fn closed(self, handle: u64) -> WindowView {
        WindowView {
            registry: self.registry.without(handle),
            sessions: self.sessions.remove(handle),
        }
    }

    /// The window after the process `pid` of the session `handle` has
    /// started.
    pub open spec fn started(self, handle: u64, pid: u32) -> WindowView {
        if self.sessions.contains_key(handle) {
            WindowView {
                registry: self.registry,
                sessions: self.sessions.insert(handle, running_meta(pid)),
            }
        } else {
            self
        }
    }

    /// Whether a title that the session `handle` reports is taken up: the
    /// session has a tab and its process runs.
    pub open spec fn takes_title(self, handle: u64) -> bool {
        self.registry.contains(handle) && self.sessions.contains_key(handle)
            && self.sessions[handle].spawn_state == SpawnState::Running
    }

    /// The window after the session `handle` has reported `title`.
    pub open spec fn retitled(self, handle: u64, title: Seq<char>) -> WindowView {
        if self.takes_title(handle) {
            WindowView {
                registry: self.registry.retitled(
                    self.registry.position_of(handle).unwrap(),
                    title,
                ),
                sessions: self.sessions,
            }
        } else {
            self
        }
    }

    /// The window after the user has asked for the tab at `position`: a
    /// position behind the last tab changes nothing.
    pub open spec fn switched(self, position: nat) -> WindowView {
        if position < self.registry.tabs.len() {
            WindowView { registry: self.registry.activated(position), sessions: self.sessions }
        } else {
            self
        }
    }
}

/// A session is closed in a well-formed window: the window stays well
/// formed, so that positions count up from 0 and there are as many records
/// as tabs.
pub proof fn lemma_closed_wf(v: WindowView, handle: u64)
    requires
        v.wf(),
    ensures
        v.closed(handle).wf(),
{
    lemma_without_absent(v.registry, handle);
    let w = v.closed(handle);
    if v.registry.contains(handle) {
        let r = v.registry.position_of(handle).unwrap();
        crate::registry::lemma_removed_wf(v.registry, r);
        assert(v.sessions.contains_key(handle));
        assert(w.sessions.dom() =~= v.sessions.dom().remove(handle));
    } else {
        assert(!v.sessions.contains_key(handle));
        assert(w.sessions =~= v.sessions);
    }
    assert forall|h: u64| #[trigger] w.sessions.contains_key(h) <==> w.registry.contains(h) by {
        assert(v.sessions.contains_key(h) <==> v.registry.contains(h));
    }
}

/// A tab is opened in a well-formed window: the window stays well formed.
pub proof fn lemma_opened_wf(v: WindowView, handle: u64)
    requires
        v.wf(),
    ensures
        v.opened(handle).wf(),
{
    let w = v.opened(handle);
    if !v.registry.contains(handle) {
        lemma_inserted_wf(v.registry, handle);
        assert(!v.sessions.contains_key(handle));
        assert(w.sessions.dom() =~= v.sessions.dom().insert(handle));
        assert forall|h: u64| #[trigger] w.sessions.contains_key(h) <==> w.registry.contains(
            h,
        ) by {
            assert(v.sessions.contains_key(h) <==> v.registry.contains(h));
            assert(v.registry.inserted(handle).contains(h) <==> w.registry.contains(h));
        }
    }
}

/// The start of a process is noted in a well-formed window: the window
/// stays well formed.
pub proof fn lemma_started_wf(v: WindowView, handle: u64, pid: u32)
    requires
        v.wf(),
    ensures
        v.started(handle, pid).wf(),
{
    let w = v.started(handle, pid);
    if v.sessions.contains_key(handle) {
        assert(w.sessions.dom() =~= v.sessions.dom());
        assert forall|h: u64| #[trigger] w.sessions.contains_key(h) <==> w.registry.contains(
            h,
        ) by {
            assert(v.sessions.contains_key(h) <==> v.registry.contains(h));
        }
    }
}

/// A title is reported in a well-formed window: the window stays well
/// formed.
pub proof fn lemma_retitled_wf(v: WindowView, handle: u64, title: Seq<char>)
    requires
        v.wf(),
    ensures
        v.retitled(handle, title).wf(),
{
    let w = v.retitled(handle, title);
    if v.takes_title(handle) {
        let i = v.registry.position_of(handle).unwrap();
        crate::registry::lemma_retitled_wf(v.registry, i, title);
        assert forall|h: u64| #[trigger] w.sessions.contains_key(h) <==> w.registry.contains(
            h,
        ) by {
            assert(v.sessions.contains_key(h) <==> v.registry.contains(h));
        }
    }
}

/// Another tab is asked for in a well-formed window: the window stays well
/// formed, and a position behind the last tab leaves it as it is.
pub proof fn lemma_switched_wf(v: WindowView, position: nat)
    requires
        v.wf(),
    ensures
        v.switched(position).wf(),
        position >= v.registry.tabs.len() ==> v.switched(position) == v,
{
    let w = v.switched(position);
    assert forall|h: u64| #[trigger] w.sessions.contains_key(h) <==> w.registry.contains(h) by {
        assert(v.sessions.contains_key(h) <==> v.registry.contains(h));
    }
}

/// The state that a session reaches when its process has been asked for:
/// it runs if no error came and the process has a number, else it failed.
pub fn spawn_outcome(pid: i32, error: bool) -> (s: SpawnState)
    ensures
        s == (if error || pid < 0 {
            SpawnState::Failed
        } else {
            SpawnState::Running
        }),
{
    if error || pid < 0 {
        SpawnState::Failed
    } else {
        SpawnState::Running
    }
}

/// What a key press asks of the window.
#[derive(Clone, Copy, Debug, PartialEq, Eq)]
pub enum KeyAction {
    /// The key is not for the window: it goes on to the terminal.
    Pass,
    /// The key is taken, and no tab is asked for.
    Consume,
    /// The key is taken and asks for the tab at this position.
    Switch(usize),
}

/// The value of a decimal digit, for the characters `0` to `9`.
pub open spec fn digit_of(c: char) -> Option<nat> {
    if c == '0' {
        Some(0)
    } else if c == '1' {
        Some(1)
    } else if c == '2' {
        Some(2)
    } else if c == '3' {
        Some(3)
    } else if c == '4' {
        Some(4)
    } else if c == '5' {
        Some(5)
    } else if c == '6' {
        Some(6)
    } else if c == '7' {
        Some(7)
    } else if c == '8' {
        Some(8)
    } else if c == '9' {
        Some(9)
    } else {
        None
    }
}

/// Alt with a digit asks for the tab before which that many stand less one;
/// Alt with `0` asks for no tab. Every other key passes.
pub open spec fn key_action(alt: bool, key: Option<char>) -> KeyAction {
    match key {
        Some(c) => match digit_of(c) {
            Some(d) => if !alt {
                KeyAction::Pass
            } else if d == 0 {
                KeyAction::Consume
            } else {
                KeyAction::Switch((d - 1) as usize)
            },
            None => KeyAction::Pass,
        },
        None => KeyAction::Pass,
    }
}

/// What a key press asks of the window: `alt` says whether Alt is held,
/// `key` is the character of the key, where it has one.
pub fn tab_for_key(alt: bool, key: Option<char>) -> (a: KeyAction)
    ensures
        a == key_action(alt, key),
{
    if !alt {
        return KeyAction::Pass;
    }
    match key {
        Some(c) => {
            if c == '0' {
                KeyAction::Consume
            } else if c == '1' {
                KeyAction::Switch(0)
            } else if c == '2' {
                KeyAction::Switch(1)
            } else if c == '3' {
                KeyAction::Switch(2)
            } else if c == '4' {
                KeyAction::Switch(3)
            } else if c == '5' {
                KeyAction::Switch(4)
            } else if c == '6' {
                KeyAction::Switch(5)
            } else if c == '7' {
                KeyAction::Switch(6)
            } else if c == '8' {
                KeyAction::Switch(7)
            } else if c == '9' {
                KeyAction::Switch(8)
            } else {
                KeyAction::Pass
            }
        },
        None => KeyAction::Pass,
    }
}

/// What a key press led to.
#[derive(Clone, Debug, PartialEq, Eq)]
pub struct KeyOutcome {
    /// Whether the window took the key.
    pub handled: bool,
    /// What the window shows as its own title from now on, where the key
    /// made another tab the active one.
    pub window_title: Option<String>,
}

/// The bounds at which the tab container is laid out anew.
#[derive(Clone, Copy, Debug, PartialEq, Eq)]
pub struct Allocation {
    pub x: i32,
    pub y: i32,
    pub width: i32,
    pub height: i32,
}

/// An unsigned length read as a signed one of the same width.
pub open spec fn signed_length(n: u32) -> int {
    if n <= 0x7fff_ffff {
        n as int
    } else {
        n - 0x1_0000_0000
    }
}

fn to_signed(n: u32) -> (r: i32)
    ensures
        r == signed_length(n),
{
    if n <= 0x7fff_ffff {
        n as i32
    } else {
        let rest: u32 = n - 0x8000_0000;
        (rest as i32) + i32::MIN
    }
}

/// The window has a new size: its tab container is laid out at the
/// window's origin, as wide and as high as the window.
pub fn window_resized(width: u32, height: u32) -> (a: Allocation)
    ensures
        a.x == 0,
        a.y == 0,
        a.width == signed_length(width),
        a.height == signed_length(height),
{
    Allocation { x: 0, y: 0, width: to_signed(width), height: to_signed(height) }
}

/// What the end of a spawn led to.
#[derive(Clone, Copy, Debug, PartialEq, Eq)]
pub enum SpawnReport {
    /// The process runs and its session has noted it.
    Running,
    /// The process `pid` runs, but its session was closed meanwhile: no
    /// terminal is left for it, and nothing changed.
    Orphaned { pid: u32 },
    /// The process did not start: its session was closed, as the removal
    /// says.
    Failed(Removal),
}

/// What a report of a title led to.
#[derive(Clone, Copy, Debug, PartialEq, Eq)]
pub enum TitleChange {
    /// The session has no tab or no running process: nothing changed.
    Ignored,
    /// The tab at `position` has a new label; `window_title` says that it
    /// is the active tab, so that the window shows the title as its own.
    Relabelled { position: usize, window_title: bool },
}

/// What can happen to a window: what the user does and what the sessions
/// report.
#[derive(Clone, Debug, PartialEq, Eq)]
pub enum Event {
    /// The user asks for a tab; `handle` is the session made for it.
    NewTabRequested { handle: u64 },
    /// The start of the session's process has come to an end.
    SpawnFinished { handle: u64, pid: i32, error: bool },
    /// The session reports a title.
    TitleChanged { handle: u64, title: String },
    /// The session's process has ended.
    ProcessExited { handle: u64 },
    /// The user picks the tab at `position`.
    ActiveTabSwitched { position: usize },
    /// The user presses a key.
    KeyPressed { alt: bool, key: Option<char> },
    /// The window has a new size.
    WindowResized { width: u32, height: u32 },
}

/// What the window has to do after an event.
#[derive(Clone, Debug, PartialEq, Eq)]
pub enum Reaction {
    /// Show a tab for the new session at this position; nothing for `None`.
    TabAdded(Option<usize>),
    /// Take the tab away, label those behind it anew, close where asked.
    TabRemoved(Removal),
    /// Nothing where the process runs; end the process where it is
    /// orphaned; do as for a removed tab where it failed.
    Spawned(SpawnReport),
    /// Show the new label, and the title where asked.
    Relabelled(TitleChange),
    /// Show this title on the window.
    Switched(Option<String>),
    /// Keep the key from the terminal where it was taken, and show the
    /// title.
    Key(KeyOutcome),
    /// Lay the tab container out at these bounds.
    Resized(Allocation),
}

/// Whether `t` is what a switch to `position` gives: the title for the
/// window where there is such a tab, nothing where there is none.
pub open spec fn switch_result(v: WindowView, position: nat, t: Option<String>) -> bool {
    match t {
        Some(text) => position < v.registry.tabs.len() && text@ == chrome_title(
            v.registry.tabs[position as int],
        ),
        None => position >= v.registry.tabs.len(),
    }
}

impl WindowView {
    /// The window after the event `e`.
    pub open spec fn after(self, e: Event) -> WindowView {
        match e {
            Event::NewTabRequested { handle } => self.opened(handle),
            Event::SpawnFinished { handle, pid, error } => if error || pid < 0 {
                self.closed(handle)
            } else {
                self.started(handle, pid as u32)
            },
            Event::TitleChanged { handle, title } => self.retitled(handle, title@),
            Event::ProcessExited { handle } => self.closed(handle),
            Event::ActiveTabSwitched { position } => self.switched(position as nat),
            Event::KeyPressed { alt, key } => match key_action(alt, key) {
                KeyAction::Switch(position) => self.switched(position as nat),
                _ => self,
            },
            Event::WindowResized { width, height } => self,
        }
    }

    /// What the end of the spawn of the session `handle` leads to.
    pub open spec fn spawn_report(self, handle: u64, pid: i32, error: bool) -> SpawnReport {
        if error || pid < 0 {
            SpawnReport::Failed(self.registry.removal(handle))
        } else if self.sessions.contains_key(handle) {
            SpawnReport::Running
        } else {
            SpawnReport::Orphaned { pid: pid as u32 }
        }
    }

    /// What a report of a title by the session `handle` leads to.
    pub open spec fn title_change(self, handle: u64) -> TitleChange {
        if self.takes_title(handle) {
            let position = self.registry.position_of(handle).unwrap();
            TitleChange::Relabelled {
                position: position as usize,
                window_title: self.registry.active == Some(position as nat),
            }
        } else {
            TitleChange::Ignored
        }
    }

    /// Whether `r` is what the window has to do after the event `e`.
    pub open spec fn reaction(self, e: Event, r: Reaction) -> bool {
        match e {
            Event::NewTabRequested { handle } => r == Reaction::TabAdded(
                if self.registry.contains(handle) {
                    None
                } else {
                    Some(self.registry.tabs.len() as usize)
                },
            ),
            Event::SpawnFinished { handle, pid, error } => r == Reaction::Spawned(
                self.spawn_report(handle, pid, error),
            ),
            Event::TitleChanged { handle, title } => r == Reaction::Relabelled(
                self.title_change(handle),
            ),
            Event::ProcessExited { handle } => r == Reaction::TabRemoved(
                self.registry.removal(handle),
            ),
            Event::ActiveTabSwitched { position } => match r {
                Reaction::Switched(t) => switch_result(self, position as nat, t),
                _ => false,
            },
            Event::KeyPressed { alt, key } => match r {
                Reaction::Key(k) => k.handled == (key_action(alt, key) != KeyAction::Pass)
                    && match key_action(alt, key) {
                    KeyAction::Switch(position) => switch_result(
                        self,
                        position as nat,
                        k.window_title,
                    ),
                    _ => k.window_title.is_none(),
                },
                _ => false,
            },
            Event::WindowResized { width, height } => r == Reaction::Resized(
                Allocation {
                    x: 0,
                    y: 0,
                    width: signed_length(width) as i32,
                    height: signed_length(height) as i32,
                },
            ),
        }
    }
}

/// The window after the events `events`, one after the other.
pub open spec fn after_events(v: WindowView, events: Seq<Event>) -> WindowView
    decreases events.len(),
{
    if events.len() == 0 {
        v
    } else {
        after_events(v, events.drop_last()).after(events.last())
    }
}

/// An event leaves a well-formed window well formed.
pub proof fn lemma_after_wf(v: WindowView, e: Event)
    requires
        v.wf(),
    ensures
        v.after(e).wf(),
{
    match e {
        Event::NewTabRequested { handle } => lemma_opened_wf(v, handle),
        Event::SpawnFinished { handle, pid, error } => {
            if error || pid < 0 {
                lemma_closed_wf(v, handle);
            } else {
                lemma_started_wf(v, handle, pid as u32);
            }
        },
        Event::TitleChanged { handle, title } => lemma_retitled_wf(v, handle, title@),
        Event::ProcessExited { handle } => lemma_closed_wf(v, handle),
        Event::ActiveTabSwitched { position } => lemma_switched_wf(v, position as nat),
        Event::KeyPressed { alt, key } => {
            match key_action(alt, key) {
                KeyAction::Switch(position) => lemma_switched_wf(v, position as nat),
                _ => {},
            }
        },
        Event::WindowResized { width, height } => {},
    }
}

/// Whatever tabs are opened and closed and whatever else happens, in
/// whatever order: after each event the tab at place `i` has position `i`
/// and the label of that position, no session has two tabs, and the records
/// are as many as the tabs.
pub proof fn lemma_after_events_wf(v: WindowView, events: Seq<Event>)
    requires
        v.wf(),
    ensures
        after_events(v, events).wf(),
        forall|i: int|
            0 <= i < after_events(v, events).registry.tabs.len() ==> (#[trigger] after_events(
                v,
                events,
            ).registry.tabs[i]).position == i,
        after_events(v, events).sessions.dom().len() == after_events(
            v,
            events,
        ).registry.tabs.len(),
    decreases events.len(),
{
    if events.len() > 0 {
        lemma_after_events_wf(v, events.drop_last());
        lemma_after_wf(after_events(v, events.drop_last()), events.last());
    }
}

/// A session that has been closed stays closed: closing it again changes
/// nothing and asks for no second close of the window.
pub proof fn lemma_closed_idempotent(v: WindowView, handle: u64)
    requires
        v.wf(),
    ensures
        v.closed(handle).closed(handle) == v.closed(handle),
        v.closed(handle).registry.removal(handle) == Removal::Absent,
{
    crate::registry::lemma_remove_tab_idempotent(v.registry, handle);
    assert(v.closed(handle).sessions.remove(handle) =~= v.closed(handle).sessions);
}

/// A session whose process did not start is gone at once: it has neither
/// tab nor record, so that no title of it is ever taken up.
pub proof fn lemma_failed_spawn_closes(v: WindowView, handle: u64, pid: i32, error: bool)
    requires
        v.wf(),
        error || pid < 0,
    ensures
        v.after(Event::SpawnFinished { handle, pid, error }) == v.closed(handle),
        !v.closed(handle).registry.contains(handle),
        !v.closed(handle).sessions.contains_key(handle),
        !v.closed(handle).takes_title(handle),
{
    lemma_without_absent(v.registry, handle);
}

/// The state of one terminal window.
pub struct TermImpl {
    notebook: TabRegistry,
    page_meta: Store,
}

impl View for TermImpl {
    type V = WindowView;

    closed spec fn view(&self) -> WindowView {
        WindowView { registry: self.notebook@, sessions: self.page_meta@ }
    }
}

impl TermImpl {
    /// A window without tabs.
    pub fn new(env: Env) -> (w: TermImpl)
        ensures
            w@.wf(),
            w@.registry.env == env,
            w@.registry.tabs == Seq::<TabView>::empty(),
            w@.registry.active == None::<nat>,
            w@.sessions == Map::<u64, Meta>::empty(),
    {
        let w = TermImpl { notebook: TabRegistry::new(env), page_meta: Store::new() };
        assert forall|h: u64| #[trigger] w@.sessions.contains_key(h) <==> w@.registry.contains(
            h,
        ) by {}
        w
    }

    /// The tabs.
    pub fn notebook(&self) -> (r: &TabRegistry)
        ensures
            r@ == self@.registry,
    {
        &self.notebook
    }

    /// The records of the sessions.
    pub fn page_meta(&self) -> (s: &Store)
        ensures
            s@ == self@.sessions,
    {
        &self.page_meta
    }

    /// The session of the active tab.
    pub fn active_terminal(&self) -> (h: Option<u64>)
        requires
            self@.wf(),
        ensures
            match h {
                Some(handle) => self@.registry.active.is_some() && handle
                    == self@.registry.tabs[self@.registry.active.unwrap() as int].handle,
                None => self@.registry.active.is_none(),
            },
    {
        match self.notebook.active() {
            Some(a) => self.notebook.handle_at(a),
            None => None,
        }
    }

    /// The label of a tab of this window.
    pub fn page_label(&self, page_number: usize, title: Option<&str>) -> (r: String)
        ensures
            r@ == label_text(
                page_number as nat,
                match title {
                    Some(t) => Some(t@),
                    None => None,
                },
                self@.registry.env,
            ),
    {
        page_label(page_number, title, self.notebook.env())
    }

    /// The link to read for the working directory of the session `handle`:
    /// there is one exactly where the start of its process has been
    /// confirmed.
    pub fn get_terminal_cwd(&self, handle: u64) -> (r: Option<String>)
        ensures
            match r {
                Some(path) => self@.sessions.contains_key(handle)
                    && self@.sessions[handle].pid.is_some() && path@ == cwd_link_text(
                    self@.sessions[handle].pid.unwrap() as nat,
                ),
                None => !self@.sessions.contains_key(handle)
                    || self@.sessions[handle].pid.is_none(),
            },
    {
        self.page_meta.lookup_cwd(handle)
    }

    /// The link to read for the directory in which a new tab starts: that
    /// of the active session. Without one the new process starts where this
    /// one runs.
    pub fn new_tab_cwd(&self) -> (r: Option<String>)
        requires
            self@.wf(),
        ensures
            match r {
                Some(path) => {
                    &&& self@.registry.active.is_some()
                    &&& self@.sessions[self@.active_handle()].pid.is_some()
                    &&& path@ == cwd_link_text(
                        self@.sessions[self@.active_handle()].pid.unwrap() as nat,
                    )
                },
                None => self@.registry.active.is_none()
                    || self@.sessions[self@.active_handle()].pid.is_none(),
            },
    {
        match self.active_terminal() {
            Some(handle) => {
                assert(self@.registry.tabs[self@.registry.active.unwrap() as int].handle == handle);
                assert(self@.registry.contains(handle));
                assert(self@.sessions.contains_key(handle));
                self.page_meta.lookup_cwd(handle)
            },
            None => None,
        }
    }

    /// A tab is asked for the new session `handle`: the session is noted as
    /// pending and gets the last tab, which becomes the active one. Returns
    /// the tab's position; `None`, and no change, for a session that has a
    /// tab.
    pub fn add_new_tab(&mut self, handle: u64) -> (p: Option<usize>)
        requires
            old(self)@.wf(),
        ensures
            final(self)@.wf(),
            final(self)@ == old(self)@.opened(handle),
            match p {
                Some(i) => !old(self)@.registry.contains(handle) && i
                    == old(self)@.registry.tabs.len(),
                None => old(self)@.registry.contains(handle),
            },
    {
        proof {
            lemma_opened_wf(self@, handle);
        }
        match self.notebook.insert_tab(handle) {
            None => None,
            Some(i) => {
                self.page_meta.insert(handle);
                self.notebook.set_active(i);
                Some(i)
            },
        }
    }

    /// The session `handle` is closed, because its process has ended or the
    /// user asked: its tab and its record go. The result says where the tab
    /// stood and whether the window has to close.
    pub fn remove_tab(&mut self, handle: u64) -> (r: Removal)
        requires
            old(self)@.wf(),
        ensures
            final(self)@.wf(),
            final(self)@ == old(self)@.closed(handle),
            r == old(self)@.registry.removal(handle),
            !final(self)@.registry.contains(handle),
            !final(self)@.sessions.contains_key(handle),
    {
        proof {
            lemma_closed_wf(self@, handle);
        }
        self.page_meta.remove(handle);
        self.notebook.remove_tab(handle)
    }

    /// The start of the process of the session `handle` has come to an end.
    /// With an error, or without a process number, the session has failed
    /// and is closed at once. Otherwise its record takes the number; where
    /// the session was closed meanwhile, nothing changes and the process is
    /// reported as orphaned.
    pub fn spawn_finished(&mut self, handle: u64, pid: i32, error: bool) -> (r: SpawnReport)
        requires
            old(self)@.wf(),
        ensures
            final(self)@.wf(),
            final(self)@ == old(self)@.after(Event::SpawnFinished { handle, pid, error }),
            r == old(self)@.spawn_report(handle, pid, error),
            error || pid < 0 ==> !final(self)@.registry.contains(handle)
                && !final(self)@.sessions.contains_key(handle),
    {
        match spawn_outcome(pid, error) {
            SpawnState::Running => {
                let known = self.page_meta.record_spawn_success(handle, pid as u32);
                proof {
                    lemma_started_wf(old(self)@, handle, pid as u32);
                }
                if known {
                    SpawnReport::Running
                } else {
                    SpawnReport::Orphaned { pid: pid as u32 }
                }
            },
            _ => {
                self.page_meta.record_spawn_failure(handle);
                self.page_meta.remove(handle);
                proof {
                    lemma_closed_wf(old(self)@, handle);
                    assert(self@.sessions =~= old(self)@.sessions.remove(handle));
                }
                SpawnReport::Failed(self.notebook.remove_tab(handle))
            },
        }
    }

    /// The session `handle` reports the title `title`. Where the session
    /// has a tab and a running process, the tab is labelled by the title.
    pub fn title_changed(&mut self, handle: u64, title: &str) -> (r: TitleChange)
        requires
            old(self)@.wf(),
        ensures
            final(self)@.wf(),
            final(self)@ == old(self)@.retitled(handle, title@),
            match r {
                TitleChange::Ignored => !old(self)@.takes_title(handle),
                TitleChange::Relabelled { position, window_title } => {
                    &&& old(self)@.takes_title(handle)
                    &&& old(self)@.registry.position_of(handle) == Some(position as int)
                    &&& window_title == (old(self)@.registry.active == Some(position as nat))
                },
            },
    {
        let running = match self.page_meta.get(handle) {
            Some(m) => match m.spawn_state {
                SpawnState::Running => true,
                _ => false,
            },
            None => false,
        };
        if !running {
            return TitleChange::Ignored;
        }
        assert(old(self)@.registry.contains(handle));
        match self.notebook.set_title(handle, title) {
            None => TitleChange::Ignored,
            Some(position) => {
                proof {
                    crate::registry::lemma_position_unique(
                        old(self)@.registry,
                        handle,
                        position as int,
                    );
                    lemma_retitled_wf(old(self)@, handle, title@);
                }
                let window_title = match self.notebook.active() {
                    Some(a) => a == position,
                    None => false,
                };
                TitleChange::Relabelled { position, window_title }
            },
        }
    }

    /// The user asks for the tab at `position`. Where there is such a tab it
    /// becomes the active one, and the result is what the window shows as
    /// its own title from now on. A position behind the last tab changes
    /// nothing.
    pub fn switch_page(&mut self, position: usize) -> (t: Option<String>)
        requires
            old(self)@.wf(),
        ensures
            final(self)@.wf(),
            final(self)@ == old(self)@.switched(position as nat),
            match t {
                Some(text) => position < old(self)@.registry.tabs.len() && text@ == chrome_title(
                    old(self)@.registry.tabs[position as int],
                ),
                None => position >= old(self)@.registry.tabs.len(),
            },
    {
        if self.notebook.set_active(position) {
            proof {
                lemma_switched_wf(old(self)@, position as nat);
            }
            self.notebook.window_title_at(position)
        } else {
            None
        }
    }

    /// A key is pressed. Alt with a digit from 1 to 9 asks for the tab at
    /// the digit less one, as `switch_page` does; Alt with any digit is
    /// taken by the window.
    pub fn key_pressed(&mut self, alt: bool, key: Option<char>) -> (r: KeyOutcome)
        requires
            old(self)@.wf(),
        ensures
            final(self)@.wf(),
            r.handled == (key_action(alt, key) != KeyAction::Pass),
            match key_action(alt, key) {
                KeyAction::Switch(position) => {
                    &&& final(self)@ == old(self)@.switched(position as nat)
                    &&& match r.window_title {
                        Some(text) => position < old(self)@.registry.tabs.len() && text@
                            == chrome_title(old(self)@.registry.tabs[position as int]),
                        None => position >= old(self)@.registry.tabs.len(),
                    }
                },
                _ => final(self)@ == old(self)@ && r.window_title.is_none(),
            },
    {
        match tab_for_key(alt, key) {
            KeyAction::Pass => KeyOutcome { handled: false, window_title: None },
            KeyAction::Consume => KeyOutcome { handled: true, window_title: None },
            KeyAction::Switch(position) => {
                let window_title = self.switch_page(position);
                KeyOutcome { handled: true, window_title }
            },
        }
    }

    /// Takes one event: changes the window as the event asks and returns
    /// what is to be done in turn.
    pub fn handle_event(&mut self, event: Event) -> (r: Reaction)
        requires
            old(self)@.wf(),
        ensures
            final(self)@.wf(),
            final(self)@ == old(self)@.after(event),
            old(self)@.reaction(event, r),
    {
        match event {
            Event::NewTabRequested { handle } => Reaction::TabAdded(self.add_new_tab(handle)),
            Event::SpawnFinished { handle, pid, error } => Reaction::Spawned(
                self.spawn_finished(handle, pid, error),
            ),
            Event::TitleChanged { handle, title } => Reaction::Relabelled(
                self.title_changed(handle, title.as_str()),
            ),
            Event::ProcessExited { handle } => Reaction::TabRemoved(self.remove_tab(handle)),
            Event::ActiveTabSwitched { position } => Reaction::Switched(
                self.switch_page(position),
            ),
            Event::KeyPressed { alt, key } => Reaction::Key(self.key_pressed(alt, key)),
            Event::WindowResized { width, height } => Reaction::Resized(
                window_resized(width, height),
            ),
        }
    }
}

} // verus!
