//! What is known of the process behind each session.

use crate::label::cwd_link;
use crate::label::cwd_link_text;
use std::collections::HashMap;
use vstd::prelude::*;

verus! {

broadcast use vstd::std_specs::hash::group_hash_axioms;

/// How far the start of a session's process has come.
#[derive(Clone, Copy, Debug, PartialEq, Eq, Structural)]
pub enum SpawnState {
    Pending,
    Running,
    Failed,
}

/// The record of one session.
#[derive(Clone, Copy, Debug, PartialEq, Eq)]
pub struct Meta {
    /// The process, once its start has been confirmed; kept after it exits.
    pub pid: Option<u32>,
    pub spawn_state: SpawnState,
}

/// The record of a session that has just been made.
pub open spec fn pending_meta() -> Meta {
    Meta { pid: None, spawn_state: SpawnState::Pending }
}

/// The record of a session whose process `pid` has started.
pub open spec fn running_meta(pid: u32) -> Meta {
    Meta { pid: Some(pid), spawn_state: SpawnState::Running }
}

/// The record `m` after its process failed to start.
pub open spec fn failed_meta(m: Meta) -> Meta {
    Meta { pid: m.pid, spawn_state: SpawnState::Failed }
}

/// The records of all sessions, by handle.
pub struct Store {
    map: HashMap<u64, Meta>,
}

impl View for Store {
    type V = Map<u64, Meta>;

    closed spec fn view(&self) -> Map<u64, Meta> {
        self.map@
    }
}

impl Store {
    /// A store without records.
    pub fn new() -> (s: Store)
        ensures
            s@ == Map::<u64, Meta>::empty(),
    {
        Store { map: HashMap::new() }
    }

    /// The number of records.
    pub fn len(&self) -> (n: usize)
        ensures
            n == self@.len(),
    {
        self.map.len()
    }

    /// Whether `handle` has a record.
    pub fn contains(&self, handle: u64) -> (b: bool)
        ensures
            b == self@.contains_key(handle),
    {
        self.map.contains_key(&handle)
    }

    /// The record of `handle`.
    pub fn get(&self, handle: u64) -> (r: Option<Meta>)
        ensures
            r == (if self@.contains_key(handle) {
                Some(self@[handle])
            } else {
                None
            }),
    {
        match self.map.get(&handle) {
            Some(m) => Some(*m),
            None => None,
        }
    }

    /// Gives `handle` a fresh record: pending, no process. A record that
    /// `handle` had is replaced.
    pub fn insert(&mut self, handle: u64)
        ensures
            final(self)@ == old(self)@.insert(handle, pending_meta()),
    {
        self.map.insert(handle, Meta { pid: None, spawn_state: SpawnState::Pending });
    }

    /// Notes that the process `pid` of `handle` has started. Without a
    /// record of `handle` nothing changes and `false` is returned.
    pub fn record_spawn_success(&mut self, handle: u64, pid: u32) -> (known: bool)
        ensures
            known == old(self)@.contains_key(handle),
            known ==> final(self)@ == old(self)@.insert(handle, running_meta(pid)),
            !known ==> final(self)@ == old(self)@,
    {
        if self.map.contains_key(&handle) {
            self.map.insert(handle, Meta { pid: Some(pid), spawn_state: SpawnState::Running });
            true
        } else {
            false
        }
    }

    /// Notes that the process of `handle` failed to start. Without a record
    /// of `handle` nothing changes and `false` is returned.
    pub fn record_spawn_failure(&mut self, handle: u64) -> (known: bool)
        ensures
            known == old(self)@.contains_key(handle),
            known ==> final(self)@ == old(self)@.insert(
                handle,
                failed_meta(old(self)@[handle]),
            ),
            !known ==> final(self)@ == old(self)@,
    {
        match self.get(handle) {
            Some(m) => {
                self.map.insert(handle, Meta { pid: m.pid, spawn_state: SpawnState::Failed });
                true
            },
            None => false,
        }
    }

    /// Deletes the record of `handle`; says whether there was one.
    pub fn remove(&mut self, handle: u64) -> (known: bool)
        ensures
            known == old(self)@.contains_key(handle),
            final(self)@ == old(self)@.remove(handle),
    {
        let gone = self.map.remove(&handle);
        gone.is_some()
    }

    /// The process of `handle`, where its start has been confirmed.
    pub fn pid(&self, handle: u64) -> (r: Option<u32>)
        ensures
            r == (if self@.contains_key(handle) {
                self@[handle].pid
            } else {
                None
            }),
    {
        match self.get(handle) {
            Some(m) => m.pid,
            None => None,
        }
    }

    /// The link to read for the last known working directory of the session:
    /// there is one exactly where the start of its process has been
    /// confirmed.
    pub fn lookup_cwd(&self, handle: u64) -> (r: Option<String>)
        ensures
            match r {
                Some(path) => self@.contains_key(handle) && self@[handle].pid.is_some()
                    && path@ == cwd_link_text(self@[handle].pid.unwrap() as nat),
                None => !self@.contains_key(handle) || self@[handle].pid.is_none(),
            },
    {
        match self.pid(handle) {
            Some(pid) => Some(cwd_link(pid)),
            None => None,
        }
    }
}

} // verus!
