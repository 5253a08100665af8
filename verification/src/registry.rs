//! The UUIDs that a blocklist has entered so far, each with its exclusion mode.

use std::collections::HashMap;
use vstd::prelude::*;

verus! {

/// Which operations an entry keeps a page from.
#[derive(Clone, Copy, Debug, PartialEq, Eq, Structural)]
pub enum Exclusion {
    /// Every operation: what an entry without a tag means.
    Exclude,
    /// Reads only: the tag `exclude-reads`.
    ExcludeReads,
    /// Writes only: the tag `exclude-writes`.
    ExcludeWrites,
}

/// The entered UUIDs, by their 128-bit value, with the mode each was first entered under.
pub struct Registry {
    modes: HashMap<u128, Exclusion>,
}

impl View for Registry {
    type V = Map<u128, Exclusion>;

    closed spec fn view(&self) -> Map<u128, Exclusion> {
        self.modes@
    }
}

impl Registry {
    /// A registry with nothing entered.
    pub fn new() -> (registry: Registry)
        ensures
            registry@ == Map::<u128, Exclusion>::empty(),
    {
        Registry { modes: HashMap::new() }
    }

    /// The mode under which `uuid` was entered, if it was.
    pub fn mode_of(&self, uuid: u128) -> (mode: Option<Exclusion>)
        ensures
            mode == (if self@.contains_key(uuid) {
                Some(self@[uuid])
            } else {
                None
            }),
    {
        match self.modes.get(&uuid) {
            Some(mode) => Some(*mode),
            None => None,
        }
    }

    /// Enters `uuid` under `mode`, unless it was entered before: the answer is whether it
    /// is new. A UUID that was entered before keeps its first mode.
    pub fn register(&mut self, uuid: u128, mode: Exclusion) -> (fresh: bool)
        ensures
            fresh == !old(self)@.contains_key(uuid),
            fresh ==> final(self)@ == old(self)@.insert(uuid, mode),
            !fresh ==> final(self)@ == old(self)@,
    {
        if self.modes.contains_key(&uuid) {
            false
        } else {
            self.modes.insert(uuid, mode);
            true
        }
    }
}

} // verus!
