//! A pool of upgrades in flight.

use std::collections::HashMap;
use vstd::prelude::*;

verus! {

broadcast use vstd::std_specs::hash::group_hash_axioms;

/// The upgrades of one origin that are in flight, each under the token it
/// was admitted with, and the counter of how many there are.
///
/// Upgrades leave the pool in whatever order they complete. Admitting one
/// and resolving one leave all the others as they are.
pub struct UpgradePool<T> {
    upgrades: HashMap<u64, T>,
    pending: usize,
}

impl<T> View for UpgradePool<T> {
    type V = Map<u64, T>;

    closed spec fn view(&self) -> Map<u64, T> {
        self.upgrades@
    }
}

impl<T> UpgradePool<T> {
    /// The reading of the counter of pending upgrades.
    pub closed spec fn spec_pending(&self) -> usize {
        self.pending
    }

    /// The counter of pending upgrades reads the number of upgrades in the
    /// pool.
    pub open spec fn wf(&self) -> bool {
        &&& self@.dom().finite()
        &&& self.spec_pending() == self@.len()
    }

    /// A pool with nothing in flight.
    pub fn new() -> (pool: Self)
        ensures
            pool.wf(),
            pool@ == Map::<u64, T>::empty(),
    {
        UpgradePool { upgrades: HashMap::new(), pending: 0 }
    }

    /// The counter of pending upgrades.
    #[verifier::when_used_as_spec(spec_pending)]
    pub fn pending(&self) -> (count: usize)
        ensures
            count == self.spec_pending(),
    {
        self.pending
    }

    /// Whether an upgrade is pending under the token.
    pub fn contains(&self, token: u64) -> (pending: bool)
        ensures
            pending == self@.contains_key(token),
    {
        self.upgrades.contains_key(&token)
    }

    /// Puts an upgrade into the pool under the token, and counts it. The
    /// upgrades that are pending stay as they are. A token that is in use
    /// is not given away: the pool stays as it is and the upgrade comes back.
    pub fn insert(&mut self, token: u64, upgrade: T) -> (refused: Option<T>)
        requires
            old(self).wf(),
        ensures
            final(self).wf(),
            match refused {
                None => {
                    &&& !old(self)@.contains_key(token)
                    &&& final(self)@ == old(self)@.insert(token, upgrade)
                },
                Some(refused) => {
                    &&& old(self)@.contains_key(token)
                    &&& refused == upgrade
                    &&& final(self)@ == old(self)@
                },
            },
    {
        if self.upgrades.contains_key(&token) {
            return Some(upgrade);
        }
        self.upgrades.insert(token, upgrade);
        proof {
            let size = vstd::std_specs::hash::spec_hash_map_len(&self.upgrades);
            assert(size == self.upgrades@.len());
        }
        self.pending = self.pending + 1;
        None
    }

    /// Takes the upgrade that is pending under the token out of the pool,
    /// and counts it out. Under a token that is not in use there is nothing
    /// to take, and nothing changes.
    pub fn resolve(&mut self, token: u64) -> (upgrade: Option<T>)
        requires
            old(self).wf(),
        ensures
            final(self).wf(),
            match upgrade {
                Some(upgrade) => {
                    &&& old(self)@.contains_key(token)
                    &&& upgrade == old(self)@[token]
                    &&& final(self)@ == old(self)@.remove(token)
                },
                None => {
                    &&& !old(self)@.contains_key(token)
                    &&& final(self)@ == old(self)@
                },
            },
    {
        let upgrade = self.upgrades.remove(&token);
        if upgrade.is_some() {
            self.pending = self.pending - 1;
        } else {
            assert(self.upgrades@ =~= old(self).upgrades@);
        }
        upgrade
    }
}

} // verus!
