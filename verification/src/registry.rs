//! The pool registry: a single exclusive-access primitive guarding the whole
//! collection of the last successfully validated pools.

use vstd::prelude::*;
use vstd::rwlock::{RwLock, RwLockPredicate};

use crate::pools::{clone_pools, pools_view, Pool, PoolView};
use crate::validate::sequential_from_one;

verus! {

/// What the registry may ever hold: the empty initial collection, or a
/// collection that passed validation (ascending identifiers 1, 2, ..., N).
pub open spec fn registry_contents_ok(s: Seq<PoolView>) -> bool {
    s.len() == 0 || sequential_from_one(s)
}

/// The lock predicate guarding the registry's collection.
pub struct RegistryInv;

impl RwLockPredicate<Vec<Pool>> for RegistryInv {
    open spec fn inv(self, v: Vec<Pool>) -> bool {
        registry_contents_ok(pools_view(v@))
    }
}

/// Shared, exclusively-guarded state holding the last successfully validated
/// pool collection. Writers replace the whole collection atomically; readers
/// obtain a consistent snapshot. The granularity is the entire collection.
pub struct PoolRegistry {
    lock: RwLock<Vec<Pool>, RegistryInv>,
}

impl PoolRegistry {
    /// A registry holding the initial empty collection.
    pub fn new() -> (r: Self) {
        let pools: Vec<Pool> = Vec::new();
        proof {
            assert(pools_view(pools@) =~= Seq::<PoolView>::empty());
        }
        PoolRegistry { lock: RwLock::new(pools, Ghost(RegistryInv)) }
    }

    /// Replaces the entire held collection, wholesale, with a validated one:
    /// no reader ever observes a partially replaced collection.
    pub fn publish(&self, pools: Vec<Pool>)
        requires
            sequential_from_one(pools_view(pools@)),
    {
        let (_previous, handle) = self.lock.acquire_write();
        handle.release_write(pools);
    }

    /// A consistent snapshot of the current collection: always either the
    /// empty initial collection or one that passed validation.
    pub fn snapshot(&self) -> (r: Vec<Pool>)
        ensures
            registry_contents_ok(pools_view(r@)),
    {
        let handle = self.lock.acquire_read();
        let r = clone_pools(handle.borrow());
        handle.release_read();
        r
    }
}

} // verus!
