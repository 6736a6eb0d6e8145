//! The data model: pools, mounts, the parsed file shape, and the error
//! taxonomy of a load attempt.

use vstd::prelude::*;

verus! {

/// One managed storage location.
#[derive(Debug)]
pub struct Pool {
    /// Positive identifier, unique within the active set.
    pub pool_id: u64,
    /// When true, the location is exempt from reachability checking.
    pub is_removable: bool,
    /// Filesystem path, semantically opaque beyond existence checks.
    pub path: String,
}

/// The mathematical value of a [`Pool`].
pub struct PoolView {
    pub pool_id: u64,
    pub is_removable: bool,
    pub path: Seq<char>,
}

impl View for Pool {
    type V = PoolView;

    open spec fn view(&self) -> PoolView {
        PoolView { pool_id: self.pool_id, is_removable: self.is_removable, path: self.path@ }
    }
}

/// An optional association between a pool and a mount point.
#[derive(Debug)]
pub struct Mount {
    /// References a pool by identifier; not checked against the pool set here.
    pub pool_id: u64,
    /// Filesystem path where the pool should be exposed.
    pub mount_point: String,
}

/// The mathematical value of a [`Mount`].
pub struct MountView {
    pub pool_id: u64,
    pub mount_point: Seq<char>,
}

impl View for Mount {
    type V = MountView;

    open spec fn view(&self) -> MountView {
        MountView { pool_id: self.pool_id, mount_point: self.mount_point@ }
    }
}

/// The raw parsed shape of a configuration file: a collection of pools plus
/// an optional collection of mounts (empty when the section is absent).
#[derive(Debug)]
pub struct PoolsFile {
    pub pool: Vec<Pool>,
    pub mount: Vec<Mount>,
}

/// Why a load attempt failed. Every variant is terminal to the attempt and
/// leaves the registry untouched.
#[derive(Debug)]
pub enum PoolError {
    /// Zero pool entries after parsing: a pool set must declare at least one.
    EmptyPools,
    /// The sorted pool identifiers are not the contiguous sequence 1, 2, ..., N.
    InvalidIdSequence,
    /// The configuration file was absent; a default was just written to the
    /// carried path and the operator must review it before restarting.
    MustConfigure(String),
    /// A filesystem read, write, or directory creation failed.
    Io(String),
    /// The configuration text could not be deserialized; carries the
    /// underlying diagnostic.
    Parse(String),
}

/// The views of a pool collection, element by element.
pub open spec fn pools_view(s: Seq<Pool>) -> Seq<PoolView> {
    s.map_values(|p: Pool| p@)
}

/// The views of a mount collection, element by element.
pub open spec fn mounts_view(s: Seq<Mount>) -> Seq<MountView> {
    s.map_values(|m: Mount| m@)
}

/// An exact copy of a pool collection, value for value.
pub fn clone_pools(pools: &Vec<Pool>) -> (r: Vec<Pool>)
    ensures
        pools_view(r@) == pools_view(pools@),
{
    let mut r: Vec<Pool> = Vec::new();
    let mut i: usize = 0;
    while i < pools.len()
        invariant
            i <= pools.len(),
            pools_view(r@) =~= pools_view(pools@).take(i as int),
        decreases pools.len() - i,
    {
        let p = Pool {
            pool_id: pools[i].pool_id,
            is_removable: pools[i].is_removable,
            path: pools[i].path.clone(),
        };
        r.push(p);
        proof {
            assert(pools_view(pools@).take(i + 1 as int) =~= pools_view(pools@).take(i as int).push(
                pools@[i as int]@,
            ));
        }
        i = i + 1;
    }
    proof {
        assert(pools_view(pools@).take(pools@.len() as int) =~= pools_view(pools@));
    }
    r
}

} // verus!
