//! The reachability checker's decisions: which pools to probe, and which
//! advisory warning, if any, each probe outcome earns. Advisories are
//! informational only and never fail a load.

use vstd::prelude::*;

use crate::pools::Pool;

verus! {

/// The outcome of probing a pool's path with a metadata stat.
#[derive(Debug)]
pub enum PathProbe {
    /// The stat succeeded and the target is a directory.
    Directory,
    /// The stat succeeded but the target is not a directory.
    NotDirectory,
    /// The stat failed: the path is absent, forbidden, or otherwise
    /// unreachable.
    Unreachable,
}

/// An advisory diagnostic about one pool's path, naming the pool and the
/// path it was declared with.
#[derive(Debug)]
pub enum Advisory {
    /// The path exists but is not a directory.
    NotADirectory { pool_id: u64, path: String },
    /// The path is not reachable.
    Unreachable { pool_id: u64, path: String },
}

/// Only non-removable pools are probed; removable media may legitimately be
/// offline and their unreachability is not worth reporting.
pub fn pool_needs_reachability_check(pool: &Pool) -> (r: bool)
    ensures
        r == !pool@.is_removable,
{
    !pool.is_removable
}

/// The advisory a probe outcome earns: none for a removable pool whatever
/// the outcome, none for a reachable directory, and exactly one warning,
/// carrying the pool's identifier and path, for everything else.
pub fn reachability_advisory(pool: &Pool, probe: &PathProbe) -> (r: Option<Advisory>)
    ensures
        match r {
            Some(a) => match a {
                Advisory::NotADirectory { pool_id, path } => {
                    &&& !pool@.is_removable
                    &&& probe is NotDirectory
                    &&& pool_id == pool@.pool_id
                    &&& path@ == pool@.path
                },
                Advisory::Unreachable { pool_id, path } => {
                    &&& !pool@.is_removable
                    &&& probe is Unreachable
                    &&& pool_id == pool@.pool_id
                    &&& path@ == pool@.path
                },
            },
            None => pool@.is_removable || probe is Directory,
        },
{
    if pool.is_removable {
        return None;
    }
    match probe {
        PathProbe::Directory => None,
        PathProbe::NotDirectory => Some(
            Advisory::NotADirectory { pool_id: pool.pool_id, path: pool.path.clone() },
        ),
        PathProbe::Unreachable => Some(
            Advisory::Unreachable { pool_id: pool.pool_id, path: pool.path.clone() },
        ),
    }
}

} // verus!
