//! The pure step of the load pipeline: from configuration text to a
//! validated, sorted pool collection and its mount descriptors. Reading the
//! file, probing reachability and publishing to a registry are sequenced by
//! the caller around this step.

use vstd::prelude::*;

use crate::parse::{parse_pools_file, parsed_file_of};
use crate::pools::{mounts_view, pools_view, Mount, MountView, Pool, PoolError, PoolView};
use crate::validate::{
    ids_complete, lemma_validated_order_unique, pools_valid, sequential_from_one, validate_pools,
};

verus! {

/// A successful load of `content`: the text describes a pool set, the
/// returned pools are that set rearranged into ascending identifier order
/// 1, 2, ..., N, and the mounts are returned exactly as parsed.
pub open spec fn load_accepts(
    content: Seq<char>,
    pools: Seq<PoolView>,
    mounts: Seq<MountView>,
) -> bool {
    match parsed_file_of(content) {
        Some(file) => {
            &&& pools.to_multiset() == file.0.to_multiset()
            &&& sequential_from_one(pools)
            &&& pools.len() > 0
            &&& mounts == file.1
        },
        None => false,
    }
}

/// A failed load of `content`: a parse diagnostic exactly when the text is
/// malformed, else the validator's verdict on the parsed pool set.
pub open spec fn load_rejects(content: Seq<char>, e: PoolError) -> bool {
    match parsed_file_of(content) {
        Some(file) => {
            &&& (e is EmptyPools <==> file.0.len() == 0)
            &&& (e is InvalidIdSequence <==> file.0.len() > 0)
            &&& (e is InvalidIdSequence ==> !ids_complete(file.0))
        },
        None => e is Parse,
    }
}

/// Two successful loads of the same text agree: the pools come back in the
/// same, unique validated arrangement and the mounts as parsed both times.
pub proof fn lemma_load_deterministic(
    content: Seq<char>,
    pools1: Seq<PoolView>,
    mounts1: Seq<MountView>,
    pools2: Seq<PoolView>,
    mounts2: Seq<MountView>,
)
    requires
        load_accepts(content, pools1, mounts1),
        load_accepts(content, pools2, mounts2),
    ensures
        pools1 == pools2,
        mounts1 == mounts2,
{
    lemma_validated_order_unique(pools1, pools2);
}

/// Parses the configuration text and validates the declared pool set. On
/// success the pools come back sorted ascending with identifiers exactly
/// 1, 2, ..., N, alongside the mount descriptors exactly as parsed (empty
/// when the section was absent); mounts are passed through unchecked. On
/// failure the error says whether the text did not deserialize, the pool set
/// was empty, or the identifiers were not the contiguous sequence starting
/// at 1.
pub fn prepare_pools(content: &str) -> (r: Result<(Vec<Pool>, Vec<Mount>), PoolError>)
    ensures
        match r {
            Ok((pools, mounts)) => load_accepts(
                content@,
                pools_view(pools@),
                mounts_view(mounts@),
            ),
            Err(e) => load_rejects(content@, e),
        },
        r is Ok <==> (parsed_file_of(content@) matches Some(file) && pools_valid(file.0)),
{
    let file = match parse_pools_file(content) {
        Ok(f) => f,
        Err(e) => {
            return Err(e);
        },
    };
    let mounts = file.mount;
    let pools = match validate_pools(file.pool) {
        Ok(sorted) => sorted,
        Err(e) => {
            return Err(e);
        },
    };
    Ok((pools, mounts))
}

} // verus!
