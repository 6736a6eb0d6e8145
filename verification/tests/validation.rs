//! Scenarios for the structural validator and the pure load pipeline.

use pool::{prepare_pools, validate_pools, Pool, PoolError};

fn pool(pool_id: u64, path: &str) -> Pool {
    Pool { pool_id, is_removable: false, path: String::from(path) }
}

#[test]
fn two_pools_in_order_accepted() {
    let text = "[[pool]]\npool_id = 1\nis_removable = false\npath = \"/tmp/a\"\n\n[[pool]]\npool_id = 2\nis_removable = false\npath = \"/tmp/b\"\n";
    let (pools, mounts) = prepare_pools(text).unwrap();
    assert_eq!(pools.len(), 2);
    assert_eq!(pools[0].pool_id, 1);
    assert!(!pools[0].is_removable);
    assert_eq!(pools[0].path, "/tmp/a");
    assert_eq!(pools[1].pool_id, 2);
    assert!(!pools[1].is_removable);
    assert_eq!(pools[1].path, "/tmp/b");
    assert!(mounts.is_empty());
}

#[test]
fn unsorted_permutation_accepted_and_sorted() {
    let pools = vec![pool(3, "/p/c"), pool(1, "/p/a"), pool(2, "/p/b")];
    let sorted = validate_pools(pools).unwrap();
    assert_eq!(sorted.len(), 3);
    assert_eq!(sorted[0].pool_id, 1);
    assert_eq!(sorted[0].path, "/p/a");
    assert_eq!(sorted[1].pool_id, 2);
    assert_eq!(sorted[1].path, "/p/b");
    assert_eq!(sorted[2].pool_id, 3);
    assert_eq!(sorted[2].path, "/p/c");
}

#[test]
fn ids_missing_one_rejected() {
    let text = "[[pool]]\npool_id = 2\nis_removable = false\npath = \"/tmp/a\"\n\n[[pool]]\npool_id = 3\nis_removable = false\npath = \"/tmp/b\"\n";
    let err = prepare_pools(text).unwrap_err();
    assert!(matches!(err, PoolError::InvalidIdSequence));
}

#[test]
fn duplicate_ids_rejected() {
    let text = "[[pool]]\npool_id = 1\nis_removable = false\npath = \"/tmp/a\"\n\n[[pool]]\npool_id = 1\nis_removable = false\npath = \"/tmp/b\"\n";
    let err = prepare_pools(text).unwrap_err();
    assert!(matches!(err, PoolError::InvalidIdSequence));
}

#[test]
fn gap_in_ids_rejected() {
    let err = validate_pools(vec![pool(1, "/p/a"), pool(3, "/p/b")]).unwrap_err();
    assert!(matches!(err, PoolError::InvalidIdSequence));
}

#[test]
fn zero_id_rejected() {
    let err = validate_pools(vec![pool(0, "/p/a"), pool(1, "/p/b")]).unwrap_err();
    assert!(matches!(err, PoolError::InvalidIdSequence));
}

#[test]
fn empty_collection_rejected_as_empty() {
    let err = validate_pools(Vec::new()).unwrap_err();
    assert!(matches!(err, PoolError::EmptyPools));
}

#[test]
fn empty_pool_array_rejected_as_empty() {
    let err = prepare_pools("pool = []\n").unwrap_err();
    assert!(matches!(err, PoolError::EmptyPools));
}

#[test]
fn preparing_twice_yields_same_result() {
    let text = "[[pool]]\npool_id = 2\nis_removable = true\npath = \"/p/b\"\n\n[[pool]]\npool_id = 1\nis_removable = false\npath = \"/p/a\"\n";
    let (first, first_mounts) = prepare_pools(text).unwrap();
    let (second, second_mounts) = prepare_pools(text).unwrap();
    assert_eq!(first.len(), second.len());
    for (a, b) in first.iter().zip(second.iter()) {
        assert_eq!(a.pool_id, b.pool_id);
        assert_eq!(a.is_removable, b.is_removable);
        assert_eq!(a.path, b.path);
    }
    assert!(first_mounts.is_empty() && second_mounts.is_empty());
}
