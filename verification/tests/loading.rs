//! Scenarios for the default template, the parser, the reachability
//! advisories and the registry.

use pool::{
    clone_pools, generate_default_pools_config, is_sequential, parse_pools_file,
    pool_needs_reachability_check, prepare_pools, reachability_advisory, Advisory, PathProbe,
    Pool, PoolError, PoolRegistry,
};

fn pool(pool_id: u64, is_removable: bool, path: &str) -> Pool {
    Pool { pool_id, is_removable, path: String::from(path) }
}

#[test]
fn default_template_text_is_fixed() {
    let expected = "# Configuration for rfs storage pools.\n# Each pool represents a storage location that rfs will manage.\n\n[[pool]]\npool_id = 1\nis_removable = false\npath = \"/mnt/pool1\"\n\n[[pool]]\npool_id = 2\nis_removable = false\npath = \"/mnt/pool2\"\n";
    assert_eq!(generate_default_pools_config(), expected);
}

#[test]
fn default_template_declares_two_valid_pools() {
    let (pools, mounts) = prepare_pools(generate_default_pools_config()).unwrap();
    assert_eq!(pools.len(), 2);
    assert_eq!(pools[0].pool_id, 1);
    assert!(!pools[0].is_removable);
    assert_eq!(pools[0].path, "/mnt/pool1");
    assert_eq!(pools[1].pool_id, 2);
    assert!(!pools[1].is_removable);
    assert_eq!(pools[1].path, "/mnt/pool2");
    assert!(mounts.is_empty());
}

#[test]
fn malformed_text_is_a_parse_error() {
    let err = prepare_pools("[[pool\npool_id = 1\n").unwrap_err();
    assert!(matches!(err, PoolError::Parse(_)));
}

#[test]
fn missing_pool_section_is_a_parse_error() {
    let err = prepare_pools("[[mount]]\npool_id = 1\nmount_point = \"/mnt/a\"\n").unwrap_err();
    assert!(matches!(err, PoolError::Parse(_)));
}

#[test]
fn missing_pool_field_is_a_parse_error() {
    let err = parse_pools_file("[[pool]]\npool_id = 1\npath = \"/tmp/a\"\n").unwrap_err();
    assert!(matches!(err, PoolError::Parse(_)));
}

#[test]
fn negative_pool_id_is_a_parse_error() {
    let err =
        parse_pools_file("[[pool]]\npool_id = -1\nis_removable = false\npath = \"/tmp/a\"\n")
            .unwrap_err();
    assert!(matches!(err, PoolError::Parse(_)));
}

#[test]
fn wrongly_typed_field_is_a_parse_error() {
    let err =
        parse_pools_file("[[pool]]\npool_id = 1\nis_removable = \"no\"\npath = \"/tmp/a\"\n")
            .unwrap_err();
    assert!(matches!(err, PoolError::Parse(_)));
}

#[test]
fn mounts_are_parsed_and_passed_through() {
    let text = "[[pool]]\npool_id = 1\nis_removable = false\npath = \"/tmp/a\"\n\n[[mount]]\npool_id = 7\nmount_point = \"/mnt/seven\"\n";
    let file = parse_pools_file(text).unwrap();
    assert_eq!(file.pool.len(), 1);
    assert_eq!(file.mount.len(), 1);
    // A dangling pool reference is permitted: mounts are advisory here.
    assert_eq!(file.mount[0].pool_id, 7);
    assert_eq!(file.mount[0].mount_point, "/mnt/seven");
    let (pools, mounts) = prepare_pools(text).unwrap();
    assert_eq!(pools.len(), 1);
    assert_eq!(mounts.len(), 1);
    assert_eq!(mounts[0].pool_id, 7);
}

#[test]
fn mount_missing_field_is_a_parse_error() {
    let err = parse_pools_file(
        "[[pool]]\npool_id = 1\nis_removable = false\npath = \"/tmp/a\"\n\n[[mount]]\npool_id = 1\n",
    )
    .unwrap_err();
    assert!(matches!(err, PoolError::Parse(_)));
}

#[test]
fn removable_pool_is_never_probed_and_never_warned() {
    let p = pool(1, true, "/nowhere");
    assert!(!pool_needs_reachability_check(&p));
    assert!(reachability_advisory(&p, &PathProbe::Unreachable).is_none());
    assert!(reachability_advisory(&p, &PathProbe::NotDirectory).is_none());
    assert!(reachability_advisory(&p, &PathProbe::Directory).is_none());
}

#[test]
fn unreachable_pool_earns_exactly_one_warning() {
    let p = pool(3, false, "/nowhere");
    assert!(pool_needs_reachability_check(&p));
    match reachability_advisory(&p, &PathProbe::Unreachable) {
        Some(Advisory::Unreachable { pool_id, path }) => {
            assert_eq!(pool_id, 3);
            assert_eq!(path, "/nowhere");
        },
        other => panic!("expected an unreachable advisory, got {:?}", other),
    }
}

#[test]
fn non_directory_pool_earns_a_warning() {
    let p = pool(2, false, "/some/file");
    match reachability_advisory(&p, &PathProbe::NotDirectory) {
        Some(Advisory::NotADirectory { pool_id, path }) => {
            assert_eq!(pool_id, 2);
            assert_eq!(path, "/some/file");
        },
        other => panic!("expected a not-a-directory advisory, got {:?}", other),
    }
}

#[test]
fn reachable_directory_earns_no_warning() {
    let p = pool(1, false, "/tmp");
    assert!(reachability_advisory(&p, &PathProbe::Directory).is_none());
}

#[test]
fn registry_starts_empty() {
    let registry = PoolRegistry::new();
    assert!(registry.snapshot().is_empty());
}

#[test]
fn registry_publish_replaces_wholesale() {
    let registry = PoolRegistry::new();
    let first = vec![pool(1, false, "/p/a")];
    assert!(is_sequential(&first));
    registry.publish(first);
    let second = vec![pool(1, false, "/q/a"), pool(2, true, "/q/b")];
    assert!(is_sequential(&second));
    registry.publish(clone_pools(&second));
    let held = registry.snapshot();
    assert_eq!(held.len(), 2);
    assert_eq!(held[0].pool_id, 1);
    assert_eq!(held[0].path, "/q/a");
    assert_eq!(held[1].pool_id, 2);
    assert_eq!(held[1].path, "/q/b");
    assert!(held[1].is_removable);
}
