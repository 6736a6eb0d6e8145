//! Parsing the configuration text into the raw file shape. The TOML syntax
//! itself is handled by the `toml` crate behind trusted wrappers; walking the
//! parsed value tree and shaping it into pools and mounts is verified code.
//!
//! The `toml` calls depend on their arguments alone, so each trusted wrapper
//! names its result (`toml_doc_of`, `toml_get_of`, ...), and the file shape
//! the walk produces is stated over those names by [`parsed_file_of`]:
//! every `pool` entry requires `pool_id`, `is_removable` and `path`; the
//! `mount` section is optional and defaults to an empty collection.

use vstd::prelude::*;

use crate::pools::{mounts_view, pools_view, Mount, MountView, Pool, PoolError, PoolView, PoolsFile};

verus! {

#[verifier::external_type_specification]
#[verifier::external_body]
pub struct ExTomlValue(toml::Value);

#[verifier::external_type_specification]
#[verifier::external_body]
pub struct ExTomlError(toml::de::Error);

/// What toml::from_str yields on a text: a value tree, or nothing when the
/// text is malformed. The result depends on the text alone.
pub uninterp spec fn toml_doc_of(s: Seq<char>) -> Option<toml::Value>;

/// What toml::Value::get yields for a key of a value.
pub uninterp spec fn toml_get_of(v: toml::Value, key: Seq<char>) -> Option<toml::Value>;

/// What toml::Value::as_array yields: the elements of an array value.
pub uninterp spec fn toml_array_of(v: toml::Value) -> Option<Seq<toml::Value>>;

/// What toml::Value::as_integer yields: the integer of an integer value.
pub uninterp spec fn toml_integer_of(v: toml::Value) -> Option<i64>;

/// What toml::Value::as_bool yields: the boolean of a boolean value.
pub uninterp spec fn toml_bool_of(v: toml::Value) -> Option<bool>;

/// What toml::Value::as_str yields: the text of a string value.
pub uninterp spec fn toml_str_of(v: toml::Value) -> Option<Seq<char>>;

/// Relies on toml::from_str: parses TOML text into a generic value tree, or
/// reports a structured syntax diagnostic. The tree is opaque here; verified
/// code reads it only through the accessors below.
#[verifier::external_body]
fn parse_toml(s: &str) -> (r: Result<toml::Value, toml::de::Error>)
    ensures
        match r {
            Ok(v) => toml_doc_of(s@) == Some(v),
            Err(_) => toml_doc_of(s@) is None,
        },
{
    toml::from_str(s)
}

/// Relies on toml::Value::get: looks up a key of a TOML table, or yields
/// nothing when the key is absent or the value is not a table.
#[verifier::external_body]
fn value_get<'a>(v: &'a toml::Value, key: &str) -> (r: Option<&'a toml::Value>)
    ensures
        match r {
            Some(x) => toml_get_of(*v, key@) == Some(*x),
            None => toml_get_of(*v, key@) is None,
        },
{
    v.get(key)
}

/// Relies on toml::Value::as_array: the element vector of an array value,
/// nothing for any other kind of value.
#[verifier::external_body]
fn value_as_array<'a>(v: &'a toml::Value) -> (r: Option<&'a Vec<toml::Value>>)
    ensures
        match r {
            Some(a) => toml_array_of(*v) == Some(a@),
            None => toml_array_of(*v) is None,
        },
{
    v.as_array()
}

/// Relies on toml::Value::as_integer: the integer of an integer value,
/// nothing for any other kind of value.
#[verifier::external_body]
fn value_as_integer(v: &toml::Value) -> (r: Option<i64>)
    ensures
        r == toml_integer_of(*v),
{
    v.as_integer()
}

/// Relies on toml::Value::as_bool: the boolean of a boolean value, nothing
/// for any other kind of value.
#[verifier::external_body]
fn value_as_bool(v: &toml::Value) -> (r: Option<bool>)
    ensures
        r == toml_bool_of(*v),
{
    v.as_bool()
}

/// Relies on toml::Value::as_str: the text of a string value, nothing for
/// any other kind of value.
#[verifier::external_body]
fn value_as_str<'a>(v: &'a toml::Value) -> (r: Option<&'a str>)
    ensures
        match r {
            Some(s) => toml_str_of(*v) == Some(s@),
            None => toml_str_of(*v) is None,
        },
{
    v.as_str()
}

/// Relies on Display for toml::de::Error: renders the parse diagnostic.
#[verifier::external_body]
fn parse_error_message(e: &toml::de::Error) -> (r: String) {
    e.to_string()
}

/// The pool one `pool` entry describes: all three fields required, and
/// `pool_id` a non-negative integer.
pub open spec fn parsed_pool_of(v: toml::Value) -> Option<PoolView> {
    match toml_get_of(v, "pool_id"@) {
        Some(id_value) => match toml_integer_of(id_value) {
            Some(n) => if n < 0 {
                None
            } else {
                match toml_get_of(v, "is_removable"@) {
                    Some(rem_value) => match toml_bool_of(rem_value) {
                        Some(b) => match toml_get_of(v, "path"@) {
                            Some(path_value) => match toml_str_of(path_value) {
                                Some(p) => Some(
                                    PoolView { pool_id: n as u64, is_removable: b, path: p },
                                ),
                                None => None,
                            },
                            None => None,
                        },
                        None => None,
                    },
                    None => None,
                }
            },
            None => None,
        },
        None => None,
    }
}

/// The mount one `mount` entry describes: both fields required, and
/// `pool_id` a non-negative integer.
pub open spec fn parsed_mount_of(v: toml::Value) -> Option<MountView> {
    match toml_get_of(v, "pool_id"@) {
        Some(id_value) => match toml_integer_of(id_value) {
            Some(n) => if n < 0 {
                None
            } else {
                match toml_get_of(v, "mount_point"@) {
                    Some(point_value) => match toml_str_of(point_value) {
                        Some(p) => Some(MountView { pool_id: n as u64, mount_point: p }),
                        None => None,
                    },
                    None => None,
                }
            },
            None => None,
        },
        None => None,
    }
}

/// The pools a `pool` array describes, or nothing if any entry is malformed.
pub open spec fn parsed_pools_of(entries: Seq<toml::Value>) -> Option<Seq<PoolView>>
    decreases entries.len(),
{
    if entries.len() == 0 {
        Some(Seq::<PoolView>::empty())
    } else {
        match (parsed_pools_of(entries.drop_last()), parsed_pool_of(entries.last())) {
            (Some(rest), Some(p)) => Some(rest.push(p)),
            _ => None,
        }
    }
}

/// The mounts a `mount` array describes, or nothing if any entry is
/// malformed.
pub open spec fn parsed_mounts_of(entries: Seq<toml::Value>) -> Option<Seq<MountView>>
    decreases entries.len(),
{
    if entries.len() == 0 {
        Some(Seq::<MountView>::empty())
    } else {
        match (parsed_mounts_of(entries.drop_last()), parsed_mount_of(entries.last())) {
            (Some(rest), Some(m)) => Some(rest.push(m)),
            _ => None,
        }
    }
}

/// The raw file shape a configuration text describes: the `pool` array is
/// required, the `mount` array defaults to empty when the key is absent, and
/// any malformed piece makes the whole text malformed.
pub open spec fn parsed_file_of(s: Seq<char>) -> Option<(Seq<PoolView>, Seq<MountView>)> {
    match toml_doc_of(s) {
        Some(root) => match toml_get_of(root, "pool"@) {
            Some(pool_section) => match toml_array_of(pool_section) {
                Some(pool_entries) => match parsed_pools_of(pool_entries) {
                    Some(pools) => match toml_get_of(root, "mount"@) {
                        Some(mount_section) => match toml_array_of(mount_section) {
                            Some(mount_entries) => match parsed_mounts_of(mount_entries) {
                                Some(mounts) => Some((pools, mounts)),
                                None => None,
                            },
                            None => None,
                        },
                        None => Some((pools, Seq::<MountView>::empty())),
                    },
                    None => None,
                },
                None => None,
            },
            None => None,
        },
        None => None,
    }
}

/// One malformed entry makes the whole array malformed.
proof fn lemma_parsed_pools_entry_none(entries: Seq<toml::Value>, i: int)
    requires
        0 <= i < entries.len(),
        parsed_pool_of(entries[i]) is None,
    ensures
        parsed_pools_of(entries) is None,
    decreases entries.len(),
{
    if i == entries.len() - 1 {
        assert(entries.last() == entries[i]);
    } else {
        assert(entries.drop_last()[i] == entries[i]);
        lemma_parsed_pools_entry_none(entries.drop_last(), i);
    }
}

/// One malformed entry makes the whole array malformed.
proof fn lemma_parsed_mounts_entry_none(entries: Seq<toml::Value>, i: int)
    requires
        0 <= i < entries.len(),
        parsed_mount_of(entries[i]) is None,
    ensures
        parsed_mounts_of(entries) is None,
    decreases entries.len(),
{
    if i == entries.len() - 1 {
        assert(entries.last() == entries[i]);
    } else {
        assert(entries.drop_last()[i] == entries[i]);
        lemma_parsed_mounts_entry_none(entries.drop_last(), i);
    }
}

/// One `pool` entry: exactly the pool [`parsed_pool_of`] describes, or a
/// parse diagnostic exactly when it describes none.
fn parse_pool_entry(entry: &toml::Value) -> (r: Result<Pool, PoolError>)
    ensures
        match r {
            Ok(p) => parsed_pool_of(*entry) == Some(p@),
            Err(e) => e is Parse && parsed_pool_of(*entry) is None,
        },
{
    let pool_id: i64 = match value_get(entry, "pool_id") {
        Some(x) => match value_as_integer(x) {
            Some(n) => n,
            None => {
                return Err(PoolError::Parse("`pool_id` must be an integer".to_owned()));
            },
        },
        None => {
            return Err(PoolError::Parse("missing field `pool_id`".to_owned()));
        },
    };
    if pool_id < 0 {
        return Err(PoolError::Parse("`pool_id` must not be negative".to_owned()));
    }
    let is_removable = match value_get(entry, "is_removable") {
        Some(x) => match value_as_bool(x) {
            Some(b) => b,
            None => {
                return Err(PoolError::Parse("`is_removable` must be a boolean".to_owned()));
            },
        },
        None => {
            return Err(PoolError::Parse("missing field `is_removable`".to_owned()));
        },
    };
    let path = match value_get(entry, "path") {
        Some(x) => match value_as_str(x) {
            Some(s) => s.to_owned(),
            None => {
                return Err(PoolError::Parse("`path` must be a string".to_owned()));
            },
        },
        None => {
            return Err(PoolError::Parse("missing field `path`".to_owned()));
        },
    };
    Ok(Pool { pool_id: pool_id as u64, is_removable, path })
}

/// One `mount` entry: exactly the mount [`parsed_mount_of`] describes, or a
/// parse diagnostic exactly when it describes none.
fn parse_mount_entry(entry: &toml::Value) -> (r: Result<Mount, PoolError>)
    ensures
        match r {
            Ok(m) => parsed_mount_of(*entry) == Some(m@),
            Err(e) => e is Parse && parsed_mount_of(*entry) is None,
        },
{
    let pool_id: i64 = match value_get(entry, "pool_id") {
        Some(x) => match value_as_integer(x) {
            Some(n) => n,
            None => {
                return Err(PoolError::Parse("`pool_id` must be an integer".to_owned()));
            },
        },
        None => {
            return Err(PoolError::Parse("missing field `pool_id`".to_owned()));
        },
    };
    if pool_id < 0 {
        return Err(PoolError::Parse("`pool_id` must not be negative".to_owned()));
    }
    let mount_point = match value_get(entry, "mount_point") {
        Some(x) => match value_as_str(x) {
            Some(s) => s.to_owned(),
            None => {
                return Err(PoolError::Parse("`mount_point` must be a string".to_owned()));
            },
        },
        None => {
            return Err(PoolError::Parse("missing field `mount_point`".to_owned()));
        },
    };
    Ok(Mount { pool_id: pool_id as u64, mount_point })
}

/// Deserializes the configuration text into the raw file shape: exactly the
/// pools and mounts [`parsed_file_of`] describes for this text, or a parse
/// diagnostic exactly when it describes none. No structural invariant is
/// checked here — that is the validator's business.
pub fn parse_pools_file(content: &str) -> (r: Result<PoolsFile, PoolError>)
    ensures
        match r {
            Ok(f) => parsed_file_of(content@) == Some(
                (pools_view(f.pool@), mounts_view(f.mount@)),
            ),
            Err(e) => e is Parse && parsed_file_of(content@) is None,
        },
{
    let root = match parse_toml(content) {
        Ok(v) => v,
        Err(e) => {
            return Err(PoolError::Parse(parse_error_message(&e)));
        },
    };
    let pool_section = match value_get(&root, "pool") {
        Some(v) => v,
        None => {
            return Err(PoolError::Parse("missing field `pool`".to_owned()));
        },
    };
    let pool_values = match value_as_array(pool_section) {
        Some(a) => a,
        None => {
            return Err(PoolError::Parse("`pool` must be an array of tables".to_owned()));
        },
    };
    let mut pools: Vec<Pool> = Vec::new();
    let mut i: usize = 0;
    while i < pool_values.len()
        invariant
            i <= pool_values@.len(),
            toml_doc_of(content@) == Some(root),
            toml_get_of(root, "pool"@) == Some(*pool_section),
            toml_array_of(*pool_section) == Some(pool_values@),
            parsed_pools_of(pool_values@.take(i as int)) == Some(pools_view(pools@)),
        decreases pool_values@.len() - i,
    {
        match parse_pool_entry(&pool_values[i]) {
            Ok(p) => {
                let ghost before = pools@;
                pools.push(p);
                proof {
                    let taken = pool_values@.take(i + 1 as int);
                    assert(taken.drop_last() =~= pool_values@.take(i as int));
                    assert(taken.last() == pool_values@[i as int]);
                    assert(pools_view(pools@) =~= pools_view(before).push(p@));
                }
            },
            Err(e) => {
                proof {
                    lemma_parsed_pools_entry_none(pool_values@, i as int);
                }
                return Err(e);
            },
        }
        i = i + 1;
    }
    proof {
        assert(pool_values@.take(pool_values@.len() as int) =~= pool_values@);
    }
    let mut mounts: Vec<Mount> = Vec::new();
    match value_get(&root, "mount") {
        Some(mount_section) => {
            let mount_values = match value_as_array(mount_section) {
                Some(a) => a,
                None => {
                    return Err(PoolError::Parse("`mount` must be an array of tables".to_owned()));
                },
            };
            let mut j: usize = 0;
            while j < mount_values.len()
                invariant
                    j <= mount_values@.len(),
                    toml_doc_of(content@) == Some(root),
                    toml_get_of(root, "pool"@) == Some(*pool_section),
                    toml_array_of(*pool_section) == Some(pool_values@),
                    parsed_pools_of(pool_values@) == Some(pools_view(pools@)),
                    toml_get_of(root, "mount"@) == Some(*mount_section),
                    toml_array_of(*mount_section) == Some(mount_values@),
                    parsed_mounts_of(mount_values@.take(j as int)) == Some(mounts_view(mounts@)),
                decreases mount_values@.len() - j,
            {
                match parse_mount_entry(&mount_values[j]) {
                    Ok(m) => {
                        let ghost before = mounts@;
                        mounts.push(m);
                        proof {
                            let taken = mount_values@.take(j + 1 as int);
                            assert(taken.drop_last() =~= mount_values@.take(j as int));
                            assert(taken.last() == mount_values@[j as int]);
                            assert(mounts_view(mounts@) =~= mounts_view(before).push(m@));
                        }
                    },
                    Err(e) => {
                        proof {
                            lemma_parsed_mounts_entry_none(mount_values@, j as int);
                        }
                        return Err(e);
                    },
                }
                j = j + 1;
            }
            proof {
                assert(mount_values@.take(mount_values@.len() as int) =~= mount_values@);
            }
        },
        None => {
            proof {
                assert(mounts_view(mounts@) =~= Seq::<MountView>::empty());
            }
        },
    }
    Ok(PoolsFile { pool: pools, mount: mounts })
}

} // verus!
