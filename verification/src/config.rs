//! The default configuration template written on first run.

use vstd::prelude::*;

verus! {

/// The exact text of the template configuration: two example pools with
/// identifiers 1 and 2, both non-removable, at placeholder paths.
pub open spec fn default_config_text() -> Seq<char> {
    "# Configuration for rfs storage pools.
# Each pool represents a storage location that rfs will manage.

[[pool]]
pool_id = 1
is_removable = false
path = \"/mnt/pool1\"

[[pool]]
pool_id = 2
is_removable = false
path = \"/mnt/pool2\"
"@
}

/// Produces the template configuration that is written to disk when no
/// configuration file exists yet.
pub fn generate_default_pools_config() -> (r: &'static str)
    ensures
        r@ == default_config_text(),
{
    "# Configuration for rfs storage pools.
# Each pool represents a storage location that rfs will manage.

[[pool]]
pool_id = 1
is_removable = false
path = \"/mnt/pool1\"

[[pool]]
pool_id = 2
is_removable = false
path = \"/mnt/pool2\"
"
}

} // verus!
