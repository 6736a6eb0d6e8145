//! Storage pool configuration: parsing, structural validation, reachability
//! advisories, and a shared registry of the last successfully validated pool
//! set.

pub mod config;
pub mod load;
pub mod parse;
pub mod pools;
pub mod reach;
pub mod registry;
pub mod validate;

pub use config::generate_default_pools_config;
pub use load::prepare_pools;
pub use parse::parse_pools_file;
pub use pools::{clone_pools, Mount, MountView, Pool, PoolError, PoolView, PoolsFile};
pub use reach::{pool_needs_reachability_check, reachability_advisory, Advisory, PathProbe};
pub use registry::PoolRegistry;
pub use validate::{is_sequential, validate_pools};
