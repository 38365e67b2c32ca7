//! Byte-level caching of values: a `Cacheable` value is written to bytes and
//! read back from them, and the helpers around it frame, name and classify
//! what is cached.

pub mod archive;
pub mod cacheable;
pub mod dyn_data;
pub mod items;
pub mod raw_source;
pub mod registry;
pub mod snapshot;
pub mod store;
pub mod text;
pub mod with;

pub use cacheable::{from_bytes, to_bytes, try_from_bytes, Cacheable, CacheableDyn};
pub use dyn_data::CacheableDynData;
pub use registry::{serialize_dyn, DynRegistry};
pub use snapshot::{Snapshot, SnapshotFile, Strategy, ValidateResult};
pub use store::SnapshotStore;
pub use with::{AsCacheable, AsCustom, AsCustomConverter, AsString, AsStringConverter};

/// The trait through which a `Cacheable` type gives its view.
pub use vstd::view::View;
