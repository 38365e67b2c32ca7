//! `with` wrappers: a field is archived as something else (its cacheable
//! bytes, a string, a value of another type) and rebuilt from it.

pub mod as_cacheable;
pub mod as_custom;
pub mod as_string;

pub use as_cacheable::AsCacheable;
pub use as_custom::{AsCustom, AsCustomConverter};
pub use as_string::{AsString, AsStringConverter};
