//! `AsCacheable`: a field is archived as the bytes it is written as.

use vstd::prelude::*;
use crate::cacheable::{Cacheable, from_bytes, to_bytes};

verus! {

/// Archives a `Cacheable` field as the bytes it is written as.
pub struct AsCacheable;

impl AsCacheable {
    /// The bytes a field is archived as, which read back as the field.
    pub fn serialize_with<T: Cacheable>(field: &T) -> (bytes: Vec<u8>)
        requires
            T::spec_writable(field@),
        ensures
            bytes@ == T::spec_to_bytes(field@),
            T::spec_from_bytes(bytes@) == Some(field@),
    {
        to_bytes(field)
    }

    /// The field rebuilt from the bytes it was archived as.
    pub fn deserialize_with<T: Cacheable>(field: &[u8]) -> (value: T)
        requires
            T::spec_from_bytes(field@) is Some,
        ensures
            T::spec_from_bytes(field@) == Some(value@),
    {
        from_bytes::<T>(field)
    }
}

} // verus!
