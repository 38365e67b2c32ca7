//! The `Cacheable` contract: a value is written to bytes and read back from
//! them, and reading what was written gives the value back.

use vstd::prelude::*;

verus! {

/// The view of an optional value.
pub open spec fn opt_view<T: View>(o: Option<T>) -> Option<T::V> {
    match o {
        Some(x) => Some(x@),
        None => None,
    }
}

/// A value that can be written to bytes and read back from them.
///
/// Values are described by their view: `spec_to_bytes` is what a value is
/// written as, `spec_from_bytes` what bytes read back as (`None` where they
/// cannot be read), and `spec_writable` which values can be written at all.
pub trait Cacheable: Sized + View {
    /// The bytes that a value with view `v` is written as.
    spec fn spec_to_bytes(v: Self::V) -> Seq<u8>;

    /// Whether a value with view `v` can be written.
    spec fn spec_writable(v: Self::V) -> bool;

    /// The view of the value that `bytes` read back as, or `None`.
    spec fn spec_from_bytes(bytes: Seq<u8>) -> Option<Self::V>;

    /// Whether the value can be written.
    fn writable(&self) -> (ok: bool)
        ensures
            ok == Self::spec_writable(self@),
    ;

    /// Writes the value to bytes, which read back as the value.
    fn serialize(&self) -> (bytes: Vec<u8>)
        requires
            Self::spec_writable(self@),
        ensures
            bytes@ == Self::spec_to_bytes(self@),
            Self::spec_from_bytes(bytes@) == Some(self@),
    ;

    /// Reads a value back from bytes, or `None` where they cannot be read.
    /// Reading the bytes that a writable value is written as gives it back.
    fn try_deserialize(bytes: &[u8]) -> (value: Option<Self>)
        ensures
            opt_view(value) == Self::spec_from_bytes(bytes@),
            forall|v: Self::V|
                Self::spec_writable(v) && #[trigger] Self::spec_to_bytes(v) == bytes@ ==> opt_view(
                    value,
                ) == Some(v),
    ;

    /// Reads a value back from bytes that can be read.
    fn deserialize(bytes: &[u8]) -> (value: Self)
        requires
            Self::spec_from_bytes(bytes@) is Some,
        ensures
            Self::spec_from_bytes(bytes@) == Some(value@),
    {
        match Self::try_deserialize(bytes) {
            Some(v) => v,
            None => unreached(),
        }
    }
}

/// Writes `data` to bytes, which `from_bytes` reads back as `data`.
pub fn to_bytes<T: Cacheable>(data: &T) -> (bytes: Vec<u8>)
    requires
        T::spec_writable(data@),
    ensures
        bytes@ == T::spec_to_bytes(data@),
        T::spec_from_bytes(bytes@) == Some(data@),
{
    data.serialize()
}

/// Reads a value from bytes that can be read.
pub fn from_bytes<T: Cacheable>(bytes: &[u8]) -> (value: T)
    requires
        T::spec_from_bytes(bytes@) is Some,
    ensures
        T::spec_from_bytes(bytes@) == Some(value@),
{
    T::deserialize(bytes)
}

/// Reads a value from bytes, or `None` where they cannot be read; reading
/// what `to_bytes` wrote for a value gives that value back.
pub fn try_from_bytes<T: Cacheable>(bytes: &[u8]) -> (value: Option<T>)
    ensures
        opt_view(value) == T::spec_from_bytes(bytes@),
        forall|v: T::V|
            T::spec_writable(v) && #[trigger] T::spec_to_bytes(v) == bytes@ ==> opt_view(value)
                == Some(v),
{
    T::try_deserialize(bytes)
}

/// A value that names its own type, so that it can be written beside other
/// values behind one interface and read back by that name.
pub trait CacheableDyn: View {
    /// The name of the value's type.
    spec fn spec_type_label(v: Self::V) -> Seq<char>;

    /// Returns the name of the value's type.
    fn type_label(&self) -> (name: String)
        ensures
            name@ == Self::spec_type_label(self@),
    ;
}

} // verus!
