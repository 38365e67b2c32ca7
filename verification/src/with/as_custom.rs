//! `AsCustom`: a field is archived as a value of another type that it
//! converts to and is rebuilt from.

use vstd::prelude::*;

verus! {

/// A type that is archived as a value of type `S`.
pub trait AsCustomConverter: Sized {
    type S;

    /// The value that `to` converts to.
    spec fn spec_to(&self) -> Self::S;

    /// The value that `from` rebuilds.
    spec fn spec_from(data: Self::S) -> Self;

    /// Converts to the archived type.
    fn to(&self) -> (data: Self::S)
        ensures
            data == self.spec_to(),
    ;

    /// Rebuilds from the archived type.
    fn from(data: &Self::S) -> (value: Self)
        ensures
            value == Self::spec_from(*data),
    ;
}

/// Archives a field as the value its `AsCustomConverter` converts it to.
pub struct AsCustom;

impl AsCustom {
    /// The value a field is archived as.
    pub fn serialize_with<T: AsCustomConverter>(field: &T) -> (data: T::S)
        ensures
            data == field.spec_to(),
    {
        field.to()
    }

    /// The field rebuilt from the value it was archived as.
    pub fn deserialize_with<T: AsCustomConverter>(data: &T::S) -> (value: T)
        ensures
            value == T::spec_from(*data),
    {
        T::from(data)
    }
}

} // verus!
