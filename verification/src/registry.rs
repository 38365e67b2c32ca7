//! Values behind a shared interface (`cacheable_dyn`): each is written as its
//! type name beside its own bytes, and read back through a registry that
//! holds, for each implementation's type name, the deserializer to call.

use vstd::prelude::*;
use crate::archive::{archive_fits, rkyv_pair_bytes};
use crate::cacheable::{opt_view, Cacheable, CacheableDyn, to_bytes, try_from_bytes};
use crate::dyn_data::CacheableDynData;
use crate::text::str_equal;

verus! {

/// No name occurs twice.
pub open spec fn distinct_names(s: Seq<Seq<char>>) -> bool {
    forall|i: int, j: int| 0 <= i < j < s.len() ==> #[trigger] s[i] != #[trigger] s[j]
}

/// The position of `name` among `names`, if it occurs.
pub open spec fn name_index(names: Seq<Seq<char>>, name: Seq<char>) -> Option<int> {
    if exists|i: int| 0 <= i < names.len() && #[trigger] names[i] == name {
        Some(choose|i: int| 0 <= i < names.len() && #[trigger] names[i] == name)
    } else {
        None
    }
}

/// The registry of a `cacheable_dyn` trait: the type names of its
/// implementations, each registered once. The deserializer registered under
/// the name at position `i` is the `i`-th one the registry was built from.
pub struct DynRegistry {
    names: Vec<String>,
}

impl View for DynRegistry {
    type V = Seq<Seq<char>>;

    closed spec fn view(&self) -> Seq<Seq<char>> {
        crate::text::string_views(self.names@)
    }
}

impl DynRegistry {
    /// No type name is registered twice.
    #[verifier::type_invariant]
    closed spec fn names_distinct(self) -> bool {
        distinct_names(crate::text::string_views(self.names@))
    }

    /// Builds the registry from the registered type names in order. A name
    /// registered twice is refused: the error is the first name, in order,
    /// that was already registered.
    pub fn build(names: Vec<String>) -> (registry: Result<DynRegistry, String>)
        ensures
            registry is Ok <==> distinct_names(crate::text::string_views(names@)),
            registry matches Ok(r) ==> r@ == crate::text::string_views(names@),
            registry matches Err(dup) ==> exists|j: int|
                0 <= j < names@.len() && #[trigger] names@[j]@ == dup@ && distinct_names(
                    crate::text::string_views(names@).take(j),
                ) && crate::text::string_views(names@).take(j).contains(dup@),
    {
        let ghost all = crate::text::string_views(names@);
        let n = names.len();
        let mut j: usize = 0;
        while j < n
            invariant
                n == names@.len(),
                all == crate::text::string_views(names@),
                0 <= j <= n,
                distinct_names(all.take(j as int)),
            decreases n - j,
        {
            let mut i: usize = 0;
            while i < j
                invariant
                    n == names@.len(),
                    all == crate::text::string_views(names@),
                    0 <= i <= j < n,
                    distinct_names(all.take(j as int)),
                    forall|k: int| 0 <= k < i ==> all[k] != all[j as int],
                decreases j - i,
            {
                if str_equal(names[i].as_str(), names[j].as_str()) {
                    proof {
                        assert(all.take(j as int)[i as int] == all[j as int]);
                        assert(all.take(j as int).contains(all[j as int]));
                        assert(names@[j as int]@ == all[j as int]);
                    }
                    let dup = names[j].clone();
                    assert(names@[j as int]@ == dup@);
                    return Err(dup);
                }
                i = i + 1;
            }
            proof {
                assert forall|a: int, b: int| 0 <= a < b < j + 1 implies #[trigger] all.take(j + 1)[a]
                    != #[trigger] all.take(j + 1)[b] by {
                    if b < j {
                        assert(all.take(j as int)[a] != all.take(j as int)[b]);
                    }
                }
            }
            j = j + 1;
        }
        proof {
            assert(all.take(n as int) =~= all);
        }
        Ok(DynRegistry { names })
    }

    /// The number of registered names, each registered once.
    pub fn len(&self) -> (n: usize)
        ensures
            n == self@.len(),
            distinct_names(self@),
    {
        proof {
            use_type_invariant(self);
        }
        self.names.len()
    }

    /// The position of the deserializer registered under `name`, if any.
    pub fn lookup(&self, name: &str) -> (index: Option<usize>)
        ensures
            index matches Some(i) ==> i < self@.len() && self@[i as int] == name@ && forall|k: int|
                0 <= k < i ==> #[trigger] self@[k] != name@,
            index is None ==> name_index(self@, name@) is None,
    {
        let n = self.names.len();
        let mut i: usize = 0;
        while i < n
            invariant
                n == self@.len(),
                0 <= i <= n,
                forall|k: int| 0 <= k < i ==> #[trigger] self@[k] != name@,
            decreases n - i,
        {
            if str_equal(self.names[i].as_str(), name) {
                return Some(i);
            }
            i = i + 1;
        }
        None
    }

    /// Reads a value written by `serialize_dyn`: returns the position of the
    /// deserializer registered under its type name and the bytes to hand it,
    /// or `None` where the bytes cannot be read or the name is not registered.
    /// Reading what was written for a registered name gives that name's
    /// position and the payload back.
    pub fn resolve(&self, bytes: &[u8]) -> (found: Option<(usize, Vec<u8>)>)
        ensures
            found matches Some((i, payload)) ==> (CacheableDynData::spec_from_bytes(bytes@) matches Some(
                (name, data),
            ) && i < self@.len() && self@[i as int] == name && payload@ == data),
            found is None ==> (CacheableDynData::spec_from_bytes(bytes@) matches Some((name, data))
                ==> name_index(self@, name) is None),
            resolved_view(found) == spec_resolve(self@, bytes@),
            forall|name: Seq<char>, data: Seq<u8>|
                archive_fits(name, data) && #[trigger] rkyv_pair_bytes(name, data) == bytes@
                    && name_index(self@, name) is Some ==> (found matches Some((i, payload))
                    && self@[i as int] == name && payload@ == data),
    {
        proof {
            use_type_invariant(self);
        }
        let read: Option<CacheableDynData> = try_from_bytes(bytes);
        let found = match read {
            Some(CacheableDynData(name, payload)) => match self.lookup(name.as_str()) {
                Some(i) => Some((i, payload)),
                None => None,
            },
            None => None,
        };
        proof {
            assert forall|name: Seq<char>, data: Seq<u8>|
                archive_fits(name, data) && #[trigger] rkyv_pair_bytes(name, data) == bytes@
                    && name_index(self@, name) is Some implies (found matches Some((i, payload))
                    && self@[i as int] == name && payload@ == data) by {
                assert(CacheableDynData::spec_to_bytes((name, data)) == bytes@);
                let k = choose|k: int| 0 <= k < self@.len() && #[trigger] self@[k] == name;
                assert(self@[k] == name);
            }
            if let Some((i, _)) = found {
                let name = self@[i as int];
                assert(self@[i as int] == name);
                let k = choose|k: int| 0 <= k < self@.len() && #[trigger] self@[k] == name;
                if k < i {
                    assert(self@[k] != self@[i as int]);
                } else if i < k {
                    assert(self@[i as int] != self@[k]);
                }
            }
        }
        found
    }
}

/// The view of what `resolve` found.
pub open spec fn resolved_view(found: Option<(usize, Vec<u8>)>) -> Option<(int, Seq<u8>)> {
    match found {
        Some((i, p)) => Some((i as int, p@)),
        None => None,
    }
}

/// What reading `bytes` through a registry of `names` finds: the position of
/// the type name they were written under and their payload, or `None`.
pub open spec fn spec_resolve(names: Seq<Seq<char>>, bytes: Seq<u8>) -> Option<(int, Seq<u8>)> {
    match CacheableDynData::spec_from_bytes(bytes) {
        Some((name, data)) => match name_index(names, name) {
            Some(i) => Some((i, data)),
            None => None,
        },
        None => None,
    }
}

/// `bytes` are what `serialize_dyn` wrote for a value with view `v`: they
/// read back as its type name beside its bytes, which read back as `v`.
pub open spec fn dyn_written<T: Cacheable + CacheableDyn>(bytes: Seq<u8>, v: <T as View>::V) -> bool {
    &&& CacheableDynData::spec_from_bytes(bytes) == Some(
        (<T as CacheableDyn>::spec_type_label(v), T::spec_to_bytes(v)),
    )
    &&& T::spec_from_bytes(T::spec_to_bytes(v)) == Some(v)
}

/// Law of `serialize_dyn` and `DynRegistry::resolve`: reading what was
/// written for a value through a registry that holds its type name (each
/// name once) finds that name's position and a payload that reads back as
/// the value.
pub proof fn lemma_dyn_round_trip<T: Cacheable + CacheableDyn>(
    names: Seq<Seq<char>>,
    bytes: Seq<u8>,
    v: <T as View>::V,
)
    requires
        distinct_names(names),
        names.contains(<T as CacheableDyn>::spec_type_label(v)),
        dyn_written::<T>(bytes, v),
    ensures
        spec_resolve(names, bytes) matches Some((i, p)) && 0 <= i < names.len() && names[i]
            == <T as CacheableDyn>::spec_type_label(v) && T::spec_from_bytes(p) == Some(v),
{
    let label = <T as CacheableDyn>::spec_type_label(v);
    let k = choose|k: int| 0 <= k < names.len() && names[k] == label;
    assert(names[k] == label);
}

/// Writes a value behind a shared interface: its type name beside the bytes
/// it is written as.
pub fn serialize_dyn<T: Cacheable + CacheableDyn>(inner: &T) -> (bytes: Vec<u8>)
    requires
        T::spec_writable(inner@),
        archive_fits(<T as CacheableDyn>::spec_type_label(inner@), T::spec_to_bytes(inner@)),
    ensures
        bytes@ == rkyv_pair_bytes(<T as CacheableDyn>::spec_type_label(inner@), T::spec_to_bytes(inner@)),
        dyn_written::<T>(bytes@, inner@),
{
    let data = CacheableDynData(inner.type_label(), inner.serialize());
    to_bytes(&data)
}

} // verus!
