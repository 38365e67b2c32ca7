//! `CacheableDynData`: a value's type name beside the bytes it is written as.

use vstd::prelude::*;
use crate::archive::{archive_fits, archive_fits_len, pair_view, rkyv_pair_bytes, rkyv_pair_read, rkyv_read_pair, rkyv_write_pair};
use crate::cacheable::{opt_view, Cacheable};

verus! {

/// A type name and the payload bytes of a value of that type.
pub struct CacheableDynData(pub String, pub Vec<u8>);

impl View for CacheableDynData {
    type V = (Seq<char>, Seq<u8>);

    open spec fn view(&self) -> (Seq<char>, Seq<u8>) {
        (self.0@, self.1@)
    }
}

impl Cacheable for CacheableDynData {
    open spec fn spec_to_bytes(v: (Seq<char>, Seq<u8>)) -> Seq<u8> {
        rkyv_pair_bytes(v.0, v.1)
    }

    open spec fn spec_writable(v: (Seq<char>, Seq<u8>)) -> bool {
        archive_fits(v.0, v.1)
    }

    open spec fn spec_from_bytes(bytes: Seq<u8>) -> Option<(Seq<char>, Seq<u8>)> {
        rkyv_pair_read(bytes)
    }

    fn writable(&self) -> (ok: bool) {
        archive_fits_len(self.0.as_str(), self.1.len())
    }

    fn serialize(&self) -> (bytes: Vec<u8>) {
        rkyv_write_pair(&self.0, &self.1)
    }

    fn try_deserialize(bytes: &[u8]) -> (value: Option<Self>) {
        let pair = rkyv_read_pair(bytes);
        let value = match pair {
            Some((name, data)) => Some(CacheableDynData(name, data)),
            None => None,
        };
        proof {
            assert forall|v: (Seq<char>, Seq<u8>)|
                Self::spec_writable(v) && #[trigger] Self::spec_to_bytes(v) == bytes@ implies opt_view(
                    value,
                ) == Some(v) by {
                assert(rkyv_pair_bytes(v.0, v.1) == bytes@);
            }
        }
        value
    }
}

/// A name and payload are written as `rkyv`'s archive of the pair and read
/// back as what `rkyv` reads; they can be written exactly when the name's
/// UTF-8 bytes and the payload together take at most 0x7fff_ff00 bytes.
pub proof fn lemma_dyn_data_archive(name: Seq<char>, data: Seq<u8>, bytes: Seq<u8>)
    ensures
        CacheableDynData::spec_to_bytes((name, data)) == rkyv_pair_bytes(name, data),
        CacheableDynData::spec_from_bytes(bytes) == rkyv_pair_read(bytes),
        CacheableDynData::spec_writable((name, data)) <==> vstd::utf8::encode_utf8(name).len()
            + data.len() <= 0x7fff_ff00,
{
}

} // verus!
