//! The archive format of the `rkyv` crate, as the library uses it: a pair of
//! a string and a byte vector is archived and read back.

use vstd::prelude::*;
use vstd::utf8::encode_utf8;

verus! {

/// Whether a pair of a name and a payload is small enough for the archive.
/// `rkyv` stores relative positions as 32-bit signed offsets: the archive is
/// the name's bytes, the payload, at most three bytes of padding and a
/// 16-byte root whose offsets point back at both, so name and payload
/// together must stay some bytes below 2^31; 256 bytes are left for that.
pub open spec fn archive_fits(name: Seq<char>, data: Seq<u8>) -> bool {
    encode_utf8(name).len() + data.len() <= 0x7fff_ff00
}

/// Decides `archive_fits` for a name and a payload of `data_len` bytes.
pub fn archive_fits_len(name: &str, data_len: usize) -> (ok: bool)
    ensures
        ok == (encode_utf8(name@).len() + data_len <= 0x7fff_ff00),
{
    let n = name.as_bytes().len();
    n <= 0x7fff_ff00 && data_len <= 0x7fff_ff00 - n
}

/// The bytes that `rkyv::to_bytes` writes for the pair `(name, data)`.
pub uninterp spec fn rkyv_pair_bytes(name: Seq<char>, data: Seq<u8>) -> Seq<u8>;

/// The pair that `rkyv::from_bytes` reads from `bytes`, or `None` where the
/// bytes do not pass its validation.
pub uninterp spec fn rkyv_pair_read(bytes: Seq<u8>) -> Option<(Seq<char>, Seq<u8>)>;

/// The view of a pair that was read back.
pub open spec fn pair_view(p: Option<(String, Vec<u8>)>) -> Option<(Seq<char>, Seq<u8>)> {
    match p {
        Some((n, d)) => Some((n@, d@)),
        None => None,
    }
}

/// Calls `rkyv::to_bytes::<_, 1024>` on the pair `(name, data)` and copies the
/// aligned result into a `Vec<u8>`.
///
/// Trusted: the result is the named archive of the pair, and `rkyv::from_bytes`
/// reads it back as the pair (the round trip that the crate's documentation
/// shows for `to_bytes` and `from_bytes`). Where a relative offset does not
/// fit its 32-bit range, `rkyv` panics on the payload's and truncates the
/// name's, so the pair must fit.
#[verifier::external_body]
pub(crate) fn rkyv_write_pair(name: &String, data: &Vec<u8>) -> (bytes: Vec<u8>)
    requires
        archive_fits(name@, data@),
    ensures
        bytes@ == rkyv_pair_bytes(name@, data@),
        rkyv_pair_read(bytes@) == Some((name@, data@)),
{
    rkyv::to_bytes::<_, 1024>(&(name.clone(), data.clone())).expect("serialize failed").to_vec()
}

/// Copies `bytes` into an `rkyv::AlignedVec` and calls
/// `rkyv::from_bytes::<(String, Vec<u8>)>` on it, mapping its error to `None`.
///
/// Trusted: the result is the named reading of `bytes`, and reading the bytes
/// that `rkyv::to_bytes` wrote for a pair gives that pair back (the crate's
/// documentation shows this round trip for `to_bytes` and `from_bytes`; the
/// copy supplies the alignment its validation checks, so that what is read
/// depends on the bytes alone and not on where they lie in memory).
#[verifier::external_body]
pub(crate) fn rkyv_read_pair(bytes: &[u8]) -> (pair: Option<(String, Vec<u8>)>)
    ensures
        pair_view(pair) == rkyv_pair_read(bytes@),
        forall|n: Seq<char>, d: Seq<u8>|
            #[trigger] rkyv_pair_bytes(n, d) == bytes@ && archive_fits(n, d) ==> pair_view(pair)
                == Some((n, d)),
{
    let mut aligned = rkyv::AlignedVec::new();
    aligned.extend_from_slice(bytes);
    rkyv::from_bytes::<(String, Vec<u8>)>(&aligned).ok()
}

} // verus!
