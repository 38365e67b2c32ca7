//! Raw sources (a byte buffer or a string) written as `CacheableDynData`
//! under the names `RawSource::Buffer` and `RawSource::Source`.

use vstd::prelude::*;
use vstd::utf8::{decode_utf8, encode_utf8, encode_utf8_decode_utf8, encode_utf8_valid_utf8, is_ascii_chars, is_ascii_chars_encode_utf8, valid_utf8};
use crate::archive::archive_fits_len;
use crate::cacheable::{opt_view, Cacheable, to_bytes, try_from_bytes};
use crate::dyn_data::CacheableDynData;
use crate::text::{str_equal, string_from_utf8, utf8_bytes};

verus! {

/// The raw content of a source: a byte buffer or a string.
pub enum RawSource {
    Buffer(Vec<u8>),
    Source(String),
}

/// The view of a raw source.
pub enum RawSourceView {
    Buffer(Seq<u8>),
    Source(Seq<char>),
}

impl View for RawSource {
    type V = RawSourceView;

    open spec fn view(&self) -> RawSourceView {
        match self {
            RawSource::Buffer(b) => RawSourceView::Buffer(b@),
            RawSource::Source(s) => RawSourceView::Source(s@),
        }
    }
}

/// The type name a buffer is written under.
pub open spec fn buffer_name() -> Seq<char> {
    "RawSource::Buffer"@
}

/// The type name a string source is written under.
pub open spec fn source_name() -> Seq<char> {
    "RawSource::Source"@
}

impl RawSource {
    /// The type name and payload that a raw source is written as.
    pub open spec fn spec_dyn_data(v: RawSourceView) -> (Seq<char>, Seq<u8>) {
        match v {
            RawSourceView::Buffer(b) => (buffer_name(), b),
            RawSourceView::Source(s) => (source_name(), encode_utf8(s)),
        }
    }

    /// The raw source that a type name and payload stand for, if any.
    pub open spec fn spec_from_dyn_data(name: Seq<char>, data: Seq<u8>) -> Option<RawSourceView> {
        if name == buffer_name() {
            Some(RawSourceView::Buffer(data))
        } else if name == source_name() {
            if valid_utf8(data) {
                Some(RawSourceView::Source(decode_utf8(data)))
            } else {
                None
            }
        } else {
            None
        }
    }

    /// The type name and payload a raw source is written as stand for that
    /// raw source.
    pub proof fn lemma_dyn_data_round_trip(v: RawSourceView)
        ensures
            Self::spec_from_dyn_data(Self::spec_dyn_data(v).0, Self::spec_dyn_data(v).1) == Some(v),
    {
        reveal_strlit("RawSource::Buffer");
        reveal_strlit("RawSource::Source");
        assert(buffer_name()[11] != source_name()[11]);
        if let RawSourceView::Source(s) = v {
            encode_utf8_valid_utf8(s);
            encode_utf8_decode_utf8(s);
        }
    }

    /// Builds the type name and payload that the source is written as.
    pub fn to_dyn_data(&self) -> (data: CacheableDynData)
        ensures
            data@ == Self::spec_dyn_data(self@),
    {
        match self {
            RawSource::Buffer(buf) => CacheableDynData(
                "RawSource::Buffer".to_owned(),
                vstd::slice::slice_to_vec(buf.as_slice()),
            ),
            RawSource::Source(source) => CacheableDynData(
                "RawSource::Source".to_owned(),
                utf8_bytes(source.as_str()),
            ),
        }
    }

    /// Rebuilds a raw source from a type name and payload: a buffer or a
    /// string that is valid UTF-8. Any other name is an unknown type; a
    /// string payload that is not UTF-8 is refused as such.
    pub fn from_dyn_data(data: CacheableDynData) -> (source: Result<RawSource, RawSourceError>)
        ensures
            source is Ok <==> Self::spec_from_dyn_data(data@.0, data@.1) is Some,
            source matches Ok(s) ==> Self::spec_from_dyn_data(data@.0, data@.1) == Some(s@),
            source matches Err(e) ==> (e == RawSourceError::UnknownType <==> (data@.0 != buffer_name()
                && data@.0 != source_name())),
    {
        let CacheableDynData(name, payload) = data;
        if str_equal(name.as_str(), "RawSource::Buffer") {
            Ok(RawSource::Buffer(payload))
        } else if str_equal(name.as_str(), "RawSource::Source") {
            match string_from_utf8(payload) {
                Some(s) => Ok(RawSource::Source(s)),
                None => Err(RawSourceError::InvalidUtf8),
            }
        } else {
            Err(RawSourceError::UnknownType)
        }
    }
}

/// Why a type name and payload do not stand for a raw source.
#[derive(PartialEq, Eq, Structural, Clone, Copy, Debug)]
pub enum RawSourceError {
    /// The type name is neither `RawSource::Buffer` nor `RawSource::Source`.
    UnknownType,
    /// The payload of a `RawSource::Source` is not UTF-8.
    InvalidUtf8,
}

impl Cacheable for RawSource {
    open spec fn spec_to_bytes(v: RawSourceView) -> Seq<u8> {
        CacheableDynData::spec_to_bytes(Self::spec_dyn_data(v))
    }

    open spec fn spec_writable(v: RawSourceView) -> bool {
        CacheableDynData::spec_writable(Self::spec_dyn_data(v))
    }

    open spec fn spec_from_bytes(bytes: Seq<u8>) -> Option<RawSourceView> {
        match CacheableDynData::spec_from_bytes(bytes) {
            Some((name, data)) => Self::spec_from_dyn_data(name, data),
            None => None,
        }
    }

    fn writable(&self) -> (ok: bool) {
        match self {
            RawSource::Buffer(buf) => archive_fits_len("RawSource::Buffer", buf.len()),
            RawSource::Source(source) => archive_fits_len("RawSource::Source", source.as_str().as_bytes().len()),
        }
    }

    fn serialize(&self) -> (bytes: Vec<u8>) {
        let data = self.to_dyn_data();
        proof {
            Self::lemma_dyn_data_round_trip(self@);
        }
        to_bytes(&data)
    }

    fn try_deserialize(bytes: &[u8]) -> (value: Option<Self>) {
        let data: Option<CacheableDynData> = try_from_bytes(bytes);
        let value = match data {
            Some(d) => match Self::from_dyn_data(d) {
                Ok(source) => Some(source),
                Err(_) => None,
            },
            None => None,
        };
        proof {
            assert forall|v: RawSourceView|
                Self::spec_writable(v) && #[trigger] Self::spec_to_bytes(v) == bytes@ implies opt_view(
                    value,
                ) == Some(v) by {
                let p = Self::spec_dyn_data(v);
                assert(CacheableDynData::spec_writable(p) && CacheableDynData::spec_to_bytes(p)
                    == bytes@);
                Self::lemma_dyn_data_round_trip(v);
            }
        }
        value
    }
}

/// The UTF-8 bytes of an ASCII type name are as many as its characters.
pub proof fn lemma_ascii_name_len(name: Seq<char>)
    requires
        is_ascii_chars(name),
    ensures
        encode_utf8(name).len() == name.len(),
{
    is_ascii_chars_encode_utf8(name);
}

/// How a raw source is written: a buffer as the `CacheableDynData` named
/// `RawSource::Buffer` holding the buffer itself, a string as the one named
/// `RawSource::Source` holding the string's UTF-8 bytes. Either can be
/// written exactly when its payload and the 17-byte name fit the archive.
pub proof fn lemma_raw_source_written_form(b: Seq<u8>, s: Seq<char>)
    ensures
        RawSource::spec_dyn_data(RawSourceView::Buffer(b)) == ("RawSource::Buffer"@, b),
        RawSource::spec_dyn_data(RawSourceView::Source(s)) == ("RawSource::Source"@, encode_utf8(s)),
        RawSource::spec_to_bytes(RawSourceView::Buffer(b)) == CacheableDynData::spec_to_bytes(
            ("RawSource::Buffer"@, b),
        ),
        RawSource::spec_to_bytes(RawSourceView::Source(s)) == CacheableDynData::spec_to_bytes(
            ("RawSource::Source"@, encode_utf8(s)),
        ),
        RawSource::spec_writable(RawSourceView::Buffer(b)) <==> b.len() + 17 <= 0x7fff_ff00,
        RawSource::spec_writable(RawSourceView::Source(s)) <==> encode_utf8(s).len() + 17
            <= 0x7fff_ff00,
{
    reveal_strlit("RawSource::Buffer");
    reveal_strlit("RawSource::Source");
    assert(is_ascii_chars("RawSource::Buffer"@));
    assert(is_ascii_chars("RawSource::Source"@));
    lemma_ascii_name_len("RawSource::Buffer"@);
    lemma_ascii_name_len("RawSource::Source"@);
}

/// How a name and payload are read as a raw source: under
/// `RawSource::Buffer` the payload is the buffer; under `RawSource::Source`
/// a UTF-8 payload is the string it encodes and any other payload is
/// refused; any other name is refused. In particular a string's own UTF-8
/// bytes read back as that string.
pub proof fn lemma_raw_source_read_form(name: Seq<char>, d: Seq<u8>, s: Seq<char>)
    ensures
        RawSource::spec_from_dyn_data("RawSource::Buffer"@, d) == Some(RawSourceView::Buffer(d)),
        valid_utf8(d) ==> RawSource::spec_from_dyn_data("RawSource::Source"@, d) == Some(
            RawSourceView::Source(decode_utf8(d)),
        ),
        !valid_utf8(d) ==> RawSource::spec_from_dyn_data("RawSource::Source"@, d) is None,
        name != "RawSource::Buffer"@ && name != "RawSource::Source"@ ==> RawSource::spec_from_dyn_data(
            name,
            d,
        ) is None,
        RawSource::spec_from_dyn_data("RawSource::Source"@, encode_utf8(s)) == Some(
            RawSourceView::Source(s),
        ),
{
    reveal_strlit("RawSource::Buffer");
    reveal_strlit("RawSource::Source");
    assert("RawSource::Buffer"@[11] != "RawSource::Source"@[11]);
    encode_utf8_valid_utf8(s);
    encode_utf8_decode_utf8(s);
}

} // verus!
