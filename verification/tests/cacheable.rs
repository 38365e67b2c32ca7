use rspack_cacheable::archive::archive_fits_len;
use rspack_cacheable::Cacheable;
use rspack_cacheable::raw_source::{RawSource, RawSourceError};
use rspack_cacheable::{from_bytes, to_bytes, try_from_bytes, AsCacheable, CacheableDynData};

#[test]
fn dyn_data_round_trip() {
    let data = CacheableDynData(String::from("Module"), vec![1, 2, 3, 250]);
    let bytes = to_bytes(&data);
    assert!(!bytes.is_empty());
    let back: CacheableDynData = from_bytes(&bytes);
    assert_eq!(back.0, "Module");
    assert_eq!(back.1, vec![1, 2, 3, 250]);
}

#[test]
fn dyn_data_bytes_are_not_the_payload() {
    let data = CacheableDynData(String::from("A"), vec![9, 9, 9]);
    let bytes = to_bytes(&data);
    assert_ne!(bytes, vec![9, 9, 9]);
}

#[test]
fn dyn_data_empty_parts_round_trip() {
    let data = CacheableDynData(String::new(), Vec::new());
    let bytes = to_bytes(&data);
    let back: Option<CacheableDynData> = try_from_bytes(&bytes);
    let back = back.expect("reads back");
    assert_eq!(back.0, "");
    assert!(back.1.is_empty());
}

#[test]
fn dyn_data_unicode_name_round_trip() {
    let data = CacheableDynData(String::from("模块→é"), vec![0, 255]);
    let back: CacheableDynData = from_bytes(&to_bytes(&data));
    assert_eq!(back.0, "模块→é");
    assert_eq!(back.1, vec![0, 255]);
}

#[test]
fn garbage_does_not_read() {
    let back: Option<CacheableDynData> = try_from_bytes(&[]);
    assert!(back.is_none());
    let back: Option<CacheableDynData> = try_from_bytes(&[0xff; 3]);
    assert!(back.is_none());
}

#[test]
fn raw_source_buffer_round_trip() {
    let source = RawSource::Buffer(vec![0, 1, 2, 0xff]);
    let bytes = to_bytes(&source);
    match from_bytes::<RawSource>(&bytes) {
        RawSource::Buffer(b) => assert_eq!(b, vec![0, 1, 2, 0xff]),
        RawSource::Source(_) => panic!("expected a buffer"),
    }
}

#[test]
fn raw_source_string_round_trip() {
    let source = RawSource::Source(String::from("const a = '√';"));
    let bytes = to_bytes(&source);
    match from_bytes::<RawSource>(&bytes) {
        RawSource::Source(s) => assert_eq!(s, "const a = '√';"),
        RawSource::Buffer(_) => panic!("expected a string"),
    }
}

#[test]
fn raw_source_is_written_as_named_dyn_data() {
    let bytes = to_bytes(&RawSource::Source(String::from("x")));
    let data: CacheableDynData = from_bytes(&bytes);
    assert_eq!(data.0, "RawSource::Source");
    assert_eq!(data.1, b"x".to_vec());
    let bytes = to_bytes(&RawSource::Buffer(vec![7]));
    let data: CacheableDynData = from_bytes(&bytes);
    assert_eq!(data.0, "RawSource::Buffer");
    assert_eq!(data.1, vec![7]);
}

#[test]
fn raw_source_unknown_name_is_refused() {
    let bytes = to_bytes(&CacheableDynData(String::from("ConcatSource"), vec![1]));
    assert!(try_from_bytes::<RawSource>(&bytes).is_none());
}

#[test]
fn raw_source_invalid_utf8_is_refused() {
    let bytes = to_bytes(&CacheableDynData(String::from("RawSource::Source"), vec![0xff, 0xfe]));
    assert!(try_from_bytes::<RawSource>(&bytes).is_none());
    let bytes = to_bytes(&CacheableDynData(String::from("RawSource::Buffer"), vec![0xff, 0xfe]));
    match try_from_bytes::<RawSource>(&bytes) {
        Some(RawSource::Buffer(b)) => assert_eq!(b, vec![0xff, 0xfe]),
        _ => panic!("a buffer holds any bytes"),
    }
}

#[test]
fn as_cacheable_round_trip() {
    let bytes = AsCacheable::serialize_with(&RawSource::Buffer(vec![5, 6]));
    assert_eq!(bytes, to_bytes(&RawSource::Buffer(vec![5, 6])));
    match AsCacheable::deserialize_with::<RawSource>(&bytes) {
        RawSource::Buffer(b) => assert_eq!(b, vec![5, 6]),
        RawSource::Source(_) => panic!("expected a buffer"),
    }
}

#[test]
fn raw_source_errors_say_why() {
    let unknown = CacheableDynData(String::from("ConcatSource"), vec![1]);
    assert_eq!(RawSource::from_dyn_data(unknown).err(), Some(RawSourceError::UnknownType));
    let invalid = CacheableDynData(String::from("RawSource::Source"), vec![0xff]);
    assert_eq!(RawSource::from_dyn_data(invalid).err(), Some(RawSourceError::InvalidUtf8));
}

#[test]
fn small_values_are_writable() {
    assert!(CacheableDynData(String::from("name"), vec![1, 2, 3]).writable());
    assert!(CacheableDynData(String::new(), Vec::new()).writable());
    assert!(RawSource::Buffer(vec![0; 1024]).writable());
    assert!(RawSource::Source(String::from("let a = 1;")).writable());
}

#[test]
fn archive_limit_counts_name_bytes_and_payload() {
    assert!(archive_fits_len("ab", 0x7fff_ff00 - 2));
    assert!(!archive_fits_len("ab", 0x7fff_ff00 - 1));
    assert!(archive_fits_len("é", 0x7fff_ff00 - 2));
    assert!(!archive_fits_len("é", 0x7fff_ff00 - 1));
    assert!(!archive_fits_len("", usize::MAX));
}
