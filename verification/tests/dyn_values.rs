use rspack_cacheable::raw_source::RawSource;
use rspack_cacheable::{serialize_dyn, to_bytes, try_from_bytes, Cacheable, CacheableDyn, DynRegistry};
use vstd::prelude::View;

// The spec items only have meaning under Verus and are never called at run
// time; the tests run the methods.
struct Counter(u64);

impl View for Counter {
    type V = u64;
    fn view(&self) -> u64 {
        self.0
    }
}

impl Cacheable for Counter {
    fn spec_to_bytes(_v: u64) -> vstd::seq::Seq<u8> {
        panic!("spec item, not run")
    }
    fn spec_writable(_v: u64) -> bool {
        panic!("spec item, not run")
    }
    fn spec_from_bytes(_bytes: vstd::seq::Seq<u8>) -> Option<u64> {
        panic!("spec item, not run")
    }
    fn writable(&self) -> bool {
        true
    }
    fn serialize(&self) -> Vec<u8> {
        self.0.to_le_bytes().to_vec()
    }
    fn try_deserialize(bytes: &[u8]) -> Option<Self> {
        if bytes.len() == 8 {
            let mut b = [0u8; 8];
            b.copy_from_slice(bytes);
            Some(Counter(u64::from_le_bytes(b)))
        } else {
            None
        }
    }
}

impl CacheableDyn for Counter {
    fn spec_type_label(_v: u64) -> vstd::seq::Seq<char> {
        panic!("spec item, not run")
    }
    fn type_label(&self) -> String {
        String::from("Counter")
    }
}

#[test]
fn dyn_value_round_trip_through_registry() {
    let registry = DynRegistry::build(vec![String::from("Other"), String::from("Counter")]).ok().unwrap();
    let bytes = serialize_dyn(&Counter(77));
    let (index, payload) = registry.resolve(&bytes).expect("registered");
    assert_eq!(index, 1);
    let back = Counter::try_deserialize(&payload).expect("reads back");
    assert_eq!(back.0, 77);
}

#[test]
fn dyn_value_is_named_payload() {
    let bytes = serialize_dyn(&Counter(1));
    let data: rspack_cacheable::CacheableDynData = try_from_bytes(&bytes).unwrap();
    assert_eq!(data.0, "Counter");
    assert_eq!(data.1, vec![1, 0, 0, 0, 0, 0, 0, 0]);
    assert_ne!(bytes, to_bytes(&RawSource::Buffer(vec![1, 0, 0, 0, 0, 0, 0, 0])));
}
