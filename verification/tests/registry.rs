use rspack_cacheable::{to_bytes, CacheableDynData, DynRegistry};

fn names(list: &[&str]) -> Vec<String> {
    list.iter().map(|s| s.to_string()).collect()
}

#[test]
fn build_refuses_duplicates() {
    match DynRegistry::build(names(&["A", "B", "A", "B"])) {
        Err(dup) => assert_eq!(dup, "A"),
        Ok(_) => panic!("duplicate accepted"),
    }
    match DynRegistry::build(names(&["A", "B", "C", "B", "C"])) {
        Err(dup) => assert_eq!(dup, "B"),
        Ok(_) => panic!("duplicate accepted"),
    }
}

#[test]
fn lookup_finds_positions() {
    let registry = DynRegistry::build(names(&["EntryDependency", "ImportDependency"])).ok().unwrap();
    assert_eq!(registry.len(), 2);
    assert_eq!(registry.lookup("ImportDependency"), Some(1));
    assert_eq!(registry.lookup("EntryDependency"), Some(0));
    assert_eq!(registry.lookup("Other"), None);
}

#[test]
fn resolve_reads_registered_name() {
    let registry = DynRegistry::build(names(&["A", "B"])).ok().unwrap();
    let bytes = to_bytes(&CacheableDynData(String::from("B"), vec![4, 5]));
    assert_eq!(registry.resolve(&bytes), Some((1, vec![4, 5])));
    let bytes = to_bytes(&CacheableDynData(String::from("C"), vec![4, 5]));
    assert_eq!(registry.resolve(&bytes), None);
    assert_eq!(registry.resolve(&[1, 2, 3]), None);
}

#[test]
fn empty_registry() {
    let registry = DynRegistry::build(vec![]).ok().unwrap();
    assert_eq!(registry.len(), 0);
    assert_eq!(registry.lookup(""), None);
}
