use rspack_cacheable::items::{
    add_attr_for_field, data_ident, flag_ident, get_ident, impl_cacheable, impl_cacheable_dyn,
    impl_impl, DynTarget, FieldType, FieldWith, GenericArg, Item, Segment,
};

fn path(ident: &str, first_arg: Option<GenericArg>) -> FieldType {
    FieldType::Path {
        first: Some(Segment {
            ident: ident.to_string(),
            first_arg,
        }),
    }
}

fn ident_arg(name: &str) -> Option<GenericArg> {
    Some(GenericArg::TypePath {
        ident: Some(name.to_string()),
    })
}

#[test]
fn boxed_trait_object_is_as_cacheable() {
    let ty = path("Box", Some(GenericArg::TraitObject));
    assert_eq!(add_attr_for_field(&ty), Some(FieldWith::AsCacheable));
}

#[test]
fn boxed_concrete_type_gets_nothing() {
    let ty = path("Box", ident_arg("Module"));
    assert_eq!(add_attr_for_field(&ty), None);
}

#[test]
fn optional_json_is_as_option_as_string() {
    assert_eq!(
        add_attr_for_field(&path("Option", ident_arg("JsonValue"))),
        Some(FieldWith::AsOptionAsString)
    );
    assert_eq!(add_attr_for_field(&path("Option", ident_arg("String"))), None);
    let qualified = path("Option", Some(GenericArg::TypePath { ident: None }));
    assert_eq!(add_attr_for_field(&qualified), None);
}

#[test]
fn path_set_is_as_vec_as_string() {
    assert_eq!(
        add_attr_for_field(&path("HashSet", ident_arg("PathBuf"))),
        Some(FieldWith::AsVecAsString)
    );
    assert_eq!(add_attr_for_field(&path("HashSet", ident_arg("String"))), None);
    assert_eq!(add_attr_for_field(&path("HashSet", None)), None);
}

#[test]
fn other_types_get_nothing() {
    assert_eq!(add_attr_for_field(&FieldType::Other), None);
    assert_eq!(add_attr_for_field(&FieldType::Path { first: None }), None);
    assert_eq!(add_attr_for_field(&path("Vec", Some(GenericArg::TraitObject))), None);
    assert_eq!(add_attr_for_field(&path("Box", Some(GenericArg::Other))), None);
}

#[test]
fn cacheable_accepts_structs_and_enums() {
    let fields = vec![
        path("Box", Some(GenericArg::TraitObject)),
        path("u32", None),
        path("HashSet", ident_arg("PathBuf")),
    ];
    let item = Item::Struct { ident: "Module".to_string() };
    assert_eq!(
        impl_cacheable(&item, &fields),
        Some(vec![Some(FieldWith::AsCacheable), None, Some(FieldWith::AsVecAsString)])
    );
    let item = Item::Enum { ident: "Kind".to_string() };
    assert_eq!(impl_cacheable(&item, &vec![]), Some(vec![]));
    let item = Item::Trait { ident: "T".to_string() };
    assert_eq!(impl_cacheable(&item, &fields), None);
}

#[test]
fn get_ident_of_items() {
    assert_eq!(get_ident(&Item::Struct { ident: "A".to_string() }), Some("A".to_string()));
    assert_eq!(get_ident(&Item::Enum { ident: "B".to_string() }), Some("B".to_string()));
    assert_eq!(get_ident(&Item::Other), None);
    assert_eq!(get_ident(&Item::Trait { ident: "C".to_string() }), None);
}

#[test]
fn cacheable_dyn_targets() {
    assert_eq!(impl_cacheable_dyn(&Item::Trait { ident: "T".to_string() }), Some(DynTarget::Trait));
    let imp = Item::Impl { trait_path: None, self_ty: None };
    assert_eq!(impl_cacheable_dyn(&imp), Some(DynTarget::Impl));
    assert_eq!(impl_cacheable_dyn(&Item::Struct { ident: "S".to_string() }), None);
}

#[test]
fn generated_names() {
    assert_eq!(data_ident("Dependency"), "DependencyData");
    assert_eq!(flag_ident("Dependency"), "DependencyFlag");
    assert_eq!(data_ident(""), "Data");
}

#[test]
fn impl_names() {
    let imp = Item::Impl {
        trait_path: Some(Some("Dependency".to_string())),
        self_ty: Some(vec!["crate".to_string(), "deps".to_string(), "EntryDependency".to_string()]),
    };
    assert_eq!(
        impl_impl(&imp),
        Some((Some("Dependency".to_string()), "EntryDependency".to_string()))
    );
    let no_trait = Item::Impl { trait_path: None, self_ty: Some(vec!["X".to_string()]) };
    assert_eq!(impl_impl(&no_trait), None);
    let not_path = Item::Impl { trait_path: Some(Some("T".to_string())), self_ty: None };
    assert_eq!(impl_impl(&not_path), None);
    let qualified_trait = Item::Impl { trait_path: Some(None), self_ty: Some(vec!["X".to_string()]) };
    assert_eq!(impl_impl(&qualified_trait), Some((None, "X".to_string())));
}
