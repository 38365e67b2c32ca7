//! What the `cacheable` and `cacheable_dyn` attributes decide from the item
//! they are put on: which fields get a `with` wrapper, which items are
//! accepted, and the names of the items they generate.

use vstd::prelude::*;
use crate::text::str_equal;

verus! {

/// The first generic argument of a type path segment, as far as the
/// `cacheable` attribute looks at it.
pub enum GenericArg {
    /// A trait object type, `dyn Trait`.
    TraitObject,
    /// A type path; `ident` is its identifier when the path is a single
    /// plain identifier.
    TypePath { ident: Option<String> },
    /// Any other argument.
    Other,
}

/// The first segment of a field's type path: its identifier and, when its
/// arguments are in angle brackets, the first of them.
pub struct Segment {
    pub ident: String,
    pub first_arg: Option<GenericArg>,
}

/// A field's type, as far as the `cacheable` attribute looks at it: a type
/// path with its first segment (`None` where it has none), or another type.
pub enum FieldType {
    Path { first: Option<Segment> },
    Other,
}

/// The `with` wrapper that the `cacheable` attribute puts on a field.
#[derive(PartialEq, Eq, Structural, Clone, Copy, Debug)]
pub enum FieldWith {
    /// `Box<dyn Trait>` fields are written through `AsCacheable`.
    AsCacheable,
    /// `Option<JsonValue>` fields are written through `AsOption<AsString>`.
    AsOptionAsString,
    /// `HashSet<PathBuf>` fields are written through `AsVec<AsString>`.
    AsVecAsString,
}

/// Whether an argument is a type path that is the single identifier `name`.
pub open spec fn arg_is_ident(arg: Option<GenericArg>, name: Seq<char>) -> bool {
    match arg {
        Some(GenericArg::TypePath { ident: Some(id) }) => id@ == name,
        _ => false,
    }
}

/// The wrapper a field of type `ty` gets, if any.
pub open spec fn spec_field_with(ty: FieldType) -> Option<FieldWith> {
    match ty {
        FieldType::Path { first: Some(seg) } => {
            if seg.ident@ == "Box"@ && seg.first_arg matches Some(GenericArg::TraitObject) {
                Some(FieldWith::AsCacheable)
            } else if seg.ident@ == "Option"@ && arg_is_ident(seg.first_arg, "JsonValue"@) {
                Some(FieldWith::AsOptionAsString)
            } else if seg.ident@ == "HashSet"@ && arg_is_ident(seg.first_arg, "PathBuf"@) {
                Some(FieldWith::AsVecAsString)
            } else {
                None
            }
        },
        _ => None,
    }
}

fn first_arg_is_ident(arg: &Option<GenericArg>, name: &str) -> (yes: bool)
    ensures
        yes == arg_is_ident(*arg, name@),
{
    match arg {
        Some(GenericArg::TypePath { ident: Some(id) }) => str_equal(id.as_str(), name),
        _ => false,
    }
}

/// Decides the `with` wrapper of a field from its type: a boxed trait
/// object, an optional JSON value or a set of paths get one, other fields
/// none.
pub fn add_attr_for_field(ty: &FieldType) -> (with: Option<FieldWith>)
    ensures
        with == spec_field_with(*ty),
{
    match ty {
        FieldType::Path { first: Some(seg) } => {
            if str_equal(seg.ident.as_str(), "Box") && matches!(seg.first_arg, Some(GenericArg::TraitObject)) {
                Some(FieldWith::AsCacheable)
            } else if str_equal(seg.ident.as_str(), "Option") && first_arg_is_ident(
                &seg.first_arg,
                "JsonValue",
            ) {
                Some(FieldWith::AsOptionAsString)
            } else if str_equal(seg.ident.as_str(), "HashSet") && first_arg_is_ident(
                &seg.first_arg,
                "PathBuf",
            ) {
                Some(FieldWith::AsVecAsString)
            } else {
                None
            }
        },
        _ => None,
    }
}

/// Which fields get which wrapper: a boxed trait object gets `AsCacheable`;
/// an `Option` gets `AsOption<AsString>` only when its argument is the single
/// identifier `JsonValue`; a `HashSet` gets `AsVec<AsString>` only when its
/// argument is the single identifier `PathBuf`; every other field gets none.
pub proof fn lemma_field_with_choice(ty: FieldType)
    ensures
        spec_field_with(ty) == Some(FieldWith::AsCacheable) <==> (ty matches FieldType::Path {
            first: Some(seg),
        } && seg.ident@ == "Box"@ && seg.first_arg matches Some(GenericArg::TraitObject)),
        spec_field_with(ty) == Some(FieldWith::AsOptionAsString) <==> (ty matches FieldType::Path {
            first: Some(seg),
        } && seg.ident@ == "Option"@ && match seg.first_arg {
            Some(GenericArg::TypePath { ident: Some(id) }) => id@ == "JsonValue"@,
            _ => false,
        }),
        spec_field_with(ty) == Some(FieldWith::AsVecAsString) <==> (ty matches FieldType::Path {
            first: Some(seg),
        } && seg.ident@ == "HashSet"@ && match seg.first_arg {
            Some(GenericArg::TypePath { ident: Some(id) }) => id@ == "PathBuf"@,
            _ => false,
        }),
{
    reveal_strlit("Box");
    reveal_strlit("Option");
    reveal_strlit("HashSet");
    assert("Box"@.len() != "Option"@.len());
    assert("Box"@.len() != "HashSet"@.len());
    assert("Option"@.len() != "HashSet"@.len());
}

/// An `Option` field whose argument is not the single identifier
/// `JsonValue` (`Option<PathBuf>`, `Option<String>`, `Option<Vec<u8>>`, ...)
/// gets no wrapper.
pub proof fn lemma_option_field_needs_json_value(seg: Segment)
    requires
        seg.ident@ == "Option"@,
        !match seg.first_arg {
            Some(GenericArg::TypePath { ident: Some(id) }) => id@ == "JsonValue"@,
            _ => false,
        },
    ensures
        spec_field_with(FieldType::Path { first: Some(seg) }) is None,
{
    lemma_field_with_choice(FieldType::Path { first: Some(seg) });
    reveal_strlit("Option");
    reveal_strlit("HashSet");
    reveal_strlit("Box");
    assert("Box"@.len() != "Option"@.len());
    assert("Option"@.len() != "HashSet"@.len());
}

/// An item that an attribute is put on, as far as the attributes look at it.
pub enum Item {
    Struct { ident: String },
    Enum { ident: String },
    Trait { ident: String },
    /// An impl block: `trait_path` is `None` for an inherent impl, else the
    /// trait's identifier when its path is a single identifier; `self_ty`
    /// is the segments of the implementing type's path, or `None` where that
    /// type is not a path.
    Impl { trait_path: Option<Option<String>>, self_ty: Option<Vec<String>> },
    Other,
}

/// The identifier of a struct or an enum, the only items that `cacheable`
/// accepts; `None` for any other item.
pub fn get_ident(item: &Item) -> (ident: Option<String>)
    ensures
        ident matches Some(s) ==> (item matches Item::Struct { ident } && ident@ == s@) || (
        item matches Item::Enum { ident } && ident@ == s@),
        ident is None ==> !(item is Struct || item is Enum),
{
    match item {
        Item::Struct { ident } => Some(ident.clone()),
        Item::Enum { ident } => Some(ident.clone()),
        _ => None,
    }
}

/// What `cacheable` puts on the fields of an item: the wrapper of each
/// field, in order (the fields of an enum are those of all its variants, in
/// order); `None` where the item is neither a struct nor an enum.
pub fn impl_cacheable(item: &Item, fields: &Vec<FieldType>) -> (withs: Option<Vec<Option<FieldWith>>>)
    ensures
        withs is Some <==> (item is Struct || item is Enum),
        withs matches Some(w) ==> w@.len() == fields@.len() && forall|i: int|
            0 <= i < fields@.len() ==> #[trigger] w@[i] == spec_field_with(fields@[i]),
{
    match item {
        Item::Struct { .. } | Item::Enum { .. } => {},
        _ => {
            return None;
        },
    }
    let n = fields.len();
    let mut withs: Vec<Option<FieldWith>> = Vec::new();
    let mut i: usize = 0;
    while i < n
        invariant
            n == fields@.len(),
            0 <= i <= n,
            withs@.len() == i,
            forall|j: int| 0 <= j < i ==> #[trigger] withs@[j] == spec_field_with(fields@[j]),
        decreases n - i,
    {
        withs.push(add_attr_for_field(&fields[i]));
        i = i + 1;
    }
    Some(withs)
}

/// What `cacheable_dyn` is put on.
#[derive(PartialEq, Eq, Structural, Clone, Copy, Debug)]
pub enum DynTarget {
    Trait,
    Impl,
}

/// `cacheable_dyn` accepts a trait or an impl block; `None` for any other item.
pub fn impl_cacheable_dyn(item: &Item) -> (target: Option<DynTarget>)
    ensures
        target == (match *item {
            Item::Trait { .. } => Some(DynTarget::Trait),
            Item::Impl { .. } => Some(DynTarget::Impl),
            _ => None,
        }),
{
    match item {
        Item::Trait { .. } => Some(DynTarget::Trait),
        Item::Impl { .. } => Some(DynTarget::Impl),
        _ => None,
    }
}

/// The name of the data struct that `cacheable_dyn` generates for a trait.
pub fn data_ident(trait_ident: &str) -> (name: String)
    ensures
        name@ == trait_ident@ + "Data"@,
{
    trait_ident.to_owned().concat("Data")
}

/// The name of the registration struct that `cacheable_dyn` generates for a
/// trait.
pub fn flag_ident(trait_ident: &str) -> (name: String)
    ensures
        name@ == trait_ident@ + "Flag"@,
{
    trait_ident.to_owned().concat("Flag")
}

/// For an impl block under `cacheable_dyn`: the trait's identifier (`None`
/// where its path is not a single identifier) and the type name that the
/// implementation registers, the last segment of the implementing type's
/// path. `None` where the block implements no trait or the implementing type
/// is not a path with a segment.
pub fn impl_impl(item: &Item) -> (names: Option<(Option<String>, String)>)
    ensures
        names matches Some((t, name)) ==> item matches Item::Impl { trait_path: Some(tp), self_ty: Some(segs) }
            && segs@.len() > 0 && name@ == segs@.last()@ && match (tp, t) {
            (Some(a), Some(b)) => a@ == b@,
            (None, None) => true,
            _ => false,
        },
        names is None ==> !(item matches Item::Impl { trait_path: Some(_), self_ty: Some(segs) }
            && segs@.len() > 0),
{
    match item {
        Item::Impl { trait_path: Some(tp), self_ty: Some(segs) } => {
            if segs.len() > 0 {
                let t = match tp {
                    Some(a) => Some(a.clone()),
                    None => None,
                };
                Some((t, segs[segs.len() - 1].clone()))
            } else {
                None
            }
        },
        _ => None,
    }
}

} // verus!
