//! Deriving a declaration from the definition of a data type.
//!
//! The input is what a serialisation framework knows of a definition: its
//! name and place, how its variants are told apart on the wire, and for
//! each field the wire name, whether it is flattened, whether a default
//! stands in for a missing value, and the shape of its type.

use crate::error::{SpecError, SpecErrorView, Unsupported};
use crate::reflection::{
    fields_view, variants_view, EnumTag, EnumTagView, EnumType, EnumTypeView, EnumVariant,
    EnumVariantKind, EnumVariantKindView, EnumVariantView, Field, FieldView, StructType,
    StructTypeView, Type, TypeDecl, TypeDeclView, TypeView,
};
use vstd::prelude::*;

verus! {

/// How an enum tells its variants apart on the wire.
#[derive(Debug, PartialEq, Eq)]
pub enum TagType {
    /// The variant name wraps the payload.
    External,
    /// The field `tag`, inside the payload, holds the variant name.
    Internal { tag: String },
    /// The field `tag` holds the variant name, the field `content` the
    /// payload.
    Adjacent { tag: String, content: String },
    /// No variant name is written.
    Untagged,
}

/// Model of a `TagType`.
pub enum TagTypeView {
    External,
    Internal { tag: Seq<char> },
    Adjacent { tag: Seq<char>, content: Seq<char> },
    Untagged,
}

impl View for TagType {
    type V = TagTypeView;

    open spec fn view(&self) -> TagTypeView {
        match self {
            TagType::External => TagTypeView::External,
            TagType::Internal { tag } => TagTypeView::Internal { tag: tag@ },
            TagType::Adjacent { tag, content } => TagTypeView::Adjacent {
                tag: tag@,
                content: content@,
            },
            TagType::Untagged => TagTypeView::Untagged,
        }
    }
}

/// A field of a definition.
#[derive(Debug, PartialEq, Eq)]
pub struct DeriveField {
    /// The field's name on the wire, after renaming.
    pub serialize_name: String,
    /// Whether the field's own fields are merged into the parent's.
    pub flatten: bool,
    /// Whether a default stands in where the field is missing.
    pub has_default: bool,
    /// The shape of the field's type.
    pub ty: Type,
}

/// Model of a `DeriveField`.
pub struct DeriveFieldView {
    pub serialize_name: Seq<char>,
    pub flatten: bool,
    pub has_default: bool,
    pub ty: TypeView,
}

impl View for DeriveField {
    type V = DeriveFieldView;

    open spec fn view(&self) -> DeriveFieldView {
        DeriveFieldView {
            serialize_name: self.serialize_name@,
            flatten: self.flatten,
            has_default: self.has_default,
            ty: self.ty@,
        }
    }
}

/// Models of `fields`, in order.
pub open spec fn derive_fields_view(fields: Seq<DeriveField>) -> Seq<DeriveFieldView> {
    Seq::new(fields.len(), |i: int| fields[i]@)
}

/// The fields of a struct or of an enum variant, by the way they are
/// written.
#[derive(Debug, PartialEq, Eq)]
pub enum DeriveFields {
    /// Named fields.
    Struct(Vec<DeriveField>),
    /// Several unnamed fields.
    Tuple(Vec<DeriveField>),
    /// One unnamed field.
    Newtype(DeriveField),
    /// No fields.
    Unit,
}

/// Model of a `DeriveFields`.
pub enum DeriveFieldsView {
    Struct(Seq<DeriveFieldView>),
    Tuple(Seq<DeriveFieldView>),
    Newtype(DeriveFieldView),
    Unit,
}

impl View for DeriveFields {
    type V = DeriveFieldsView;

    open spec fn view(&self) -> DeriveFieldsView {
        match self {
            DeriveFields::Struct(fields) => DeriveFieldsView::Struct(derive_fields_view(fields@)),
            DeriveFields::Tuple(fields) => DeriveFieldsView::Tuple(derive_fields_view(fields@)),
            DeriveFields::Newtype(field) => DeriveFieldsView::Newtype(field@),
            DeriveFields::Unit => DeriveFieldsView::Unit,
        }
    }
}

/// A variant of an enum definition.
#[derive(Debug, PartialEq, Eq)]
pub struct DeriveVariant {
    /// The variant's name in the source.
    pub ident: String,
    /// The variant's name on the wire, after renaming.
    pub serialize_name: String,
    pub fields: DeriveFields,
}

/// Model of a `DeriveVariant`.
pub struct DeriveVariantView {
    pub ident: Seq<char>,
    pub serialize_name: Seq<char>,
    pub fields: DeriveFieldsView,
}

impl View for DeriveVariant {
    type V = DeriveVariantView;

    open spec fn view(&self) -> DeriveVariantView {
        DeriveVariantView {
            ident: self.ident@,
            serialize_name: self.serialize_name@,
            fields: self.fields@,
        }
    }
}

/// Models of `variants`, in order.
pub open spec fn derive_variants_view(variants: Seq<DeriveVariant>) -> Seq<DeriveVariantView> {
    Seq::new(variants.len(), |i: int| variants[i]@)
}

/// The body of a definition.
#[derive(Debug, PartialEq, Eq)]
pub enum DeriveData {
    Enum(Vec<DeriveVariant>),
    Struct(DeriveFields),
}

/// Model of a `DeriveData`.
pub enum DeriveDataView {
    Enum(Seq<DeriveVariantView>),
    Struct(DeriveFieldsView),
}

impl View for DeriveData {
    type V = DeriveDataView;

    open spec fn view(&self) -> DeriveDataView {
        match self {
            DeriveData::Enum(variants) => DeriveDataView::Enum(derive_variants_view(variants@)),
            DeriveData::Struct(fields) => DeriveDataView::Struct(fields@),
        }
    }
}

/// The definition of a data type, as the derive step reads it.
#[derive(Debug, PartialEq, Eq)]
pub struct DeriveInput {
    /// The path of the module that holds the definition, such as `shop::model`.
    pub module: String,
    /// The name of the type, without generics.
    pub ident: String,
    /// How the variants are told apart, where the definition is an enum.
    pub tag: TagType,
    pub data: DeriveData,
}

/// Model of a `DeriveInput`.
pub struct DeriveInputView {
    pub module: Seq<char>,
    pub ident: Seq<char>,
    pub tag: TagTypeView,
    pub data: DeriveDataView,
}

impl View for DeriveInput {
    type V = DeriveInputView;

    open spec fn view(&self) -> DeriveInputView {
        DeriveInputView {
            module: self.module@,
            ident: self.ident@,
            tag: self.tag@,
            data: self.data@,
        }
    }
}

/// What the derive step yields: the identifier of the type and its
/// declaration.
#[derive(Debug, PartialEq, Eq)]
pub struct Derived {
    pub id: String,
    pub decl: TypeDecl,
}

/// Model of a `Derived`.
pub struct DerivedView {
    pub id: Seq<char>,
    pub decl: TypeDeclView,
}

impl View for Derived {
    type V = DerivedView;

    open spec fn view(&self) -> DerivedView {
        DerivedView { id: self.id@, decl: self.decl@ }
    }
}

/// The field that a definition's field reflects to: it is required
/// exactly where no default stands in for it.
pub open spec fn field_of(field: DeriveFieldView) -> FieldView {
    FieldView {
        name: field.serialize_name,
        flatten: field.flatten,
        required: !field.has_default,
        type_desc: field.ty,
    }
}

/// The fields that `fields` reflect to, in order.
pub open spec fn fields_of(fields: Seq<DeriveFieldView>) -> Seq<FieldView> {
    Seq::new(fields.len(), |i: int| field_of(fields[i]))
}

/// Whether a variant can be described: all but those with several unnamed
/// fields can.
pub open spec fn variant_supported(variant: DeriveVariantView) -> bool {
    !(variant.fields is Tuple)
}

/// The variant that a supported variant of a definition reflects to.
pub open spec fn variant_of(variant: DeriveVariantView) -> EnumVariantView {
    EnumVariantView {
        name: variant.ident,
        tag_value: variant.serialize_name,
        kind: match variant.fields {
            DeriveFieldsView::Struct(fields) => EnumVariantKindView::Struct(fields_of(fields)),
            DeriveFieldsView::Newtype(field) => EnumVariantKindView::NewType(field.ty),
            _ => EnumVariantKindView::Unit,
        },
    }
}

/// The variants that `variants` reflect to, in order.
pub open spec fn variants_of(variants: Seq<DeriveVariantView>) -> Seq<EnumVariantView> {
    Seq::new(variants.len(), |i: int| variant_of(variants[i]))
}

/// Whether `at` is the first variant in `variants` that cannot be
/// described.
pub open spec fn first_unsupported(variants: Seq<DeriveVariantView>, at: int) -> bool {
    &&& 0 <= at < variants.len()
    &&& !variant_supported(variants[at])
    &&& forall|j: int| 0 <= j < at ==> variant_supported(#[trigger] variants[j])
}

/// What stands in the way of deriving a declaration, and the variant it
/// lies in where it lies in one.
pub struct Obstacle {
    pub variant: Option<Seq<char>>,
    pub what: Unsupported,
}

/// What stands in the way of deriving a declaration from `input`, if
/// anything does. An enum is held first to its tag, then to its variants in
/// order.
pub open spec fn obstacle(input: DeriveInputView) -> Option<Obstacle> {
    match input.data {
        DeriveDataView::Enum(variants) => match input.tag {
            TagTypeView::External => Some(Obstacle { variant: None, what: Unsupported::ExternalTag }),
            TagTypeView::Adjacent { .. } => Some(Obstacle { variant: None, what: Unsupported::AdjacentTag }),
            TagTypeView::Untagged => Some(Obstacle { variant: None, what: Unsupported::Untagged }),
            TagTypeView::Internal { .. } => if exists|at: int| first_unsupported(variants, at) {
                let at = choose|at: int| first_unsupported(variants, at);
                Some(Obstacle { variant: Some(variants[at].ident), what: Unsupported::TupleVariant })
            } else {
                None
            },
        },
        DeriveDataView::Struct(fields) => match fields {
            DeriveFieldsView::Struct(_) => None,
            DeriveFieldsView::Tuple(_) => Some(Obstacle { variant: None, what: Unsupported::TupleStruct }),
            DeriveFieldsView::Newtype(_) => Some(Obstacle { variant: None, what: Unsupported::NewtypeStruct }),
            DeriveFieldsView::Unit => Some(Obstacle { variant: None, what: Unsupported::UnitStruct }),
        },
    }
}

/// The identifier of the type that `input` defines: its module path, two
/// colons and its name.
pub open spec fn id_of(input: DeriveInputView) -> Seq<char> {
    input.module + "::"@ + input.ident
}

/// The declaration that `input` reflects to, where nothing stands in the
/// way.
pub open spec fn decl_of(input: DeriveInputView) -> TypeDeclView {
    match input.data {
        DeriveDataView::Enum(variants) => TypeDeclView::Enum(
            EnumTypeView {
                name: input.ident,
                tag: match input.tag {
                    TagTypeView::Internal { tag } => Some(EnumTagView::Internal(tag)),
                    _ => None,
                },
                variants: variants_of(variants),
            },
        ),
        DeriveDataView::Struct(fields) => TypeDeclView::Struct(
            StructTypeView {
                name: input.ident,
                fields: match fields {
                    DeriveFieldsView::Struct(fields) => fields_of(fields),
                    _ => Seq::empty(),
                },
            },
        ),
    }
}

/// Reflects one field of a definition.
pub fn build_field(field: &DeriveField) -> (built: Field)
    ensures
        built@ == field_of(field@),
{
    Field {
        name: field.serialize_name.clone(),
        flatten: field.flatten,
        required: !field.has_default,
        type_desc: field.ty.duplicate(),
    }
}

/// Reflects the fields of a definition, in order.
fn build_fields(fields: &Vec<DeriveField>) -> (built: Vec<Field>)
    ensures
        fields_view(built@) == fields_of(derive_fields_view(fields@)),
{
    let mut built: Vec<Field> = Vec::new();
    let mut i: usize = 0;
    while i < fields.len()
        invariant
            i <= fields.len(),
            built.len() == i,
            forall|j: int| 0 <= j < i ==> built@[j]@ == field_of(fields@[j]@),
        decreases fields.len() - i,
    {
        built.push(build_field(&fields[i]));
        i += 1;
    }
    assert(fields_view(built@) =~= fields_of(derive_fields_view(fields@)));
    built
}

/// Reflects one variant of an enum definition, where it can be described.
fn build_variant(variant: &DeriveVariant) -> (built: Option<EnumVariant>)
    ensures
        built is Some <==> variant_supported(variant@),
        built is Some ==> built->0@ == variant_of(variant@),
{
    let kind = match &variant.fields {
        DeriveFields::Struct(fields) => EnumVariantKind::Struct(build_fields(fields)),
        DeriveFields::Tuple(_) => {
            return None;
        },
        DeriveFields::Newtype(field) => EnumVariantKind::NewType(field.ty.duplicate()),
        DeriveFields::Unit => EnumVariantKind::Unit,
    };
    Some(
        EnumVariant {
            name: variant.ident.clone(),
            tag_value: variant.serialize_name.clone(),
            kind,
        },
    )
}

/// There is at most one first variant that cannot be described.
proof fn lemma_first_unsupported_unique(variants: Seq<DeriveVariantView>, a: int, b: int)
    requires
        first_unsupported(variants, a),
        first_unsupported(variants, b),
    ensures
        a == b,
{
    if a < b {
        assert(variant_supported(variants[a]));
    }
    if b < a {
        assert(variant_supported(variants[b]));
    }
}

/// The failure of the derive step on the type `ident`.
fn unsupported(ident: &String, variant: Option<String>, what: Unsupported) -> (e: SpecError)
    ensures
        e@ == (SpecErrorView::UnsupportedEncoding {
            type_ident: ident@,
            variant: match variant {
                Some(v) => Some(v@),
                None => None,
            },
            what,
        }),
{
    SpecError::UnsupportedEncoding { type_ident: ident.clone(), variant, what }
}

/// Derives the declaration of the type that `input` defines, and its
/// identifier.
///
/// A struct must have named fields. An enum must be internally tagged,
/// and none of its variants may have several unnamed fields. Anything
/// else is refused with the name of the type, and of the variant where
/// one is at fault.
pub fn derive_reflect(input: &DeriveInput) -> (derived: Result<Derived, SpecError>)
    ensures
        match derived {
            Ok(d) => obstacle(input@) is None && d@.id == id_of(input@) && d@.decl == decl_of(
                input@,
            ),
            Err(e) => obstacle(input@) is Some && e@ == (SpecErrorView::UnsupportedEncoding {
                type_ident: input@.ident,
                variant: obstacle(input@)->0.variant,
                what: obstacle(input@)->0.what,
            }),
        },
{
    let decl = match &input.data {
        DeriveData::Enum(variants) => {
            let tag = match &input.tag {
                TagType::External => {
                    return Err(unsupported(&input.ident, None, Unsupported::ExternalTag));
                },
                TagType::Internal { tag } => tag.clone(),
                TagType::Adjacent { .. } => {
                    return Err(unsupported(&input.ident, None, Unsupported::AdjacentTag));
                },
                TagType::Untagged => {
                    return Err(unsupported(&input.ident, None, Unsupported::Untagged));
                },
            };
            let ghost models = derive_variants_view(variants@);
            let mut built: Vec<EnumVariant> = Vec::new();
            let mut i: usize = 0;
            while i < variants.len()
                invariant
                    i <= variants.len(),
                    built.len() == i,
                    models == derive_variants_view(variants@),
                    input@.data == DeriveDataView::Enum(models),
                    input@.tag is Internal,
                    forall|j: int| 0 <= j < i ==> variant_supported(#[trigger] models[j]),
                    forall|j: int| 0 <= j < i ==> built@[j]@ == variant_of(models[j]),
                decreases variants.len() - i,
            {
                match build_variant(&variants[i]) {
                    Some(variant) => {
                        built.push(variant);
                    },
                    None => {
                        proof {
                            assert(models[i as int] == variants@[i as int]@);
                            assert(first_unsupported(models, i as int));
                            let at = choose|at: int| first_unsupported(models, at);
                            lemma_first_unsupported_unique(models, at, i as int);
                        }
                        return Err(
                            unsupported(
                                &input.ident,
                                Some(variants[i].ident.clone()),
                                Unsupported::TupleVariant,
                            ),
                        );
                    },
                }
                assert(models[i as int] == variants@[i as int]@);
                i += 1;
            }
            proof {
                assert forall|at: int| !first_unsupported(models, at) by {
                    if 0 <= at < models.len() {
                        assert(variant_supported(models[at]));
                    }
                }
                assert(variants_view(built@) =~= variants_of(models));
            }
            TypeDecl::Enum(
                EnumType {
                    name: input.ident.clone(),
                    tag: Some(EnumTag::Internal(tag)),
                    variants: built,
                },
            )
        },
        DeriveData::Struct(fields) => match fields {
            DeriveFields::Struct(fields) => TypeDecl::Struct(
                StructType { name: input.ident.clone(), fields: build_fields(fields) },
            ),
            DeriveFields::Tuple(_) => {
                return Err(unsupported(&input.ident, None, Unsupported::TupleStruct));
            },
            DeriveFields::Newtype(_) => {
                return Err(unsupported(&input.ident, None, Unsupported::NewtypeStruct));
            },
            DeriveFields::Unit => {
                return Err(unsupported(&input.ident, None, Unsupported::UnitStruct));
            },
        },
    };
    let id = input.module.clone().concat("::").concat(input.ident.as_str());
    Ok(Derived { id, decl })
}

/// A field is required exactly where no default stands in for it,
/// whatever else is said of it.
pub proof fn lemma_required_without_default(field: DeriveFieldView)
    ensures
        field_of(field).required <==> !field.has_default,
{
}

/// An enum that is not internally tagged is refused, whatever its
/// variants: nothing is derived from it.
pub proof fn lemma_only_internal_tag(input: DeriveInputView)
    requires
        input.data is Enum,
        !(input.tag is Internal),
    ensures
        obstacle(input) is Some,
        obstacle(input)->0.variant is None,
        input.tag is External ==> obstacle(input)->0.what == Unsupported::ExternalTag,
        input.tag is Adjacent ==> obstacle(input)->0.what == Unsupported::AdjacentTag,
        input.tag is Untagged ==> obstacle(input)->0.what == Unsupported::Untagged,
{
}

} // verus!
