//! Structural descriptors of data shapes, and their mathematical models.
//!
//! Every descriptor type has a view: the same tree with strings as
//! `Seq<char>` and vectors as `Seq`. Contracts throughout the crate are
//! stated over these views.

use crate::registry::TypeContext;
use vstd::prelude::*;

mod impls;

verus! {

/// Whether every identifier that `shape` mentions is among `known`.
pub open spec fn resolved_in(shape: TypeView, known: Set<Seq<char>>) -> bool {
    forall|id: Seq<char>| shape.mentions(id) ==> known.contains(id)
}

/// The capability of a data type to describe its own shape.
///
/// Primitives and containers have no identifier and report their structure
/// in place; a named type reports `Id` and sees to it that its declaration
/// is in the registry.
pub trait Reflect {
    /// The identifier of this type: `None` for a type that is described in
    /// place.
    fn type_id() -> Option<String>;

    /// Reports this type's shape, registering in `cx` the declarations that
    /// the shape refers to. What `cx` held stays as it was, and every
    /// identifier in the reported shape is known to `cx` afterwards.
    fn reflect(cx: &mut TypeContext) -> (shape: Type)
        ensures
            final(cx).extends(old(cx)),
            resolved_in(shape@, final(cx).known()),
    ;
}

/// Bit width of an integer primitive.
#[derive(Clone, Copy, Debug, PartialEq, Eq)]
pub enum IntWidth {
    W8,
    W16,
    W32,
    W64,
    W128,
}

impl IntWidth {
    /// The width in bits, as a mathematical integer.
    pub open spec fn bits(self) -> int {
        match self {
            IntWidth::W8 => 8,
            IntWidth::W16 => 16,
            IntWidth::W32 => 32,
            IntWidth::W64 => 64,
            IntWidth::W128 => 128,
        }
    }

    /// The width in bits.
    pub fn as_u8(self) -> (bits: u8)
        ensures
            bits == self.bits(),
    {
        match self {
            IntWidth::W8 => 8,
            IntWidth::W16 => 16,
            IntWidth::W32 => 32,
            IntWidth::W64 => 64,
            IntWidth::W128 => 128,
        }
    }
}

/// Bit width of a floating-point primitive.
#[derive(Clone, Copy, Debug, PartialEq, Eq)]
pub enum FloatWidth {
    F32,
    F64,
}

impl FloatWidth {
    /// The width in bits, as a mathematical integer.
    pub open spec fn bits(self) -> int {
        match self {
            FloatWidth::F32 => 32,
            FloatWidth::F64 => 64,
        }
    }

    /// The width in bits.
    pub fn as_u8(self) -> (bits: u8)
        ensures
            bits == self.bits(),
    {
        match self {
            FloatWidth::F32 => 32,
            FloatWidth::F64 => 64,
        }
    }
}

/// A shape without inner structure.
#[derive(Clone, Copy, Debug, PartialEq, Eq)]
pub enum PrimitiveType {
    Bool,
    Int(IntWidth),
    UInt(IntWidth),
    Float(FloatWidth),
    String,
}

/// The shape of a value. Named declarations are not inlined: they are
/// referred to by `Id`, and the declaration itself lives in a `TypeContext`.
#[derive(Debug, PartialEq, Eq)]
pub enum Type {
    Primitive(PrimitiveType),
    Option(Box<Type>),
    Array(Box<Type>),
    Tuple(Vec<Type>),
    Mapping(Box<Type>),
    Id(String),
}

/// Model of a `Type`.
pub enum TypeView {
    Primitive(PrimitiveType),
    Option(Box<TypeView>),
    Array(Box<TypeView>),
    Tuple(Seq<TypeView>),
    Mapping(Box<TypeView>),
    Id(Seq<char>),
}

impl TypeView {
    /// Whether the identifier `id` occurs anywhere in this shape.
    pub open spec fn mentions(self, id: Seq<char>) -> bool
        decreases self,
    {
        match self {
            TypeView::Primitive(_) => false,
            TypeView::Option(inner) => inner.mentions(id),
            TypeView::Array(inner) => inner.mentions(id),
            TypeView::Tuple(items) => exists|i: int|
                0 <= i < items.len() && (#[trigger] items[i]).mentions(id),
            TypeView::Mapping(inner) => inner.mentions(id),
            TypeView::Id(name) => name == id,
        }
    }
}

/// A tuple mentions an identifier exactly when one of its items does.
pub proof fn lemma_tuple_mentions(items: Seq<TypeView>, id: Seq<char>)
    ensures
        TypeView::Tuple(items).mentions(id) <==> exists|i: int|
            0 <= i < items.len() && (#[trigger] items[i]).mentions(id),
{
    assert(TypeView::Tuple(items)->Tuple_0 == items);
}

impl Type {
    /// The model of this shape.
    pub open spec fn model(self) -> TypeView
        decreases self,
    {
        match self {
            Type::Primitive(p) => TypeView::Primitive(p),
            Type::Option(inner) => TypeView::Option(Box::new(inner.model())),
            Type::Array(inner) => TypeView::Array(Box::new(inner.model())),
            Type::Tuple(items) => TypeView::Tuple(
                Seq::new(
                    items@.len(),
                    |i: int|
                        if 0 <= i < items@.len() {
                            items@[i].model()
                        } else {
                            TypeView::Primitive(PrimitiveType::Bool)
                        },
                ),
            ),
            Type::Mapping(inner) => TypeView::Mapping(Box::new(inner.model())),
            Type::Id(name) => TypeView::Id(name@),
        }
    }

    /// The identifier, if this shape is a reference to a named declaration.
    pub fn as_id(&self) -> (id: Option<&str>)
        ensures
            match self@ {
                TypeView::Id(name) => id is Some && id->0@ == name,
                _ => id is None,
            },
    {
        if let Type::Id(id) = self {
            Some(id.as_str())
        } else {
            None
        }
    }
}

impl View for Type {
    type V = TypeView;

    open spec fn view(&self) -> TypeView {
        self.model()
    }
}

/// Models of the shapes in `items`, in order.
pub open spec fn types_view(items: Seq<Type>) -> Seq<TypeView> {
    Seq::new(items.len(), |i: int| items[i]@)
}

/// The model of a tuple shape is the tuple of its items' models.
pub proof fn lemma_tuple_view(items: Vec<Type>)
    ensures
        Type::Tuple(items)@ == TypeView::Tuple(types_view(items@)),
{
    assert(Type::Tuple(items)@->Tuple_0 =~= types_view(items@));
}

impl Type {
    /// A deep copy of this shape.
    pub fn duplicate(&self) -> (copy: Type)
        ensures
            copy@ == self@,
        decreases self,
    {
        match self {
            Type::Primitive(p) => Type::Primitive(*p),
            Type::Option(inner) => Type::Option(Box::new(inner.duplicate())),
            Type::Array(inner) => Type::Array(Box::new(inner.duplicate())),
            Type::Tuple(items) => {
                let mut out: Vec<Type> = Vec::new();
                let mut i: usize = 0;
                while i < items.len()
                    invariant
                        i <= items.len(),
                        out.len() == i,
                        *self == Type::Tuple(*items),
                        forall|j: int| 0 <= j < i ==> out@[j]@ == items@[j]@,
                    decreases items.len() - i,
                {
                    assert(decreases_to!(*self => self->Tuple_0));
                    out.push(items[i].duplicate());
                    i += 1;
                }
                proof {
                    lemma_tuple_view(out);
                    lemma_tuple_view(*items);
                    assert(types_view(out@) =~= types_view(items@));
                }
                Type::Tuple(out)
            },
            Type::Mapping(inner) => Type::Mapping(Box::new(inner.duplicate())),
            Type::Id(name) => Type::Id(name.clone()),
        }
    }
}

impl Clone for Type {
    fn clone(&self) -> (copy: Type)
        ensures
            copy@ == self@,
    {
        self.duplicate()
    }
}

/// One field of a struct, or of a struct-like enum variant.
#[derive(Debug, PartialEq, Eq)]
pub struct Field {
    /// The name the field has on the wire.
    pub name: String,
    /// Whether the field's own fields are merged into the parent's.
    pub flatten: bool,
    /// Whether a value must be present: false where a default stands in.
    pub required: bool,
    pub type_desc: Type,
}

/// Model of a `Field`.
pub struct FieldView {
    pub name: Seq<char>,
    pub flatten: bool,
    pub required: bool,
    pub type_desc: TypeView,
}

impl View for Field {
    type V = FieldView;

    open spec fn view(&self) -> FieldView {
        FieldView {
            name: self.name@,
            flatten: self.flatten,
            required: self.required,
            type_desc: self.type_desc@,
        }
    }
}

impl Clone for Field {
    fn clone(&self) -> (copy: Field)
        ensures
            copy@ == self@,
    {
        Field {
            name: self.name.clone(),
            flatten: self.flatten,
            required: self.required,
            type_desc: self.type_desc.duplicate(),
        }
    }
}

/// Models of the fields in `fields`, in order.
pub open spec fn fields_view(fields: Seq<Field>) -> Seq<FieldView> {
    Seq::new(fields.len(), |i: int| fields[i]@)
}

/// Whether some field in `fields` mentions the identifier `id`.
pub open spec fn fields_mention(fields: Seq<FieldView>, id: Seq<char>) -> bool {
    exists|i: int| 0 <= i < fields.len() && (#[trigger] fields[i]).type_desc.mentions(id)
}

/// A deep copy of a list of fields.
pub fn clone_fields(fields: &Vec<Field>) -> (copy: Vec<Field>)
    ensures
        fields_view(copy@) == fields_view(fields@),
{
    let mut out: Vec<Field> = Vec::new();
    let mut i: usize = 0;
    while i < fields.len()
        invariant
            i <= fields.len(),
            out.len() == i,
            forall|j: int| 0 <= j < i ==> out@[j]@ == fields@[j]@,
        decreases fields.len() - i,
    {
        out.push(fields[i].clone());
        i += 1;
    }
    assert(fields_view(out@) =~= fields_view(fields@));
    out
}

/// A named record of fields, in declaration order.
#[derive(Debug, PartialEq, Eq)]
pub struct StructType {
    pub name: String,
    pub fields: Vec<Field>,
}

/// Model of a `StructType`.
pub struct StructTypeView {
    pub name: Seq<char>,
    pub fields: Seq<FieldView>,
}

impl View for StructType {
    type V = StructTypeView;

    open spec fn view(&self) -> StructTypeView {
        StructTypeView { name: self.name@, fields: fields_view(self.fields@) }
    }
}

impl Clone for StructType {
    fn clone(&self) -> (copy: StructType)
        ensures
            copy@ == self@,
    {
        StructType { name: self.name.clone(), fields: clone_fields(&self.fields) }
    }
}

/// How the variant of an enum value is told on the wire.
#[derive(Debug, PartialEq, Eq)]
pub enum EnumTag {
    /// The variant name wraps the payload.
    External,
    /// A field of the given name, inside the payload, holds the variant name.
    Internal(String),
    /// One field holds the variant name, another the payload.
    Adjacent { tag: String, content: String },
}

/// Model of an `EnumTag`.
pub enum EnumTagView {
    External,
    Internal(Seq<char>),
    Adjacent { tag: Seq<char>, content: Seq<char> },
}

impl View for EnumTag {
    type V = EnumTagView;

    open spec fn view(&self) -> EnumTagView {
        match self {
            EnumTag::External => EnumTagView::External,
            EnumTag::Internal(tag) => EnumTagView::Internal(tag@),
            EnumTag::Adjacent { tag, content } => EnumTagView::Adjacent {
                tag: tag@,
                content: content@,
            },
        }
    }
}

impl Clone for EnumTag {
    fn clone(&self) -> (copy: EnumTag)
        ensures
            copy@ == self@,
    {
        match self {
            EnumTag::External => EnumTag::External,
            EnumTag::Internal(tag) => EnumTag::Internal(tag.clone()),
            EnumTag::Adjacent { tag, content } => EnumTag::Adjacent {
                tag: tag.clone(),
                content: content.clone(),
            },
        }
    }
}

/// The payload of an enum variant.
#[derive(Debug, PartialEq, Eq)]
pub enum EnumVariantKind {
    /// No payload.
    Unit,
    /// A single unnamed value.
    NewType(Type),
    /// Named fields.
    Struct(Vec<Field>),
}

/// Model of an `EnumVariantKind`.
pub enum EnumVariantKindView {
    Unit,
    NewType(TypeView),
    Struct(Seq<FieldView>),
}

impl EnumVariantKindView {
    /// Whether the payload mentions the identifier `id`.
    pub open spec fn mentions(self, id: Seq<char>) -> bool {
        match self {
            EnumVariantKindView::Unit => false,
            EnumVariantKindView::NewType(inner) => inner.mentions(id),
            EnumVariantKindView::Struct(fields) => fields_mention(fields, id),
        }
    }
}

impl View for EnumVariantKind {
    type V = EnumVariantKindView;

    open spec fn view(&self) -> EnumVariantKindView {
        match self {
            EnumVariantKind::Unit => EnumVariantKindView::Unit,
            EnumVariantKind::NewType(inner) => EnumVariantKindView::NewType(inner@),
            EnumVariantKind::Struct(fields) => EnumVariantKindView::Struct(fields_view(fields@)),
        }
    }
}

impl Clone for EnumVariantKind {
    fn clone(&self) -> (copy: EnumVariantKind)
        ensures
            copy@ == self@,
    {
        match self {
            EnumVariantKind::Unit => EnumVariantKind::Unit,
            EnumVariantKind::NewType(inner) => EnumVariantKind::NewType(inner.duplicate()),
            EnumVariantKind::Struct(fields) => EnumVariantKind::Struct(clone_fields(fields)),
        }
    }
}

/// One variant of an enum.
#[derive(Debug, PartialEq, Eq)]
pub struct EnumVariant {
    /// The variant's name in the source.
    pub name: String,
    /// The string that stands for the variant on the wire.
    pub tag_value: String,
    pub kind: EnumVariantKind,
}

/// Model of an `EnumVariant`.
pub struct EnumVariantView {
    pub name: Seq<char>,
    pub tag_value: Seq<char>,
    pub kind: EnumVariantKindView,
}

impl View for EnumVariant {
    type V = EnumVariantView;

    open spec fn view(&self) -> EnumVariantView {
        EnumVariantView { name: self.name@, tag_value: self.tag_value@, kind: self.kind@ }
    }
}

impl Clone for EnumVariant {
    fn clone(&self) -> (copy: EnumVariant)
        ensures
            copy@ == self@,
    {
        EnumVariant {
            name: self.name.clone(),
            tag_value: self.tag_value.clone(),
            kind: self.kind.clone(),
        }
    }
}

/// Models of the variants in `variants`, in order.
pub open spec fn variants_view(variants: Seq<EnumVariant>) -> Seq<EnumVariantView> {
    Seq::new(variants.len(), |i: int| variants[i]@)
}

/// Whether some variant in `variants` mentions the identifier `id`.
pub open spec fn variants_mention(variants: Seq<EnumVariantView>, id: Seq<char>) -> bool {
    exists|i: int| 0 <= i < variants.len() && (#[trigger] variants[i]).kind.mentions(id)
}

/// A named choice between variants, in declaration order.
#[derive(Debug, PartialEq, Eq)]
pub struct EnumType {
    pub name: String,
    pub tag: Option<EnumTag>,
    pub variants: Vec<EnumVariant>,
}

/// Model of an `EnumType`.
pub struct EnumTypeView {
    pub name: Seq<char>,
    pub tag: Option<EnumTagView>,
    pub variants: Seq<EnumVariantView>,
}

impl View for EnumType {
    type V = EnumTypeView;

    open spec fn view(&self) -> EnumTypeView {
        EnumTypeView {
            name: self.name@,
            tag: match self.tag {
                Some(tag) => Some(tag@),
                None => None,
            },
            variants: variants_view(self.variants@),
        }
    }
}

impl Clone for EnumType {
    fn clone(&self) -> (copy: EnumType)
        ensures
            copy@ == self@,
    {
        let tag = match &self.tag {
            Some(tag) => Some(tag.clone()),
            None => None,
        };
        let mut variants: Vec<EnumVariant> = Vec::new();
        let mut i: usize = 0;
        while i < self.variants.len()
            invariant
                i <= self.variants.len(),
                variants.len() == i,
                forall|j: int| 0 <= j < i ==> variants@[j]@ == self.variants@[j]@,
            decreases self.variants.len() - i,
        {
            variants.push(self.variants[i].clone());
            i += 1;
        }
        assert(variants_view(variants@) =~= variants_view(self.variants@));
        EnumType { name: self.name.clone(), tag, variants }
    }
}

/// A named declaration, as it is held in a `TypeContext`.
#[derive(Debug, PartialEq, Eq)]
pub enum TypeDecl {
    Struct(StructType),
    Enum(EnumType),
}

/// Model of a `TypeDecl`.
pub enum TypeDeclView {
    Struct(StructTypeView),
    Enum(EnumTypeView),
}

impl TypeDeclView {
    /// Whether the declaration mentions the identifier `id` in the shape of
    /// one of its fields or variants.
    pub open spec fn mentions(self, id: Seq<char>) -> bool {
        match self {
            TypeDeclView::Struct(s) => fields_mention(s.fields, id),
            TypeDeclView::Enum(e) => variants_mention(e.variants, id),
        }
    }
}

impl View for TypeDecl {
    type V = TypeDeclView;

    open spec fn view(&self) -> TypeDeclView {
        match self {
            TypeDecl::Struct(s) => TypeDeclView::Struct(s@),
            TypeDecl::Enum(e) => TypeDeclView::Enum(e@),
        }
    }
}

impl Clone for TypeDecl {
    fn clone(&self) -> (copy: TypeDecl)
        ensures
            copy@ == self@,
    {
        match self {
            TypeDecl::Struct(s) => TypeDecl::Struct(s.clone()),
            TypeDecl::Enum(e) => TypeDecl::Enum(e.clone()),
        }
    }
}

impl TypeDecl {
    /// The struct declaration, if this is one.
    pub fn as_struct(&self) -> (found: Option<&StructType>)
        ensures
            match self {
                TypeDecl::Struct(s) => found == Some(s),
                TypeDecl::Enum(_) => found is None,
            },
    {
        if let TypeDecl::Struct(v) = self {
            Some(v)
        } else {
            None
        }
    }
}

} // verus!
