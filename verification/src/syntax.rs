//! Resolving a written type to the shape it stands for.
//!
//! The names of the language's own types stand for primitives and
//! containers. Any other single name stands for a declaration in the module
//! that the type is written in; a longer path stands for the declaration it
//! spells out.

use crate::reflection::{
    lemma_tuple_view, types_view, FloatWidth, IntWidth, PrimitiveType, Type, TypeView,
};
use crate::text::str_eq;
use vstd::prelude::*;

verus! {

/// A type as it is written.
#[derive(Debug, PartialEq, Eq)]
pub enum TypeSyntax {
    /// A path such as `Option<Item>` or `shop::Item`: the names of its
    /// segments, and the type arguments of the last one.
    Path { segments: Vec<String>, args: Vec<TypeSyntax> },
    /// A tuple of types.
    Tuple(Vec<TypeSyntax>),
    /// An array or a slice of a type.
    Array(Box<TypeSyntax>),
}

/// Model of a `TypeSyntax`.
pub enum TypeSyntaxView {
    Path { segments: Seq<Seq<char>>, args: Seq<TypeSyntaxView> },
    Tuple(Seq<TypeSyntaxView>),
    Array(Box<TypeSyntaxView>),
}

/// The strings of `names` as character sequences, in order.
pub open spec fn segments_view(names: Seq<String>) -> Seq<Seq<char>> {
    Seq::new(names.len(), |i: int| names[i]@)
}

impl TypeSyntax {
    /// The model of this written type.
    pub open spec fn model(self) -> TypeSyntaxView
        decreases self,
    {
        match self {
            TypeSyntax::Path { segments, args } => TypeSyntaxView::Path {
                segments: segments_view(segments@),
                args: Seq::new(
                    args@.len(),
                    |i: int|
                        if 0 <= i < args@.len() {
                            args@[i].model()
                        } else {
                            TypeSyntaxView::Tuple(Seq::empty())
                        },
                ),
            },
            TypeSyntax::Tuple(items) => TypeSyntaxView::Tuple(
                Seq::new(
                    items@.len(),
                    |i: int|
                        if 0 <= i < items@.len() {
                            items@[i].model()
                        } else {
                            TypeSyntaxView::Tuple(Seq::empty())
                        },
                ),
            ),
            TypeSyntax::Array(inner) => TypeSyntaxView::Array(Box::new(inner.model())),
        }
    }
}

impl View for TypeSyntax {
    type V = TypeSyntaxView;

    open spec fn view(&self) -> TypeSyntaxView {
        self.model()
    }
}

/// Models of the written types in `items`, in order.
pub open spec fn syntax_view(items: Seq<TypeSyntax>) -> Seq<TypeSyntaxView> {
    Seq::new(items.len(), |i: int| items[i]@)
}

/// The model of a written path holds the models of its arguments, and
/// that of a written tuple the models of its items.
pub proof fn lemma_syntax_view(syntax: TypeSyntax)
    ensures
        syntax matches TypeSyntax::Path { segments, args } ==> syntax@
            == (TypeSyntaxView::Path { segments: segments_view(segments@), args: syntax_view(args@) }),
        syntax matches TypeSyntax::Tuple(items) ==> syntax@ == TypeSyntaxView::Tuple(
            syntax_view(items@),
        ),
{
    match syntax {
        TypeSyntax::Path { segments, args } => {
            assert(syntax@->Path_args =~= syntax_view(args@));
        },
        TypeSyntax::Tuple(items) => {
            assert(syntax@->Tuple_0 =~= syntax_view(items@));
        },
        TypeSyntax::Array(_) => {},
    }
}

/// The primitive that the name `name` stands for, where it stands for
/// one. A UTF-8 path travels as a string.
pub open spec fn primitive_named(name: Seq<char>) -> Option<PrimitiveType> {
    if name == "i8"@ {
        Some(PrimitiveType::Int(IntWidth::W8))
    } else if name == "i16"@ {
        Some(PrimitiveType::Int(IntWidth::W16))
    } else if name == "i32"@ {
        Some(PrimitiveType::Int(IntWidth::W32))
    } else if name == "i64"@ {
        Some(PrimitiveType::Int(IntWidth::W64))
    } else if name == "i128"@ {
        Some(PrimitiveType::Int(IntWidth::W128))
    } else if name == "u8"@ {
        Some(PrimitiveType::UInt(IntWidth::W8))
    } else if name == "u16"@ {
        Some(PrimitiveType::UInt(IntWidth::W16))
    } else if name == "u32"@ {
        Some(PrimitiveType::UInt(IntWidth::W32))
    } else if name == "u64"@ {
        Some(PrimitiveType::UInt(IntWidth::W64))
    } else if name == "u128"@ {
        Some(PrimitiveType::UInt(IntWidth::W128))
    } else if name == "f32"@ {
        Some(PrimitiveType::Float(FloatWidth::F32))
    } else if name == "f64"@ {
        Some(PrimitiveType::Float(FloatWidth::F64))
    } else if name == "bool"@ {
        Some(PrimitiveType::Bool)
    } else if name == "String"@ || name == "str"@ || name == "Utf8Path"@ || name
        == "Utf8PathBuf"@ {
        Some(PrimitiveType::String)
    } else {
        None
    }
}

/// The segments `segments` with two colons between each two of them.
pub open spec fn joined(segments: Seq<Seq<char>>) -> Seq<char>
    decreases segments.len(),
{
    if segments.len() == 0 {
        Seq::empty()
    } else if segments.len() == 1 {
        segments[0]
    } else {
        joined(segments.drop_last()) + "::"@ + segments.last()
    }
}

/// The shape that the written type `syntax` stands for in the module
/// `module`.
///
/// A single name is held first to the primitives; then to `Option` and
/// `Vec` with one argument, and to `HashMap` and `BTreeMap` with two, of
/// which the second gives the shape of the values; any other name is an
/// identifier in `module`. A path of several segments is the identifier
/// that it spells.
pub open spec fn resolve(syntax: TypeSyntaxView, module: Seq<char>) -> TypeView
    decreases syntax,
{
    match syntax {
        TypeSyntaxView::Path { segments, args } => if segments.len() == 1 {
            let name = segments[0];
            if primitive_named(name) is Some {
                TypeView::Primitive(primitive_named(name)->0)
            } else if name == "Option"@ && args.len() == 1 {
                TypeView::Option(Box::new(resolve(args[0], module)))
            } else if name == "Vec"@ && args.len() == 1 {
                TypeView::Array(Box::new(resolve(args[0], module)))
            } else if (name == "HashMap"@ || name == "BTreeMap"@) && args.len() == 2 {
                TypeView::Mapping(Box::new(resolve(args[1], module)))
            } else {
                TypeView::Id(module + "::"@ + name)
            }
        } else {
            TypeView::Id(joined(segments))
        },
        TypeSyntaxView::Tuple(items) => TypeView::Tuple(
            Seq::new(
                items.len(),
                |i: int|
                    if 0 <= i < items.len() {
                        resolve(items[i], module)
                    } else {
                        TypeView::Tuple(Seq::empty())
                    },
            ),
        ),
        TypeSyntaxView::Array(inner) => TypeView::Array(Box::new(resolve(*inner, module))),
    }
}

/// The primitive that the name `name` stands for, where it stands for one.
pub fn primitive_of(name: &str) -> (found: Option<PrimitiveType>)
    ensures
        found == primitive_named(name@),
{
    if str_eq(name, "i8") {
        Some(PrimitiveType::Int(IntWidth::W8))
    } else if str_eq(name, "i16") {
        Some(PrimitiveType::Int(IntWidth::W16))
    } else if str_eq(name, "i32") {
        Some(PrimitiveType::Int(IntWidth::W32))
    } else if str_eq(name, "i64") {
        Some(PrimitiveType::Int(IntWidth::W64))
    } else if str_eq(name, "i128") {
        Some(PrimitiveType::Int(IntWidth::W128))
    } else if str_eq(name, "u8") {
        Some(PrimitiveType::UInt(IntWidth::W8))
    } else if str_eq(name, "u16") {
        Some(PrimitiveType::UInt(IntWidth::W16))
    } else if str_eq(name, "u32") {
        Some(PrimitiveType::UInt(IntWidth::W32))
    } else if str_eq(name, "u64") {
        Some(PrimitiveType::UInt(IntWidth::W64))
    } else if str_eq(name, "u128") {
        Some(PrimitiveType::UInt(IntWidth::W128))
    } else if str_eq(name, "f32") {
        Some(PrimitiveType::Float(FloatWidth::F32))
    } else if str_eq(name, "f64") {
        Some(PrimitiveType::Float(FloatWidth::F64))
    } else if str_eq(name, "bool") {
        Some(PrimitiveType::Bool)
    } else if str_eq(name, "String") || str_eq(name, "str") || str_eq(name, "Utf8Path")
        || str_eq(name, "Utf8PathBuf") {
        Some(PrimitiveType::String)
    } else {
        None
    }
}

/// The segments `segments` with two colons between each two of them.
fn join(segments: &Vec<String>) -> (path: String)
    ensures
        path@ == joined(segments_view(segments@)),
{
    let ghost names = segments_view(segments@);
    let mut path = String::new();
    let mut i: usize = 0;
    assert(names.subrange(0, 0) =~= Seq::empty());
    while i < segments.len()
        invariant
            i <= segments.len(),
            names == segments_view(segments@),
            path@ == joined(names.subrange(0, i as int)),
        decreases segments.len() - i,
    {
        proof {
            let longer = names.subrange(0, i + 1);
            assert(longer.drop_last() =~= names.subrange(0, i as int));
            assert(longer.last() == segments@[i as int]@);
            if i == 0 {
                assert(path@ + segments@[0]@ =~= segments@[0]@);
            }
        }
        if i > 0 {
            path.append("::");
        }
        path.append(segments[i].as_str());
        i += 1;
    }
    assert(names.subrange(0, segments@.len() as int) =~= names);
    path
}

/// The shape that the written type `syntax` stands for in the module
/// `module`.
pub fn shape_of(syntax: &TypeSyntax, module: &str) -> (shape: Type)
    ensures
        shape@ == resolve(syntax@, module@),
    decreases syntax,
{
    proof {
        lemma_syntax_view(*syntax);
    }
    match syntax {
        TypeSyntax::Path { segments, args } => {
            if segments.len() != 1 {
                return Type::Id(join(segments));
            }
            let name = segments[0].as_str();
            assert(segments_view(segments@)[0] == name@);
            match primitive_of(name) {
                Some(primitive) => Type::Primitive(primitive),
                None => {
                    if str_eq(name, "Option") && args.len() == 1 {
                        assert(decreases_to!(*syntax => syntax->Path_args));
                        Type::Option(Box::new(shape_of(&args[0], module)))
                    } else if str_eq(name, "Vec") && args.len() == 1 {
                        assert(decreases_to!(*syntax => syntax->Path_args));
                        Type::Array(Box::new(shape_of(&args[0], module)))
                    } else if (str_eq(name, "HashMap") || str_eq(name, "BTreeMap")) && args.len()
                        == 2 {
                        assert(decreases_to!(*syntax => syntax->Path_args));
                        Type::Mapping(Box::new(shape_of(&args[1], module)))
                    } else {
                        Type::Id(module.to_owned().concat("::").concat(name))
                    }
                },
            }
        },
        TypeSyntax::Tuple(items) => {
            let mut shapes: Vec<Type> = Vec::new();
            let mut i: usize = 0;
            while i < items.len()
                invariant
                    i <= items.len(),
                    shapes.len() == i,
                    *syntax == TypeSyntax::Tuple(*items),
                    forall|j: int| 0 <= j < i ==> shapes@[j]@ == resolve(items@[j]@, module@),
                decreases items.len() - i,
            {
                assert(decreases_to!(*syntax => syntax->Tuple_0));
                shapes.push(shape_of(&items[i], module));
                i += 1;
            }
            proof {
                lemma_tuple_view(shapes);
                assert(types_view(shapes@) =~= resolve(syntax@, module@)->Tuple_0);
            }
            Type::Tuple(shapes)
        },
        TypeSyntax::Array(inner) => Type::Array(Box::new(shape_of(inner, module))),
    }
}

} // verus!
