//! The ways in which building an API description fails. Every failure is
//! final: nothing is built in part.

use vstd::prelude::*;

verus! {

/// A wire encoding or a shape that the reflection engine does not describe.
#[derive(Clone, Copy, Debug, PartialEq, Eq)]
pub enum Unsupported {
    /// An enum whose variant name wraps the payload.
    ExternalTag,
    /// An enum with one field for the variant name and one for the payload.
    AdjacentTag,
    /// An enum that carries no variant name at all.
    Untagged,
    /// An enum variant with several unnamed fields.
    TupleVariant,
    /// A struct with several unnamed fields.
    TupleStruct,
    /// A struct with one unnamed field.
    NewtypeStruct,
    /// A struct without fields.
    UnitStruct,
}

/// Which piece of a route's metadata is malformed.
#[derive(Clone, Copy, Debug, PartialEq, Eq)]
pub enum Metadata {
    /// The route's path is not a string literal.
    Path,
    /// A documentation annotation whose value is not a string literal.
    Doc,
    /// A response status that is not a decimal number of at most 16 bits.
    StatusLiteral,
    /// A response status outside 100..=999.
    StatusRange,
    /// A path annotation with an argument that is not a model.
    PathModel,
    /// A request annotation whose model is missing or is no model.
    RequestModel,
    /// A response description that is not a string literal.
    Description,
    /// A response model that is not a model.
    ResponseModel,
}

/// Why an API description could not be built.
#[derive(Debug, PartialEq, Eq)]
pub enum SpecError {
    /// The type `type_ident`, or its variant `variant`, uses an encoding or
    /// a shape that is not described.
    UnsupportedEncoding { type_ident: String, variant: Option<String>, what: Unsupported },
    /// The route `route` declares `declared` parameters in its path
    /// `path`, and its path-parameter type provides `provided`.
    ConfigurationMismatch { route: String, path: String, declared: usize, provided: usize },
    /// The piece `piece` of the metadata of the route `route` is malformed.
    MalformedMetadata { route: String, piece: Metadata },
}

/// Model of a `SpecError`.
pub enum SpecErrorView {
    UnsupportedEncoding { type_ident: Seq<char>, variant: Option<Seq<char>>, what: Unsupported },
    ConfigurationMismatch { route: Seq<char>, path: Seq<char>, declared: nat, provided: nat },
    MalformedMetadata { route: Seq<char>, piece: Metadata },
}

impl View for SpecError {
    type V = SpecErrorView;

    open spec fn view(&self) -> SpecErrorView {
        match self {
            SpecError::UnsupportedEncoding { type_ident, variant, what } => {
                SpecErrorView::UnsupportedEncoding {
                    type_ident: type_ident@,
                    variant: match variant {
                        Some(v) => Some(v@),
                        None => None,
                    },
                    what: *what,
                }
            },
            SpecError::ConfigurationMismatch { route, path, declared, provided } => {
                SpecErrorView::ConfigurationMismatch {
                    route: route@,
                    path: path@,
                    declared: *declared as nat,
                    provided: *provided as nat,
                }
            },
            SpecError::MalformedMetadata { route, piece } => SpecErrorView::MalformedMetadata {
                route: route@,
                piece: *piece,
            },
        }
    }
}

} // verus!
