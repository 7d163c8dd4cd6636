//! The pipeline's structured errors.
//!
//! Every structural or semantic fault is reported through [`GenError`] before
//! a single output byte exists; each variant carries enough context (path,
//! entry index, symbol name) to act on without re-reading the input.

use vstd::prelude::*;
use crate::doc::Shape;

verus! {

/// A structured generation error.
#[derive(Debug)]
pub enum GenError {
    /// A field is missing or has the wrong shape; `path` names the offending
    /// field, dot-separated from the document root.
    SchemaError { path: String, expected: Shape, actual: Shape },
    /// A `width_info` key is not a decimal number that fits the width type.
    InvalidWidthKey { key: String },
    /// A `width_info` key parses to a number that is not a power of two.
    NonPowerOfTwoWidth { key: String, width: u64 },
    /// Two `width_info` keys denote the same width.
    DuplicateWidth { width: u64 },
    /// An intrinsic entry is malformed; `index` is its position in the
    /// document named by `origin`, and `field` the offending field.
    DefinitionError { origin: String, index: usize, field: String },
    /// Two intrinsic entries in one combined definition set share a name.
    DuplicateIntrinsicName { name: String },
    /// A symbolic type reference resolves against neither table.
    UnknownTypeReference { symbol: String, intrinsic: String },
    /// An applicable width is absent from the platform's width table.
    UnknownWidth { width: u64, intrinsic: String },
    /// Two bindings monomorphized to the same concrete name.
    NameCollision { name: String },
}

/// The mathematical model of a [`GenError`]: the same variants over
/// character sequences.
pub enum ErrModel {
    SchemaError { path: Seq<char>, expected: Shape, actual: Shape },
    InvalidWidthKey { key: Seq<char> },
    NonPowerOfTwoWidth { key: Seq<char>, width: u64 },
    DuplicateWidth { width: u64 },
    DefinitionError { origin: Seq<char>, index: int, field: Seq<char> },
    DuplicateIntrinsicName { name: Seq<char> },
    UnknownTypeReference { symbol: Seq<char>, intrinsic: Seq<char> },
    UnknownWidth { width: u64, intrinsic: Seq<char> },
    NameCollision { name: Seq<char> },
}

impl DeepView for GenError {
    type V = ErrModel;

    open spec fn deep_view(&self) -> ErrModel {
        match self {
            GenError::SchemaError { path, expected, actual } => ErrModel::SchemaError {
                path: path@,
                expected: *expected,
                actual: *actual,
            },
            GenError::InvalidWidthKey { key } => ErrModel::InvalidWidthKey { key: key@ },
            GenError::NonPowerOfTwoWidth { key, width } => ErrModel::NonPowerOfTwoWidth {
                key: key@,
                width: *width,
            },
            GenError::DuplicateWidth { width } => ErrModel::DuplicateWidth { width: *width },
            GenError::DefinitionError { origin, index, field } => ErrModel::DefinitionError {
                origin: origin@,
                index: *index as int,
                field: field@,
            },
            GenError::DuplicateIntrinsicName { name } => ErrModel::DuplicateIntrinsicName {
                name: name@,
            },
            GenError::UnknownTypeReference { symbol, intrinsic } => ErrModel::UnknownTypeReference {
                symbol: symbol@,
                intrinsic: intrinsic@,
            },
            GenError::UnknownWidth { width, intrinsic } => ErrModel::UnknownWidth {
                width: *width,
                intrinsic: intrinsic@,
            },
            GenError::NameCollision { name } => ErrModel::NameCollision { name: name@ },
        }
    }
}

} // verus!
