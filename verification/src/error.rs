//! The ways in which an expansion refuses its input.
use vstd::prelude::*;
use crate::attr::OrmcleError;

verus! {

/// Why a derive input cannot be expanded. Each variant stands for one place
/// at which the expansion stops with a panic.
#[derive(Clone, Copy, Debug, PartialEq, Eq, Structural)]
pub enum MacroError {
    /// The input breaks a shape that the expansion takes for granted
    /// (such as `#` followed by something other than a group).
    Unreachable,
    /// An attribute entry was refused.
    Entry(OrmcleError),
    /// No `struct` keyword was found in the input.
    NoEntity,
    /// `struct` is not followed by a name.
    ExpectedStructName,
    /// The input has no `struct` keyword.
    ExpectedStructDefinition,
    /// No brace group with the fields follows the struct name.
    ExpectedFieldsDefinition,
    /// A field name is not followed by `:` and a type name.
    ExpectedFieldType,
    /// The brace group declares no field.
    ExpectedFields,
    /// More than one field is flagged as the primary key.
    DuplicateId,
}

} // verus!
