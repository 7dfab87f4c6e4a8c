//! Values and the value-like entities that annotate the graph.
use vstd::prelude::*;

use super::block::BlockRef;
use super::operation::OperationRef;
use crate::context::Context;
use crate::print::{value_type_string, value_type_text};

verus! {

/// A type, identified by its textual form (`i64`, `index`, `memref<?xf32>`).
#[derive(Clone, Debug, PartialEq, Eq, Hash)]
pub struct Type {
    pub(crate) text: String,
}

impl Type {
    /// The type whose textual form is `text`.
    pub fn new(text: &str) -> (r: Type)
        ensures
            r.text() == text@,
    {
        Type { text: text.to_owned() }
    }

    /// The textual form of the type.
    pub open(crate) spec fn text(&self) -> Seq<char> {
        self.text@
    }

    /// The textual form of the type.
    pub fn as_str(&self) -> (r: &str)
        ensures
            r@ == self.text(),
    {
        self.text.as_str()
    }
}

/// An attribute value, identified by its textual form (`0 : index`, `"add"`).
#[derive(Clone, Debug, PartialEq, Eq, Hash)]
pub struct Attribute {
    pub(crate) text: String,
}

impl Attribute {
    /// The attribute whose textual form is `text`.
    pub fn new(text: &str) -> (r: Attribute)
        ensures
            r.text() == text@,
    {
        Attribute { text: text.to_owned() }
    }

    /// The textual form of the attribute.
    pub open(crate) spec fn text(&self) -> Seq<char> {
        self.text@
    }

    /// The textual form of the attribute.
    pub fn as_str(&self) -> (r: &str)
        ensures
            r@ == self.text(),
    {
        self.text.as_str()
    }
}

/// A name: of an operation, or of an attribute of an operation.
#[derive(Clone, Debug, PartialEq, Eq, Hash)]
pub struct Identifier {
    pub(crate) text: String,
}

impl Identifier {
    /// The identifier `text`.
    pub fn new(text: &str) -> (r: Identifier)
        ensures
            r.text() == text@,
    {
        Identifier { text: text.to_owned() }
    }

    /// The characters of the identifier.
    pub open(crate) spec fn text(&self) -> Seq<char> {
        self.text@
    }

    /// The characters of the identifier.
    pub fn as_str(&self) -> (r: &str)
        ensures
            r@ == self.text(),
    {
        self.text.as_str()
    }
}

/// A source location.
#[derive(Clone, Debug, PartialEq, Eq, Hash)]
pub enum Location {
    /// A location that is not known.
    Unknown,
    /// A position in a named source file.
    FileLineColumn { file: String, line: usize, column: usize },
}

impl Location {
    /// The unknown location.
    pub fn unknown() -> (r: Location)
        ensures
            r is Unknown,
    {
        Location::Unknown
    }
}

/// A value: a block argument or an operation result. Its identity is its
/// position, never a name.
#[derive(Clone, Copy, Debug, PartialEq, Eq, Hash, Structural)]
pub enum Value {
    /// The argument at `position` of `block`.
    Argument { block: BlockRef, position: usize },
    /// The result at `position` of `operation`.
    Result { operation: OperationRef, position: usize },
}

impl Value {
    /// The type of the value; a placeholder type where the value names no
    /// argument or result of the graph.
    pub fn value_type(self, ctx: &Context) -> (r: Type)
        ensures
            r.text() == value_type_text(ctx@, self),
    {
        Type { text: value_type_string(ctx, self) }
    }
}

} // verus!
