//! Operations.
use vstd::prelude::*;

use crate::context::Context;
use crate::ir::block::{position_of_operation, BlockRef};
use crate::ir::region::RegionRef;
use crate::error::Error;
use crate::ir::value::{Identifier, Value};
use crate::print::{operation_text, print_depth};
use crate::context::lemma_index_of_unique;

pub use crate::ir::builder::Builder;

verus! {

/// A reference to an operation of a context.
#[derive(Clone, Copy, Debug, PartialEq, Eq, Hash, Structural)]
pub struct OperationRef {
    pub(crate) index: usize,
}

/// An operation that no block holds: its owner is this value.
#[derive(Debug, PartialEq, Eq, Structural)]
pub struct Operation {
    pub(crate) handle: OperationRef,
}

impl OperationRef {
    /// The result at `position`; an error, carrying the operation's textual
    /// form and the position, when the operation has no result there.
    pub fn result(self, ctx: &Context, position: usize) -> (r: Result<Value, Error>)
        requires
            ctx.wf(),
            ctx@.operations.contains_key(self),
        ensures
            position < ctx@.operations[self].results.len() ==> r == Ok::<Value, Error>(
                Value::Result { operation: self, position },
            ),
            position >= ctx@.operations[self].results.len() ==> (r matches Err(
                Error::OperationResultPosition(text, p),
            ) && text@ == operation_text(ctx@, self, print_depth(ctx)) && p == position),
    {
        if position < ctx.operations[self.index].results.len() {
            Ok(Value::Result { operation: self, position })
        } else {
            Err(Error::OperationResultPosition(self.to_string(ctx), position))
        }
    }

    /// The name of the operation.
    pub fn name(self, ctx: &Context) -> (r: Identifier)
        requires
            ctx@.operations.contains_key(self),
        ensures
            r.text() == ctx@.operations[self].name,
    {
        Identifier { text: ctx.operations[self.index].name.clone() }
    }

    /// The block that holds the operation, if one does.
    pub fn block(self, ctx: &Context) -> (r: Option<BlockRef>)
        requires
            ctx@.operations.contains_key(self),
        ensures
            r == ctx@.operations[self].block,
    {
        ctx.operations[self.index].block
    }

    /// The number of results of the operation.
    pub fn result_count(self, ctx: &Context) -> (r: usize)
        requires
            ctx@.operations.contains_key(self),
        ensures
            r == ctx@.operations[self].results.len(),
    {
        ctx.operations[self.index].results.len()
    }

    /// The number of operands of the operation.
    pub fn operand_count(self, ctx: &Context) -> (r: usize)
        requires
            ctx@.operations.contains_key(self),
        ensures
            r == ctx@.operations[self].operands.len(),
    {
        ctx.operations[self.index].operands.len()
    }

    /// The operand at `index`; `None` past the last one.
    pub fn operand(self, ctx: &Context, index: usize) -> (r: Option<Value>)
        requires
            ctx@.operations.contains_key(self),
        ensures
            index < ctx@.operations[self].operands.len() ==> r == Some(ctx@.operations[self].operands[index as int]),
            index >= ctx@.operations[self].operands.len() ==> r is None,
    {
        let operands = &ctx.operations[self.index].operands;
        if index < operands.len() {
            Some(operands[index])
        } else {
            None
        }
    }

    /// The number of regions of the operation.
    pub fn region_count(self, ctx: &Context) -> (r: usize)
        requires
            ctx@.operations.contains_key(self),
        ensures
            r == ctx@.operations[self].regions.len(),
    {
        ctx.operations[self.index].regions.len()
    }

    /// The region at `index`; `None` past the last one.
    pub fn region(self, ctx: &Context, index: usize) -> (r: Option<RegionRef>)
        requires
            ctx@.operations.contains_key(self),
        ensures
            index < ctx@.operations[self].regions.len() ==> r == Some(ctx@.operations[self].regions[index as int]),
            index >= ctx@.operations[self].regions.len() ==> r is None,
    {
        let regions = &ctx.operations[self.index].regions;
        if index < regions.len() {
            Some(regions[index])
        } else {
            None
        }
    }

    /// The operation after this one in its block, if any.
    pub fn next_in_block(self, ctx: &Context) -> (r: Option<OperationRef>)
        requires
            ctx.wf(),
            ctx@.operations.contains_key(self),
        ensures
            r == ctx@.next_in_block(self),
    {
        match ctx.operations[self.index].block {
            Some(block) => {
                proof {
                    assert(ctx@.operations[self].block == Some(block));
                }
                let operations = &ctx.blocks[block.index].operations;
                let k = position_of_operation(operations, self);
                proof {
                    lemma_index_of_unique(ctx@.blocks[block].operations, k as int);
                }
                if k < operations.len() - 1 {
                    Some(operations[k + 1])
                } else {
                    None
                }
            },
            None => None,
        }
    }
}

impl Operation {
    /// The operation that this value owns.
    pub open(crate) spec fn view(&self) -> OperationRef {
        self.handle
    }

    /// A reference to the operation.
    pub fn reference(&self) -> (r: OperationRef)
        ensures
            r == self@,
    {
        self.handle
    }
}

} // verus!
