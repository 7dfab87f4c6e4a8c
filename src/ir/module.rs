//! Modules.
use vstd::prelude::*;

use crate::context::{BlockNode, Context, OperationNode, RegionNode};
use crate::ir::block::{Block, BlockRef};
use crate::ir::builder::Builder;
use crate::ir::operation::{Operation, OperationRef};
use crate::ir::region::Region;
use crate::ir::value::{Location, Type};

verus! {

/// A top-level `builtin.module` operation, whose one region holds one block:
/// the body that programs are built into.
pub struct Module {
    operation: Operation,
    body: BlockRef,
}

impl Module {
    /// The module operation and its body block.
    pub closed spec fn view(&self) -> (OperationRef, BlockRef) {
        (self.operation@, self.body)
    }

    /// A new, empty module that no block holds.
    pub fn new(ctx: &mut Context, location: Location) -> (r: Module)
        requires
            old(ctx).wf(),
        ensures
            final(ctx).wf(),
            !old(ctx)@.operations.contains_key(r@.0),
            !old(ctx)@.blocks.contains_key(r@.1),
            final(ctx)@.operations.dom() == old(ctx)@.operations.dom().insert(r@.0),
            final(ctx)@.operations[r@.0].name == "builtin.module"@,
            final(ctx)@.operations[r@.0].operands.len() == 0,
            final(ctx)@.operations[r@.0].results.len() == 0,
            final(ctx)@.operations[r@.0].attributes.len() == 0,
            final(ctx)@.operations[r@.0].block is None,
            final(ctx)@.operations[r@.0].regions.len() == 1,
            final(ctx)@.blocks[r@.1] == (BlockNode {
                arguments: Seq::empty(),
                operations: Seq::empty(),
                region: Some(final(ctx)@.operations[r@.0].regions[0]),
            }),
            final(ctx)@.regions[final(ctx)@.operations[r@.0].regions[0]] == (RegionNode {
                blocks: seq![r@.1],
                operation: Some(r@.0),
            }),
            final(ctx)@.parent_operation(r@.1) == Some(r@.0),
    {
        let region = Region::new(ctx);
        let no_arguments: Vec<(Type, Location)> = Vec::new();
        let block = Block::new(ctx, no_arguments.as_slice());
        proof {
            assert(ctx@.blocks[block@].arguments =~= Seq::<Seq<char>>::empty());
        }
        let rh = region.reference();
        let body = rh.append_block(ctx, block);
        proof {
            assert(ctx@.regions[rh].blocks =~= seq![body]);
        }
        let mut regions: Vec<Region> = Vec::new();
        regions.push(region);
        let builder = Builder::new("builtin.module", location).add_regions(regions);
        let ghost node = builder.node();
        proof {
            assert(node.regions[0] == rh);
            assert(node.regions.no_duplicates());
        }
        let operation = builder.build(ctx);
        proof {
            let g = ctx@;
            assert(node.regions.contains(rh));
            assert(g.operations.dom() =~= old(ctx)@.operations.dom().insert(operation@));
        }
        Module { operation, body }
    }

    /// The body block.
    pub fn body(&self) -> (r: BlockRef)
        ensures
            r == self@.1,
    {
        self.body
    }

    /// The module operation.
    pub fn as_operation(&self) -> (r: OperationRef)
        ensures
            r == self@.0,
    {
        self.operation.reference()
    }
}

} // verus!
