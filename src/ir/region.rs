//! Regions.
use vstd::prelude::*;

use crate::context::{first_of, BlockNode, Context, RegionNode};
use crate::ir::block::{Block, BlockRef};

verus! {

/// A reference to a region of a context.
#[derive(Clone, Copy, Debug, PartialEq, Eq, Hash, Structural)]
pub struct RegionRef {
    pub(crate) index: usize,
}

/// A region that no operation holds: its owner is this value.
#[derive(Debug, PartialEq, Eq, Structural)]
pub struct Region {
    pub(crate) handle: RegionRef,
}

impl Region {
    /// The region that this value owns.
    pub open(crate) spec fn view(&self) -> RegionRef {
        self.handle
    }

    /// A new region that no operation holds, with no blocks.
    pub fn new(ctx: &mut Context) -> (r: Region)
        requires
            old(ctx).wf(),
        ensures
            final(ctx).wf(),
            !old(ctx)@.regions.contains_key(r@),
            final(ctx)@ == old(ctx)@.add_region(r@),
    {
        Region { handle: ctx.create_region() }
    }

    /// A reference to the region.
    pub fn reference(&self) -> (r: RegionRef)
        ensures
            r == self@,
    {
        self.handle
    }
}

impl RegionRef {
    /// Moves `block` into the region, after its last block.
    pub fn append_block(self, ctx: &mut Context, block: Block) -> (r: BlockRef)
        requires
            old(ctx).wf(),
            old(ctx)@.regions.contains_key(self),
            old(ctx)@.blocks.contains_key(block@),
            old(ctx)@.blocks[block@].region is None,
        ensures
            final(ctx).wf(),
            r == block@,
            final(ctx)@ == old(ctx)@.insert_block(
                self,
                old(ctx)@.regions[self].blocks.len() as int,
                r,
            ),
    {
        let b = block.handle;
        let k = ctx.regions[self.index].blocks.len();
        proof {
            let s = ctx@.regions[self].blocks;
            assert(s.insert(k as int, b) =~= s.push(b));
        }
        ctx.attach_block(self, b, k);
        b
    }

    /// The first block of the region, if it has one.
    pub fn first_block(self, ctx: &Context) -> (r: Option<BlockRef>)
        requires
            ctx@.regions.contains_key(self),
        ensures
            r == first_of(ctx@.regions[self].blocks),
    {
        let blocks = &ctx.regions[self.index].blocks;
        if blocks.len() > 0 {
            Some(blocks[0])
        } else {
            None
        }
    }

    /// The operation that holds the region, if one does.
    pub fn parent_operation(self, ctx: &Context) -> (r: Option<crate::ir::operation::OperationRef>)
        requires
            ctx@.regions.contains_key(self),
        ensures
            r == ctx@.regions[self].operation,
    {
        ctx.regions[self.index].operation
    }
}

} // verus!
