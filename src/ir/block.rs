//! Blocks.
use vstd::prelude::*;

use crate::context::{
    first_of, lemma_index_of_unique, BlockData, BlockNode, Context, OperationNode, RegionNode,
};
use crate::ir::operation::{Operation, OperationRef};
use crate::ir::region::RegionRef;
use crate::dialect::is_terminator;
use crate::error::Error;
use crate::ir::value::{Location, Type, Value};
use crate::print::{block_text, print_depth};

verus! {

/// A reference to a block of a context.
#[derive(Clone, Copy, Debug, PartialEq, Eq, Hash, Structural)]
pub struct BlockRef {
    pub(crate) index: usize,
}

/// A block that no region holds: its owner is this value.
#[derive(Debug, PartialEq, Eq, Structural)]
pub struct Block {
    pub(crate) handle: BlockRef,
}

/// The position of `x` in `v`, which holds it.
pub(crate) fn position_of_operation(v: &Vec<OperationRef>, x: OperationRef) -> (r: usize)
    requires
        v@.contains(x),
    ensures
        r < v@.len(),
        v@[r as int] == x,
{
    let mut i: usize = 0;
    while i < v.len()
        invariant
            i <= v@.len(),
            forall|j: int| 0 <= j < i ==> v@[j] != x,
            v@.contains(x),
        decreases v@.len() - i,
    {
        if v[i] == x {
            return i;
        }
        i += 1;
    }
    i
}

/// The position of `x` in `v`, which holds it.
pub(crate) fn position_of_block(v: &Vec<BlockRef>, x: BlockRef) -> (r: usize)
    requires
        v@.contains(x),
    ensures
        r < v@.len(),
        v@[r as int] == x,
{
    let mut i: usize = 0;
    while i < v.len()
        invariant
            i <= v@.len(),
            forall|j: int| 0 <= j < i ==> v@[j] != x,
            v@.contains(x),
        decreases v@.len() - i,
    {
        if v[i] == x {
            return i;
        }
        i += 1;
    }
    i
}

impl Block {
    /// The block that this value owns.
    pub open(crate) spec fn view(&self) -> BlockRef {
        self.handle
    }

    /// A new block that no region holds, with one argument for each pair of
    /// a type and a location, in order, and no operations.
    pub fn new(ctx: &mut Context, arguments: &[(Type, Location)]) -> (r: Block)
        requires
            old(ctx).wf(),
        ensures
            final(ctx).wf(),
            !old(ctx)@.blocks.contains_key(r@),
            final(ctx)@ == old(ctx)@.add_block(
                r@,
                BlockNode {
                    arguments: arguments@.map_values(|a: (Type, Location)| a.0.text()),
                    operations: Seq::empty(),
                    region: None,
                },
            ),
    {
        let mut types: Vec<Type> = Vec::new();
        let mut locations: Vec<Location> = Vec::new();
        let mut i: usize = 0;
        while i < arguments.len()
            invariant
                i <= arguments@.len(),
                types@.len() == i,
                forall|j: int| 0 <= j < i ==> types@[j].text() == arguments@[j].0.text(),
            decreases arguments@.len() - i,
        {
            types.push(Type { text: arguments[i].0.text.clone() });
            locations.push(arguments[i].1.clone());
            i += 1;
        }
        let ghost g0 = ctx@;
        let handle = BlockRef { index: ctx.blocks.len() };
        ctx.blocks.push(BlockData { arguments: types, locations, operations: Vec::new(), region: None });
        let ghost node = BlockNode {
            arguments: arguments@.map_values(|a: (Type, Location)| a.0.text()),
            operations: Seq::empty(),
            region: None,
        };
        assert(ctx.blocks@[handle.index as int].node().arguments =~= node.arguments);
        assert(ctx.blocks@[handle.index as int].node().operations =~= node.operations);
        assert(ctx@.blocks =~= g0.blocks.insert(handle, node));
        assert(ctx@.operations =~= g0.operations);
        assert(ctx@.regions =~= g0.regions);
        Block { handle }
    }

    /// A reference to the block.
    pub fn reference(&self) -> (r: BlockRef)
        ensures
            r == self@,
    {
        self.handle
    }
}

impl BlockRef {
    /// The argument at `position`; an error, carrying the block's textual
    /// form and the position, when the block has no argument there.
    pub fn argument(self, ctx: &Context, position: usize) -> (r: Result<Value, Error>)
        requires
            ctx.wf(),
            ctx@.blocks.contains_key(self),
        ensures
            position < ctx@.blocks[self].arguments.len() ==> r == Ok::<Value, Error>(
                Value::Argument { block: self, position },
            ),
            position >= ctx@.blocks[self].arguments.len() ==> (r matches Err(
                Error::BlockArgumentPosition(text, p),
            ) && text@ == block_text(ctx@, self, print_depth(ctx)) && p == position),
    {
        if position < ctx.blocks[self.index].arguments.len() {
            Ok(Value::Argument { block: self, position })
        } else {
            Err(Error::BlockArgumentPosition(self.to_string(ctx), position))
        }
    }

    /// The last operation of the block, when its name is that of a
    /// terminator.
    pub fn terminator(self, ctx: &Context) -> (r: Option<OperationRef>)
        requires
            ctx.wf(),
            ctx@.blocks.contains_key(self),
        ensures
            r == ctx@.terminator(self),
    {
        let operations = &ctx.blocks[self.index].operations;
        if operations.len() == 0 {
            return None;
        }
        let last = operations[operations.len() - 1];
        proof {
            assert(ctx@.operations.contains_key(ctx@.blocks[self].operations[operations.len() - 1]));
        }
        if is_terminator(&ctx.operations[last.index].name) {
            Some(last)
        } else {
            None
        }
    }

    /// Adds an argument of type `ty` at the end of the block's arguments and
    /// returns it.
    pub fn add_argument(self, ctx: &mut Context, ty: Type, location: Location) -> (r: Value)
        requires
            old(ctx).wf(),
            old(ctx)@.blocks.contains_key(self),
        ensures
            final(ctx).wf(),
            r == (Value::Argument { block: self, position: old(ctx)@.blocks[self].arguments.len() as usize }),
            final(ctx)@ == old(ctx)@.push_argument(self, ty.text()),
    {
        let ghost g0 = ctx@;
        let ghost text = ty.text();
        let position = ctx.blocks[self.index].arguments.len();
        ctx.blocks[self.index].arguments.push(ty);
        ctx.blocks[self.index].locations.push(location);
        proof {
            let node = BlockNode { arguments: g0.blocks[self].arguments.push(text), ..g0.blocks[self] };
            assert(ctx.blocks@[self.index as int].node().arguments =~= node.arguments);
            assert(ctx@.blocks =~= g0.push_argument(self, text).blocks);
            assert(ctx@.operations =~= g0.operations);
            assert(ctx@.regions =~= g0.regions);
        }
        Value::Argument { block: self, position }
    }

    /// Moves `operation` into the block, after its last operation.
    pub fn append_operation(self, ctx: &mut Context, operation: Operation) -> (r: OperationRef)
        requires
            old(ctx).wf(),
            old(ctx)@.blocks.contains_key(self),
            old(ctx)@.operations.contains_key(operation@),
            old(ctx)@.operations[operation@].block is None,
        ensures
            final(ctx).wf(),
            r == operation@,
            final(ctx)@ == old(ctx)@.insert_operation(
                self,
                old(ctx)@.blocks[self].operations.len() as int,
                r,
            ),
    {
        let o = operation.handle;
        let k = ctx.blocks[self.index].operations.len();
        proof {
            let s = ctx@.blocks[self].operations;
            assert(s.insert(k as int, o) =~= s.push(o));
        }
        ctx.attach_operation(self, o, k);
        o
    }

    /// Moves `operation` into the block at `position`, before the operation
    /// that stood there.
    pub fn insert_operation(self, ctx: &mut Context, position: usize, operation: Operation) -> (r: OperationRef)
        requires
            old(ctx).wf(),
            old(ctx)@.blocks.contains_key(self),
            old(ctx)@.operations.contains_key(operation@),
            old(ctx)@.operations[operation@].block is None,
            position <= old(ctx)@.blocks[self].operations.len(),
        ensures
            final(ctx).wf(),
            r == operation@,
            final(ctx)@ == old(ctx)@.insert_operation(self, position as int, r),
    {
        let o = operation.handle;
        ctx.attach_operation(self, o, position);
        o
    }

    /// Moves `other` into the block, right after `one`, which the block holds.
    pub fn insert_operation_after(self, ctx: &mut Context, one: OperationRef, other: Operation) -> (r: OperationRef)
        requires
            old(ctx).wf(),
            old(ctx)@.blocks.contains_key(self),
            old(ctx)@.operations.contains_key(one),
            old(ctx)@.operations[one].block == Some(self),
            old(ctx)@.operations.contains_key(other@),
            old(ctx)@.operations[other@].block is None,
        ensures
            final(ctx).wf(),
            r == other@,
            final(ctx)@ == old(ctx)@.insert_operation(
                self,
                old(ctx)@.blocks[self].operations.index_of(one) + 1,
                r,
            ),
    {
        let o = other.handle;
        proof {
            assert(ctx@.operations[one].block is Some);
        }
        let k = position_of_operation(&ctx.blocks[self.index].operations, one);
        proof {
            lemma_index_of_unique(ctx@.blocks[self].operations, k as int);
        }
        let n = ctx.blocks[self.index].operations.len();
        proof {
            assert(k < n);
        }
        ctx.attach_operation(self, o, k + 1);
        o
    }

    /// Moves `other` into the block, right before `one`, which the block
    /// holds.
    pub fn insert_operation_before(self, ctx: &mut Context, one: OperationRef, other: Operation) -> (r: OperationRef)
        requires
            old(ctx).wf(),
            old(ctx)@.blocks.contains_key(self),
            old(ctx)@.operations.contains_key(one),
            old(ctx)@.operations[one].block == Some(self),
            old(ctx)@.operations.contains_key(other@),
            old(ctx)@.operations[other@].block is None,
        ensures
            final(ctx).wf(),
            r == other@,
            final(ctx)@ == old(ctx)@.insert_operation(
                self,
                old(ctx)@.blocks[self].operations.index_of(one),
                r,
            ),
    {
        let o = other.handle;
        proof {
            assert(ctx@.operations[one].block is Some);
        }
        let k = position_of_operation(&ctx.blocks[self.index].operations, one);
        proof {
            lemma_index_of_unique(ctx@.blocks[self].operations, k as int);
        }
        ctx.attach_operation(self, o, k);
        o
    }

    /// Takes the block out of the region that holds it and hands back its
    /// ownership; `None`, with nothing changed, when no region holds it.
    /// References to the block and to its operations stay valid.
    pub fn detach(self, ctx: &mut Context) -> (r: Option<Block>)
        requires
            old(ctx).wf(),
            old(ctx)@.blocks.contains_key(self),
        ensures
            final(ctx).wf(),
            match old(ctx)@.blocks[self].region {
                None => r is None && final(ctx)@ == old(ctx)@,
                Some(region) => {
                    &&& r matches Some(block) && block@ == self
                    &&& final(ctx)@ == old(ctx)@.remove_block(
                        region,
                        old(ctx)@.regions[region].blocks.index_of(self),
                    )
                },
            },
    {
        match ctx.blocks[self.index].region {
            Some(region) => {
                proof {
                    assert(ctx@.blocks[self].region == Some(region));
                }
                let k = position_of_block(&ctx.regions[region.index].blocks, self);
                proof {
                    lemma_index_of_unique(ctx@.regions[region].blocks, k as int);
                }
                ctx.detach_block(region, k);
                Some(Block { handle: self })
            },
            None => None,
        }
    }
    /// The number of arguments of the block.
    pub fn argument_count(self, ctx: &Context) -> (r: usize)
        requires
            ctx@.blocks.contains_key(self),
        ensures
            r == ctx@.blocks[self].arguments.len(),
    {
        ctx.blocks[self.index].arguments.len()
    }

    /// The first operation of the block, if it has one.
    pub fn first_operation(self, ctx: &Context) -> (r: Option<OperationRef>)
        requires
            ctx@.blocks.contains_key(self),
        ensures
            r == first_of(ctx@.blocks[self].operations),
    {
        let operations = &ctx.blocks[self.index].operations;
        if operations.len() > 0 {
            Some(operations[0])
        } else {
            None
        }
    }

    /// The region that holds the block, if one does.
    pub fn parent_region(self, ctx: &Context) -> (r: Option<RegionRef>)
        requires
            ctx@.blocks.contains_key(self),
        ensures
            r == ctx@.blocks[self].region,
    {
        ctx.blocks[self.index].region
    }

    /// The operation that holds the region that holds the block, if any.
    pub fn parent_operation(self, ctx: &Context) -> (r: Option<OperationRef>)
        requires
            ctx.wf(),
            ctx@.blocks.contains_key(self),
        ensures
            r == ctx@.parent_operation(self),
    {
        match ctx.blocks[self.index].region {
            Some(region) => ctx.regions[region.index].operation,
            None => None,
        }
    }

    /// The block after this one in its region, if any.
    pub fn next_in_region(self, ctx: &Context) -> (r: Option<BlockRef>)
        requires
            ctx.wf(),
            ctx@.blocks.contains_key(self),
        ensures
            r == ctx@.next_in_region(self),
    {
        match ctx.blocks[self.index].region {
            Some(region) => {
                let blocks = &ctx.regions[region.index].blocks;
                let mut i: usize = 0;
                proof {
                    assert(ctx@.blocks[self].region == Some(region));
                }
                while i < blocks.len()
                    invariant
                        i <= blocks@.len(),
                        forall|j: int| 0 <= j < i ==> blocks@[j] != self,
                        blocks@.contains(self),
                        blocks@.no_duplicates(),
                        ctx@.blocks[self].region == Some(region),
                        ctx@.regions[region].blocks == blocks@,
                    decreases blocks@.len() - i,
                {
                    if blocks[i] == self {
                        proof {
                            lemma_index_of_unique(blocks@, i as int);
                        }
                        if i + 1 < blocks.len() {
                            return Some(blocks[i + 1]);
                        } else {
                            return None;
                        }
                    }
                    i += 1;
                }
                None
            },
            None => None,
        }
    }
}

} // verus!
