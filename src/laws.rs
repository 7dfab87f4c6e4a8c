//! Laws of the graph operations, over the transitions that the methods'
//! contracts name.
use vstd::prelude::*;

use crate::context::{
    first_of, lemma_attach_block, lemma_attach_operation, lemma_detach_block,
    lemma_index_of_unique, BlockNode, Graph, OperationNode,
};
use crate::ir::block::BlockRef;
use crate::ir::operation::OperationRef;
use crate::ir::region::RegionRef;

verus! {

/// A block made with `n` argument types has exactly those `n` arguments, so
/// `argument(i)` succeeds for every `i < n` and fails for every `i >= n`.
pub proof fn law_new_block_arguments(g: Graph, b: BlockRef, types: Seq<Seq<char>>)
    ensures
        g.add_block(b, BlockNode { arguments: types, operations: Seq::empty(), region: None }).blocks[b].arguments
            == types,
        g.add_block(b, BlockNode { arguments: types, operations: Seq::empty(), region: None }).blocks[b].arguments.len()
            == types.len(),
{
}

/// A new block has no parent region and no parent operation; a new
/// operation has no parent block.
pub proof fn law_new_objects_unattached(
    g: Graph,
    b: BlockRef,
    types: Seq<Seq<char>>,
    o: OperationRef,
    node: OperationNode,
)
    requires
        node.block is None,
    ensures
        g.add_block(b, BlockNode { arguments: types, operations: Seq::empty(), region: None }).blocks[b].region is None,
        g.add_block(b, BlockNode { arguments: types, operations: Seq::empty(), region: None }).parent_operation(b) is None,
        g.add_operation(o, node).operations[o].block is None,
{
}

/// Appending an operation to an empty block makes it the block's first
/// operation, and the block becomes the operation's parent.
pub proof fn law_append_to_empty_block(g: Graph, b: BlockRef, o: OperationRef)
    requires
        g.wf(),
        g.blocks.contains_key(b),
        g.blocks[b].operations.len() == 0,
        g.operations.contains_key(o),
        g.operations[o].block is None,
    ensures
        first_of(g.insert_operation(b, 0, o).blocks[b].operations) == Some(o),
        g.insert_operation(b, 0, o).operations[o].block == Some(b),
{
    assert(g.insert_operation(b, 0, o).blocks[b].operations =~= seq![o]);
}

/// Inserting `o` after `a` makes `o` the operation that follows `a`.
pub proof fn law_insert_after(g: Graph, b: BlockRef, a: OperationRef, o: OperationRef)
    requires
        g.wf(),
        g.blocks.contains_key(b),
        g.operations.contains_key(a),
        g.operations[a].block == Some(b),
        g.operations.contains_key(o),
        g.operations[o].block is None,
    ensures
        g.insert_operation(b, g.blocks[b].operations.index_of(a) + 1, o).next_in_block(a) == Some(o),
{
    let s0 = g.blocks[b].operations;
    assert(s0.contains(a));
    let i = choose|i: int| 0 <= i < s0.len() && s0[i] == a;
    lemma_index_of_unique(s0, i);
    let g1 = g.insert_operation(b, i + 1, o);
    lemma_attach_operation(g, g1, b, o, i + 1);
    let s1 = g1.blocks[b].operations;
    s0.insert_ensures(i + 1, o);
    assert(s1[i] == a);
    lemma_index_of_unique(s1, i);
}

/// Inserting `o` before `a`, the first operation of its block, makes `o`
/// the first operation and `a` the one that follows it.
pub proof fn law_insert_before_first(g: Graph, b: BlockRef, a: OperationRef, o: OperationRef)
    requires
        g.wf(),
        g.blocks.contains_key(b),
        first_of(g.blocks[b].operations) == Some(a),
        g.operations.contains_key(o),
        g.operations[o].block is None,
    ensures
        first_of(g.insert_operation(b, g.blocks[b].operations.index_of(a), o).blocks[b].operations) == Some(o),
        g.insert_operation(b, g.blocks[b].operations.index_of(a), o).next_in_block(o) == Some(a),
{
    let s0 = g.blocks[b].operations;
    lemma_index_of_unique(s0, 0);
    let g1 = g.insert_operation(b, 0, o);
    lemma_attach_operation(g, g1, b, o, 0);
    let s1 = g1.blocks[b].operations;
    s0.insert_ensures(0, o);
    assert(s1[0] == o);
    assert(s1[1] == a);
    lemma_index_of_unique(s1, 0);
}

/// Appending `b1` and then `b2` to a region makes `b2` the block that
/// follows `b1`.
pub proof fn law_append_blocks_in_order(g: Graph, r: RegionRef, b1: BlockRef, b2: BlockRef)
    requires
        g.wf(),
        g.regions.contains_key(r),
        g.blocks.contains_key(b1),
        g.blocks[b1].region is None,
        g.blocks.contains_key(b2),
        g.blocks[b2].region is None,
        b1 != b2,
    ensures
        ({
            let n = g.regions[r].blocks.len() as int;
            let g1 = g.insert_block(r, n, b1);
            g1.insert_block(r, n + 1, b2).next_in_region(b1) == Some(b2)
        }),
{
    let n = g.regions[r].blocks.len() as int;
    let g1 = g.insert_block(r, n, b1);
    lemma_attach_block(g, g1, r, b1, n);
    let g2 = g1.insert_block(r, n + 1, b2);
    lemma_attach_block(g1, g2, r, b2, n + 1);
    let s0 = g.regions[r].blocks;
    s0.insert_ensures(n, b1);
    let s1 = g1.regions[r].blocks;
    s1.insert_ensures(n + 1, b2);
    let s2 = g2.regions[r].blocks;
    assert(s2[n] == b1);
    assert(s2[n + 1] == b2);
    lemma_index_of_unique(s2, n);
}

/// Detaching a block from its region leaves it with no parent region and
/// no parent operation.
pub proof fn law_detach_unparents(g: Graph, b: BlockRef)
    requires
        g.wf(),
        g.blocks.contains_key(b),
        g.blocks[b].region is Some,
    ensures
        ({
            let r = g.blocks[b].region->0;
            let g1 = g.remove_block(r, g.regions[r].blocks.index_of(b));
            g1.blocks[b].region is None && g1.parent_operation(b) is None
        }),
{
    let r = g.blocks[b].region->0;
    let s = g.regions[r].blocks;
    assert(s.contains(b));
    let i = choose|i: int| 0 <= i < s.len() && s[i] == b;
    lemma_index_of_unique(s, i);
    lemma_detach_block(g, g.remove_block(r, i), r, b, i);
}

/// An object made later never shares a reference with one made before,
/// whatever the two hold, and making it leaves the earlier one as it was.
pub proof fn law_new_reference_distinct(g: Graph, a: OperationRef, o: OperationRef, node: OperationNode)
    requires
        g.operations.contains_key(a),
        !g.operations.contains_key(o),
    ensures
        a != o,
        g.add_operation(o, node).operations[a] == g.operations[a],
{
}

/// An operation that is built and then put into a block reads back the
/// name, operands, result types and attributes it was built with.
pub proof fn law_build_round_trip(g: Graph, o: OperationRef, node: OperationNode, b: BlockRef, k: int)
    requires
        !g.operations.contains_key(o),
        g.blocks.contains_key(b),
    ensures
        ({
            let g2 = g.add_operation(o, node).insert_operation(b, k, o);
            &&& g2.operations[o].name == node.name
            &&& g2.operations[o].operands == node.operands
            &&& g2.operations[o].results == node.results
            &&& g2.operations[o].attributes == node.attributes
            &&& g2.operations[o].block == Some(b)
        }),
{
}

} // verus!
