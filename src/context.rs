//! The arena that owns every operation, block and region, and its model.
use vstd::prelude::*;

use crate::dialect::terminator_name;
use crate::ir::block::BlockRef;
use crate::ir::operation::OperationRef;
use crate::ir::region::RegionRef;
use crate::names::NameSet;
use crate::ir::value::{Attribute, Identifier, Location, Type, Value};

verus! {

/// What the graph holds of an operation.
pub struct OperationNode {
    pub name: Seq<char>,
    pub operands: Seq<Value>,
    /// The textual forms of the result types.
    pub results: Seq<Seq<char>>,
    /// Each attribute as the text of its name and of its value.
    pub attributes: Seq<(Seq<char>, Seq<char>)>,
    pub regions: Seq<RegionRef>,
    /// The block that holds the operation, if it is attached.
    pub block: Option<BlockRef>,
}

/// What the graph holds of a block.
pub struct BlockNode {
    /// The textual forms of the argument types.
    pub arguments: Seq<Seq<char>>,
    /// The operations of the block, in order.
    pub operations: Seq<OperationRef>,
    /// The region that holds the block, if it is attached.
    pub region: Option<RegionRef>,
}

/// What the graph holds of a region.
pub struct RegionNode {
    /// The blocks of the region, in order.
    pub blocks: Seq<BlockRef>,
    /// The operation that holds the region, if it is attached.
    pub operation: Option<OperationRef>,
}

/// The IR graph of a context: every object it holds, under its reference.
pub struct Graph {
    pub operations: Map<OperationRef, OperationNode>,
    pub blocks: Map<BlockRef, BlockNode>,
    pub regions: Map<RegionRef, RegionNode>,
}

impl Graph {
    /// Every object of `old` is in the graph, unchanged.
    pub open spec fn extends(self, old: Graph) -> bool {
        &&& forall|o: OperationRef| #[trigger]
            old.operations.contains_key(o) ==> self.operations.contains_key(o) && self.operations[o]
                == old.operations[o]
        &&& forall|b: BlockRef| #[trigger]
            old.blocks.contains_key(b) ==> self.blocks.contains_key(b) && self.blocks[b] == old.blocks[b]
        &&& forall|r: RegionRef| #[trigger]
            old.regions.contains_key(r) ==> self.regions.contains_key(r) && self.regions[r]
                == old.regions[r]
    }

    /// The graph after the unattached operation `o` is put into block `b`
    /// at position `k`.
    pub open spec fn insert_operation(self, b: BlockRef, k: int, o: OperationRef) -> Graph {
        Graph {
            operations: self.operations.insert(o, OperationNode { block: Some(b), ..self.operations[o] }),
            blocks: self.blocks.insert(
                b,
                BlockNode { operations: self.blocks[b].operations.insert(k, o), ..self.blocks[b] },
            ),
            regions: self.regions,
        }
    }

    /// The graph after the unattached block `b` is put into region `r` at
    /// position `k`.
    pub open spec fn insert_block(self, r: RegionRef, k: int, b: BlockRef) -> Graph {
        Graph {
            operations: self.operations,
            blocks: self.blocks.insert(b, BlockNode { region: Some(r), ..self.blocks[b] }),
            regions: self.regions.insert(
                r,
                RegionNode { blocks: self.regions[r].blocks.insert(k, b), ..self.regions[r] },
            ),
        }
    }

    /// The graph after the block at position `k` of region `r` is taken out.
    pub open spec fn remove_block(self, r: RegionRef, k: int) -> Graph {
        let b = self.regions[r].blocks[k];
        Graph {
            operations: self.operations,
            blocks: self.blocks.insert(b, BlockNode { region: None, ..self.blocks[b] }),
            regions: self.regions.insert(
                r,
                RegionNode { blocks: self.regions[r].blocks.remove(k), ..self.regions[r] },
            ),
        }
    }

    /// The graph after the unattached region `r` is handed to operation `o`.
    pub open spec fn push_region(self, o: OperationRef, r: RegionRef) -> Graph {
        Graph {
            operations: self.operations.insert(
                o,
                OperationNode { regions: self.operations[o].regions.push(r), ..self.operations[o] },
            ),
            blocks: self.blocks,
            regions: self.regions.insert(r, RegionNode { operation: Some(o), ..self.regions[r] }),
        }
    }

    /// The graph after block `b` gains an argument of type `ty` at the end.
    pub open spec fn push_argument(self, b: BlockRef, ty: Seq<char>) -> Graph {
        Graph {
            blocks: self.blocks.insert(
                b,
                BlockNode { arguments: self.blocks[b].arguments.push(ty), ..self.blocks[b] },
            ),
            ..self
        }
    }

    /// The graph with the new block `b`.
    pub open spec fn add_block(self, b: BlockRef, node: BlockNode) -> Graph {
        Graph { blocks: self.blocks.insert(b, node), ..self }
    }

    /// The graph with the new region `r`, which holds no blocks.
    pub open spec fn add_region(self, r: RegionRef) -> Graph {
        Graph { regions: self.regions.insert(r, RegionNode { blocks: Seq::empty(), operation: None }), ..self }
    }

    /// The graph with the new operation `o`, which takes the regions that
    /// `node` lists.
    pub open spec fn add_operation(self, o: OperationRef, node: OperationNode) -> Graph {
        Graph {
            operations: self.operations.insert(o, node),
            blocks: self.blocks,
            regions: claim_regions(self.regions, node.regions, o),
        }
    }

    /// The operation after `o` in its block.
    pub open spec fn next_in_block(self, o: OperationRef) -> Option<OperationRef> {
        match self.operations[o].block {
            Some(b) => successor(self.blocks[b].operations, o),
            None => None,
        }
    }

    /// The block after `b` in its region.
    pub open spec fn next_in_region(self, b: BlockRef) -> Option<BlockRef> {
        match self.blocks[b].region {
            Some(r) => successor(self.regions[r].blocks, b),
            None => None,
        }
    }

    /// The last operation of block `b`, when its name is that of a
    /// terminator.
    pub open spec fn terminator(self, b: BlockRef) -> Option<OperationRef> {
        let ops = self.blocks[b].operations;
        if ops.len() > 0 && terminator_name(self.operations[ops.last()].name) {
            Some(ops.last())
        } else {
            None
        }
    }

    /// The operation that holds the region that holds `b`.
    pub open spec fn parent_operation(self, b: BlockRef) -> Option<OperationRef> {
        match self.blocks[b].region {
            Some(r) => self.regions[r].operation,
            None => None,
        }
    }

    /// Child lists and parent links agree: an object is listed by a parent
    /// exactly when it names that parent, and no list repeats an object.
    pub open spec fn wf(self) -> bool {
        &&& forall|b: BlockRef, i: int|
            #![trigger self.blocks[b].operations[i]]
            self.blocks.contains_key(b) && 0 <= i < self.blocks[b].operations.len()
                ==> self.operations.contains_key(self.blocks[b].operations[i])
                && self.operations[self.blocks[b].operations[i]].block == Some(b)
        &&& forall|o: OperationRef|
            #![trigger self.operations[o]]
            self.operations.contains_key(o) && self.operations[o].block is Some
                ==> self.blocks.contains_key(self.operations[o].block->0)
                && self.blocks[self.operations[o].block->0].operations.contains(o)
        &&& forall|b: BlockRef|
            #![trigger self.blocks[b]]
            self.blocks.contains_key(b) ==> self.blocks[b].operations.no_duplicates()
        &&& forall|r: RegionRef, i: int|
            #![trigger self.regions[r].blocks[i]]
            self.regions.contains_key(r) && 0 <= i < self.regions[r].blocks.len()
                ==> self.blocks.contains_key(self.regions[r].blocks[i])
                && self.blocks[self.regions[r].blocks[i]].region == Some(r)
        &&& forall|b: BlockRef|
            #![trigger self.blocks[b]]
            self.blocks.contains_key(b) && self.blocks[b].region is Some
                ==> self.regions.contains_key(self.blocks[b].region->0)
                && self.regions[self.blocks[b].region->0].blocks.contains(b)
        &&& forall|r: RegionRef|
            #![trigger self.regions[r]]
            self.regions.contains_key(r) ==> self.regions[r].blocks.no_duplicates()
        &&& forall|o: OperationRef, i: int|
            #![trigger self.operations[o].regions[i]]
            self.operations.contains_key(o) && 0 <= i < self.operations[o].regions.len()
                ==> self.regions.contains_key(self.operations[o].regions[i])
                && self.regions[self.operations[o].regions[i]].operation == Some(o)
        &&& forall|r: RegionRef|
            #![trigger self.regions[r]]
            self.regions.contains_key(r) && self.regions[r].operation is Some
                ==> self.operations.contains_key(self.regions[r].operation->0)
                && self.operations[self.regions[r].operation->0].regions.contains(r)
        &&& forall|o: OperationRef|
            #![trigger self.operations[o]]
            self.operations.contains_key(o) ==> self.operations[o].regions.no_duplicates()
    }
}

/// The textual forms of a sequence of types.
pub open spec fn types_text(types: Seq<Type>) -> Seq<Seq<char>> {
    types.map_values(|t: Type| t.text())
}

/// The first item of a sequence, if it has one.
pub open spec fn first_of<A>(s: Seq<A>) -> Option<A> {
    if s.len() > 0 {
        Some(s[0])
    } else {
        None
    }
}

/// The item that follows `x` in `s`, if `x` is in `s` and not last.
pub open spec fn successor<A>(s: Seq<A>, x: A) -> Option<A> {
    if s.contains(x) && s.index_of(x) + 1 < s.len() {
        Some(s[s.index_of(x) + 1])
    } else {
        None
    }
}

/// In a sequence without repetition, the index of an item is where it stands.
pub proof fn lemma_index_of_unique<A>(s: Seq<A>, k: int)
    requires
        s.no_duplicates(),
        0 <= k < s.len(),
    ensures
        s.contains(s[k]),
        s.index_of(s[k]) == k,
{
    assert(s.contains(s[k]));
}

/// The regions of `regions` after the operation `o` took those of `rs`.
pub open spec fn claim_regions(
    regions: Map<RegionRef, RegionNode>,
    rs: Seq<RegionRef>,
    o: OperationRef,
) -> Map<RegionRef, RegionNode> {
    Map::new(
        |x: RegionRef| regions.contains_key(x),
        |x: RegionRef|
            if rs.contains(x) {
                RegionNode { operation: Some(o), ..regions[x] }
            } else {
                regions[x]
            },
    )
}

/// Putting an unattached operation into a block, at any position, keeps the
/// graph consistent.
pub proof fn lemma_attach_operation(g0: Graph, g1: Graph, b: BlockRef, o: OperationRef, k: int)
    requires
        g0.wf(),
        g0.blocks.contains_key(b),
        g0.operations.contains_key(o),
        g0.operations[o].block is None,
        0 <= k <= g0.blocks[b].operations.len(),
        g1 == g0.insert_operation(b, k, o),
    ensures
        g1.wf(),
{
    let s0 = g0.blocks[b].operations;
    let s1 = s0.insert(k, o);
    s0.insert_ensures(k, o);
    assert(!s0.contains(o)) by {
        if s0.contains(o) {
            let i = choose|i: int| 0 <= i < s0.len() && s0[i] == o;
            assert(g0.operations[g0.blocks[b].operations[i]].block == Some(b));
        }
    }
    assert forall|i: int| 0 <= i < s1.len() && i != k implies s1[i] != o
        && g0.operations[s1[i]].block == Some(b) by {
        if i < k {
            assert(s1[i] == s0[i]);
            assert(g0.operations[g0.blocks[b].operations[i]].block == Some(b));
        } else {
            assert(s1[i] == s0[i - 1]);
            assert(g0.operations[g0.blocks[b].operations[i - 1]].block == Some(b));
        }
    }
    assert forall|b2: BlockRef, i: int|
        g1.blocks.contains_key(b2) && 0 <= i < g1.blocks[b2].operations.len() implies g1.operations.contains_key(g1.blocks[b2].operations[i])
        && g1.operations[g1.blocks[b2].operations[i]].block == Some(b2) by {
        if b2 != b {
            assert(g0.operations[g0.blocks[b2].operations[i]].block == Some(b2));
        }
    }
    assert forall|o2: OperationRef|
        g1.operations.contains_key(o2) && g1.operations[o2].block is Some implies g1.blocks.contains_key(g1.operations[o2].block->0)
        && g1.blocks[g1.operations[o2].block->0].operations.contains(o2) by {
        if o2 == o {
            assert(s1[k] == o);
        } else {
            assert(g0.operations[o2].block is Some);
            let b2 = g0.operations[o2].block->0;
            if b2 == b {
                assert(s0.contains(o2));
                let i = choose|i: int| 0 <= i < s0.len() && s0[i] == o2;
                if i < k {
                    assert(s1[i] == o2);
                } else {
                    assert(s1[i + 1] == o2);
                }
            }
        }
    }
    assert(s1.no_duplicates()) by {
        assert forall|i: int, j: int| 0 <= i < s1.len() && 0 <= j < s1.len() && i != j implies s1[i]
            != s1[j] by {
            if i != k && j != k {
                let i0 = if i < k { i } else { i - 1 };
                let j0 = if j < k { j } else { j - 1 };
                assert(s1[i] == s0[i0]);
                assert(s1[j] == s0[j0]);
            }
        }
    }
    assert forall|b2: BlockRef| #[trigger] g1.blocks.contains_key(b2) implies g1.blocks[b2].operations.no_duplicates() by {
        if b2 != b {
            assert(g0.blocks[b2].operations.no_duplicates());
        }
    }
}

/// Putting an unattached block into a region, at any position, keeps the
/// graph consistent.
pub proof fn lemma_attach_block(g0: Graph, g1: Graph, r: RegionRef, b: BlockRef, k: int)
    requires
        g0.wf(),
        g0.regions.contains_key(r),
        g0.blocks.contains_key(b),
        g0.blocks[b].region is None,
        0 <= k <= g0.regions[r].blocks.len(),
        g1 == g0.insert_block(r, k, b),
    ensures
        g1.wf(),
{
    let s0 = g0.regions[r].blocks;
    let s1 = s0.insert(k, b);
    s0.insert_ensures(k, b);
    assert(!s0.contains(b)) by {
        if s0.contains(b) {
            let i = choose|i: int| 0 <= i < s0.len() && s0[i] == b;
            assert(g0.blocks[g0.regions[r].blocks[i]].region == Some(r));
        }
    }
    assert forall|i: int| 0 <= i < s1.len() && i != k implies s1[i] != b
        && g0.blocks[s1[i]].region == Some(r) by {
        if i < k {
            assert(s1[i] == s0[i]);
            assert(g0.blocks[g0.regions[r].blocks[i]].region == Some(r));
        } else {
            assert(s1[i] == s0[i - 1]);
            assert(g0.blocks[g0.regions[r].blocks[i - 1]].region == Some(r));
        }
    }
    assert forall|r2: RegionRef, i: int|
        g1.regions.contains_key(r2) && 0 <= i < g1.regions[r2].blocks.len() implies g1.blocks.contains_key(g1.regions[r2].blocks[i])
        && g1.blocks[g1.regions[r2].blocks[i]].region == Some(r2) by {
        if r2 != r {
            assert(g0.blocks[g0.regions[r2].blocks[i]].region == Some(r2));
        }
    }
    assert forall|b2: BlockRef|
        g1.blocks.contains_key(b2) && g1.blocks[b2].region is Some implies g1.regions.contains_key(g1.blocks[b2].region->0)
        && g1.regions[g1.blocks[b2].region->0].blocks.contains(b2) by {
        if b2 == b {
            assert(s1[k] == b);
        } else {
            assert(g0.blocks[b2].region is Some);
            let r2 = g0.blocks[b2].region->0;
            if r2 == r {
                assert(s0.contains(b2));
                let i = choose|i: int| 0 <= i < s0.len() && s0[i] == b2;
                if i < k {
                    assert(s1[i] == b2);
                } else {
                    assert(s1[i + 1] == b2);
                }
            }
        }
    }
    assert(s1.no_duplicates()) by {
        assert forall|i: int, j: int| 0 <= i < s1.len() && 0 <= j < s1.len() && i != j implies s1[i]
            != s1[j] by {
            if i != k && j != k {
                let i0 = if i < k { i } else { i - 1 };
                let j0 = if j < k { j } else { j - 1 };
                assert(s1[i] == s0[i0]);
                assert(s1[j] == s0[j0]);
            }
        }
    }
    assert forall|r2: RegionRef| #[trigger] g1.regions.contains_key(r2) implies g1.regions[r2].blocks.no_duplicates() by {
        if r2 != r {
            assert(g0.regions[r2].blocks.no_duplicates());
        }
    }
    assert forall|b2: BlockRef| #[trigger] g1.blocks.contains_key(b2) implies g1.blocks[b2].operations.no_duplicates() by {
        assert(g0.blocks[b2].operations.no_duplicates());
    }
    assert forall|bb: BlockRef, i: int|
        g1.blocks.contains_key(bb) && 0 <= i < g1.blocks[bb].operations.len() implies g1.operations.contains_key(g1.blocks[bb].operations[i])
        && g1.operations[g1.blocks[bb].operations[i]].block == Some(bb) by {
        assert(g0.operations[g0.blocks[bb].operations[i]].block == Some(bb));
    }
    assert forall|o: OperationRef|
        g1.operations.contains_key(o) && g1.operations[o].block is Some implies g1.blocks.contains_key(g1.operations[o].block->0)
        && g1.blocks[g1.operations[o].block->0].operations.contains(o) by {
        assert(g0.operations[o].block is Some);
    }
}

/// Taking a block out of its region keeps the graph consistent.
pub proof fn lemma_detach_block(g0: Graph, g1: Graph, r: RegionRef, b: BlockRef, k: int)
    requires
        g0.wf(),
        g0.regions.contains_key(r),
        0 <= k < g0.regions[r].blocks.len(),
        g0.regions[r].blocks[k] == b,
        g1 == g0.remove_block(r, k),
    ensures
        g1.wf(),
{
    let s0 = g0.regions[r].blocks;
    let s1 = s0.remove(k);
    s0.remove_ensures(k);
    assert(g0.blocks.contains_key(b));
    assert forall|i: int| 0 <= i < s1.len() implies s1[i] != b && g0.blocks[s1[i]].region == Some(r) by {
        if i < k {
            assert(s1[i] == s0[i]);
            assert(g0.blocks[g0.regions[r].blocks[i]].region == Some(r));
        } else {
            assert(s1[i] == s0[i + 1]);
            assert(g0.blocks[g0.regions[r].blocks[i + 1]].region == Some(r));
        }
    }
    assert forall|r2: RegionRef, i: int|
        g1.regions.contains_key(r2) && 0 <= i < g1.regions[r2].blocks.len() implies g1.blocks.contains_key(g1.regions[r2].blocks[i])
        && g1.blocks[g1.regions[r2].blocks[i]].region == Some(r2) by {
        if r2 != r {
            assert(g0.blocks[g0.regions[r2].blocks[i]].region == Some(r2));
            if g0.regions[r2].blocks[i] == b {
                assert(g0.blocks[g0.regions[r].blocks[k]].region == Some(r));
            }
        }
    }
    assert forall|b2: BlockRef|
        g1.blocks.contains_key(b2) && g1.blocks[b2].region is Some implies g1.regions.contains_key(g1.blocks[b2].region->0)
        && g1.regions[g1.blocks[b2].region->0].blocks.contains(b2) by {
        assert(g0.blocks[b2].region is Some);
        let r2 = g0.blocks[b2].region->0;
        if r2 == r {
            assert(s0.contains(b2));
            let i = choose|i: int| 0 <= i < s0.len() && s0[i] == b2;
            if i < k {
                assert(s1[i] == b2);
            } else {
                assert(i != k);
                assert(s1[i - 1] == b2);
            }
        }
    }
    assert(s1.no_duplicates()) by {
        assert forall|i: int, j: int| 0 <= i < s1.len() && 0 <= j < s1.len() && i != j implies s1[i]
            != s1[j] by {
            let i0 = if i < k { i } else { i + 1 };
            let j0 = if j < k { j } else { j + 1 };
            assert(s1[i] == s0[i0]);
            assert(s1[j] == s0[j0]);
        }
    }
    assert forall|r2: RegionRef| #[trigger] g1.regions.contains_key(r2) implies g1.regions[r2].blocks.no_duplicates() by {
        if r2 != r {
            assert(g0.regions[r2].blocks.no_duplicates());
        }
    }
    assert forall|b2: BlockRef| #[trigger] g1.blocks.contains_key(b2) implies g1.blocks[b2].operations.no_duplicates() by {
        assert(g0.blocks[b2].operations.no_duplicates());
    }
    assert forall|bb: BlockRef, i: int|
        g1.blocks.contains_key(bb) && 0 <= i < g1.blocks[bb].operations.len() implies g1.operations.contains_key(g1.blocks[bb].operations[i])
        && g1.operations[g1.blocks[bb].operations[i]].block == Some(bb) by {
        assert(g0.operations[g0.blocks[bb].operations[i]].block == Some(bb));
    }
    assert forall|o: OperationRef|
        g1.operations.contains_key(o) && g1.operations[o].block is Some implies g1.blocks.contains_key(g1.operations[o].block->0)
        && g1.blocks[g1.operations[o].block->0].operations.contains(o) by {
        assert(g0.operations[o].block is Some);
    }
}

/// Handing an unattached region to an operation keeps the graph consistent.
pub proof fn lemma_attach_region(g0: Graph, g1: Graph, o: OperationRef, r: RegionRef)
    requires
        g0.wf(),
        g0.operations.contains_key(o),
        g0.regions.contains_key(r),
        g0.regions[r].operation is None,
        g1 == g0.push_region(o, r),
    ensures
        g1.wf(),
{
    let s0 = g0.operations[o].regions;
    let s1 = s0.push(r);
    assert(!s0.contains(r)) by {
        if s0.contains(r) {
            let i = choose|i: int| 0 <= i < s0.len() && s0[i] == r;
            assert(g0.regions[g0.operations[o].regions[i]].operation == Some(o));
        }
    }
    assert forall|o2: OperationRef, i: int|
        g1.operations.contains_key(o2) && 0 <= i < g1.operations[o2].regions.len() implies g1.regions.contains_key(g1.operations[o2].regions[i])
        && g1.regions[g1.operations[o2].regions[i]].operation == Some(o2) by {
        if o2 != o {
            assert(g0.regions[g0.operations[o2].regions[i]].operation == Some(o2));
        } else if i < s0.len() {
            assert(s1[i] == s0[i]);
            assert(g0.regions[g0.operations[o].regions[i]].operation == Some(o));
        }
    }
    assert forall|r2: RegionRef|
        g1.regions.contains_key(r2) && g1.regions[r2].operation is Some implies g1.operations.contains_key(g1.regions[r2].operation->0)
        && g1.operations[g1.regions[r2].operation->0].regions.contains(r2) by {
        if r2 == r {
            assert(s1[s0.len() as int] == r);
        } else {
            assert(g0.regions[r2].operation is Some);
            if g0.regions[r2].operation->0 == o {
                assert(s0.contains(r2));
                let i = choose|i: int| 0 <= i < s0.len() && s0[i] == r2;
                assert(s1[i] == r2);
            }
        }
    }
    assert(s1.no_duplicates()) by {
        assert forall|i: int, j: int| 0 <= i < s1.len() && 0 <= j < s1.len() && i != j implies s1[i]
            != s1[j] by {
            if i < s0.len() && j < s0.len() {
                assert(s1[i] == s0[i]);
                assert(s1[j] == s0[j]);
            } else if i < s0.len() {
                assert(s1[i] == s0[i]);
            } else if j < s0.len() {
                assert(s1[j] == s0[j]);
            }
        }
    }
    assert forall|o2: OperationRef| #[trigger] g1.operations.contains_key(o2) implies g1.operations[o2].regions.no_duplicates() by {
        if o2 != o {
            assert(g0.operations[o2].regions.no_duplicates());
        }
    }
    assert forall|bb: BlockRef, i: int|
        g1.blocks.contains_key(bb) && 0 <= i < g1.blocks[bb].operations.len() implies g1.operations.contains_key(g1.blocks[bb].operations[i])
        && g1.operations[g1.blocks[bb].operations[i]].block == Some(bb) by {
        assert(g0.operations[g0.blocks[bb].operations[i]].block == Some(bb));
    }
    assert forall|o2: OperationRef|
        g1.operations.contains_key(o2) && g1.operations[o2].block is Some implies g1.blocks.contains_key(g1.operations[o2].block->0)
        && g1.blocks[g1.operations[o2].block->0].operations.contains(o2) by {
        assert(g0.operations[o2].block is Some);
    }
    assert forall|r2: RegionRef, i: int|
        g1.regions.contains_key(r2) && 0 <= i < g1.regions[r2].blocks.len() implies g1.blocks.contains_key(g1.regions[r2].blocks[i])
        && g1.blocks[g1.regions[r2].blocks[i]].region == Some(r2) by {
        assert(g0.blocks[g0.regions[r2].blocks[i]].region == Some(r2));
    }
    assert forall|b2: BlockRef|
        g1.blocks.contains_key(b2) && g1.blocks[b2].region is Some implies g1.regions.contains_key(g1.blocks[b2].region->0)
        && g1.regions[g1.blocks[b2].region->0].blocks.contains(b2) by {
        assert(g0.blocks[b2].region is Some);
    }
    assert forall|r2: RegionRef| #[trigger] g1.regions.contains_key(r2) implies g1.regions[r2].blocks.no_duplicates() by {
        assert(g0.regions[r2].blocks.no_duplicates());
    }
}

/// What the arena stores of an operation.
pub(crate) struct OperationData {
    pub(crate) name: String,
    pub(crate) location: Location,
    pub(crate) operands: Vec<Value>,
    pub(crate) results: Vec<Type>,
    pub(crate) attributes: Vec<(Identifier, Attribute)>,
    pub(crate) regions: Vec<RegionRef>,
    pub(crate) block: Option<BlockRef>,
}

/// What the arena stores of a block.
pub(crate) struct BlockData {
    pub(crate) arguments: Vec<Type>,
    pub(crate) locations: Vec<Location>,
    pub(crate) operations: Vec<OperationRef>,
    pub(crate) region: Option<RegionRef>,
}

/// What the arena stores of a region.
pub(crate) struct RegionData {
    pub(crate) blocks: Vec<BlockRef>,
    pub(crate) operation: Option<OperationRef>,
}

impl OperationData {
    pub(crate) open spec fn node(&self) -> OperationNode {
        OperationNode {
            name: self.name@,
            operands: self.operands@,
            results: types_text(self.results@),
            attributes: self.attributes@.map_values(|a: (Identifier, Attribute)| (a.0.text(), a.1.text())),
            regions: self.regions@,
            block: self.block,
        }
    }
}

impl BlockData {
    pub(crate) open spec fn node(&self) -> BlockNode {
        BlockNode { arguments: types_text(self.arguments@), operations: self.operations@, region: self.region }
    }
}

impl RegionData {
    pub(crate) open spec fn node(&self) -> RegionNode {
        RegionNode { blocks: self.blocks@, operation: self.operation }
    }
}

/// The store that owns every IR object. References are handles into it and
/// stay valid for its whole life; an object is never freed before the
/// context is.
pub struct Context {
    pub(crate) operations: Vec<OperationData>,
    pub(crate) blocks: Vec<BlockData>,
    pub(crate) regions: Vec<RegionData>,
    pub(crate) registered_dialects: NameSet,
    pub(crate) loaded_dialects: NameSet,
    pub(crate) llvm_translations: bool,
}

impl View for Context {
    type V = Graph;

    open spec fn view(&self) -> Graph {
        self.graph()
    }
}

impl Context {
    /// The graph that the arena stores.
    pub open(crate) spec fn graph(&self) -> Graph {
        Graph {
            operations: Map::new(
                |o: OperationRef| o.index < self.operations.len(),
                |o: OperationRef| self.operations@[o.index as int].node(),
            ),
            blocks: Map::new(
                |b: BlockRef| b.index < self.blocks.len(),
                |b: BlockRef| self.blocks@[b.index as int].node(),
            ),
            regions: Map::new(
                |r: RegionRef| r.index < self.regions.len(),
                |r: RegionRef| self.regions@[r.index as int].node(),
            ),
        }
    }

    /// The dialects that the context can load.
    pub open(crate) spec fn registered_dialects(&self) -> Set<Seq<char>> {
        self.registered_dialects@
    }

    /// The dialects that the context has loaded.
    pub open(crate) spec fn loaded_dialects(&self) -> Set<Seq<char>> {
        self.loaded_dialects@
    }

    /// Whether the translations to the `llvm` dialect are registered.
    pub open(crate) spec fn llvm_translations_registered(&self) -> bool {
        self.llvm_translations
    }

    /// The number of operations that the context has made.
    pub open(crate) spec fn operation_count(&self) -> nat {
        self.operations@.len()
    }

    /// The context is consistent.
    pub open spec fn wf(&self) -> bool {
        self@.wf()
    }

    /// An empty context.
    pub fn new() -> (r: Context)
        ensures
            r.wf(),
            r@.operations.is_empty(),
            r@.blocks.is_empty(),
            r@.regions.is_empty(),
            r.registered_dialects() == Set::<Seq<char>>::empty(),
            r.loaded_dialects() == set!["builtin"@],
            !r.llvm_translations_registered(),
    {
        let mut loaded_dialects = NameSet::new();
        loaded_dialects.insert("builtin");
        let r = Context {
            operations: Vec::new(),
            blocks: Vec::new(),
            regions: Vec::new(),
            registered_dialects: NameSet::new(),
            loaded_dialects,
            llvm_translations: false,
        };
        assert(r.loaded_dialects() =~= set!["builtin"@]);
        assert(r@.operations =~= Map::empty());
        assert(r@.blocks =~= Map::empty());
        assert(r@.regions =~= Map::empty());
        r
    }

    /// Whether `o` is an operation of this context.
    pub fn contains_operation(&self, o: OperationRef) -> (r: bool)
        ensures
            r == self@.operations.contains_key(o),
    {
        o.index < self.operations.len()
    }

    /// Whether `b` is a block of this context.
    pub fn contains_block(&self, b: BlockRef) -> (r: bool)
        ensures
            r == self@.blocks.contains_key(b),
    {
        b.index < self.blocks.len()
    }

    /// Adds a new operation that no block holds and that has no regions.
    pub(crate) fn create_operation(
        &mut self,
        name: String,
        location: Location,
        operands: Vec<Value>,
        results: Vec<Type>,
        attributes: Vec<(Identifier, Attribute)>,
    ) -> (r: OperationRef)
        requires
            old(self).wf(),
        ensures
            final(self).wf(),
            !old(self)@.operations.contains_key(r),
            final(self)@ == old(self)@.add_operation(
                r,
                OperationNode {
                    name: name@,
                    operands: operands@,
                    results: types_text(results@),
                    attributes: attributes@.map_values(
                        |a: (Identifier, Attribute)| (a.0.text(), a.1.text()),
                    ),
                    regions: Seq::empty(),
                    block: None,
                },
            ),
    {
        let ghost g0 = self@;
        let ghost node = OperationNode {
            name: name@,
            operands: operands@,
            results: types_text(results@),
            attributes: attributes@.map_values(|a: (Identifier, Attribute)| (a.0.text(), a.1.text())),
            regions: Seq::empty(),
            block: None,
        };
        let r = OperationRef { index: self.operations.len() };
        self.operations.push(
            OperationData { name, location, operands, results, attributes, regions: Vec::new(), block: None },
        );
        proof {
            assert(self.operations@[r.index as int].node().regions =~= node.regions);
            assert(self@.operations =~= g0.operations.insert(r, node));
            assert(self@.blocks =~= g0.blocks);
            assert(self@.regions =~= g0.regions);
            assert(claim_regions(g0.regions, node.regions, r) =~= g0.regions);
        }
        r
    }

    /// Adds a new block that no region holds, with the given arguments and
    /// no operations.
    pub(crate) fn create_block(&mut self, arguments: Vec<Type>, locations: Vec<Location>) -> (r: BlockRef)
        requires
            old(self).wf(),
        ensures
            final(self).wf(),
            !old(self)@.blocks.contains_key(r),
            final(self)@ == old(self)@.add_block(
                r,
                BlockNode { arguments: types_text(arguments@), operations: Seq::empty(), region: None },
            ),
    {
        let ghost g0 = self@;
        let ghost node = BlockNode { arguments: types_text(arguments@), operations: Seq::empty(), region: None };
        let r = BlockRef { index: self.blocks.len() };
        self.blocks.push(BlockData { arguments, locations, operations: Vec::new(), region: None });
        proof {
            assert(self.blocks@[r.index as int].node().operations =~= node.operations);
            assert(self@.blocks =~= g0.blocks.insert(r, node));
            assert(self@.operations =~= g0.operations);
            assert(self@.regions =~= g0.regions);
        }
        r
    }

    /// Adds a new region that no operation holds and that has no blocks.
    pub(crate) fn create_region(&mut self) -> (r: RegionRef)
        requires
            old(self).wf(),
        ensures
            final(self).wf(),
            !old(self)@.regions.contains_key(r),
            final(self)@ == old(self)@.add_region(r),
    {
        let ghost g0 = self@;
        let r = RegionRef { index: self.regions.len() };
        self.regions.push(RegionData { blocks: Vec::new(), operation: None });
        proof {
            assert(self.regions@[r.index as int].node().blocks =~= Seq::<BlockRef>::empty());
            assert(self@.regions =~= g0.regions.insert(r, RegionNode { blocks: Seq::empty(), operation: None }));
            assert(self@.blocks =~= g0.blocks);
            assert(self@.operations =~= g0.operations);
        }
        r
    }

    /// Hands the unattached region `r` to operation `o`, after its regions.
    pub(crate) fn attach_region(&mut self, o: OperationRef, r: RegionRef)
        requires
            old(self).wf(),
            old(self)@.operations.contains_key(o),
            old(self)@.regions.contains_key(r),
            old(self)@.regions[r].operation is None,
        ensures
            final(self).wf(),
            final(self)@ == old(self)@.push_region(o, r),
    {
        let ghost g0 = self@;
        self.operations[o.index].regions.push(r);
        self.regions[r.index].operation = Some(o);
        proof {
            let g1 = self@;
            assert(g1.operations =~= g0.operations.insert(
                o,
                OperationNode { regions: g0.operations[o].regions.push(r), ..g0.operations[o] },
            ));
            assert(g1.regions =~= g0.regions.insert(r, RegionNode { operation: Some(o), ..g0.regions[r] }));
            assert(g1.blocks =~= g0.blocks);
            lemma_attach_region(g0, g1, o, r);
        }
    }

    /// Puts the unattached operation `o` into block `b` at position `k`.
    pub(crate) fn attach_operation(&mut self, b: BlockRef, o: OperationRef, k: usize)
        requires
            old(self).wf(),
            old(self)@.blocks.contains_key(b),
            old(self)@.operations.contains_key(o),
            old(self)@.operations[o].block is None,
            k <= old(self)@.blocks[b].operations.len(),
        ensures
            final(self).wf(),
            final(self)@ == old(self)@.insert_operation(b, k as int, o),
    {
        let ghost g0 = self@;
        self.blocks[b.index].operations.insert(k, o);
        self.operations[o.index].block = Some(b);
        proof {
            let g1 = self@;
            assert(g1.blocks =~= g0.blocks.insert(
                b,
                BlockNode { operations: g0.blocks[b].operations.insert(k as int, o), ..g0.blocks[b] },
            ));
            assert(g1.operations =~= g0.operations.insert(
                o,
                OperationNode { block: Some(b), ..g0.operations[o] },
            ));
            assert(g1.regions =~= g0.regions);
            lemma_attach_operation(g0, g1, b, o, k as int);
        }
    }

    /// Puts the unattached block `b` into region `r` at position `k`.
    pub(crate) fn attach_block(&mut self, r: RegionRef, b: BlockRef, k: usize)
        requires
            old(self).wf(),
            old(self)@.regions.contains_key(r),
            old(self)@.blocks.contains_key(b),
            old(self)@.blocks[b].region is None,
            k <= old(self)@.regions[r].blocks.len(),
        ensures
            final(self).wf(),
            final(self)@ == old(self)@.insert_block(r, k as int, b),
    {
        let ghost g0 = self@;
        self.regions[r.index].blocks.insert(k, b);
        self.blocks[b.index].region = Some(r);
        proof {
            let g1 = self@;
            assert(g1.regions =~= g0.regions.insert(
                r,
                RegionNode { blocks: g0.regions[r].blocks.insert(k as int, b), ..g0.regions[r] },
            ));
            assert(g1.blocks =~= g0.blocks.insert(b, BlockNode { region: Some(r), ..g0.blocks[b] }));
            assert(g1.operations =~= g0.operations);
            lemma_attach_block(g0, g1, r, b, k as int);
        }
    }

    /// Takes the block at position `k` out of region `r`.
    pub(crate) fn detach_block(&mut self, r: RegionRef, k: usize)
        requires
            old(self).wf(),
            old(self)@.regions.contains_key(r),
            k < old(self)@.regions[r].blocks.len(),
        ensures
            final(self).wf(),
            final(self)@ == old(self)@.remove_block(r, k as int),
    {
        let ghost g0 = self@;
        let b = self.regions[r.index].blocks.remove(k);
        proof {
            assert(g0.regions[r].blocks[k as int] == b);
            assert(g0.blocks.contains_key(b));
        }
        self.blocks[b.index].region = None;
        proof {
            let g1 = self@;
            assert(self.regions@[r.index as int].blocks@ =~= g0.regions[r].blocks.remove(k as int));
            assert(g1.regions =~= g0.regions.insert(
                r,
                RegionNode { blocks: g0.regions[r].blocks.remove(k as int), ..g0.regions[r] },
            ));
            assert(g1.blocks =~= g0.blocks.insert(b, BlockNode { region: None, ..g0.blocks[b] }));
            assert(g1.operations =~= g0.operations);
            lemma_detach_block(g0, g1, r, b, k as int);
        }
    }
}

} // verus!
