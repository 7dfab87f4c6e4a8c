//! Deep copies of operations.
use vstd::prelude::*;

use crate::context::{types_text, Context};
use crate::ir::block::BlockRef;
use crate::ir::operation::{Operation, OperationRef};
use crate::ir::region::RegionRef;
use crate::ir::value::{Attribute, Identifier, Location, Type, Value};

verus! {

fn copy_types(types: &Vec<Type>) -> (r: Vec<Type>)
    ensures
        types_text(r@) == types_text(types@),
{
    let mut r: Vec<Type> = Vec::new();
    let mut i: usize = 0;
    while i < types.len()
        invariant
            i <= types@.len(),
            r@.len() == i,
            forall|j: int| 0 <= j < i ==> #[trigger] r@[j].text() == types@[j].text(),
        decreases types@.len() - i,
    {
        r.push(Type { text: types[i].text.clone() });
        i += 1;
    }
    assert(types_text(r@) =~= types_text(types@));
    r
}

fn copy_attributes(attributes: &Vec<(Identifier, Attribute)>) -> (r: Vec<(Identifier, Attribute)>)
    ensures
        r@.map_values(|a: (Identifier, Attribute)| (a.0.text(), a.1.text())) == attributes@.map_values(
            |a: (Identifier, Attribute)| (a.0.text(), a.1.text()),
        ),
{
    let mut r: Vec<(Identifier, Attribute)> = Vec::new();
    let mut i: usize = 0;
    while i < attributes.len()
        invariant
            i <= attributes@.len(),
            r@.len() == i,
            forall|j: int| 0 <= j < i ==> #[trigger] r@[j].0.text() == attributes@[j].0.text() && r@[j].1.text()
                == attributes@[j].1.text(),
        decreases attributes@.len() - i,
    {
        r.push(
            (
                Identifier { text: attributes[i].0.text.clone() },
                Attribute { text: attributes[i].1.text.clone() },
            ),
        );
        i += 1;
    }
    assert(r@.map_values(|a: (Identifier, Attribute)| (a.0.text(), a.1.text())) =~= attributes@.map_values(
        |a: (Identifier, Attribute)| (a.0.text(), a.1.text()),
    ));
    r
}

fn copy_locations(locations: &Vec<Location>) -> (r: Vec<Location>) {
    let mut r: Vec<Location> = Vec::new();
    let mut i: usize = 0;
    while i < locations.len()
        decreases locations@.len() - i,
    {
        r.push(locations[i].clone());
        i += 1;
    }
    r
}

/// The objects made so far by a copy, each beside the object it copies.
struct CopyMap {
    blocks: Vec<(BlockRef, BlockRef)>,
    operations: Vec<(OperationRef, OperationRef)>,
}

/// The copy of block `b` that `m` records first, if any.
spec fn lookup_block(m: Seq<(BlockRef, BlockRef)>, b: BlockRef) -> Option<BlockRef>
    decreases m.len(),
{
    if m.len() == 0 {
        None
    } else if m[0].0 == b {
        Some(m[0].1)
    } else {
        lookup_block(m.drop_first(), b)
    }
}

/// The copy of operation `o` that `m` records first, if any.
spec fn lookup_operation(m: Seq<(OperationRef, OperationRef)>, o: OperationRef) -> Option<OperationRef>
    decreases m.len(),
{
    if m.len() == 0 {
        None
    } else if m[0].0 == o {
        Some(m[0].1)
    } else {
        lookup_operation(m.drop_first(), o)
    }
}

impl CopyMap {
    /// `v` moved onto the copies: an argument or a result of a copied object
    /// becomes the same argument or result of its copy.
    spec fn remap(&self, v: Value) -> Value {
        match v {
            Value::Argument { block, position } => match lookup_block(self.blocks@, block) {
                Some(c) => Value::Argument { block: c, position },
                None => v,
            },
            Value::Result { operation, position } => match lookup_operation(self.operations@, operation) {
                Some(c) => Value::Result { operation: c, position },
                None => v,
            },
        }
    }
}

fn find_block(m: &Vec<(BlockRef, BlockRef)>, b: BlockRef) -> (r: Option<BlockRef>)
    ensures
        r == lookup_block(m@, b),
{
    let mut i: usize = 0;
    assert(m@.subrange(0, m@.len() as int) =~= m@);
    while i < m.len()
        invariant
            i <= m@.len(),
            lookup_block(m@, b) == lookup_block(m@.subrange(i as int, m@.len() as int), b),
        decreases m@.len() - i,
    {
        proof {
            let rest = m@.subrange(i as int, m@.len() as int);
            assert(rest.drop_first() =~= m@.subrange(i + 1, m@.len() as int));
        }
        if m[i].0 == b {
            return Some(m[i].1);
        }
        i += 1;
    }
    None
}

fn find_operation(m: &Vec<(OperationRef, OperationRef)>, o: OperationRef) -> (r: Option<OperationRef>)
    ensures
        r == lookup_operation(m@, o),
{
    let mut i: usize = 0;
    assert(m@.subrange(0, m@.len() as int) =~= m@);
    while i < m.len()
        invariant
            i <= m@.len(),
            lookup_operation(m@, o) == lookup_operation(m@.subrange(i as int, m@.len() as int), o),
        decreases m@.len() - i,
    {
        proof {
            let rest = m@.subrange(i as int, m@.len() as int);
            assert(rest.drop_first() =~= m@.subrange(i + 1, m@.len() as int));
        }
        if m[i].0 == o {
            return Some(m[i].1);
        }
        i += 1;
    }
    None
}

fn remap_values(map: &CopyMap, values: &Vec<Value>) -> (r: Vec<Value>)
    ensures
        r@ == values@.map_values(|v: Value| map.remap(v)),
{
    let mut r: Vec<Value> = Vec::new();
    let mut i: usize = 0;
    while i < values.len()
        invariant
            i <= values@.len(),
            r@.len() == i,
            forall|j: int| 0 <= j < i ==> #[trigger] r@[j] == map.remap(values@[j]),
        decreases values@.len() - i,
    {
        let v = match values[i] {
            Value::Argument { block, position } => match find_block(&map.blocks, block) {
                Some(c) => Value::Argument { block: c, position },
                None => values[i],
            },
            Value::Result { operation, position } => match find_operation(&map.operations, operation) {
                Some(c) => Value::Result { operation: c, position },
                None => values[i],
            },
        };
        r.push(v);
        i += 1;
    }
    assert(r@ =~= values@.map_values(|v: Value| map.remap(v)));
    r
}

/// A new operation, held by no block, that copies `o`, its operands moved
/// onto the copies that `map` records; `fuel` bounds how deep its regions
/// are copied.
fn copy_operation(ctx: &mut Context, o: OperationRef, map: &mut CopyMap, fuel: usize) -> (r: OperationRef)
    requires
        old(ctx).wf(),
        old(ctx)@.operations.contains_key(o),
    ensures
        final(ctx).wf(),
        final(ctx)@.extends(old(ctx)@),
        !old(ctx)@.operations.contains_key(r),
        final(ctx)@.operations.contains_key(r),
        final(ctx)@.operations[r].name == old(ctx)@.operations[o].name,
        final(ctx)@.operations[r].operands == old(ctx)@.operations[o].operands.map_values(
            |v: Value| old(map).remap(v),
        ),
        final(ctx)@.operations[r].results == old(ctx)@.operations[o].results,
        final(ctx)@.operations[r].attributes == old(ctx)@.operations[o].attributes,
        final(ctx)@.operations[r].regions.len() == old(ctx)@.operations[o].regions.len(),
        final(ctx)@.operations[r].block is None,
    decreases fuel, 0nat,
{
    let ghost g0 = ctx@;
    let name = ctx.operations[o.index].name.clone();
    let location = ctx.operations[o.index].location.clone();
    let operands = remap_values(map, &ctx.operations[o.index].operands);
    let results = copy_types(&ctx.operations[o.index].results);
    let attributes = copy_attributes(&ctx.operations[o.index].attributes);
    let count = ctx.operations[o.index].regions.len();
    let r = ctx.create_operation(name, location, operands, results, attributes);
    map.operations.push((o, r));
    proof {
        assert(ctx@.extends(g0));
        assert(ctx@.operations[r].regions =~= Seq::<RegionRef>::empty());
    }
    let ghost operands_copied = ctx@.operations[r].operands;
    let mut i: usize = 0;
    while i < count
        invariant
            ctx.wf(),
            ctx@.extends(g0),
            g0.operations.contains_key(o),
            count == g0.operations[o].regions.len(),
            !g0.operations.contains_key(r),
            ctx@.operations.contains_key(r),
            ctx@.operations[r].name == g0.operations[o].name,
            ctx@.operations[r].operands == operands_copied,
            ctx@.operations[r].results == g0.operations[o].results,
            ctx@.operations[r].attributes == g0.operations[o].attributes,
            ctx@.operations[r].regions.len() == i,
            ctx@.operations[r].block is None,
            i <= count,
        decreases count - i,
    {
        let ghost g1 = ctx@;
        let region = if fuel == 0 {
            ctx.create_region()
        } else {
            let source = ctx.operations[o.index].regions[i];
            proof {
                assert(ctx@.operations[o] == g0.operations[o]);
                assert(ctx@.regions.contains_key(g0.operations[o].regions[i as int]));
            }
            copy_region(ctx, source, map, fuel - 1)
        };
        proof {
            assert(ctx@.extends(g0));
            assert(ctx@.operations[r] == g1.operations[r]);
        }
        ctx.attach_region(r, region);
        proof {
            assert(ctx@.extends(g0));
        }
        i += 1;
    }
    r
}

/// A new region, held by no operation, whose blocks copy those of `r`. All
/// the blocks are made first, so that an operand naming an argument of any of
/// them is moved onto the copy.
fn copy_region(ctx: &mut Context, r: RegionRef, map: &mut CopyMap, fuel: usize) -> (c: RegionRef)
    requires
        old(ctx).wf(),
        old(ctx)@.regions.contains_key(r),
    ensures
        final(ctx).wf(),
        final(ctx)@.extends(old(ctx)@),
        !old(ctx)@.regions.contains_key(c),
        final(ctx)@.regions.contains_key(c),
        final(ctx)@.regions[c].operation is None,
        final(ctx)@.regions[c].blocks.len() == old(ctx)@.regions[r].blocks.len(),
    decreases fuel, 2nat,
{
    let ghost g0 = ctx@;
    let c = ctx.create_region();
    proof {
        assert(ctx@.extends(g0));
    }
    let count = ctx.regions[r.index].blocks.len();
    let mut i: usize = 0;
    while i < count
        invariant
            ctx.wf(),
            ctx@.extends(g0),
            g0.regions.contains_key(r),
            count == g0.regions[r].blocks.len(),
            !g0.regions.contains_key(c),
            ctx@.regions.contains_key(c),
            ctx@.regions[c].operation is None,
            ctx@.regions[c].blocks.len() == i,
            forall|j: int| 0 <= j < i ==> !g0.blocks.contains_key(#[trigger] ctx@.regions[c].blocks[j])
                && ctx@.blocks[ctx@.regions[c].blocks[j]].operations.len() == 0,
            i <= count,
        decreases count - i,
    {
        let ghost g1 = ctx@;
        let source = ctx.regions[r.index].blocks[i];
        proof {
            assert(ctx@.regions[r] == g0.regions[r]);
            assert(ctx@.blocks.contains_key(g0.regions[r].blocks[i as int]));
        }
        let arguments = copy_types(&ctx.blocks[source.index].arguments);
        let locations = copy_locations(&ctx.blocks[source.index].locations);
        let block = ctx.create_block(arguments, locations);
        proof {
            assert(ctx@.regions[c] == g1.regions[c]);
            assert(ctx@.extends(g0));
        }
        ctx.attach_block(c, block, i);
        map.blocks.push((source, block));
        proof {
            assert(ctx@.extends(g0));
            let bs = ctx@.regions[c].blocks;
            g1.regions[c].blocks.insert_ensures(i as int, block);
            assert forall|j: int| 0 <= j < i + 1 implies !g0.blocks.contains_key(#[trigger] bs[j])
                && ctx@.blocks[bs[j]].operations.len() == 0 by {
                if j < i {
                    assert(bs[j] == g1.regions[c].blocks[j]);
                    assert(bs[j] != block);
                }
            }
        }
        i += 1;
    }
    let mut i: usize = 0;
    while i < count
        invariant
            ctx.wf(),
            ctx@.extends(g0),
            g0.regions.contains_key(r),
            count == g0.regions[r].blocks.len(),
            !g0.regions.contains_key(c),
            ctx@.regions.contains_key(c),
            ctx@.regions[c].operation is None,
            ctx@.regions[c].blocks.len() == count,
            ctx@.regions[c].blocks.no_duplicates(),
            forall|j: int| i <= j < count ==> !g0.blocks.contains_key(#[trigger] ctx@.regions[c].blocks[j])
                && ctx@.blocks[ctx@.regions[c].blocks[j]].operations.len() == 0,
            i <= count,
        decreases count - i,
    {
        let ghost g1 = ctx@;
        let source = ctx.regions[r.index].blocks[i];
        let target = ctx.regions[c.index].blocks[i];
        proof {
            assert(ctx@.regions[r] == g0.regions[r]);
            assert(ctx@.blocks.contains_key(g0.regions[r].blocks[i as int]));
            assert(ctx@.blocks.contains_key(ctx@.regions[c].blocks[i as int]));
        }
        fill_block(ctx, source, target, map, fuel);
        proof {
            assert(ctx@.regions[c] == g1.regions[c]);
            let bs = ctx@.regions[c].blocks;
            assert forall|j: int| i + 1 <= j < count implies !g0.blocks.contains_key(#[trigger] bs[j])
                && ctx@.blocks[bs[j]].operations.len() == 0 by {
                assert(bs[j] != bs[i as int]);
                assert(g1.blocks.contains_key(bs[j]));
            }
        }
        i += 1;
    }
    c
}

/// Appends to the empty block `dst` copies of the operations of `src`.
/// Every other block, and every operation and region that was there before,
/// stays as it was.
fn fill_block(ctx: &mut Context, src: BlockRef, dst: BlockRef, map: &mut CopyMap, fuel: usize)
    requires
        old(ctx).wf(),
        old(ctx)@.blocks.contains_key(src),
        old(ctx)@.blocks.contains_key(dst),
        old(ctx)@.blocks[dst].operations.len() == 0,
        src != dst,
    ensures
        final(ctx).wf(),
        forall|o: OperationRef| #[trigger]
            old(ctx)@.operations.contains_key(o) ==> final(ctx)@.operations.contains_key(o)
                && final(ctx)@.operations[o] == old(ctx)@.operations[o],
        forall|x: RegionRef| #[trigger]
            old(ctx)@.regions.contains_key(x) ==> final(ctx)@.regions.contains_key(x)
                && final(ctx)@.regions[x] == old(ctx)@.regions[x],
        forall|x: BlockRef| #[trigger]
            old(ctx)@.blocks.contains_key(x) ==> final(ctx)@.blocks.contains_key(x) && (x != dst
                ==> final(ctx)@.blocks[x] == old(ctx)@.blocks[x]),
        final(ctx)@.blocks[dst].region == old(ctx)@.blocks[dst].region,
    decreases fuel, 1nat,
{
    let ghost g0 = ctx@;
    let count = ctx.blocks[src.index].operations.len();
    let mut i: usize = 0;
    while i < count
        invariant
            ctx.wf(),
            g0.blocks.contains_key(src),
            g0.blocks.contains_key(dst),
            src != dst,
            count == g0.blocks[src].operations.len(),
            forall|o: OperationRef| #[trigger]
                g0.operations.contains_key(o) ==> ctx@.operations.contains_key(o)
                    && ctx@.operations[o] == g0.operations[o],
            forall|x: RegionRef| #[trigger]
                g0.regions.contains_key(x) ==> ctx@.regions.contains_key(x) && ctx@.regions[x]
                    == g0.regions[x],
            forall|x: BlockRef| #[trigger]
                g0.blocks.contains_key(x) ==> ctx@.blocks.contains_key(x) && (x != dst
                    ==> ctx@.blocks[x] == g0.blocks[x]),
            ctx@.blocks[dst].region == g0.blocks[dst].region,
            ctx@.blocks[dst].operations.len() == i,
            i <= count,
        decreases count - i,
    {
        let ghost g1 = ctx@;
        let source = ctx.blocks[src.index].operations[i];
        proof {
            assert(ctx@.blocks[src] == g0.blocks[src]);
            assert(ctx@.operations.contains_key(g0.blocks[src].operations[i as int]));
        }
        let operation = copy_operation(ctx, source, map, fuel);
        proof {
            assert(ctx@.blocks[dst] == g1.blocks[dst]);
        }
        ctx.attach_operation(dst, operation, i);
        i += 1;
    }
}

impl OperationRef {
    /// A deep copy of the operation: a new operation that no block holds,
    /// with the same name, operands, result types and attributes, and new
    /// regions that copy its regions block by block and operation by
    /// operation. An operand of a nested operation that names an argument or
    /// a result of a copied object names the same one of the copy. Every
    /// object that was there before stays as it was.
    pub fn to_owned(self, ctx: &mut Context) -> (r: Operation)
        requires
            old(ctx).wf(),
            old(ctx)@.operations.contains_key(self),
        ensures
            final(ctx).wf(),
            final(ctx)@.extends(old(ctx)@),
            !old(ctx)@.operations.contains_key(r@),
            final(ctx)@.operations.contains_key(r@),
            final(ctx)@.operations[r@].name == old(ctx)@.operations[self].name,
            final(ctx)@.operations[r@].operands == old(ctx)@.operations[self].operands,
            final(ctx)@.operations[r@].results == old(ctx)@.operations[self].results,
            final(ctx)@.operations[r@].attributes == old(ctx)@.operations[self].attributes,
            final(ctx)@.operations[r@].regions.len() == old(ctx)@.operations[self].regions.len(),
            final(ctx)@.operations[r@].block is None,
    {
        let fuel = ctx.operations.len();
        let mut map = CopyMap { blocks: Vec::new(), operations: Vec::new() };
        let ghost empty = map;
        let r = copy_operation(ctx, self, &mut map, fuel);
        proof {
            let ops = old(ctx)@.operations[self].operands;
            assert forall|k: int| 0 <= k < ops.len() implies empty.remap(ops[k]) == ops[k] by {
                match ops[k] {
                    Value::Argument { block, .. } => {
                        assert(lookup_block(empty.blocks@, block) is None);
                    },
                    Value::Result { operation, .. } => {
                        assert(lookup_operation(empty.operations@, operation) is None);
                    },
                }
            }
            assert(ops.map_values(|v: Value| empty.remap(v)) =~= ops);
        }
        Operation { handle: r }
    }
}

} // verus!
