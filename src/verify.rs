//! Structural validation of operations.
use vstd::prelude::*;

use crate::context::{Context, Graph};
use crate::ir::block::BlockRef;
use crate::ir::operation::OperationRef;
use crate::ir::value::Value;

verus! {

/// Whether `v` names an argument or a result that the graph holds.
pub open spec fn value_defined(g: Graph, v: Value) -> bool {
    match v {
        Value::Argument { block, position } => g.blocks.contains_key(block) && position
            < g.blocks[block].arguments.len(),
        Value::Result { operation, position } => g.operations.contains_key(operation) && position
            < g.operations[operation].results.len(),
    }
}

/// Whether the blocks in the regions of an operation named `name` must end
/// with a terminator. Only the module, whose body is a plain list of
/// operations, is exempt.
pub open spec fn needs_terminator(name: Seq<char>) -> bool {
    name != "builtin.module"@
}

/// Block `b`, in a region of an operation named `owner`, is valid: each of its
/// operations is valid within `fuel` levels of nesting, and it ends with a
/// terminator where its owner needs one.
pub open spec fn block_valid(g: Graph, b: BlockRef, owner: Seq<char>, fuel: nat) -> bool
    decreases fuel, 1nat,
{
    &&& forall|k: int|
        0 <= k < g.blocks[b].operations.len() ==> operation_valid(
            g,
            #[trigger] g.blocks[b].operations[k],
            fuel,
        )
    &&& needs_terminator(owner) ==> g.terminator(b) is Some
}

/// Operation `o` is valid within `fuel` levels of nesting: each operand names
/// a value of the graph, and each block of each of its regions is valid.
pub open spec fn operation_valid(g: Graph, o: OperationRef, fuel: nat) -> bool
    decreases fuel, 0nat,
{
    if fuel == 0 {
        false
    } else {
        let n = g.operations[o];
        &&& forall|i: int| 0 <= i < n.operands.len() ==> value_defined(g, #[trigger] n.operands[i])
        &&& forall|i: int, j: int|
            0 <= i < n.regions.len() && 0 <= j < g.regions[n.regions[i]].blocks.len() ==> block_valid(
                g,
                #[trigger] g.regions[n.regions[i]].blocks[j],
                n.name,
                (fuel - 1) as nat,
            )
    }
}

fn value_defined_exec(ctx: &Context, v: Value) -> (r: bool)
    ensures
        r == value_defined(ctx@, v),
{
    match v {
        Value::Argument { block, position } => block.index < ctx.blocks.len() && position
            < ctx.blocks[block.index].arguments.len(),
        Value::Result { operation, position } => operation.index < ctx.operations.len() && position
            < ctx.operations[operation.index].results.len(),
    }
}

fn block_valid_exec(ctx: &Context, b: BlockRef, needs_term: bool, fuel: usize) -> (r: bool)
    requires
        ctx.wf(),
        ctx@.blocks.contains_key(b),
    ensures
        forall|owner: Seq<char>|
            needs_terminator(owner) == needs_term ==> r == #[trigger] block_valid(ctx@, b, owner, fuel as nat),
    decreases fuel, 1nat,
{
    let operations = &ctx.blocks[b.index].operations;
    let mut k: usize = 0;
    while k < operations.len()
        invariant
            ctx.wf(),
            ctx@.blocks.contains_key(b),
            operations@ == ctx@.blocks[b].operations,
            k <= operations@.len(),
            forall|k2: int| 0 <= k2 < k ==> operation_valid(ctx@, #[trigger] operations@[k2], fuel as nat),
        decreases operations@.len() - k,
    {
        proof {
            assert(ctx@.operations.contains_key(ctx@.blocks[b].operations[k as int]));
        }
        if !verify_operation(ctx, operations[k], fuel) {
            return false;
        }
        k += 1;
    }
    if needs_term {
        b.terminator(ctx).is_some()
    } else {
        true
    }
}

fn verify_operation(ctx: &Context, o: OperationRef, fuel: usize) -> (r: bool)
    requires
        ctx.wf(),
        ctx@.operations.contains_key(o),
    ensures
        r == operation_valid(ctx@, o, fuel as nat),
    decreases fuel, 0nat,
{
    if fuel == 0 {
        return false;
    }
    let data = &ctx.operations[o.index];
    let mut i: usize = 0;
    while i < data.operands.len()
        invariant
            ctx@.operations.contains_key(o),
            i <= data.operands@.len(),
            data.operands@ == ctx@.operations[o].operands,
            forall|i2: int| 0 <= i2 < i ==> value_defined(ctx@, #[trigger] data.operands@[i2]),
        decreases data.operands@.len() - i,
    {
        if !value_defined_exec(ctx, data.operands[i]) {
            return false;
        }
        i += 1;
    }
    let needs_term = !(data.name == String::from_str("builtin.module"));
    let ghost n = ctx@.operations[o];
    let mut i: usize = 0;
    while i < data.regions.len()
        invariant
            ctx.wf(),
            ctx@.operations.contains_key(o),
            n == ctx@.operations[o],
            data.regions@ == n.regions,
            needs_term == needs_terminator(n.name),
            fuel > 0,
            i <= n.regions.len(),
            forall|i2: int, j2: int|
                0 <= i2 < i && 0 <= j2 < ctx@.regions[n.regions[i2]].blocks.len() ==> block_valid(
                    ctx@,
                    #[trigger] ctx@.regions[n.regions[i2]].blocks[j2],
                    n.name,
                    (fuel - 1) as nat,
                ),
        decreases n.regions.len() - i,
    {
        let region = data.regions[i];
        proof {
            assert(ctx@.regions.contains_key(ctx@.operations[o].regions[i as int]));
        }
        let blocks = &ctx.regions[region.index].blocks;
        let mut j: usize = 0;
        while j < blocks.len()
            invariant
                ctx.wf(),
                ctx@.regions.contains_key(region),
                i < n.regions.len(),
                ctx@.operations.contains_key(o),
                n == ctx@.operations[o],
                region == n.regions[i as int],
                blocks@ == ctx@.regions[region].blocks,
                needs_term == needs_terminator(n.name),
                fuel > 0,
                j <= blocks@.len(),
                forall|j2: int| 0 <= j2 < j ==> block_valid(
                    ctx@,
                    #[trigger] blocks@[j2],
                    n.name,
                    (fuel - 1) as nat,
                ),
            decreases blocks@.len() - j,
        {
            proof {
                assert(ctx@.blocks.contains_key(ctx@.regions[region].blocks[j as int]));
            }
            let ok = block_valid_exec(ctx, blocks[j], needs_term, fuel - 1);
            proof {
                assert(ok == block_valid(ctx@, blocks@[j as int], n.name, (fuel - 1) as nat));
            }
            if !ok {
                proof {
                    assert(ctx@.regions[n.regions[i as int]].blocks[j as int] == blocks@[j as int]);
                }
                return false;
            }
            j += 1;
        }
        proof {
            assert forall|i2: int, j2: int|
                0 <= i2 < i + 1 && 0 <= j2 < ctx@.regions[n.regions[i2]].blocks.len() implies block_valid(
                    ctx@,
                    #[trigger] ctx@.regions[n.regions[i2]].blocks[j2],
                    n.name,
                    (fuel - 1) as nat,
                ) by {
                if i2 == i {
                    assert(blocks@[j2] == ctx@.regions[n.regions[i2]].blocks[j2]);
                }
            }
        }
        i += 1;
    }
    true
}

impl OperationRef {
    /// Whether the operation is valid: every operand of it, and of every
    /// operation nested in it, names a value of the graph, and every block
    /// nested in it ends with a terminator unless a module holds it. A
    /// nesting that loops back on itself is not valid.
    pub fn verify(self, ctx: &Context) -> (r: bool)
        requires
            ctx.wf(),
            ctx@.operations.contains_key(self),
        ensures
            r == operation_valid(ctx@, self, ctx.operation_count()),
    {
        verify_operation(ctx, self, ctx.operations.len())
    }
}

} // verus!
