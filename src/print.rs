//! The textual form of operations and blocks.
use vstd::prelude::*;

use crate::context::{Context, Graph};
use crate::ir::block::BlockRef;
use crate::ir::operation::OperationRef;
use crate::ir::region::RegionRef;
use crate::ir::value::Value;

verus! {

/// `items` with `sep` between each two of them.
pub open spec fn join(items: Seq<Seq<char>>, sep: Seq<char>) -> Seq<char>
    decreases items.len(),
{
    if items.len() == 0 {
        Seq::empty()
    } else if items.len() == 1 {
        items[0]
    } else {
        join(items.drop_last(), sep) + sep + items.last()
    }
}

/// The decimal digit `d`.
pub open spec fn digit_text(d: nat) -> Seq<char> {
    if d == 0 {
        "0"@
    } else if d == 1 {
        "1"@
    } else if d == 2 {
        "2"@
    } else if d == 3 {
        "3"@
    } else if d == 4 {
        "4"@
    } else if d == 5 {
        "5"@
    } else if d == 6 {
        "6"@
    } else if d == 7 {
        "7"@
    } else if d == 8 {
        "8"@
    } else {
        "9"@
    }
}

/// `n` in decimal, without leading zeros.
pub open spec fn decimal_text(n: nat) -> Seq<char>
    decreases n,
{
    if n < 10 {
        digit_text(n)
    } else {
        decimal_text(n / 10) + digit_text(n % 10)
    }
}

/// How an operand is written: `%argN` for the argument at position `N` of
/// a block, `%K#N` for the result at position `N` of operation `K`.
pub open(crate) spec fn value_text(v: Value) -> Seq<char> {
    match v {
        Value::Argument { position, .. } => "%arg"@ + decimal_text(position as nat),
        Value::Result { operation, position } => "%"@ + decimal_text(operation.index as nat) + "#"@
            + decimal_text(position as nat),
    }
}

/// The textual form of the type of `v`, or a placeholder where `v` names
/// no value of the graph.
pub open spec fn value_type_text(g: Graph, v: Value) -> Seq<char> {
    match v {
        Value::Argument { block, position } => if g.blocks.contains_key(block) && position
            < g.blocks[block].arguments.len() {
            g.blocks[block].arguments[position as int]
        } else {
            "<<NULL TYPE>>"@
        },
        Value::Result { operation, position } => if g.operations.contains_key(operation)
            && position < g.operations[operation].results.len() {
            g.operations[operation].results[position as int]
        } else {
            "<<NULL TYPE>>"@
        },
    }
}

/// The attribute list of an operation: empty, or `{name = value, ...}`.
pub open spec fn attributes_text(attributes: Seq<(Seq<char>, Seq<char>)>) -> Seq<char> {
    if attributes.len() == 0 {
        Seq::empty()
    } else {
        " {"@ + join(attributes.map_values(|a: (Seq<char>, Seq<char>)| a.0 + " = "@ + a.1), ", "@)
            + "}"@
    }
}

/// The result types of an operation: one bare type, else a parenthesised list.
pub open spec fn results_text(results: Seq<Seq<char>>) -> Seq<char> {
    if results.len() == 1 {
        results[0]
    } else {
        "("@ + join(results, ", "@) + ")"@
    }
}

/// The regions of an operation: empty when it has none, else
/// ` (region, ...)`; with no fuel left, ` (...)`.
pub open spec fn regions_part(g: Graph, regions: Seq<RegionRef>, fuel: nat) -> Seq<char>
    decreases fuel, 5nat, 0nat,
{
    if regions.len() == 0 {
        Seq::empty()
    } else if fuel == 0 {
        " (...)"@
    } else {
        " ("@ + regions_text(g, regions, (fuel - 1) as nat) + ")"@
    }
}

/// The generic form of operation `o`:
/// `"name"(operands) (regions) {attributes} : (operand types) -> result types`,
/// ending with a line break; `fuel` bounds how deep regions are printed.
pub open spec fn operation_text(g: Graph, o: OperationRef, fuel: nat) -> Seq<char>
    decreases fuel, 6nat, 0nat,
{
    let n = g.operations[o];
    "\""@ + n.name + "\"("@ + join(n.operands.map_values(|v: Value| value_text(v)), ", "@) + ")"@
        + regions_part(g, n.regions, fuel) + attributes_text(n.attributes) + " : ("@ + join(
        n.operands.map_values(|v: Value| value_type_text(g, v)),
        ", "@,
    ) + ") -> "@ + results_text(n.results) + "\n"@
}

/// The operations `ops`, each on its own indented line.
pub open spec fn operations_text(g: Graph, ops: Seq<OperationRef>, fuel: nat) -> Seq<char>
    decreases fuel, 7nat, ops.len(),
{
    if ops.len() == 0 {
        Seq::empty()
    } else {
        operations_text(g, ops.drop_last(), fuel) + "  "@ + operation_text(g, ops.last(), fuel)
    }
}

/// The arguments of a block: `%arg0: type, ...`.
pub open spec fn arguments_text(arguments: Seq<Seq<char>>) -> Seq<char> {
    join(
        Seq::new(arguments.len(), |i: int| "%arg"@ + decimal_text(i as nat) + ": "@ + arguments[i]),
        ", "@,
    )
}

/// A block within a region: a label with its typed arguments, then its
/// operations.
pub open spec fn block_body_text(g: Graph, b: BlockRef, fuel: nat) -> Seq<char>
    decreases fuel, 8nat, 0nat,
{
    "^bb("@ + arguments_text(g.blocks[b].arguments) + "):\n"@ + operations_text(
        g,
        g.blocks[b].operations,
        fuel,
    )
}

/// The blocks `bs`, one after the other.
pub open spec fn blocks_text(g: Graph, bs: Seq<BlockRef>, fuel: nat) -> Seq<char>
    decreases fuel, 9nat, bs.len(),
{
    if bs.len() == 0 {
        Seq::empty()
    } else {
        blocks_text(g, bs.drop_last(), fuel) + block_body_text(g, bs.last(), fuel)
    }
}

/// The regions `rs`, each in braces, separated by commas.
pub open spec fn regions_text(g: Graph, rs: Seq<RegionRef>, fuel: nat) -> Seq<char>
    decreases fuel, 10nat, rs.len(),
{
    if rs.len() == 0 {
        Seq::empty()
    } else if rs.len() == 1 {
        "{\n"@ + blocks_text(g, g.regions[rs[0]].blocks, fuel) + "}"@
    } else {
        regions_text(g, rs.drop_last(), fuel) + ", {\n"@ + blocks_text(
            g,
            g.regions[rs.last()].blocks,
            fuel,
        ) + "}"@
    }
}

/// The depth to which the textual forms print nested regions: deep enough
/// for every nesting that does not loop back on itself.
pub open(crate) spec fn print_depth(ctx: &Context) -> nat {
    ctx.operation_count()
}

/// The textual form of block `b`: a marker for a block that no region
/// holds; else a label with the typed arguments, then one indented line for
/// each operation.
pub open(crate) spec fn block_text(g: Graph, b: BlockRef, fuel: nat) -> Seq<char> {
    if g.blocks[b].region is None {
        "<<UNLINKED BLOCK>>\n"@
    } else {
        block_body_text(g, b, fuel)
    }
}

proof fn lemma_join_step(items: Seq<Seq<char>>, sep: Seq<char>, i: int)
    requires
        0 <= i < items.len(),
    ensures
        join(items.take(i + 1), sep) == if i == 0 {
            items[0]
        } else {
            join(items.take(i), sep) + sep + items[i]
        },
{
    assert(items.take(i + 1).drop_last() =~= items.take(i));
}

/// `items` with `sep` between each two of them.
pub fn join_strings(items: &Vec<String>, sep: &str) -> (r: String)
    ensures
        r@ == join(items@.map_values(|s: String| s@), sep@),
{
    let ghost texts = items@.map_values(|s: String| s@);
    let mut acc = String::new();
    let mut i: usize = 0;
    while i < items.len()
        invariant
            i <= items@.len(),
            texts == items@.map_values(|s: String| s@),
            acc@ == join(texts.take(i as int), sep@),
        decreases items@.len() - i,
    {
        proof {
            lemma_join_step(texts, sep@, i as int);
        }
        if i > 0 {
            acc.append(sep);
        }
        acc.append(items[i].as_str());
        i += 1;
    }
    assert(texts.take(i as int) =~= texts);
    acc
}

fn digit_string(d: usize) -> (r: &'static str)
    requires
        d < 10,
    ensures
        r@ == digit_text(d as nat),
{
    if d == 0 {
        "0"
    } else if d == 1 {
        "1"
    } else if d == 2 {
        "2"
    } else if d == 3 {
        "3"
    } else if d == 4 {
        "4"
    } else if d == 5 {
        "5"
    } else if d == 6 {
        "6"
    } else if d == 7 {
        "7"
    } else if d == 8 {
        "8"
    } else {
        "9"
    }
}

/// `n` in decimal.
pub fn decimal_string(n: usize) -> (r: String)
    ensures
        r@ == decimal_text(n as nat),
    decreases n,
{
    if n < 10 {
        String::from_str(digit_string(n))
    } else {
        let mut s = decimal_string(n / 10);
        s.append(digit_string(n % 10));
        s
    }
}

fn value_string(v: Value) -> (r: String)
    ensures
        r@ == value_text(v),
{
    match v {
        Value::Argument { position, .. } => {
            let mut s = String::from_str("%arg");
            s.append(decimal_string(position).as_str());
            s
        },
        Value::Result { operation, position } => {
            let mut s = String::from_str("%");
            s.append(decimal_string(operation.index).as_str());
            s.append("#");
            s.append(decimal_string(position).as_str());
            s
        },
    }
}

pub(crate) fn value_type_string(ctx: &Context, v: Value) -> (r: String)
    ensures
        r@ == value_type_text(ctx@, v),
{
    match v {
        Value::Argument { block, position } => {
            if block.index < ctx.blocks.len() && position < ctx.blocks[block.index].arguments.len() {
                ctx.blocks[block.index].arguments[position].text.clone()
            } else {
                String::from_str("<<NULL TYPE>>")
            }
        },
        Value::Result { operation, position } => {
            if operation.index < ctx.operations.len() && position
                < ctx.operations[operation.index].results.len() {
                ctx.operations[operation.index].results[position].text.clone()
            } else {
                String::from_str("<<NULL TYPE>>")
            }
        },
    }
}

fn operands_strings(ctx: &Context, o: OperationRef) -> (r: (String, String))
    requires
        ctx@.operations.contains_key(o),
    ensures
        r.0@ == join(ctx@.operations[o].operands.map_values(|v: Value| value_text(v)), ", "@),
        r.1@ == join(ctx@.operations[o].operands.map_values(|v: Value| value_type_text(ctx@, v)), ", "@),
{
    let ghost n = ctx@.operations[o];
    let data = &ctx.operations[o.index];
    let mut operands: Vec<String> = Vec::new();
    let mut types: Vec<String> = Vec::new();
    let mut i: usize = 0;
    while i < data.operands.len()
        invariant
            i <= n.operands.len(),
            n.operands == data.operands@,
            operands@.len() == i,
            types@.len() == i,
            forall|j: int| 0 <= j < i ==> #[trigger] operands@[j]@ == value_text(n.operands[j]),
            forall|j: int| 0 <= j < i ==> #[trigger] types@[j]@ == value_type_text(ctx@, n.operands[j]),
        decreases n.operands.len() - i,
    {
        operands.push(value_string(data.operands[i]));
        types.push(value_type_string(ctx, data.operands[i]));
        i += 1;
    }
    assert(operands@.map_values(|s: String| s@) =~= n.operands.map_values(|v: Value| value_text(v)));
    assert(types@.map_values(|s: String| s@) =~= n.operands.map_values(
        |v: Value| value_type_text(ctx@, v),
    ));
    (join_strings(&operands, ", "), join_strings(&types, ", "))
}

fn attributes_string(ctx: &Context, o: OperationRef) -> (r: String)
    requires
        ctx@.operations.contains_key(o),
    ensures
        r@ == attributes_text(ctx@.operations[o].attributes),
{
    let ghost n = ctx@.operations[o];
    let data = &ctx.operations[o.index];
    let mut attributes: Vec<String> = Vec::new();
    let ghost fa = |a: (Seq<char>, Seq<char>)| a.0 + " = "@ + a.1;
    let mut i: usize = 0;
    while i < data.attributes.len()
        invariant
            i <= n.attributes.len(),
            n.attributes.len() == data.attributes@.len(),
            forall|j: int| 0 <= j < n.attributes.len() ==> #[trigger] n.attributes[j] == (
                data.attributes@[j].0.text(),
                data.attributes@[j].1.text(),
            ),
            fa == (|a: (Seq<char>, Seq<char>)| a.0 + " = "@ + a.1),
            attributes@.len() == i,
            forall|j: int| 0 <= j < i ==> #[trigger] attributes@[j]@ == fa(n.attributes[j]),
        decreases n.attributes.len() - i,
    {
        let mut s = data.attributes[i].0.text.clone();
        s.append(" = ");
        s.append(data.attributes[i].1.text.as_str());
        attributes.push(s);
        i += 1;
    }
    assert(attributes@.map_values(|s: String| s@) =~= n.attributes.map_values(fa));
    if attributes.len() == 0 {
        assert(attributes_text(n.attributes) =~= Seq::<char>::empty());
        return String::new();
    }
    let mut r = String::from_str(" {");
    r.append(join_strings(&attributes, ", ").as_str());
    r.append("}");
    r
}

fn results_string(ctx: &Context, o: OperationRef) -> (r: String)
    requires
        ctx@.operations.contains_key(o),
    ensures
        r@ == results_text(ctx@.operations[o].results),
{
    let ghost n = ctx@.operations[o];
    let data = &ctx.operations[o.index];
    let mut results: Vec<String> = Vec::new();
    let mut i: usize = 0;
    while i < data.results.len()
        invariant
            i <= n.results.len(),
            n.results.len() == data.results@.len(),
            forall|j: int| 0 <= j < n.results.len() ==> #[trigger] n.results[j] == data.results@[j].text(),
            results@.len() == i,
            forall|j: int| 0 <= j < i ==> #[trigger] results@[j]@ == n.results[j],
        decreases n.results.len() - i,
    {
        results.push(data.results[i].text.clone());
        i += 1;
    }
    assert(results@.map_values(|s: String| s@) =~= n.results);
    if results.len() == 1 {
        return data.results[0].text.clone();
    }
    let mut r = String::from_str("(");
    r.append(join_strings(&results, ", ").as_str());
    r.append(")");
    r
}

fn regions_part_string(ctx: &Context, rs: &Vec<RegionRef>, fuel: usize) -> (r: String)
    requires
        ctx.wf(),
        forall|k: int| 0 <= k < rs@.len() ==> ctx@.regions.contains_key(#[trigger] rs@[k]),
    ensures
        r@ == regions_part(ctx@, rs@, fuel as nat),
    decreases fuel, 5nat, 0nat,
{
    if rs.len() == 0 {
        String::new()
    } else if fuel == 0 {
        String::from_str(" (...)")
    } else {
        let mut r = String::from_str(" (");
        r.append(regions_string(ctx, rs, fuel - 1).as_str());
        r.append(")");
        r
    }
}

fn operation_string(ctx: &Context, o: OperationRef, fuel: usize) -> (r: String)
    requires
        ctx.wf(),
        ctx@.operations.contains_key(o),
    ensures
        r@ == operation_text(ctx@, o, fuel as nat),
    decreases fuel, 6nat, 0nat,
{
    let data = &ctx.operations[o.index];
    proof {
        assert forall|k: int| 0 <= k < data.regions@.len() implies ctx@.regions.contains_key(
            #[trigger] data.regions@[k],
        ) by {
            assert(ctx@.regions.contains_key(ctx@.operations[o].regions[k]));
        }
    }
    let (operands, types) = operands_strings(ctx, o);
    let mut r = String::from_str("\"");
    r.append(data.name.as_str());
    r.append("\"(");
    r.append(operands.as_str());
    r.append(")");
    r.append(regions_part_string(ctx, &data.regions, fuel).as_str());
    r.append(attributes_string(ctx, o).as_str());
    r.append(" : (");
    r.append(types.as_str());
    r.append(") -> ");
    r.append(results_string(ctx, o).as_str());
    r.append("\n");
    r
}

fn operations_string(ctx: &Context, ops: &Vec<OperationRef>, fuel: usize) -> (r: String)
    requires
        ctx.wf(),
        forall|k: int| 0 <= k < ops@.len() ==> ctx@.operations.contains_key(#[trigger] ops@[k]),
    ensures
        r@ == operations_text(ctx@, ops@, fuel as nat),
    decreases fuel, 7nat, ops@.len(),
{
    let mut r = String::new();
    let mut i: usize = 0;
    while i < ops.len()
        invariant
            ctx.wf(),
            forall|k: int| 0 <= k < ops@.len() ==> ctx@.operations.contains_key(#[trigger] ops@[k]),
            i <= ops@.len(),
            r@ == operations_text(ctx@, ops@.take(i as int), fuel as nat),
        decreases ops@.len() - i,
    {
        proof {
            assert(ops@.take(i + 1).drop_last() =~= ops@.take(i as int));
            assert(ops@.take(0) =~= Seq::<OperationRef>::empty());
        }
        r.append("  ");
        r.append(operation_string(ctx, ops[i], fuel).as_str());
        i += 1;
    }
    assert(ops@.take(i as int) =~= ops@);
    r
}

fn block_body_string(ctx: &Context, b: BlockRef, fuel: usize) -> (r: String)
    requires
        ctx.wf(),
        ctx@.blocks.contains_key(b),
    ensures
        r@ == block_body_text(ctx@, b, fuel as nat),
    decreases fuel, 8nat, 0nat,
{
    let ghost n = ctx@.blocks[b];
    let data = &ctx.blocks[b.index];
    let ghost fa = |i: int| "%arg"@ + decimal_text(i as nat) + ": "@ + n.arguments[i];
    let mut arguments: Vec<String> = Vec::new();
    let mut i: usize = 0;
    while i < data.arguments.len()
        invariant
            i <= n.arguments.len(),
            n.arguments.len() == data.arguments@.len(),
            forall|j: int| 0 <= j < n.arguments.len() ==> #[trigger] n.arguments[j] == data.arguments@[j].text(),
            fa == (|i: int| "%arg"@ + decimal_text(i as nat) + ": "@ + n.arguments[i]),
            arguments@.len() == i,
            forall|j: int| 0 <= j < i ==> #[trigger] arguments@[j]@ == fa(j),
        decreases n.arguments.len() - i,
    {
        let mut s = String::from_str("%arg");
        s.append(decimal_string(i).as_str());
        s.append(": ");
        s.append(data.arguments[i].text.as_str());
        arguments.push(s);
        i += 1;
    }
    assert(arguments@.map_values(|s: String| s@) =~= Seq::new(n.arguments.len(), fa));
    proof {
        assert forall|k: int| 0 <= k < n.operations.len() implies ctx@.operations.contains_key(
            #[trigger] n.operations[k],
        ) by {
            assert(ctx@.operations.contains_key(ctx@.blocks[b].operations[k]));
        }
    }
    let mut r = String::from_str("^bb(");
    r.append(join_strings(&arguments, ", ").as_str());
    r.append("):\n");
    r.append(operations_string(ctx, &data.operations, fuel).as_str());
    r
}

fn blocks_string(ctx: &Context, bs: &Vec<BlockRef>, fuel: usize) -> (r: String)
    requires
        ctx.wf(),
        forall|k: int| 0 <= k < bs@.len() ==> ctx@.blocks.contains_key(#[trigger] bs@[k]),
    ensures
        r@ == blocks_text(ctx@, bs@, fuel as nat),
    decreases fuel, 9nat, bs@.len(),
{
    let mut r = String::new();
    let mut i: usize = 0;
    while i < bs.len()
        invariant
            ctx.wf(),
            forall|k: int| 0 <= k < bs@.len() ==> ctx@.blocks.contains_key(#[trigger] bs@[k]),
            i <= bs@.len(),
            r@ == blocks_text(ctx@, bs@.take(i as int), fuel as nat),
        decreases bs@.len() - i,
    {
        proof {
            assert(bs@.take(i + 1).drop_last() =~= bs@.take(i as int));
            assert(bs@.take(0) =~= Seq::<BlockRef>::empty());
        }
        r.append(block_body_string(ctx, bs[i], fuel).as_str());
        i += 1;
    }
    assert(bs@.take(i as int) =~= bs@);
    r
}

fn regions_string(ctx: &Context, rs: &Vec<RegionRef>, fuel: usize) -> (r: String)
    requires
        ctx.wf(),
        forall|k: int| 0 <= k < rs@.len() ==> ctx@.regions.contains_key(#[trigger] rs@[k]),
    ensures
        r@ == regions_text(ctx@, rs@, fuel as nat),
    decreases fuel, 10nat, rs@.len(),
{
    let mut r = String::new();
    let mut i: usize = 0;
    while i < rs.len()
        invariant
            ctx.wf(),
            forall|k: int| 0 <= k < rs@.len() ==> ctx@.regions.contains_key(#[trigger] rs@[k]),
            i <= rs@.len(),
            r@ == regions_text(ctx@, rs@.take(i as int), fuel as nat),
        decreases rs@.len() - i,
    {
        proof {
            assert(rs@.take(i + 1).drop_last() =~= rs@.take(i as int));
            assert(rs@.take(0) =~= Seq::<RegionRef>::empty());
            assert(rs@.take(i + 1).last() == rs@[i as int]);
        }
        let blocks = &ctx.regions[rs[i].index].blocks;
        proof {
            assert forall|k: int| 0 <= k < blocks@.len() implies ctx@.blocks.contains_key(
                #[trigger] blocks@[k],
            ) by {
                assert(ctx@.blocks.contains_key(ctx@.regions[rs@[i as int]].blocks[k]));
            }
        }
        let mut piece = if i > 0 {
            String::from_str(", {\n")
        } else {
            String::from_str("{\n")
        };
        piece.append(blocks_string(ctx, blocks, fuel).as_str());
        piece.append("}");
        let ghost prev = r@;
        r.append(piece.as_str());
        proof {
            if i == 0 {
                assert(prev =~= Seq::<char>::empty());
                assert(r@ =~= piece@);
            }
        }
        i += 1;
    }
    assert(rs@.take(i as int) =~= rs@);
    r
}

impl OperationRef {
    /// The generic form of the operation, with everything nested in it.
    pub fn to_string(self, ctx: &Context) -> (r: String)
        requires
            ctx.wf(),
            ctx@.operations.contains_key(self),
        ensures
            r@ == operation_text(ctx@, self, print_depth(ctx)),
    {
        operation_string(ctx, self, ctx.operations.len())
    }

    /// The debugging form: the textual form inside `OperationRef(...)`.
    pub fn to_debug_string(self, ctx: &Context) -> (r: String)
        requires
            ctx.wf(),
            ctx@.operations.contains_key(self),
        ensures
            r@ == "OperationRef(\n"@ + operation_text(ctx@, self, print_depth(ctx)) + ")"@,
    {
        let mut r = String::from_str("OperationRef(\n");
        r.append(self.to_string(ctx).as_str());
        r.append(")");
        r
    }
}

impl BlockRef {
    /// The textual form of the block.
    pub fn to_string(self, ctx: &Context) -> (r: String)
        requires
            ctx.wf(),
            ctx@.blocks.contains_key(self),
        ensures
            r@ == block_text(ctx@, self, print_depth(ctx)),
    {
        if ctx.blocks[self.index].region.is_none() {
            String::from_str("<<UNLINKED BLOCK>>\n")
        } else {
            block_body_string(ctx, self, ctx.operations.len())
        }
    }

    /// The debugging form: the textual form inside `BlockRef(...)`.
    pub fn to_debug_string(self, ctx: &Context) -> (r: String)
        requires
            ctx.wf(),
            ctx@.blocks.contains_key(self),
        ensures
            r@ == "BlockRef(\n"@ + block_text(ctx@, self, print_depth(ctx)) + ")"@,
    {
        let mut r = String::from_str("BlockRef(\n");
        r.append(self.to_string(ctx).as_str());
        r.append(")");
        r
    }
}

} // verus!
