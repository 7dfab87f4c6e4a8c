//! The operation builder.
use vstd::prelude::*;

use crate::context::{claim_regions, types_text, Context, OperationNode};
use crate::ir::operation::{Operation, OperationRef};
use crate::ir::region::{Region, RegionRef};
use crate::ir::value::{Attribute, Identifier, Location, Type, Value};

verus! {

/// Gathers the parts of an operation: its name and location, then any number
/// of operands, result types, attributes and regions, in any order.
pub struct Builder {
    name: String,
    location: Location,
    operands: Vec<Value>,
    results: Vec<Type>,
    attributes: Vec<(Identifier, Attribute)>,
    regions: Vec<Region>,
}

impl Builder {
    /// The operation that `build` makes, as the graph will hold it.
    pub closed spec fn node(&self) -> OperationNode {
        OperationNode {
            name: self.name@,
            operands: self.operands@,
            results: types_text(self.results@),
            attributes: self.attributes@.map_values(|a: (Identifier, Attribute)| (a.0.text(), a.1.text())),
            regions: self.regions@.map_values(|r: Region| r@),
            block: None,
        }
    }

    /// A builder for an operation named `name`, with nothing else yet.
    pub fn new(name: &str, location: Location) -> (r: Builder)
        ensures
            r.node() == (OperationNode {
                name: name@,
                operands: Seq::empty(),
                results: Seq::empty(),
                attributes: Seq::empty(),
                regions: Seq::empty(),
                block: None,
            }),
    {
        let r = Builder {
            name: name.to_owned(),
            location,
            operands: Vec::new(),
            results: Vec::new(),
            attributes: Vec::new(),
            regions: Vec::new(),
        };
        assert(r.node().operands =~= Seq::empty());
        assert(r.node().results =~= Seq::empty());
        assert(r.node().attributes =~= Seq::empty());
        assert(r.node().regions =~= Seq::empty());
        r
    }

    /// Adds operands after those already given.
    pub fn add_operands(self, operands: &[Value]) -> (r: Builder)
        ensures
            r.node() == (OperationNode { operands: self.node().operands + operands@, ..self.node() }),
    {
        let mut b = self;
        let mut i: usize = 0;
        while i < operands.len()
            invariant
                i <= operands@.len(),
                b.node() == (OperationNode {
                    operands: self.node().operands + operands@.take(i as int),
                    ..self.node()
                }),
            decreases operands@.len() - i,
        {
            b.operands.push(operands[i]);
            proof {
                assert(operands@.take(i + 1) =~= operands@.take(i as int).push(operands@[i as int]));
                assert(b.node().operands =~= self.node().operands + operands@.take(i + 1));
            }
            i += 1;
        }
        assert(operands@.take(i as int) =~= operands@);
        b
    }

    /// Adds result types after those already given.
    pub fn add_results(self, results: &[Type]) -> (r: Builder)
        ensures
            r.node() == (OperationNode {
                results: self.node().results + types_text(results@),
                ..self.node()
            }),
    {
        let mut b = self;
        let mut i: usize = 0;
        while i < results.len()
            invariant
                i <= results@.len(),
                b.node() == (OperationNode {
                    results: self.node().results + types_text(results@.take(i as int)),
                    ..self.node()
                }),
            decreases results@.len() - i,
        {
            let ghost prev = b.results@;
            b.results.push(Type { text: results[i].text.clone() });
            proof {
                assert(types_text(b.results@) =~= types_text(prev).push(results@[i as int].text()));
                assert(types_text(results@.take(i + 1)) =~= types_text(results@.take(i as int)).push(
                    results@[i as int].text(),
                ));
                assert(b.node().results =~= self.node().results + types_text(results@.take(i + 1)));
            }
            i += 1;
        }
        assert(results@.take(i as int) =~= results@);
        b
    }

    /// Adds attributes after those already given.
    pub fn add_attributes(self, attributes: &[(Identifier, Attribute)]) -> (r: Builder)
        ensures
            r.node() == (OperationNode {
                attributes: self.node().attributes + attributes@.map_values(
                    |a: (Identifier, Attribute)| (a.0.text(), a.1.text()),
                ),
                ..self.node()
            }),
    {
        let ghost f = |a: (Identifier, Attribute)| (a.0.text(), a.1.text());
        let mut b = self;
        let mut i: usize = 0;
        while i < attributes.len()
            invariant
                i <= attributes@.len(),
                f == (|a: (Identifier, Attribute)| (a.0.text(), a.1.text())),
                b.node() == (OperationNode {
                    attributes: self.node().attributes + attributes@.take(i as int).map_values(f),
                    ..self.node()
                }),
            decreases attributes@.len() - i,
        {
            let name = Identifier { text: attributes[i].0.text.clone() };
            let value = Attribute { text: attributes[i].1.text.clone() };
            let ghost prev = b.attributes@;
            b.attributes.push((name, value));
            proof {
                assert(b.attributes@.map_values(f) =~= prev.map_values(f).push(f(attributes@[i as int])));
                assert(attributes@.take(i + 1).map_values(f) =~= attributes@.take(i as int).map_values(
                    f,
                ).push(f(attributes@[i as int])));
                assert(b.node().attributes =~= self.node().attributes + attributes@.take(i + 1).map_values(f));
            }
            i += 1;
        }
        assert(attributes@.take(i as int) =~= attributes@);
        b
    }

    /// Adds regions after those already given; the operation will own them.
    pub fn add_regions(self, regions: Vec<Region>) -> (r: Builder)
        ensures
            r.node() == (OperationNode {
                regions: self.node().regions + regions@.map_values(|x: Region| x@),
                ..self.node()
            }),
    {
        let ghost f = |x: Region| x@;
        let mut b = self;
        let mut rest = regions;
        let ghost all = rest@;
        let ghost mut k: int = 0;
        while rest.len() > 0
            invariant
                0 <= k <= all.len(),
                rest@ == all.skip(k),
                f == (|x: Region| x@),
                b.node() == (OperationNode {
                    regions: self.node().regions + all.take(k).map_values(f),
                    ..self.node()
                }),
            decreases rest@.len(),
        {
            let region = rest.remove(0);
            proof {
                assert(region == all[k]);
                assert(all.skip(k).remove(0) =~= all.skip(k + 1));
                assert(all.take(k + 1).map_values(f) =~= all.take(k).map_values(f).push(f(all[k])));
                k = k + 1;
            }
            let ghost prev = b.regions@;
            b.regions.push(region);
            proof {
                assert(b.regions@.map_values(f) =~= prev.map_values(f).push(f(all[k - 1])));
                assert(b.node().regions =~= self.node().regions + all.take(k).map_values(f));
            }
        }
        proof {
            assert(all.skip(k).len() == 0);
            assert(all.take(k) =~= all);
        }
        b
    }

    /// Makes the operation the builder describes. It is new, no block holds
    /// it, and it takes ownership of the gathered regions.
    pub fn build(self, ctx: &mut Context) -> (r: Operation)
        requires
            old(ctx).wf(),
            self.node().regions.no_duplicates(),
            forall|i: int|
                0 <= i < self.node().regions.len() ==> old(ctx)@.regions.contains_key(
                    #[trigger] self.node().regions[i],
                ) && old(ctx)@.regions[self.node().regions[i]].operation is None,
        ensures
            final(ctx).wf(),
            !old(ctx)@.operations.contains_key(r@),
            final(ctx)@ == old(ctx)@.add_operation(r@, self.node()),
            self.node().block is None,
    {
        let ghost g0 = ctx@;
        let ghost node = self.node();
        let ghost rs = node.regions;
        let Builder { name, location, operands, results, attributes, regions } = self;
        let o = ctx.create_operation(name, location, operands, results, attributes);
        proof {
            assert(claim_regions(g0.regions, rs.take(0), o) =~= g0.regions);
            assert(rs.take(0) =~= Seq::<RegionRef>::empty());
        }
        let mut i: usize = 0;
        while i < regions.len()
            invariant
                ctx.wf(),
                i <= regions@.len(),
                rs == regions@.map_values(|x: Region| x@),
                rs.no_duplicates(),
                forall|j: int|
                    0 <= j < rs.len() ==> g0.regions.contains_key(#[trigger] rs[j])
                        && g0.regions[rs[j]].operation is None,
                !g0.operations.contains_key(o),
                ctx@.operations == g0.operations.insert(o, OperationNode { regions: rs.take(i as int), ..node }),
                ctx@.blocks == g0.blocks,
                ctx@.regions == claim_regions(g0.regions, rs.take(i as int), o),
            decreases regions@.len() - i,
        {
            let h = regions[i].handle;
            proof {
                assert(rs[i as int] == h);
                if rs.take(i as int).contains(h) {
                    let j = choose|j: int| 0 <= j < i && rs.take(i as int)[j] == h;
                    assert(rs[j] == rs[i as int]);
                }
            }
            ctx.attach_region(o, h);
            proof {
                assert(rs.take(i + 1) =~= rs.take(i as int).push(h));
                assert(ctx@.operations =~= g0.operations.insert(
                    o,
                    OperationNode { regions: rs.take(i + 1), ..node },
                ));
                assert(ctx@.regions =~= claim_regions(g0.regions, rs.take(i + 1), o));
            }
            i += 1;
        }
        proof {
            assert(rs.take(i as int) =~= rs);
            assert(node == OperationNode { regions: rs, ..node });
            assert(ctx@ == g0.add_operation(o, node));
        }
        Operation { handle: o }
    }
}

} // verus!
