//! Registration of dialects, translations and passes.
use vstd::prelude::*;

use crate::context::Context;
use crate::dialect::{standard_dialects, DialectRegistry};
use crate::names::NameSet;

verus! {

/// The passes that `register_all_passes` registers.
pub open spec fn standard_passes() -> Set<Seq<char>> {
    set![
        "canonicalize"@,
        "cse"@,
        "inline"@,
        "print-op-stats"@,
        "sccp"@,
        "symbol-dce"@,
        "loop-invariant-code-motion"@,
    ]
}

/// The passes that pass pipelines can name.
pub struct PassRegistry {
    names: NameSet,
}

impl PassRegistry {
    /// The names of the registered passes.
    pub closed spec fn view(&self) -> Set<Seq<char>> {
        self.names@
    }

    /// A registry with no passes.
    pub fn new() -> (r: PassRegistry)
        ensures
            r@ == Set::<Seq<char>>::empty(),
    {
        PassRegistry { names: NameSet::new() }
    }

    /// Whether the pass `name` is registered.
    pub fn contains(&self, name: &str) -> (r: bool)
        ensures
            r == self@.contains(name@),
    {
        self.names.contains(name)
    }
}

/// Registers all standard dialects to a dialect registry.
pub fn register_all_dialects(registry: &mut DialectRegistry)
    ensures
        final(registry)@ == old(registry)@.union(standard_dialects()),
{
    registry.register_standard_dialects();
}

/// Registers the translations from the other dialects to the `llvm` dialect.
pub fn register_all_llvm_translations(context: &mut Context)
    ensures
        final(context).llvm_translations_registered(),
        final(context)@ == old(context)@,
        final(context).registered_dialects() == old(context).registered_dialects(),
        final(context).loaded_dialects() == old(context).loaded_dialects(),
{
    context.llvm_translations = true;
}

/// Registers all standard passes; registering again changes nothing.
pub fn register_all_passes(registry: &mut PassRegistry)
    ensures
        final(registry)@ == old(registry)@.union(standard_passes()),
{
    let ghost start = registry@;
    registry.names.insert("canonicalize");
    registry.names.insert("cse");
    registry.names.insert("inline");
    registry.names.insert("print-op-stats");
    registry.names.insert("sccp");
    registry.names.insert("symbol-dce");
    registry.names.insert("loop-invariant-code-motion");
    assert(registry@ =~= start.union(standard_passes()));
}

/// Registers the pass that prints operation statistics.
pub fn register_print_operation_stats(registry: &mut PassRegistry)
    ensures
        final(registry)@ == old(registry)@.insert("print-op-stats"@),
{
    registry.names.insert("print-op-stats");
}

/// Registers the common subexpression elimination pass.
pub fn register_cse(registry: &mut PassRegistry)
    ensures
        final(registry)@ == old(registry)@.insert("cse"@),
{
    registry.names.insert("cse");
}

} // verus!
