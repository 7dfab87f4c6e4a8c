//! What the library knows of the operations of the standard dialects.
use vstd::prelude::*;

use crate::context::Context;
use crate::names::NameSet;

verus! {

/// Whether an operation named `name` ends the control flow of its block.
pub open spec fn terminator_name(name: Seq<char>) -> bool {
    ||| name == "func.return"@
    ||| name == "cf.br"@
    ||| name == "cf.cond_br"@
    ||| name == "cf.switch"@
    ||| name == "scf.yield"@
    ||| name == "scf.condition"@
    ||| name == "affine.yield"@
    ||| name == "llvm.return"@
    ||| name == "llvm.br"@
    ||| name == "llvm.cond_br"@
    ||| name == "llvm.unreachable"@
}

/// Whether an operation named `name` ends the control flow of its block.
pub fn is_terminator(name: &String) -> (r: bool)
    ensures
        r == terminator_name(name@),
{
    let names = [
        "func.return",
        "cf.br",
        "cf.cond_br",
        "cf.switch",
        "scf.yield",
        "scf.condition",
        "affine.yield",
        "llvm.return",
        "llvm.br",
        "llvm.cond_br",
        "llvm.unreachable",
    ];
    let mut found = false;
    let mut i: usize = 0;
    while i < 11
        invariant
            i <= 11,
            names@ == seq![
                "func.return",
                "cf.br",
                "cf.cond_br",
                "cf.switch",
                "scf.yield",
                "scf.condition",
                "affine.yield",
                "llvm.return",
                "llvm.br",
                "llvm.cond_br",
                "llvm.unreachable",
            ],
            found == exists|j: int| 0 <= j < i && name@ == (#[trigger] names@[j])@,
        decreases 11 - i,
    {
        if *name == String::from_str(names[i]) {
            found = true;
        }
        i += 1;
    }
    found
}

/// The dialects that `register_all_dialects` registers.
pub open spec fn standard_dialects() -> Set<Seq<char>> {
    set![
        "func"@,
        "arith"@,
        "cf"@,
        "scf"@,
        "memref"@,
        "affine"@,
        "math"@,
        "tensor"@,
        "index"@,
        "llvm"@,
    ]
}

/// A set of dialects that a context can be given to load.
pub struct DialectRegistry {
    pub(crate) names: NameSet,
}

impl DialectRegistry {
    /// The dialects in the registry.
    pub open(crate) spec fn view(&self) -> Set<Seq<char>> {
        self.names@
    }

    /// An empty registry.
    pub fn new() -> (r: DialectRegistry)
        ensures
            r@ == Set::<Seq<char>>::empty(),
    {
        DialectRegistry { names: NameSet::new() }
    }

    /// Adds every standard dialect; registering twice changes nothing more.
    pub fn register_standard_dialects(&mut self)
        ensures
            final(self)@ == old(self)@.union(standard_dialects()),
    {
        let ghost start = self@;
        self.names.insert("func");
        self.names.insert("arith");
        self.names.insert("cf");
        self.names.insert("scf");
        self.names.insert("memref");
        self.names.insert("affine");
        self.names.insert("math");
        self.names.insert("tensor");
        self.names.insert("index");
        self.names.insert("llvm");
        assert(self@ =~= start.union(standard_dialects()));
    }
}

impl Context {
    /// Makes the dialects of `registry` available to the context.
    pub fn append_dialect_registry(&mut self, registry: &DialectRegistry)
        ensures
            final(self)@ == old(self)@,
            final(self).registered_dialects() == old(self).registered_dialects().union(registry@),
            final(self).loaded_dialects() == old(self).loaded_dialects(),
            final(self).llvm_translations_registered() == old(self).llvm_translations_registered(),
    {
        self.registered_dialects.extend(&registry.names);
    }

    /// Loads the dialect `name` when it is loaded or available already;
    /// says whether it is loaded now.
    pub fn get_or_load_dialect(&mut self, name: &str) -> (r: bool)
        ensures
            r == (old(self).loaded_dialects().contains(name@) || old(self).registered_dialects().contains(
                name@,
            )),
            final(self)@ == old(self)@,
            final(self).registered_dialects() == old(self).registered_dialects(),
            final(self).loaded_dialects() == if r {
                old(self).loaded_dialects().insert(name@)
            } else {
                old(self).loaded_dialects()
            },
            final(self).llvm_translations_registered() == old(self).llvm_translations_registered(),
    {
        if self.loaded_dialects.contains(name) {
            proof {
                assert(self.loaded_dialects@ =~= self.loaded_dialects@.insert(name@));
            }
            true
        } else if self.registered_dialects.contains(name) {
            self.loaded_dialects.insert(name);
            true
        } else {
            false
        }
    }

    /// Loads every dialect that is available.
    pub fn load_all_available_dialects(&mut self)
        ensures
            final(self)@ == old(self)@,
            final(self).registered_dialects() == old(self).registered_dialects(),
            final(self).loaded_dialects() == old(self).loaded_dialects().union(old(self).registered_dialects()),
            final(self).llvm_translations_registered() == old(self).llvm_translations_registered(),
    {
        self.loaded_dialects.extend(&self.registered_dialects);
    }
}

} // verus!
