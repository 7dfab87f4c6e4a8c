//! Sets of names, kept in order of first insertion.
use vstd::prelude::*;

verus! {

/// A set of names.
pub struct NameSet {
    names: Vec<String>,
}

impl NameSet {
    /// The names in the set.
    pub closed spec fn view(&self) -> Set<Seq<char>> {
        Set::new(|n: Seq<char>| exists|i: int| 0 <= i < self.names@.len() && self.names@[i]@ == n)
    }

    /// The empty set.
    pub fn new() -> (r: NameSet)
        ensures
            r@ == Set::<Seq<char>>::empty(),
    {
        let r = NameSet { names: Vec::new() };
        assert(r@ =~= Set::<Seq<char>>::empty());
        r
    }

    /// Whether `name` is in the set.
    pub fn contains(&self, name: &str) -> (r: bool)
        ensures
            r == self@.contains(name@),
    {
        let wanted = String::from_str(name);
        let mut i: usize = 0;
        while i < self.names.len()
            invariant
                i <= self.names@.len(),
                wanted@ == name@,
                forall|j: int| 0 <= j < i ==> self.names@[j]@ != name@,
            decreases self.names@.len() - i,
        {
            if self.names[i] == wanted {
                return true;
            }
            i += 1;
        }
        false
    }

    /// Adds `name`; nothing changes when it is already there.
    pub fn insert(&mut self, name: &str)
        ensures
            final(self)@ == old(self)@.insert(name@),
    {
        if self.contains(name) {
            assert(self@ =~= self@.insert(name@));
            return;
        }
        let ghost before = self@;
        let ghost old_names = self.names@;
        self.names.push(String::from_str(name));
        assert forall|n: Seq<char>| self@.contains(n) <==> before.insert(name@).contains(n) by {
            if before.contains(n) {
                let i = choose|i: int| 0 <= i < old_names.len() && old_names[i]@ == n;
                assert(self.names@[i]@ == n);
            }
            if n == name@ {
                assert(self.names@[old_names.len() as int]@ == n);
            }
            if self@.contains(n) && n != name@ {
                let i = choose|i: int| 0 <= i < self.names@.len() && self.names@[i]@ == n;
                assert(i < old_names.len());
                assert(old_names[i]@ == n);
            }
        }
        assert(self@ =~= before.insert(name@));
    }

    /// Adds every name of `other`.
    pub fn extend(&mut self, other: &NameSet)
        ensures
            final(self)@ == old(self)@.union(other@),
    {
        let ghost start = self@;
        let mut i: usize = 0;
        while i < other.names.len()
            invariant
                i <= other.names@.len(),
                self@ == start.union(
                    Set::new(|n: Seq<char>| exists|j: int| 0 <= j < i && other.names@[j]@ == n),
                ),
            decreases other.names@.len() - i,
        {
            let ghost prev = self@;
            self.insert(other.names[i].as_str());
            proof {
                let a = Set::new(|n: Seq<char>| exists|j: int| 0 <= j < i && other.names@[j]@ == n);
                let b = Set::new(|n: Seq<char>| exists|j: int| 0 <= j < i + 1 && other.names@[j]@ == n);
                assert forall|n: Seq<char>| b.contains(n) <==> a.insert(other.names@[i as int]@).contains(n) by {
                    if b.contains(n) && n != other.names@[i as int]@ {
                        let j = choose|j: int| 0 <= j < i + 1 && other.names@[j]@ == n;
                        assert(j < i);
                    }
                    if a.contains(n) {
                        let j = choose|j: int| 0 <= j < i && other.names@[j]@ == n;
                        assert(0 <= j < i + 1);
                    }
                }
                assert(b =~= a.insert(other.names@[i as int]@));
                assert(self@ =~= start.union(b));
            }
            i += 1;
        }
        assert(Set::new(|n: Seq<char>| exists|j: int| 0 <= j < i && other.names@[j]@ == n) =~= other@);
    }
}

} // verus!
