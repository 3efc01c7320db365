use vstd::prelude::*;
use crate::atom::Atom;

verus! {

/// The binding of `k` in a list of bindings: the last entry under that name.
pub open spec fn lookup(e: Seq<(String, Atom)>, k: Seq<char>) -> Option<Atom>
    decreases e.len(),
{
    if e.len() == 0 {
        None
    } else if e.last().0@ == k {
        Some(e.last().1)
    } else {
        lookup(e.drop_last(), k)
    }
}

/// Replacing the last entry under a name rebinds that name and no other.
proof fn lemma_lookup_update(e: Seq<(String, Atom)>, i: int, name: String, v: Atom, k: Seq<char>)
    requires
        0 <= i < e.len(),
        e[i].0@ == name@,
        forall|j: int| i < j < e.len() ==> e[j].0@ != name@,
    ensures
        lookup(e.update(i, (name, v)), k) == (if k == name@ {
            Some(v)
        } else {
            lookup(e, k)
        }),
    decreases e.len(),
{
    let u = e.update(i, (name, v));
    if i == e.len() - 1 {
        assert(u.drop_last() == e.drop_last());
    } else {
        assert(u.drop_last() == e.drop_last().update(i, (name, v)));
        lemma_lookup_update(e.drop_last(), i, name, v, k);
    }
}

/// One scope frame: a mapping from names to values.
#[derive(Debug)]
pub struct VarDecls {
    pub entries: Vec<(String, Atom)>,
}

impl VarDecls {
    pub open spec fn get_spec(&self, k: Seq<char>) -> Option<Atom> {
        lookup(self.entries@, k)
    }

    pub fn new() -> (r: VarDecls)
        ensures
            forall|k: Seq<char>| r.get_spec(k) is None,
    {
        VarDecls { entries: Vec::new() }
    }

    /// The value bound to `name`, if any.
    pub fn get(&self, name: &String) -> (r: Option<Atom>)
        ensures
            r == self.get_spec(name@),
    {
        let mut i = self.entries.len();
        assert(self.entries@.subrange(0, i as int) == self.entries@);
        while i > 0
            invariant
                i <= self.entries@.len(),
                lookup(self.entries@, name@) == lookup(self.entries@.subrange(0, i as int), name@),
            decreases i,
        {
            let ghost pre = self.entries@.subrange(0, i as int);
            assert(pre.drop_last() == self.entries@.subrange(0, i - 1));
            if self.entries[i - 1].0 == *name {
                return Some(self.entries[i - 1].1.duplicate());
            }
            i = i - 1;
        }
        None
    }

    /// Binds `name` to `value`, replacing an earlier binding of the name.
    pub fn insert(&mut self, name: String, value: Atom)
        ensures
            forall|k: Seq<char>|
                #[trigger] final(self).get_spec(k) == (if k == name@ {
                    Some(value)
                } else {
                    old(self).get_spec(k)
                }),
    {
        let mut i = self.entries.len();
        while i > 0
            invariant
                i <= self.entries@.len(),
                self.entries == old(self).entries,
                forall|j: int| i <= j < self.entries@.len() ==> self.entries@[j].0@ != name@,
            decreases i,
        {
            if self.entries[i - 1].0 == name {
                let ghost e = self.entries@;
                self.entries.set(i - 1, (name, value));
                proof {
                    assert forall|k: Seq<char>| #[trigger]
                        lookup(self.entries@, k) == (if k == name@ {
                            Some(value)
                        } else {
                            lookup(e, k)
                        }) by {
                        lemma_lookup_update(e, i - 1, name, value, k);
                    }
                }
                return;
            }
            i = i - 1;
        }
        let ghost e = self.entries@;
        self.entries.push((name, value));
        assert(self.entries@.drop_last() == e);
    }
}

} // verus!
