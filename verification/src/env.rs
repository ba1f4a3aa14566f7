//! The variable environment: a mapping from identifier names to the value
//! last assigned to them.
//!
//! The environment is owned by one evaluator instance, starts empty, and is
//! mutated only by assignments. It is stored as a list of entries with
//! pairwise distinct names and is viewed abstractly as a finite map from a
//! name (a sequence of characters) to a value model.

use crate::value::{Value, ValueModel};
use vstd::prelude::*;

verus! {

/// The abstract content of an environment.
pub type EnvModel = Map<Seq<char>, ValueModel>;

/// The variable bindings of one evaluator instance.
pub struct Env {
    entries: Vec<(String, Value)>,
}

/// The map an entry list denotes; later entries would win, but a
/// well-formed environment never binds a name twice.
spec fn entries_map(s: Seq<(String, Value)>) -> EnvModel
    decreases s.len(),
{
    if s.len() == 0 {
        Map::empty()
    } else {
        entries_map(s.drop_last()).insert(s.last().0@, s.last().1@)
    }
}

/// No two entries bind the same name.
spec fn unique_keys(s: Seq<(String, Value)>) -> bool {
    forall|i: int, j: int| 0 <= i < j < s.len() ==> s[i].0@ != s[j].0@
}

/// A name is in the denoted map exactly when some entry binds it.
proof fn lemma_map_domain(s: Seq<(String, Value)>, n: Seq<char>)
    ensures
        entries_map(s).contains_key(n) <==> exists|i: int| 0 <= i < s.len() && s[i].0@ == n,
    decreases s.len(),
{
    if s.len() > 0 {
        lemma_map_domain(s.drop_last(), n);
        if s.last().0@ == n {
            assert(s[s.len() - 1].0@ == n);
        } else {
            if entries_map(s).contains_key(n) {
                let i = choose|i: int| 0 <= i < s.drop_last().len() && s.drop_last()[i].0@ == n;
                assert(s[i].0@ == n);
            }
            if exists|i: int| 0 <= i < s.len() && s[i].0@ == n {
                let i = choose|i: int| 0 <= i < s.len() && s[i].0@ == n;
                assert(i < s.len() - 1);
                assert(s.drop_last()[i].0@ == n);
            }
        }
    }
}

/// Dropping the last entry keeps the remaining names pairwise distinct.
proof fn lemma_unique_drop_last(s: Seq<(String, Value)>)
    requires
        unique_keys(s),
        s.len() > 0,
    ensures
        unique_keys(s.drop_last()),
{
    assert forall|i: int, j: int|
        0 <= i < j < s.drop_last().len() implies s.drop_last()[i].0@ != s.drop_last()[j].0@ by {
        assert(s.drop_last()[i] == s[i]);
        assert(s.drop_last()[j] == s[j]);
    }
}

/// With pairwise distinct names, the entry that binds a name gives the
/// value the denoted map holds for it.
proof fn lemma_map_at(s: Seq<(String, Value)>, i: int, n: Seq<char>)
    requires
        unique_keys(s),
        0 <= i < s.len(),
        s[i].0@ == n,
    ensures
        entries_map(s).contains_key(n),
        entries_map(s)[n] == s[i].1@,
    decreases s.len(),
{
    if i == s.len() - 1 {
    } else {
        assert(s.last().0@ != n);
        lemma_unique_drop_last(s);
        assert(s.drop_last()[i] == s[i]);
        lemma_map_at(s.drop_last(), i, n);
    }
}

/// Overwriting the entry that binds a name denotes an insert of that name.
proof fn lemma_map_update(s: Seq<(String, Value)>, i: int, p: (String, Value))
    requires
        unique_keys(s),
        0 <= i < s.len(),
        s[i].0@ == p.0@,
    ensures
        unique_keys(s.update(i, p)),
        entries_map(s.update(i, p)) == entries_map(s).insert(p.0@, p.1@),
    decreases s.len(),
{
    let t = s.update(i, p);
    assert forall|j: int| 0 <= j < s.len() implies t[j].0@ == s[j].0@ by {
        if j != i {
            assert(t[j] == s[j]);
        }
    }
    if i == s.len() - 1 {
        assert(t.drop_last() =~= s.drop_last());
        assert(entries_map(s).insert(p.0@, p.1@) =~= entries_map(s.drop_last()).insert(
            p.0@,
            p.1@,
        ));
    } else {
        assert(s.last().0@ != p.0@);
        lemma_unique_drop_last(s);
        assert(t.drop_last() =~= s.drop_last().update(i, p));
        lemma_map_update(s.drop_last(), i, p);
        assert(entries_map(t) == entries_map(s.drop_last()).insert(p.0@, p.1@).insert(
            t.last().0@,
            t.last().1@,
        ));
        assert(entries_map(s.drop_last()).insert(p.0@, p.1@).insert(s.last().0@, s.last().1@)
            =~= entries_map(s).insert(p.0@, p.1@));
    }
}

/// Appending an entry for a fresh name denotes an insert of that name.
proof fn lemma_map_push(s: Seq<(String, Value)>, p: (String, Value))
    requires
        unique_keys(s),
        forall|i: int| 0 <= i < s.len() ==> s[i].0@ != p.0@,
    ensures
        unique_keys(s.push(p)),
        entries_map(s.push(p)) == entries_map(s).insert(p.0@, p.1@),
{
    let t = s.push(p);
    assert(t.drop_last() =~= s);
    assert(t.last() == p);
    assert forall|i: int, j: int| 0 <= i < j < t.len() implies t[i].0@ != t[j].0@ by {
        if j < s.len() {
            assert(t[i] == s[i]);
            assert(t[j] == s[j]);
        } else {
            assert(t[i] == s[i]);
            assert(t[j] == p);
        }
    }
}

impl View for Env {
    type V = EnvModel;

    closed spec fn view(&self) -> EnvModel {
        entries_map(self.entries@)
    }
}

impl Env {
    /// Well-formed: no name is bound by two entries.
    pub closed spec fn wf(&self) -> bool {
        unique_keys(self.entries@)
    }

    /// An empty environment: nothing is bound.
    pub fn new() -> (r: Env)
        ensures
            r.wf(),
            r@ == Map::<Seq<char>, ValueModel>::empty(),
    {
        Env { entries: Vec::new() }
    }

    /// The index of the entry binding `name`, if any entry does.
    fn find(&self, name: &String) -> (r: Option<usize>)
        ensures
            (match r {
                Some(i) => i < self.entries@.len() && self.entries@[i as int].0@ == name@,
                None => forall|j: int|
                    0 <= j < self.entries@.len() ==> self.entries@[j].0@ != name@,
            }),
    {
        let n = self.entries.len();
        let mut i: usize = 0;
        while i < n
            invariant
                i <= n,
                n == self.entries@.len(),
                forall|j: int| 0 <= j < i ==> self.entries@[j].0@ != name@,
            decreases n - i,
        {
            if self.entries[i].0 == *name {
                return Some(i);
            }
            i = i + 1;
        }
        None
    }

    /// Looks a name up. Returns the last value assigned to it, and nothing
    /// when the name was never assigned: there is no default binding.
    pub fn get(&self, name: &String) -> (r: Option<&Value>)
        requires
            self.wf(),
        ensures
            (match r {
                Some(v) => self@.contains_key(name@) && v@ == self@[name@],
                None => !self@.contains_key(name@),
            }),
    {
        match self.find(name) {
            Some(i) => {
                proof {
                    lemma_map_at(self.entries@, i as int, name@);
                }
                Some(&self.entries[i].1)
            },
            None => {
                proof {
                    lemma_map_domain(self.entries@, name@);
                }
                None
            },
        }
    }

    /// Binds `name` to `v`: creates the binding or overwrites the old one.
    pub fn set(&mut self, name: String, v: Value)
        requires
            old(self).wf(),
        ensures
            final(self).wf(),
            final(self)@ == old(self)@.insert(name@, v@),
    {
        match self.find(&name) {
            Some(i) => {
                proof {
                    lemma_map_update(self.entries@, i as int, (name, v));
                }
                self.entries.set(i, (name, v));
            },
            None => {
                proof {
                    lemma_map_push(self.entries@, (name, v));
                }
                self.entries.push((name, v));
            },
        }
    }
}

} // verus!
