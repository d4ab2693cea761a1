//! The symbol table shared by the two state containers.
//!
//! A [`SymbolTable`] maps identifier strings to values of any kind. Its view
//! is a mathematical map from character sequences to values; an insert for an
//! identifier that is already present replaces the earlier binding (last
//! write wins), and lookup consults the most recent binding.

use vstd::prelude::*;

verus! {

/// The map described by a sequence of bindings, later bindings shadowing
/// earlier ones for the same identifier.
pub open spec fn map_of<V>(entries: Seq<(String, V)>) -> Map<Seq<char>, V>
    decreases entries.len(),
{
    if entries.len() == 0 {
        Map::empty()
    } else {
        map_of(entries.drop_last()).insert(entries.last().0@, entries.last().1)
    }
}

/// A mapping from identifiers to values, keys unique in the view, the value
/// for an identifier overwritten on re-assignment.
#[derive(Debug)]
pub struct SymbolTable<V> {
    entries: Vec<(String, V)>,
}

impl<V> View for SymbolTable<V> {
    type V = Map<Seq<char>, V>;

    closed spec fn view(&self) -> Map<Seq<char>, V> {
        map_of(self.entries@)
    }
}

impl<V> SymbolTable<V> {
    /// Creates an empty table.
    pub fn new() -> (r: SymbolTable<V>)
        ensures
            r@ == Map::<Seq<char>, V>::empty(),
    {
        let r = SymbolTable { entries: Vec::new() };
        proof {
            assert(r.entries@.len() == 0);
        }
        r
    }

    /// Binds `key` to `value`, replacing any earlier binding for `key`.
    pub fn insert(&mut self, key: String, value: V)
        ensures
            final(self)@ == old(self)@.insert(key@, value),
    {
        let ghost before = self.entries@;
        self.entries.push((key, value));
        proof {
            assert(self.entries@.drop_last() =~= before);
        }
    }

    /// Returns the value bound to `key`, or `None` when `key` was never
    /// bound. Absence is a valid outcome at this layer, not an error.
    pub fn lookup(&self, key: &String) -> (r: Option<&V>)
        ensures
            match r {
                Some(v) => self@.contains_key(key@) && *v == self@[key@],
                None => !self@.contains_key(key@),
            },
    {
        let mut j: usize = self.entries.len();
        proof {
            assert(self.entries@.take(j as int) =~= self.entries@);
        }
        while j > 0
            invariant
                j <= self.entries@.len(),
                self@.contains_key(key@) == map_of(self.entries@.take(j as int)).contains_key(
                    key@,
                ),
                map_of(self.entries@.take(j as int)).contains_key(key@) ==> map_of(
                    self.entries@.take(j as int),
                )[key@] == self@[key@],
            decreases j,
        {
            j = j - 1;
            proof {
                assert(self.entries@.take(j as int + 1).drop_last() =~= self.entries@.take(
                    j as int,
                ));
                assert(self.entries@.take(j as int + 1).last() == self.entries@[j as int]);
            }
            if self.entries[j].0 == *key {
                return Some(&self.entries[j].1);
            }
        }
        None
    }
}

/// Last write wins: inserting a binding for `x` and looking it up yields that
/// binding, and inserting again for `x` replaces the earlier binding, leaving
/// every other identifier untouched. This holds for any value type, so for
/// the compile-time table of descriptors and the runtime table of values
/// alike.
pub proof fn lemma_last_write_wins<V>(m: Map<Seq<char>, V>, x: Seq<char>, v1: V, v2: V)
    ensures
        m.insert(x, v1).contains_key(x),
        m.insert(x, v1)[x] == v1,
        m.insert(x, v1).insert(x, v2) == m.insert(x, v2),
{
    assert(m.insert(x, v1).insert(x, v2) =~= m.insert(x, v2));
}

} // verus!
