//! The single global variable scope: a mutable mapping from identifier name
//! to runtime value. Redeclaration silently overwrites: the last write to a
//! name wins.

use vstd::prelude::*;

use crate::interpreter::Value;
use crate::interpreter::ValueView;

verus! {

/// The mapping an entry list denotes: later entries shadow earlier ones.
pub open spec fn entries_map(s: Seq<(String, Value)>) -> Map<Seq<char>, ValueView>
    decreases s.len(),
{
    if s.len() == 0 {
        Map::empty()
    } else {
        entries_map(s.drop_last()).insert(s.last().0@, s.last().1@)
    }
}

/// A name that no entry carries is not in the denoted mapping.
proof fn lemma_entries_map_absent(s: Seq<(String, Value)>, key: Seq<char>)
    requires
        forall|j: int| 0 <= j < s.len() ==> s[j].0@ != key,
    ensures
        !entries_map(s).contains_key(key),
    decreases s.len(),
{
    if s.len() > 0 {
        lemma_entries_map_absent(s.drop_last(), key);
    }
}

/// The last entry carrying a name decides its value in the denoted mapping.
proof fn lemma_entries_map_found(s: Seq<(String, Value)>, k: int)
    requires
        0 <= k < s.len(),
        forall|j: int| k < j < s.len() ==> s[j].0@ != s[k].0@,
    ensures
        entries_map(s).contains_key(s[k].0@),
        entries_map(s)[s[k].0@] == s[k].1@,
    decreases s.len(),
{
    if k < s.len() - 1 {
        let t = s.drop_last();
        lemma_entries_map_found(t, k);
    }
}

/// A single mapping from variable name to value, read by identifier
/// evaluation and written by variable declarations.
pub struct Environment {
    map: Vec<(String, Value)>,
}

impl View for Environment {
    type V = Map<Seq<char>, ValueView>;

    closed spec fn view(&self) -> Map<Seq<char>, ValueView> {
        entries_map(self.map@)
    }
}

impl Environment {
    /// An empty scope.
    pub fn new() -> (r: Environment)
        ensures
            r@ == Map::<Seq<char>, ValueView>::empty(),
    {
        let r = Environment { map: Vec::new() };
        proof {
            assert(r.map@.len() == 0);
        }
        r
    }

    /// Binds `identifier` to `value`, overwriting any prior binding of the
    /// same name.
    pub fn put(&mut self, identifier: String, value: Value)
        ensures
            final(self)@ == old(self)@.insert(identifier@, value@),
    {
        let ghost id_view = identifier@;
        let ghost val_view = value@;
        self.map.push((identifier, value));
        proof {
            assert(self.map@.drop_last() =~= old(self).map@);
            assert(self.map@.last().0@ == id_view);
            assert(self.map@.last().1@ == val_view);
        }
    }

    /// Looks a name up: the value of its most recent binding, or nothing.
    pub fn get(&self, identifier: &String) -> (r: Option<&Value>)
        ensures
            match r {
                Some(v) => self@.contains_key(identifier@) && v@ == self@[identifier@],
                None => !self@.contains_key(identifier@),
            },
    {
        let mut k = self.map.len();
        while k > 0
            invariant
                k <= self.map@.len(),
                forall|j: int| k <= j < self.map@.len() ==> self.map@[j].0@ != identifier@,
            decreases k,
        {
            k = k - 1;
            let entry = &self.map[k];
            if entry.0.eq(identifier) {
                proof {
                    lemma_entries_map_found(self.map@, k as int);
                }
                return Some(&entry.1);
            }
        }
        proof {
            lemma_entries_map_absent(self.map@, identifier@);
        }
        None
    }
}

} // verus!
