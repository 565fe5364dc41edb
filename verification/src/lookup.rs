//! The injected environment table: a read-only name-to-value lookup.
//!
//! The expander never reads the process environment itself; a caller
//! fills an [`EnvMap`] and hands it in. The table's view is the map
//! from names to values that its entries define, later insertions
//! shadowing earlier ones.

use vstd::prelude::*;

verus! {

/// A table of environment variables: names mapped to values.
pub struct EnvMap {
    entries: Vec<(String, String)>,
}

/// The value the entry list associates with `name`: the value of the
/// latest entry whose name matches, or nothing.
spec fn entries_lookup(es: Seq<(String, String)>, name: Seq<char>) -> Option<Seq<char>>
    decreases es.len(),
{
    if es.len() == 0 {
        None
    } else if es.last().0@ == name {
        Some(es.last().1@)
    } else {
        entries_lookup(es.drop_last(), name)
    }
}

impl View for EnvMap {
    type V = Map<Seq<char>, Seq<char>>;

    closed spec fn view(&self) -> Map<Seq<char>, Seq<char>> {
        Map::new(
            |name: Seq<char>| entries_lookup(self.entries@, name) is Some,
            |name: Seq<char>|
                match entries_lookup(self.entries@, name) {
                    Some(value) => value,
                    None => Seq::<char>::empty(),
                },
        )
    }
}

impl EnvMap {
    /// An empty table: no name has a value.
    pub fn new() -> (m: EnvMap)
        ensures
            m@ == Map::<Seq<char>, Seq<char>>::empty(),
    {
        let m = EnvMap { entries: Vec::new() };
        proof {
            assert(m@ =~= Map::<Seq<char>, Seq<char>>::empty());
        }
        m
    }

    /// Gives `name` the value `value`, shadowing any earlier entry.
    pub fn insert(&mut self, name: String, value: String)
        ensures
            final(self)@ == old(self)@.insert(name@, value@),
    {
        let ghost previous = self.entries@;
        let ghost n = name@;
        let ghost v = value@;
        self.entries.push((name, value));
        proof {
            assert(self.entries@.drop_last() =~= previous);
            assert forall|k: Seq<char>|
                entries_lookup(self.entries@, k) == (if k == n {
                    Some(v)
                } else {
                    entries_lookup(previous, k)
                }) by {
                assert(self.entries@.last().0@ == n);
            }
            assert(self@ =~= old(self)@.insert(n, v));
        }
    }

    /// The value stored for `name`, or nothing when the table holds none.
    pub fn get(&self, name: &str) -> (r: Option<String>)
        ensures
            match r {
                Some(value) => self@.contains_key(name@) && value@ == self@[name@],
                None => !self@.contains_key(name@),
            },
    {
        let mut i = self.entries.len();
        proof {
            assert(self.entries@.subrange(0, i as int) =~= self.entries@);
        }
        while i > 0
            invariant
                i <= self.entries@.len(),
                entries_lookup(self.entries@.subrange(0, i as int), name@) == entries_lookup(
                    self.entries@,
                    name@,
                ),
            decreases i,
        {
            i = i - 1;
            let ghost head = self.entries@.subrange(0, i + 1);
            proof {
                assert(head.last() == self.entries@[i as int]);
                assert(head.drop_last() =~= self.entries@.subrange(0, i as int));
            }
            if str_eq(self.entries[i].0.as_str(), name) {
                let value = self.entries[i].1.clone();
                proof {
                    assert(entries_lookup(head, name@) == Some(value@));
                }
                return Some(value);
            }
        }
        proof {
            assert(self.entries@.subrange(0, 0) =~= Seq::<(String, String)>::empty());
        }
        None
    }
}

/// Whether two string slices hold the same characters.
pub fn str_eq(a: &str, b: &str) -> (r: bool)
    ensures
        r == (a@ == b@),
{
    let na = a.unicode_len();
    let nb = b.unicode_len();
    if na != nb {
        return false;
    }
    let mut k: usize = 0;
    while k < na
        invariant
            na == a@.len(),
            na == b@.len(),
            k <= na,
            forall|m: int| 0 <= m < k ==> a@[m] == b@[m],
        decreases na - k,
    {
        if a.get_char(k) != b.get_char(k) {
            return false;
        }
        k = k + 1;
    }
    proof {
        assert(a@ =~= b@);
    }
    true
}

} // verus!
