use vstd::prelude::*;

use crate::values::{dup_bytes, CellVal, CellValue};

verus! {

/// The mapping that a sequence of bindings denotes: a later binding for a
/// key overrides every earlier one.
pub open spec fn entries_map(s: Seq<(Vec<u8>, CellValue)>) -> Map<Seq<u8>, CellVal>
    decreases s.len(),
{
    if s.len() == 0 {
        Map::empty()
    } else {
        entries_map(s.drop_last()).insert(s.last().0@, s.last().1@)
    }
}

/// Replacing the value at the last binding of a key denotes the same
/// mapping as inserting that key anew.
proof fn lemma_entries_map_update(s: Seq<(Vec<u8>, CellValue)>, j: int, e: (Vec<u8>, CellValue))
    requires
        0 <= j < s.len(),
        s[j].0@ == e.0@,
        forall|t: int| j < t < s.len() ==> s[t].0@ != e.0@,
    ensures
        entries_map(s.update(j, e)) == entries_map(s).insert(e.0@, e.1@),
    decreases s.len(),
{
    let s2 = s.update(j, e);
    if j == s.len() - 1 {
        assert(s2.drop_last() =~= s.drop_last());
        assert(s2.last() == e);
        assert(entries_map(s).insert(e.0@, e.1@) =~= entries_map(s2));
    } else {
        assert(s2.last() == s.last());
        assert(s2.drop_last() =~= s.drop_last().update(j, e));
        lemma_entries_map_update(s.drop_last(), j, e);
        assert(entries_map(s).insert(e.0@, e.1@) =~= entries_map(s2));
    }
}

/// The authoritative mapping from cell identifier to resolved value.
///
/// Bindings are kept in insertion order; an overwrite replaces the value of
/// the key's binding in place. The store holds only resolved values, never
/// formula text.
pub struct CellStore {
    entries: Vec<(Vec<u8>, CellValue)>,
}

impl View for CellStore {
    type V = Map<Seq<u8>, CellVal>;

    closed spec fn view(&self) -> Map<Seq<u8>, CellVal> {
        entries_map(self.entries@)
    }
}

/// Whether two byte slices hold the same bytes.
pub fn bytes_eq(a: &[u8], b: &[u8]) -> (r: bool)
    ensures
        r == (a@ == b@),
{
    if a.len() != b.len() {
        proof {
            assert(a@ != b@) by {
                assert(a@.len() != b@.len());
            }
        }
        return false;
    }
    let mut i: usize = 0;
    while i < a.len()
        invariant
            i <= a@.len(),
            a@.len() == b@.len(),
            forall|k: int| 0 <= k < i ==> a@[k] == b@[k],
        decreases a@.len() - i,
    {
        if a[i] != b[i] {
            return false;
        }
        i = i + 1;
    }
    proof {
        assert(a@ =~= b@);
    }
    true
}

impl CellStore {
    /// An empty store.
    pub fn new() -> (r: CellStore)
        ensures
            r@ == Map::<Seq<u8>, CellVal>::empty(),
    {
        CellStore { entries: Vec::new() }
    }

    /// Binds `key` to `value`: an existing binding is replaced in place, a
    /// new key is appended.
    pub fn insert(&mut self, key: Vec<u8>, value: CellValue)
        ensures
            final(self)@ == old(self)@.insert(key@, value@),
    {
        let ghost k = key@;
        let ghost v = value@;
        let mut j: usize = self.entries.len();
        while j > 0
            invariant
                j <= self.entries@.len(),
                self.entries@ == old(self).entries@,
                k == key@,
                v == value@,
                forall|t: int| j <= t < self.entries@.len() ==> self.entries@[t].0@ != k,
            decreases j,
        {
            j = j - 1;
            let e: &(Vec<u8>, CellValue) = &self.entries[j];
            let hit = bytes_eq(e.0.as_slice(), key.as_slice());
            if hit {
                let ghost s = self.entries@;
                self.entries.remove(j);
                self.entries.insert(j, (key, value));
                proof {
                    let bound = self.entries@[j as int];
                    assert(self.entries@ =~= s.update(j as int, bound));
                    assert(bound.0@ == k && bound.1@ == v);
                    lemma_entries_map_update(s, j as int, bound);
                }
                return;
            }
        }
        let ghost s = self.entries@;
        self.entries.push((key, value));
        proof {
            assert(self.entries@.drop_last() =~= s);
        }
    }

    /// The current value of `key`, if the store binds it.
    pub fn get<'a>(&'a self, key: &[u8]) -> (r: Option<&'a CellValue>)
        ensures
            match r {
                Some(v) => self@.contains_key(key@) && v@ == self@[key@],
                None => !self@.contains_key(key@),
            },
    {
        let mut j: usize = self.entries.len();
        proof {
            assert(self.entries@.take(j as int) =~= self.entries@);
        }
        while j > 0
            invariant
                j <= self.entries@.len(),
                entries_map(self.entries@).contains_key(key@) == entries_map(
                    self.entries@.take(j as int),
                ).contains_key(key@),
                entries_map(self.entries@).contains_key(key@) ==> entries_map(self.entries@)[key@]
                    == entries_map(self.entries@.take(j as int))[key@],
            decreases j,
        {
            j = j - 1;
            proof {
                assert(self.entries@.take(j + 1).drop_last() =~= self.entries@.take(j as int));
                assert(self.entries@.take(j + 1).last() == self.entries@[j as int]);
            }
            let e: &(Vec<u8>, CellValue) = &self.entries[j];
            if bytes_eq(e.0.as_slice(), key) {
                return Some(&e.1);
            }
        }
        proof {
            assert(self.entries@.take(0) =~= Seq::<(Vec<u8>, CellValue)>::empty());
        }
        None
    }
}

} // verus!
