//! The symbol table: label names mapped to their assigned addresses.
//!
//! Insertion order is kept so a repeated label takes its last definition
//! (last-write-wins), which is the table's documented overwrite rule. The
//! ghost view is the finished map.

use vstd::prelude::*;

use crate::text::str_eq;

verus! {

/// A mapping from label name to 16-bit address, written during the first
/// pass and only read afterwards.
pub struct SymbolTable {
    entries: Vec<(String, u16)>,
}

/// The map an entry list denotes: later entries overwrite earlier ones.
pub open spec fn map_of(entries: Seq<(String, u16)>) -> Map<Seq<char>, u16>
    decreases entries.len(),
{
    if entries.len() == 0 {
        Map::<Seq<char>, u16>::empty()
    } else {
        map_of(entries.drop_last()).insert(entries.last().0@, entries.last().1)
    }
}

impl View for SymbolTable {
    type V = Map<Seq<char>, u16>;

    closed spec fn view(&self) -> Map<Seq<char>, u16> {
        map_of(self.entries@)
    }
}

/// When no entry from position `i` on has the key, the map of the whole
/// list agrees with the map of the first `i` entries on that key.
proof fn lemma_map_of_frozen_suffix(entries: Seq<(String, u16)>, name: Seq<char>, i: int)
    requires
        0 <= i <= entries.len(),
        forall|j: int| i <= j < entries.len() ==> (#[trigger] entries[j].0)@ != name,
    ensures
        map_of(entries).contains_key(name) == map_of(entries.take(i)).contains_key(name),
        map_of(entries).contains_key(name) ==> map_of(entries)[name] == map_of(
            entries.take(i),
        )[name],
    decreases entries.len() - i,
{
    if i < entries.len() {
        assert(entries.take(i + 1).drop_last() =~= entries.take(i));
        assert(entries.take(i + 1).last() == entries[i]);
        assert(entries.take(entries.len() as int) =~= entries);
        lemma_map_of_frozen_suffix(entries, name, i + 1);
        if i + 1 < entries.len() {
            assert(entries.take(i + 1) =~= entries.take(i + 2).drop_last());
        }
    } else {
        assert(entries.take(i) =~= entries);
    }
}

impl SymbolTable {
    /// An empty table.
    pub fn new() -> (t: SymbolTable)
        ensures
            t@ == Map::<Seq<char>, u16>::empty(),
    {
        SymbolTable { entries: Vec::new() }
    }

    /// Records a label's address, overwriting any earlier definition.
    pub fn insert(&mut self, name: String, addr: u16)
        ensures
            final(self)@ == old(self)@.insert(name@, addr),
    {
        let ghost old_entries = self.entries@;
        self.entries.push((name, addr));
        proof {
            assert(self.entries@.drop_last() =~= old_entries);
        }
    }

    /// Looks a label up, returning its last recorded address.
    pub fn lookup(&self, name: &str) -> (r: Option<u16>)
        ensures
            match r {
                Some(a) => self@.contains_key(name@) && self@[name@] == a,
                Option::<u16>::None => !self@.contains_key(name@),
            },
    {
        let n = self.entries.len();
        let mut i: usize = n;
        while i > 0
            invariant
                0 <= i <= n,
                n == self.entries@.len(),
                forall|j: int| i <= j < n ==> (#[trigger] self.entries@[j].0)@ != name@,
            decreases i,
        {
            i -= 1;
            if str_eq(self.entries[i].0.as_str(), name) {
                proof {
                    lemma_map_of_frozen_suffix(self.entries@, name@, i + 1);
                    assert(self.entries@.take(i + 1).drop_last() =~= self.entries@.take(i as int));
                    assert(self.entries@.take(i + 1).last() == self.entries@[i as int]);
                }
                return Some(self.entries[i].1);
            }
        }
        proof {
            lemma_map_of_frozen_suffix(self.entries@, name@, 0);
            assert(self.entries@.take(0) =~= Seq::<(String, u16)>::empty());
        }
        None
    }
}

} // verus!
