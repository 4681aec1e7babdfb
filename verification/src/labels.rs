//! The label table: names mapped to addresses, later declarations silently
//! overwriting earlier ones.

use crate::text::chars_eq;
use vstd::prelude::*;

verus! {

/// One recorded label declaration.
pub struct LabelEntry {
    pub name: Vec<char>,
    pub addr: i32,
}

/// The mapping a run of declarations denotes: each name bound to the
/// address of its latest declaration.
pub open spec fn map_of(entries: Seq<LabelEntry>) -> Map<Seq<char>, i32>
    decreases entries.len(),
{
    if entries.len() == 0 {
        Map::empty()
    } else {
        map_of(entries.drop_last()).insert(entries.last().name@, entries.last().addr)
    }
}

/// Looks a key up in a mapping, as an option.
pub open spec fn map_get(m: Map<Seq<char>, i32>, k: Seq<char>) -> Option<i32> {
    if m.contains_key(k) {
        Some(m[k])
    } else {
        None
    }
}

/// A name-to-address table, abstractly a finite map.  Declarations are kept
/// in order; a later declaration of the same name wins.
pub struct LabelTable {
    entries: Vec<LabelEntry>,
}

impl View for LabelTable {
    type V = Map<Seq<char>, i32>;

    closed spec fn view(&self) -> Map<Seq<char>, i32> {
        map_of(self.entries@)
    }
}

impl LabelTable {
    /// An empty table.
    pub fn new() -> (t: LabelTable)
        ensures
            t@ == Map::<Seq<char>, i32>::empty(),
    {
        LabelTable { entries: Vec::new() }
    }

    /// Records a declaration, overwriting any earlier address for the name.
    pub fn insert(&mut self, name: Vec<char>, addr: i32)
        ensures
            final (self)@ == old(self)@.insert(name@, addr),
    {
        let ghost before = self.entries@;
        let ghost nv = name@;
        self.entries.push(LabelEntry { name, addr });
        proof {
            assert(self.entries@.drop_last() =~= before);
            assert(self.entries@.last().name@ == nv);
        }
    }

    /// The address recorded for a token, if any.
    pub fn lookup_tok(&self, name: &Vec<char>) -> (r: Option<i32>)
        ensures
            r == map_get(self@, name@),
    {
        let mut found: Option<i32> = None;
        let mut i: usize = 0;
        while i < self.entries.len()
            invariant
                0 <= i <= self.entries@.len(),
                found == map_get(map_of(self.entries@.take(i as int)), name@),
            decreases self.entries@.len() - i,
        {
            let e = &self.entries[i];
            if chars_eq(&e.name, name) {
                found = Some(e.addr);
            }
            proof {
                let pre = self.entries@.take(i as int);
                assert(self.entries@.take(i + 1 as int) =~= pre.push(self.entries@[i as int]));
                assert(self.entries@.take(i + 1 as int).drop_last() =~= pre);
            }
            i = i + 1;
        }
        proof {
            assert(self.entries@.take(self.entries@.len() as int) =~= self.entries@);
        }
        found
    }

    /// The address recorded for a name given as a string slice, if any.
    pub fn lookup(&self, name: &str) -> (r: Option<i32>)
        ensures
            r == map_get(self@, name@),
    {
        let chars = crate::text::str_to_chars(name);
        self.lookup_tok(&chars)
    }
}

} // verus!
