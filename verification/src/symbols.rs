//! The symbol table of one source file: for each accounts struct, the fields
//! declared mutable and the fields that are initialized, and the uses of seed
//! lists in the order in which they were met.

use crate::checks::seeds_reuse_check::GlobalSeedUsage;
use crate::text::{same_text, texts};
use vstd::prelude::*;

verus! {

/// The field names recorded for one accounts struct.
#[derive(Debug, PartialEq, Eq)]
pub struct StructSymbols {
    pub name: String,
    /// The fields whose constraints say `mut`.
    pub mutable: Vec<String>,
    /// The fields whose constraints say `init` or `init_if_needed`.
    pub initialized: Vec<String>,
}

/// The two sets of field names that the table keeps for a struct.
pub struct FieldSets {
    pub mutable: Set<Seq<char>>,
    pub initialized: Set<Seq<char>>,
}

/// What the struct pass records for the function pass.
#[derive(Debug, PartialEq, Eq)]
pub struct SymbolTable {
    /// One entry per accounts struct, in the order of the source. Where two
    /// structs share a name, the later entry stands for the name.
    pub structs: Vec<StructSymbols>,
    /// Every use of a seed list, in the order of the source.
    pub seeds: Vec<GlobalSeedUsage>,
}

/// The index of the last entry of `entries` that is named `name`.
pub open spec fn last_named(entries: Seq<StructSymbols>, name: Seq<char>) -> Option<int>
    decreases entries.len(),
{
    if entries.len() == 0 {
        None
    } else if entries.last().name@ == name {
        Some(entries.len() - 1)
    } else {
        last_named(entries.drop_last(), name)
    }
}

/// The names in `fields`, as a set.
pub open spec fn name_set(fields: Seq<String>) -> Set<Seq<char>> {
    texts(fields).to_set()
}

impl StructSymbols {
    /// The two sets of field names of this entry.
    pub open spec fn sets(&self) -> FieldSets {
        FieldSets { mutable: name_set(self.mutable@), initialized: name_set(self.initialized@) }
    }
}

/// The sets that stand for the struct `name` in `symbols`: those recorded
/// for it, or two empty sets if nothing is recorded.
pub open spec fn sets_of(symbols: Map<Seq<char>, FieldSets>, name: Seq<char>) -> FieldSets {
    if symbols.dom().contains(name) {
        symbols[name]
    } else {
        FieldSets { mutable: Set::empty(), initialized: Set::empty() }
    }
}

impl View for SymbolTable {
    type V = Map<Seq<char>, FieldSets>;

    /// The table as a map from struct names to their sets of field names.
    open spec fn view(&self) -> Map<Seq<char>, FieldSets> {
        Map::new(
            |name: Seq<char>| last_named(self.structs@, name) is Some,
            |name: Seq<char>| self.structs@[last_named(self.structs@, name).unwrap()].sets(),
        )
    }
}

impl SymbolTable {
    /// A table without entries.
    pub fn new() -> (t: SymbolTable)
        ensures
            t@ == Map::<Seq<char>, FieldSets>::empty(),
            t.seeds@.len() == 0,
    {
        let t = SymbolTable { structs: Vec::new(), seeds: Vec::new() };
        assert(t@ =~= Map::<Seq<char>, FieldSets>::empty());
        t
    }

    /// Records the field names of a struct. An earlier entry of the same name
    /// no longer counts.
    pub fn insert(&mut self, entry: StructSymbols)
        ensures
            final(self)@ == old(self)@.insert(entry.name@, entry.sets()),
            final(self).seeds == old(self).seeds,
    {
        let ghost before = self.structs@;
        self.structs.push(entry);
        proof {
            let after = self.structs@;
            assert(after.drop_last() == before);
            assert(after.last() == entry);
            assert forall|name: Seq<char>|
                name != entry.name@ && last_named(
                    before,
                    name,
                ) is Some implies #[trigger] after[last_named(after, name).unwrap()]
                == before[last_named(before, name).unwrap()] by {
                lemma_last_named(before, name);
            }
            assert(self@ =~= old(self)@.insert(entry.name@, entry.sets()));
        }
    }

    /// The entry that stands for the struct `name`, if there is one.
    pub fn lookup(&self, name: &String) -> (r: Option<&StructSymbols>)
        ensures
            match r {
                Some(e) => self@.dom().contains(name@) && self@[name@] == e.sets(),
                None => !self@.dom().contains(name@),
            },
    {
        let mut i: usize = self.structs.len();
        assert(self.structs@.take(i as int) == self.structs@);
        while i > 0
            invariant
                i <= self.structs.len(),
                last_named(self.structs@, name@) == last_named(
                    self.structs@.take(i as int),
                    name@,
                ),
            decreases i,
        {
            assert(self.structs@.take(i as int).drop_last() == self.structs@.take(i as int - 1));
            if same_text(&self.structs[i - 1].name, name) {
                return Some(&self.structs[i - 1]);
            }
            i -= 1;
        }
        None
    }
}

/// The index that `last_named` yields is in range and holds the name.
pub proof fn lemma_last_named(entries: Seq<StructSymbols>, name: Seq<char>)
    ensures
        match last_named(entries, name) {
            Some(i) => 0 <= i < entries.len() && entries[i].name@ == name && forall|j: int|
                i < j < entries.len() ==> entries[j].name@ != name,
            None => forall|j: int| 0 <= j < entries.len() ==> entries[j].name@ != name,
        },
    decreases entries.len(),
{
    if entries.len() > 0 && entries.last().name@ != name {
        let front = entries.drop_last();
        lemma_last_named(front, name);
        assert forall|j: int| 0 <= j < front.len() implies front[j] == entries[j] by {}
        match last_named(front, name) {
            Some(i) => {
                assert forall|j: int| i < j < entries.len() implies entries[j].name@ != name by {
                    if j < front.len() {
                        assert(front[j].name@ != name);
                    }
                }
            },
            None => {
                assert forall|j: int| 0 <= j < entries.len() implies entries[j].name@ != name by {
                    if j < front.len() {
                        assert(front[j].name@ != name);
                    }
                }
            },
        }
    }
}

} // verus!
