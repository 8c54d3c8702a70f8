//! The table of reference definitions of one document: from a label, in
//! lowercase, to the target it stands for.

use vstd::prelude::*;
use vstd::hash_map::StringHashMap;

verus! {

/// The map that a list of definitions amounts to: a later definition of a
/// label replaces an earlier one.
pub open spec fn table_of(entries: Seq<(Seq<char>, Seq<char>)>) -> Map<Seq<char>, Seq<char>>
    decreases entries.len(),
{
    if entries.len() == 0 {
        Map::empty()
    } else {
        table_of(entries.drop_last()).insert(entries.last().0, entries.last().1)
    }
}

/// What a label stands for in the map of a list of definitions is what one
/// of the definitions of the list gives for it.
pub proof fn lemma_table_of_entry(entries: Seq<(Seq<char>, Seq<char>)>, label: Seq<char>)
    requires
        table_of(entries).dom().contains(label),
    ensures
        entries.contains((label, table_of(entries)[label])),
    decreases entries.len(),
{
    if entries.len() > 0 {
        let rest = entries.drop_last();
        if entries.last().0 == label {
            assert(entries[entries.len() - 1] == (label, table_of(entries)[label]));
        } else {
            lemma_table_of_entry(rest, label);
            let at = choose|at: int| 0 <= at < rest.len() && rest[at] == (label, table_of(rest)[label]);
            assert(entries[at] == rest[at]);
        }
    }
}

/// Reference definitions by label.
pub struct ReferenceTable {
    targets: StringHashMap<String>,
}

impl View for ReferenceTable {
    type V = Map<Seq<char>, Seq<char>>;

    closed spec fn view(&self) -> Map<Seq<char>, Seq<char>> {
        self.targets@.map_values(|target: String| target@)
    }
}

impl ReferenceTable {
    /// A table without definitions.
    pub fn new() -> (table: Self)
        ensures
            table@ == Map::<Seq<char>, Seq<char>>::empty(),
    {
        let table = ReferenceTable { targets: StringHashMap::new() };
        assert(table@ =~= Map::<Seq<char>, Seq<char>>::empty());
        table
    }

    /// Records `target` for `key`, replacing what `key` stood for before.
    pub fn insert(&mut self, key: String, target: String)
        ensures
            final(self)@ == old(self)@.insert(key@, target@),
    {
        let ghost before = self@;
        let ghost pair = (key@, target@);
        self.targets.insert(key, target);
        assert(self@ =~= before.insert(pair.0, pair.1));
    }

    /// The target recorded for `key`, if any.
    pub fn get(&self, key: &str) -> (target: Option<String>)
        ensures
            match target {
                Some(t) => self@.dom().contains(key@) && self@[key@] == t@,
                None => !self@.dom().contains(key@),
            },
    {
        match self.targets.get(key) {
            Some(found) => Some(found.clone()),
            None => None,
        }
    }
}

} // verus!
