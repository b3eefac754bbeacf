//! The attributes of a dump and the index that finds them by name.

use vstd::hash_map::StringHashMap;
use vstd::prelude::*;

verus! {

/// One attribute of the dump: a name and the value given to it.
#[derive(Debug)]
pub struct AttributeEntry {
    pub name: String,
    pub value: String,
}

impl View for AttributeEntry {
    type V = (Seq<char>, Seq<char>);

    open spec fn view(&self) -> (Seq<char>, Seq<char>) {
        (self.name@, self.value@)
    }
}

impl AttributeEntry {
    /// An attribute with the given name and value.
    pub fn new(name: &str, value: &str) -> (e: AttributeEntry)
        ensures
            e@ == (name@, value@),
    {
        AttributeEntry { name: String::from_str(name), value: String::from_str(value) }
    }
}

/// The attributes of a list as pairs of texts, in the order of the list.
pub open spec fn entries_view(entries: Seq<AttributeEntry>) -> Seq<(Seq<char>, Seq<char>)> {
    Seq::new(entries.len(), |i: int| entries[i]@)
}

/// The mapping from names to values that a list of attributes stands for.
/// Where a name occurs more than once, its last value counts.
pub open spec fn index_of(entries: Seq<(Seq<char>, Seq<char>)>) -> Map<Seq<char>, Seq<char>>
    decreases entries.len(),
{
    if entries.len() == 0 {
        Map::empty()
    } else {
        index_of(entries.drop_last()).insert(entries.last().0, entries.last().1)
    }
}

/// The index holds exactly the names that occur in the list.
pub proof fn lemma_index_domain(entries: Seq<(Seq<char>, Seq<char>)>, name: Seq<char>)
    ensures
        index_of(entries).contains_key(name) <==> exists|i: int|
            0 <= i < entries.len() && (#[trigger] entries[i]).0 == name,
    decreases entries.len(),
{
    if entries.len() > 0 {
        let front = entries.drop_last();
        lemma_index_domain(front, name);
        if index_of(entries).contains_key(name) {
            if entries.last().0 == name {
                assert(entries[entries.len() - 1].0 == name);
            } else {
                let i = choose|i: int| 0 <= i < front.len() && (#[trigger] front[i]).0 == name;
                assert(entries[i].0 == name);
            }
        }
        if exists|i: int| 0 <= i < entries.len() && (#[trigger] entries[i]).0 == name {
            let i = choose|i: int| 0 <= i < entries.len() && (#[trigger] entries[i]).0 == name;
            if i < front.len() {
                assert(front[i].0 == name);
            }
        }
    }
}

/// A name maps to the value of its last occurrence in the list.
pub proof fn lemma_index_last_wins(entries: Seq<(Seq<char>, Seq<char>)>, i: int)
    requires
        0 <= i < entries.len(),
        forall|j: int| i < j < entries.len() ==> (#[trigger] entries[j]).0 != entries[i].0,
    ensures
        index_of(entries).contains_key(entries[i].0),
        index_of(entries)[entries[i].0] == entries[i].1,
    decreases entries.len(),
{
    if i < entries.len() - 1 {
        let front = entries.drop_last();
        assert(entries[entries.len() - 1].0 != entries[i].0);
        assert forall|j: int| i < j < front.len() implies (#[trigger] front[j]).0 != front[i].0 by {
            assert(entries[j].0 != entries[i].0);
        }
        lemma_index_last_wins(front, i);
    }
}

/// A lookup structure over the attributes of one dump, keyed by name.
///
/// Its view is the mapping from each name to the value it has in the dump.
pub struct AttributeIndex {
    map: StringHashMap<String>,
}

impl View for AttributeIndex {
    type V = Map<Seq<char>, Seq<char>>;

    closed spec fn view(&self) -> Map<Seq<char>, Seq<char>> {
        Map::new(|k: Seq<char>| self.map@.contains_key(k), |k: Seq<char>| self.map@[k]@)
    }
}

impl AttributeIndex {
    /// Builds the index of a dump's attributes. A name that the dump repeats
    /// keeps the value of its last occurrence.
    pub fn build(entries: &Vec<AttributeEntry>) -> (index: AttributeIndex)
        ensures
            index@ == index_of(entries_view(entries@)),
    {
        let mut map: StringHashMap<String> = StringHashMap::new();
        let mut i: usize = 0;
        let ghost all = entries_view(entries@);
        assert(all.subrange(0, 0) =~= Seq::empty());
        while i < entries.len()
            invariant
                i <= entries.len(),
                all == entries_view(entries@),
                (AttributeIndex { map })@ == index_of(all.subrange(0, i as int)),
            decreases entries.len() - i,
        {
            let ghost before = (AttributeIndex { map })@;
            let name = entries[i].name.clone();
            let value = entries[i].value.clone();
            map.insert(name, value);
            proof {
                let upto = all.subrange(0, i + 1);
                assert(upto.drop_last() =~= all.subrange(0, i as int));
                assert(upto.last() == entries@[i as int]@);
                assert((AttributeIndex { map })@ =~= before.insert(
                    entries@[i as int].name@,
                    entries@[i as int].value@,
                ));
            }
            i = i + 1;
        }
        assert(all.subrange(0, i as int) =~= all);
        AttributeIndex { map }
    }

    /// The value of the attribute called `name`, if the dump has one.
    pub fn get(&self, name: &str) -> (value: Option<&String>)
        ensures
            match value {
                Some(v) => self@.contains_key(name@) && self@[name@] == v@,
                None => !self@.contains_key(name@),
            },
    {
        self.map.get(name)
    }

    /// Whether the dump has an attribute called `name`.
    pub fn contains(&self, name: &str) -> (found: bool)
        ensures
            found == self@.contains_key(name@),
    {
        self.map.contains_key(name)
    }
}

} // verus!
