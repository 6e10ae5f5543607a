//! The table that maps label names to addresses.
use vstd::prelude::*;

verus! {

broadcast use vstd::string::group_string_axioms;

/// A map from label names to addresses. Each name occurs once; inserting a
/// name that is already there replaces its address.
pub struct LabelTable {
    entries: Vec<(String, u8)>,
    map: Ghost<Map<Seq<char>, u8>>,
}

impl View for LabelTable {
    type V = Map<Seq<char>, u8>;

    closed spec fn view(&self) -> Map<Seq<char>, u8> {
        self.map@
    }
}

impl LabelTable {
    /// The entries hold each name once and are exactly the map's contents.
    pub closed spec fn wf(&self) -> bool {
        &&& forall|i: int, j: int|
            0 <= i < j < self.entries@.len() ==> #[trigger] self.entries@[i].0@
                != #[trigger] self.entries@[j].0@
        &&& forall|i: int|
            0 <= i < self.entries@.len() ==> self.map@.contains_key(#[trigger] self.entries@[i].0@)
                && self.map@[self.entries@[i].0@] == self.entries@[i].1
        &&& forall|k: Seq<char>|
            #[trigger] self.map@.contains_key(k) ==> exists|i: int|
                0 <= i < self.entries@.len() && #[trigger] self.entries@[i].0@ == k
    }

    /// An empty table.
    pub fn new() -> (t: LabelTable)
        ensures
            t.wf(),
            t@ == Map::<Seq<char>, u8>::empty(),
    {
        LabelTable { entries: Vec::new(), map: Ghost(Map::empty()) }
    }

    /// The position of `name` among the entries, if it is there.
    fn find(&self, name: &str) -> (r: Option<usize>)
        requires
            self.wf(),
        ensures
            match r {
                Some(i) => i < self.entries@.len() && self.entries@[i as int].0@ == name@,
                None => !self@.contains_key(name@),
            },
    {
        let key = name.to_string();
        let mut i: usize = 0;
        while i < self.entries.len()
            invariant
                self.wf(),
                key@ == name@,
                i <= self.entries@.len(),
                forall|j: int| 0 <= j < i ==> self.entries@[j].0@ != name@,
            decreases self.entries@.len() - i,
        {
            if self.entries[i].0 == key {
                return Some(i);
            }
            i = i + 1;
        }
        None
    }

    /// The address of `name`, if the table has it.
    pub fn get(&self, name: &str) -> (r: Option<u8>)
        requires
            self.wf(),
        ensures
            r == (if self@.contains_key(name@) {
                Some(self@[name@])
            } else {
                None
            }),
    {
        match self.find(name) {
            Some(i) => Some(self.entries[i].1),
            None => None,
        }
    }

    /// Gives `name` the address `address`, replacing any it had.
    pub fn insert(&mut self, name: String, address: u8)
        requires
            old(self).wf(),
        ensures
            final(self).wf(),
            final(self)@ == old(self)@.insert(name@, address),
    {
        let ghost old_entries = self.entries@;
        let ghost new_map = self.map@.insert(name@, address);
        match self.find(name.as_str()) {
            Some(i) => {
                self.entries.set(i, (name, address));
                self.map = Ghost(new_map);
                assert forall|k: Seq<char>| #[trigger] self.map@.contains_key(k) implies exists|j: int|
                    0 <= j < self.entries@.len() && #[trigger] self.entries@[j].0@ == k by {
                    if k != self.entries@[i as int].0@ {
                        let j = choose|j: int|
                            0 <= j < old_entries.len() && #[trigger] old_entries[j].0@ == k;
                        assert(self.entries@[j].0@ == k);
                    }
                }
            },
            None => {
                self.entries.push((name, address));
                self.map = Ghost(new_map);
                assert forall|k: Seq<char>| #[trigger] self.map@.contains_key(k) implies exists|j: int|
                    0 <= j < self.entries@.len() && #[trigger] self.entries@[j].0@ == k by {
                    if k != name@ {
                        let j = choose|j: int|
                            0 <= j < old_entries.len() && #[trigger] old_entries[j].0@ == k;
                        assert(self.entries@[j].0@ == k);
                    } else {
                        assert(self.entries@[old_entries.len() as int].0@ == k);
                    }
                }
            },
        }
    }
}

} // verus!
