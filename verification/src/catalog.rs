//! Element records and the catalog that holds them by name.

use vstd::hash_map::StringHashMap;
use vstd::prelude::*;

verus! {

/// One element set as it is published: the object's name and its two element
/// lines, unparsed.
#[derive(Debug)]
pub struct TleData {
    pub line1: String,
    pub line2: String,
    pub name: String,
}

/// What a `TleData` holds, as plain sequences of characters.
pub struct ElementRecord {
    pub name: Seq<char>,
    pub line1: Seq<char>,
    pub line2: Seq<char>,
}

impl View for TleData {
    type V = ElementRecord;

    open spec fn view(&self) -> ElementRecord {
        ElementRecord { name: self.name@, line1: self.line1@, line2: self.line2@ }
    }
}

impl Clone for TleData {
    fn clone(&self) -> (out: Self)
        ensures
            out@ == self@,
    {
        TleData { line1: self.line1.clone(), line2: self.line2.clone(), name: self.name.clone() }
    }
}

/// A set of element records, each found by its name. Inserting a record under
/// a name that is present replaces the earlier record.
pub struct Catalog {
    entries: Vec<TleData>,
    index: StringHashMap<usize>,
}

impl Catalog {
    /// The invariant, which every catalog meets: `index` maps each name to
    /// the place of its record in `entries`, and holds nothing else.
    #[verifier::type_invariant]
    pub closed spec fn wf(&self) -> bool {
        &&& self.index@.dom().finite()
        &&& self.index@.len() == self.entries@.len()
        &&& forall|k: Seq<char>| #[trigger]
            self.index@.contains_key(k) ==> self.index@[k] < self.entries@.len()
                && self.entries@[self.index@[k] as int].name@ == k
        &&& forall|i: int|
            0 <= i < self.entries@.len() ==> self.index@.contains_key(
                (#[trigger] self.entries@[i]).name@,
            ) && self.index@[self.entries@[i].name@] == i
    }

    /// The records in the order in which their names first came in.
    pub closed spec fn records(&self) -> Seq<ElementRecord> {
        self.entries@.map_values(|e: TleData| e@)
    }

    /// The catalog as a map from name to record.
    pub closed spec fn view(&self) -> Map<Seq<char>, ElementRecord> {
        Map::new(
            |k: Seq<char>| self.index@.contains_key(k),
            |k: Seq<char>| self.entries@[self.index@[k] as int]@,
        )
    }

    /// How `records` and the map relate: the records are the map's values,
    /// each once, under its own name.
    pub proof fn lemma_records(&self)
        requires
            self.wf(),
        ensures
            self@.dom().finite(),
            self@.len() == self.records().len(),
            forall|i: int|
                0 <= i < self.records().len() ==> self@.contains_key(
                    (#[trigger] self.records()[i]).name,
                ) && self@[self.records()[i].name] == self.records()[i],
            forall|k: Seq<char>| #[trigger]
                self@.contains_key(k) ==> self@[k].name == k && exists|i: int|
                    0 <= i < self.records().len() && self.records()[i] == self@[k],
            forall|i: int, j: int|
                0 <= i < j < self.records().len() ==> self.records()[i].name
                    != self.records()[j].name,
    {
        assert(self@.dom() =~= self.index@.dom());
        assert forall|k: Seq<char>| #[trigger] self@.contains_key(k) implies self@[k].name == k
            && exists|i: int| 0 <= i < self.records().len() && self.records()[i] == self@[k] by {
            let i = self.index@[k] as int;
            assert(self.records()[i] == self@[k]);
        }
        assert forall|i: int, j: int| 0 <= i < j < self.records().len() implies self.records()[i].name
            != self.records()[j].name by {
            let a = self.entries@[i];
            let b = self.entries@[j];
            assert(self.index@[a.name@] == i);
            assert(self.index@[b.name@] == j);
        }
    }

    /// A catalog without records.
    pub fn new() -> (out: Self)
        ensures
            out@ == Map::<Seq<char>, ElementRecord>::empty(),
            out.records() == Seq::<ElementRecord>::empty(),
    {
        let out = Catalog { entries: Vec::new(), index: StringHashMap::new() };
        proof {
            assert(out@ =~= Map::<Seq<char>, ElementRecord>::empty());
            assert(out.records() =~= Seq::<ElementRecord>::empty());
        }
        out
    }

    /// The number of records.
    pub fn len(&self) -> (n: usize)
        ensures
            n == self@.len(),
            n == self.records().len(),
    {
        proof {
            use_type_invariant(self);
            self.lemma_records();
        }
        self.entries.len()
    }

    /// Whether the catalog holds no record.
    pub fn is_empty(&self) -> (b: bool)
        ensures
            b == (self@.len() == 0),
    {
        self.len() == 0
    }

    /// Whether a record stands under `name`.
    pub fn contains(&self, name: &str) -> (b: bool)
        ensures
            b == self@.contains_key(name@),
    {
        self.index.contains_key(name)
    }

    /// The record under `name`, if there is one.
    pub fn get(&self, name: &str) -> (out: Option<&TleData>)
        ensures
            match out {
                Some(record) => self@.contains_key(name@) && record@ == self@[name@],
                None => !self@.contains_key(name@),
            },
    {
        proof {
            use_type_invariant(self);
        }
        match self.index.get(name) {
            Some(i) => Some(&self.entries[*i]),
            None => None,
        }
    }

    /// The record at place `i` of `records`.
    pub fn record(&self, i: usize) -> (out: &TleData)
        requires
            i < self.records().len(),
        ensures
            out@ == self.records()[i as int],
    {
        &self.entries[i]
    }

    /// Puts `record` under its name, in place of the record that stood there.
    pub fn insert(&mut self, record: TleData)
        ensures
            final(self)@ == old(self)@.insert(record.name@, record@),
            old(self)@.contains_key(record.name@) ==> final(self).records().len() == old(
                self,
            ).records().len(),
            !old(self)@.contains_key(record.name@) ==> final(self).records() == old(
                self,
            ).records().push(record@),
    {
        let ghost before = *self;
        let ghost key = record.name@;
        let ghost value = record@;
        proof {
            use_type_invariant(&*self);
        }
        // take the fields out, change them, and put them back together
        let mut taken = Catalog::new();
        core::mem::swap(self, &mut taken);
        let Catalog { entries, index } = taken;
        let mut entries = entries;
        let mut index = index;
        let found: Option<usize> = match index.get(record.name.as_str()) {
            Some(i) => Some(*i),
            None => None,
        };
        match found {
            Some(i) => {
                entries.set(i, record);
            },
            None => {
                let place = entries.len();
                let name = record.name.clone();
                index.insert(name, place);
                entries.push(record);
                proof {
                    assert(index@.dom() =~= before.index@.dom().insert(key));
                }
            },
        }
        *self = Catalog { entries, index };
        proof {
            assert(self@ =~= before@.insert(key, value));
            if !before@.contains_key(key) {
                assert(self.records() =~= before.records().push(value));
            }
        }
    }
}

impl Clone for Catalog {
    /// A copy with the same records in the same order.
    fn clone(&self) -> (out: Self)
        ensures
            out@ == self@,
            out.records() == self.records(),
    {
        proof {
            use_type_invariant(self);
        }
        let mut entries: Vec<TleData> = Vec::new();
        let mut index: StringHashMap<usize> = StringHashMap::new();
        let n = self.entries.len();
        let mut i: usize = 0;
        while i < n
            invariant
                i <= n == self.entries@.len(),
                entries@.len() == i,
                forall|j: int| 0 <= j < i ==> (#[trigger] entries@[j])@ == self.entries@[j]@,
                self.wf(),
                index@ =~= Map::new(
                    |k: Seq<char>| self.index@.contains_key(k) && self.index@[k] < i,
                    |k: Seq<char>| self.index@[k],
                ),
            decreases n - i,
        {
            let record = self.entries[i].clone();
            let name = record.name.clone();
            index.insert(name, i);
            entries.push(record);
            i = i + 1;
        }
        proof {
            assert(index@ =~= self.index@);
        }
        let out = Catalog { entries, index };
        proof {
            assert(out@ =~= self@);
            assert(out.records() =~= self.records());
        }
        out
    }
}

} // verus!
