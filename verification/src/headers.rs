//! A map from header names to header values, keyed by exact (case-sensitive)
//! name, as the proxy's requests and responses carry them.
use vstd::prelude::*;

verus! {

/// The value that the last entry named `name` holds, if any entry is.
pub open spec fn lookup(entries: Seq<(String, String)>, name: Seq<char>) -> Option<Seq<char>>
    decreases entries.len(),
{
    if entries.len() == 0 {
        None
    } else if entries.last().0@ == name {
        Some(entries.last().1@)
    } else {
        lookup(entries.drop_last(), name)
    }
}

/// The map that a list of (name, value) entries stands for.
pub open spec fn entries_map(entries: Seq<(String, String)>) -> Map<Seq<char>, Seq<char>> {
    Map::new(|name: Seq<char>| lookup(entries, name) is Some, |name: Seq<char>| lookup(entries, name)->0)
}

/// No two entries carry the same name.
pub open spec fn names_distinct(entries: Seq<(String, String)>) -> bool {
    forall|i: int, j: int|
        0 <= i < j < entries.len() ==> #[trigger] entries[i].0@ != #[trigger] entries[j].0@
}

/// With distinct names, an entry's own name looks up its own value.
pub proof fn lemma_lookup_entry(entries: Seq<(String, String)>, i: int)
    requires
        names_distinct(entries),
        0 <= i < entries.len(),
    ensures
        lookup(entries, entries[i].0@) == Some(entries[i].1@),
    decreases entries.len(),
{
    if i < entries.len() - 1 {
        assert(entries.last() == entries[entries.len() - 1]);
        assert(entries.drop_last()[i] == entries[i]);
        lemma_lookup_entry(entries.drop_last(), i);
    }
}

/// A name that no entry carries looks up nothing.
pub proof fn lemma_lookup_absent(entries: Seq<(String, String)>, name: Seq<char>)
    requires
        forall|i: int| 0 <= i < entries.len() ==> #[trigger] entries[i].0@ != name,
    ensures
        lookup(entries, name) is None,
    decreases entries.len(),
{
    if entries.len() > 0 {
        assert(entries.last() == entries[entries.len() - 1]);
        assert forall|i: int| 0 <= i < entries.drop_last().len() implies #[trigger] entries.drop_last()[i].0@
            != name by {
            assert(entries.drop_last()[i] == entries[i]);
        }
        lemma_lookup_absent(entries.drop_last(), name);
    }
}

/// Header names mapped to header values. A name occurs at most once.
///
/// The map is a vector of (name, value) pairs rather than a
/// `BTreeMap<String, String>`: vstd specifies `BTreeMap` only for keys
/// whose ordering obeys its model of `Ord`, which `String` is not given, so
/// nothing could be proved of such a map's lookups and inserts. Names are
/// compared exactly, as the `BTreeMap` keys were; the transport sorts the
/// entries by name when it sends or serialises them.
#[derive(Debug)]
pub struct Headers {
    entries: Vec<(String, String)>,
}

impl View for Headers {
    type V = Map<Seq<char>, Seq<char>>;

    closed spec fn view(&self) -> Map<Seq<char>, Seq<char>> {
        entries_map(self.entries@)
    }
}

impl Clone for Headers {
    /// A copy holding the same entries.
    fn clone(&self) -> (res: Self)
        ensures
            res@ == self@,
    {
        proof {
            use_type_invariant(self);
        }
        let mut entries: Vec<(String, String)> = Vec::new();
        let mut i: usize = 0;
        while i < self.entries.len()
            invariant
                i <= self.entries.len(),
                entries@ =~= self.entries@.take(i as int),
            decreases self.entries.len() - i,
        {
            let name = self.entries[i].0.clone();
            let value = self.entries[i].1.clone();
            entries.push((name, value));
            i = i + 1;
        }
        assert(entries@ =~= self.entries@);
        Headers { entries }
    }
}

impl Headers {
    #[verifier::type_invariant]
    closed spec fn inv(self) -> bool {
        names_distinct(self.entries@)
    }

    /// An empty map.
    pub fn new() -> (res: Headers)
        ensures
            res@ == Map::<Seq<char>, Seq<char>>::empty(),
    {
        let res = Headers { entries: Vec::new() };
        assert(res@ =~= Map::<Seq<char>, Seq<char>>::empty());
        res
    }

    /// The index of the entry named `name`, if any.
    fn position(&self, name: &String) -> (res: Option<usize>)
        ensures
            match res {
                Some(i) => i < self.entries.len() && self.entries@[i as int].0@ == name@,
                None => forall|i: int|
                    0 <= i < self.entries.len() ==> #[trigger] self.entries@[i].0@ != name@,
            },
    {
        let mut i: usize = 0;
        while i < self.entries.len()
            invariant
                i <= self.entries.len(),
                forall|j: int| 0 <= j < i ==> #[trigger] self.entries@[j].0@ != name@,
            decreases self.entries.len() - i,
        {
            if self.entries[i].0 == *name {
                return Some(i);
            }
            i = i + 1;
        }
        None
    }

    /// The value stored under `name`.
    pub fn get(&self, name: &str) -> (res: Option<&String>)
        ensures
            match res {
                Some(value) => self@.contains_key(name@) && self@[name@] == value@,
                None => !self@.contains_key(name@),
            },
    {
        proof {
            use_type_invariant(self);
        }
        let key = name.to_owned();
        match self.position(&key) {
            Some(i) => {
                proof {
                    lemma_lookup_entry(self.entries@, i as int);
                }
                Some(&self.entries[i].1)
            },
            None => {
                proof {
                    lemma_lookup_absent(self.entries@, name@);
                }
                None
            },
        }
    }

    /// Whether some value is stored under `name`.
    pub fn contains_key(&self, name: &str) -> (res: bool)
        ensures
            res == self@.contains_key(name@),
    {
        self.get(name).is_some()
    }

    /// Stores `value` under `name`, replacing what was stored there. Reading
    /// `name` back gives `value`; every other name reads as before.
    pub fn insert(&mut self, name: String, value: String)
        ensures
            final(self)@ == old(self)@.insert(name@, value@),
            final(self)@.contains_key(name@),
            final(self)@[name@] == value@,
            forall|other: Seq<char>|
                other != name@ ==> (#[trigger] final(self)@.contains_key(other)
                    == old(self)@.contains_key(other)),
            forall|other: Seq<char>|
                other != name@ && old(self)@.contains_key(other) ==> #[trigger] final(self)@[other]
                    == old(self)@[other],
    {
        proof {
            use_type_invariant(&*self);
        }
        let ghost old_entries = self.entries@;
        let found = self.position(&name);
        let mut entries: Vec<(String, String)> = Vec::new();
        std::mem::swap(&mut entries, &mut self.entries);
        match found {
            Some(i) => {
                let ghost key = name@;
                let ghost val = value@;
                entries.set(i, (name, value));
                proof {
                    let new_entries = entries@;
                    assert(new_entries == old_entries.update(i as int, new_entries[i as int]));
                    assert forall|a: int, b: int| 0 <= a < b < new_entries.len() implies #[trigger] new_entries[a].0@
                        != #[trigger] new_entries[b].0@ by {
                        if a != i && b != i {
                            assert(old_entries[a].0@ != old_entries[b].0@);
                        } else if a == i {
                            assert(old_entries[i as int].0@ != old_entries[b].0@);
                        } else {
                            assert(old_entries[a].0@ != old_entries[i as int].0@);
                        }
                    }
                    assert forall|k: Seq<char>|
                        #![auto]
                        lookup(new_entries, k) == (if k == key { Some(val) } else { lookup(old_entries, k) }) by {
                        if k == key {
                            lemma_lookup_entry(new_entries, i as int);
                        } else if exists|j: int| 0 <= j < old_entries.len() && old_entries[j].0@ == k {
                            let j = choose|j: int| 0 <= j < old_entries.len() && old_entries[j].0@ == k;
                            lemma_lookup_entry(old_entries, j);
                            lemma_lookup_entry(new_entries, j);
                        } else {
                            lemma_lookup_absent(old_entries, k);
                            assert forall|j: int| 0 <= j < new_entries.len() implies #[trigger] new_entries[j].0@
                                != k by {
                                if j != i {
                                    assert(new_entries[j] == old_entries[j]);
                                }
                            }
                            lemma_lookup_absent(new_entries, k);
                        }
                    }
                    assert(entries_map(new_entries) =~= entries_map(old_entries).insert(key, val));
                }
            },
            None => {
                let ghost key = name@;
                let ghost val = value@;
                entries.push((name, value));
                proof {
                    let new_entries = entries@;
                    assert(new_entries.drop_last() =~= old_entries);
                    assert forall|a: int, b: int| 0 <= a < b < new_entries.len() implies #[trigger] new_entries[a].0@
                        != #[trigger] new_entries[b].0@ by {
                        if b < old_entries.len() {
                            assert(old_entries[a].0@ != old_entries[b].0@);
                        } else {
                            assert(new_entries[a] == old_entries[a]);
                        }
                    }
                    assert(entries_map(new_entries) =~= entries_map(old_entries).insert(key, val));
                }
            },
        }
        self.entries = entries;
    }

    /// The entries, each name once.
    pub fn entries(&self) -> (res: &Vec<(String, String)>)
        ensures
            names_distinct(res@),
            entries_map(res@) == self@,
    {
        proof {
            use_type_invariant(self);
        }
        &self.entries
    }
}

} // verus!
