//! A small map from texts to texts, kept as a list of entries in which no
//! key stands twice.

use vstd::prelude::*;

verus! {

pub struct TextMap {
    entries: Vec<(String, String)>,
}

pub open spec fn texts(strings: Seq<String>) -> Seq<Seq<char>> {
    strings.map_values(|s: String| s@)
}

/// The keys of a list of entries, in order.
pub open spec fn entry_keys(entries: Seq<(String, String)>) -> Seq<Seq<char>> {
    entries.map_values(|entry: (String, String)| entry.0@)
}

/// The values of a list of entries, in order.
pub open spec fn entry_values(entries: Seq<(String, String)>) -> Seq<Seq<char>> {
    entries.map_values(|entry: (String, String)| entry.1@)
}

/// The mapping that two lists of equal length stand for, where no key
/// stands twice: each key leads to the value at its place.
pub open spec fn mapping(keys: Seq<Seq<char>>, values: Seq<Seq<char>>) -> Map<
    Seq<char>,
    Seq<char>,
> {
    Map::new(
        |key: Seq<char>| keys.contains(key),
        |key: Seq<char>| values[keys.index_of_first(key).unwrap()],
    )
}

proof fn lemma_mapping_push(
    keys: Seq<Seq<char>>,
    values: Seq<Seq<char>>,
    key: Seq<char>,
    value: Seq<char>,
)
    requires
        keys.len() == values.len(),
        !keys.contains(key),
    ensures
        mapping(keys.push(key), values.push(value)) == mapping(keys, values).insert(key, value),
        keys.no_duplicates() ==> keys.push(key).no_duplicates(),
{
    let after = mapping(keys.push(key), values.push(value));
    let wanted = mapping(keys, values).insert(key, value);
    assert forall|k: Seq<char>| after.contains_key(k) == wanted.contains_key(k) by {
        if keys.push(key).contains(k) {
            let i = choose|i: int| 0 <= i < keys.push(key).len() && keys.push(key)[i] == k;
            if i < keys.len() {
                assert(keys[i] == k);
            }
        }
        if keys.contains(k) {
            let i = choose|i: int| 0 <= i < keys.len() && keys[i] == k;
            assert(keys.push(key)[i] == k);
        }
        if k == key {
            assert(keys.push(key)[keys.len() as int] == k);
        }
    }
    assert forall|k: Seq<char>| after.contains_key(k) implies after[k] == wanted[k] by {
        crate::lookup::lemma_index_of_first(keys.push(key), k);
        crate::lookup::lemma_index_of_first(keys, k);
        let i = keys.push(key).index_of_first(k).unwrap();
        if k == key {
            if i < keys.len() {
                assert(keys[i] == k);
            }
        } else {
            assert(i < keys.len());
            assert(keys[i] == k);
            assert forall|j: int| 0 <= j < i implies keys[j] != k by {
                assert(keys.push(key)[j] != k);
            }
            crate::lookup::lemma_first_index(keys, k, i);
        }
    }
    assert(after =~= wanted);
}

proof fn lemma_mapping_update(
    keys: Seq<Seq<char>>,
    values: Seq<Seq<char>>,
    at: int,
    value: Seq<char>,
)
    requires
        keys.len() == values.len(),
        keys.no_duplicates(),
        0 <= at < keys.len(),
    ensures
        mapping(keys, values.update(at, value)) == mapping(keys, values).insert(keys[at], value),
{
    let after = mapping(keys, values.update(at, value));
    let wanted = mapping(keys, values).insert(keys[at], value);
    assert forall|k: Seq<char>| after.contains_key(k) implies after[k] == wanted[k] by {
        crate::lookup::lemma_index_of_first(keys, k);
    }
    assert(after =~= wanted);
}

proof fn lemma_mapping_remove(keys: Seq<Seq<char>>, values: Seq<Seq<char>>, at: int)
    requires
        keys.len() == values.len(),
        keys.no_duplicates(),
        0 <= at < keys.len(),
    ensures
        mapping(keys.remove(at), values.remove(at)) == mapping(keys, values).remove(keys[at]),
        keys.remove(at).no_duplicates(),
{
    let fewer = keys.remove(at);
    let after = mapping(fewer, values.remove(at));
    let wanted = mapping(keys, values).remove(keys[at]);
    assert forall|j: int| 0 <= j < fewer.len() implies fewer[j] == keys[if j < at {
        j
    } else {
        j + 1
    }] by {}
    assert forall|k: Seq<char>| after.contains_key(k) == wanted.contains_key(k) by {
        if fewer.contains(k) {
            let j = choose|j: int| 0 <= j < fewer.len() && fewer[j] == k;
            let i = if j < at { j } else { j + 1 };
            assert(keys[i] == k);
        }
        if keys.contains(k) && k != keys[at] {
            let i = choose|i: int| 0 <= i < keys.len() && keys[i] == k;
            let j = if i < at { i } else { i - 1 };
            assert(fewer[j] == k);
        }
    }
    assert forall|k: Seq<char>| after.contains_key(k) implies after[k] == wanted[k] by {
        crate::lookup::lemma_index_of_first(fewer, k);
        crate::lookup::lemma_index_of_first(keys, k);
        let j = fewer.index_of_first(k).unwrap();
        let i = if j < at { j } else { j + 1 };
        assert(keys[i] == k);
        assert(keys.index_of_first(k).unwrap() == i);
    }
    assert(after =~= wanted);
}

impl TextMap {
    /// No key stands twice.
    #[verifier::type_invariant]
    spec fn well_formed(self) -> bool {
        entry_keys(self.entries@).no_duplicates()
    }

    /// What the map holds.
    pub closed spec fn view(&self) -> Map<Seq<char>, Seq<char>> {
        mapping(entry_keys(self.entries@), entry_values(self.entries@))
    }

    pub fn new() -> (map: Self)
        ensures
            map@ == Map::<Seq<char>, Seq<char>>::empty(),
    {
        let entries: Vec<(String, String)> = Vec::new();
        assert(entry_keys(entries@) =~= Seq::empty());
        let map = TextMap { entries };
        assert(map@ =~= Map::empty());
        map
    }

    /// Takes the entries out, leaving the map empty.
    fn take_entries(&mut self) -> (entries: Vec<(String, String)>)
        ensures
            entries == old(self).entries,
            entry_keys(entries@).no_duplicates(),
            final(self).entries@ == Seq::<(String, String)>::empty(),
    {
        proof {
            use_type_invariant(&*self);
        }
        let mut entries: Vec<(String, String)> = Vec::new();
        assert(entry_keys(entries@) =~= Seq::empty());
        core::mem::swap(&mut self.entries, &mut entries);
        entries
    }

    /// Puts entries in which no key stands twice in the place of the map's.
    fn put_entries(&mut self, entries: Vec<(String, String)>)
        requires
            entry_keys(entries@).no_duplicates(),
        ensures
            final(self).entries == entries,
    {
        let mut entries = entries;
        core::mem::swap(&mut self.entries, &mut entries);
    }

    fn find(entries: &Vec<(String, String)>, key: &str) -> (found: Option<usize>)
        ensures
            match found {
                Some(at) => at < entries.len() && entry_keys(entries@)[at as int] == key@
                    && entry_keys(entries@).index_of_first(key@) == Some(at as int),
                None => !entry_keys(entries@).contains(key@),
            },
    {
        let ghost keys = entry_keys(entries@);
        let mut i: usize = 0;
        while i < entries.len()
            invariant
                i <= entries.len(),
                keys == entry_keys(entries@),
                forall|j: int| 0 <= j < i ==> keys[j] != key@,
            decreases entries.len() - i,
        {
            if crate::text::text_equal(entries[i].0.as_str(), key) {
                proof {
                    crate::lookup::lemma_first_index(keys, key@, i as int);
                }
                return Some(i);
            }
            i += 1;
        }
        None
    }

    pub fn contains_key(&self, key: &str) -> (found: bool)
        ensures
            found == self@.contains_key(key@),
    {
        let found = Self::find(&self.entries, key);
        proof {
            if found is Some {
                assert(entry_keys(self.entries@).contains(key@));
            }
        }
        found.is_some()
    }

    /// The value that `key` leads to.
    pub fn get(&self, key: &str) -> (value: Option<&String>)
        ensures
            match value {
                Some(v) => self@.contains_key(key@) && self@[key@] == v@,
                None => !self@.contains_key(key@),
            },
    {
        match Self::find(&self.entries, key) {
            Some(at) => {
                assert(entry_keys(self.entries@).contains(key@));
                Some(&self.entries[at].1)
            },
            None => None,
        }
    }

    /// Lets `key` lead to `value`, whatever it led to before.
    pub fn insert(&mut self, key: String, value: String)
        ensures
            final(self)@ == old(self)@.insert(key@, value@),
    {
        let mut entries = self.take_entries();
        let ghost keys = entry_keys(entries@);
        let ghost values = entry_values(entries@);
        match Self::find(&entries, key.as_str()) {
            Some(at) => {
                proof {
                    lemma_mapping_update(keys, values, at as int, value@);
                    assert(entry_keys(entries@.update(at as int, (key, value))) =~= keys);
                    assert(entry_values(entries@.update(at as int, (key, value)))
                        =~= values.update(at as int, value@));
                }
                entries[at] = (key, value);
            },
            None => {
                proof {
                    lemma_mapping_push(keys, values, key@, value@);
                    assert(entry_keys(entries@.push((key, value))) =~= keys.push(key@));
                    assert(entry_values(entries@.push((key, value))) =~= values.push(value@));
                }
                entries.push((key, value));
            },
        }
        self.put_entries(entries);
    }

    /// Forgets `key`.
    pub fn remove(&mut self, key: &str)
        ensures
            final(self)@ == old(self)@.remove(key@),
    {
        let ghost before = self@;
        let mut entries = self.take_entries();
        let ghost keys = entry_keys(entries@);
        let ghost values = entry_values(entries@);
        match Self::find(&entries, key) {
            Some(at) => {
                proof {
                    lemma_mapping_remove(keys, values, at as int);
                    assert(entry_keys(entries@.remove(at as int)) =~= keys.remove(at as int));
                    assert(entry_values(entries@.remove(at as int)) =~= values.remove(at as int));
                }
                entries.remove(at);
            },
            None => {
                assert(before =~= before.remove(key@));
            },
        }
        self.put_entries(entries);
    }

    /// Forgets every key that leads to `value`.
    pub fn remove_value(&mut self, value: &str)
        ensures
            final(self)@ == old(self)@.restrict(
                Set::new(|key: Seq<char>| old(self)@.contains_key(key) && old(self)@[key] != value@),
            ),
    {
        let ghost before = self@;
        let ghost kept = Set::new(|key: Seq<char>| before.contains_key(key) && before[key] != value@);
        let mut entries = self.take_entries();
        let mut i: usize = 0;
        while i < entries.len()
            invariant
                i <= entries.len(),
                entry_keys(entries@).no_duplicates(),
                kept == Set::new(|key: Seq<char>| before.contains_key(key) && before[key] != value@),
                forall|j: int| 0 <= j < i ==> entry_values(entries@)[j] != value@,
                mapping(entry_keys(entries@), entry_values(entries@)).restrict(kept)
                    == before.restrict(kept),
                forall|key: Seq<char>| #[trigger]
                    mapping(entry_keys(entries@), entry_values(entries@)).contains_key(key)
                        ==> before.contains_key(key) && before[key] == mapping(
                        entry_keys(entries@),
                        entry_values(entries@),
                    )[key],
            decreases entries.len() - i,
        {
            if crate::text::text_equal(entries[i].1.as_str(), value) {
                let ghost keys = entry_keys(entries@);
                let ghost values = entry_values(entries@);
                let ghost now = mapping(keys, values);
                proof {
                    lemma_mapping_remove(keys, values, i as int);
                    assert(entry_keys(entries@.remove(i as int)) =~= keys.remove(i as int));
                    assert(entry_values(entries@.remove(i as int)) =~= values.remove(i as int));
                    crate::lookup::lemma_first_index(keys, keys[i as int], i as int);
                    assert(now.contains_key(keys[i as int])) by {
                        assert(keys.contains(keys[i as int]));
                    }
                    assert(now[keys[i as int]] == value@);
                    assert(now.remove(keys[i as int]).restrict(kept) =~= now.restrict(kept));
                    assert forall|j: int| 0 <= j < i implies values.remove(i as int)[j]
                        != value@ by {
                        assert(values[j] != value@);
                    }
                }
                entries.remove(i);
            } else {
                i += 1;
            }
        }
        proof {
            let keys = entry_keys(entries@);
            let values = entry_values(entries@);
            let now = mapping(keys, values);
            assert forall|key: Seq<char>| now.contains_key(key) implies kept.contains(key) by {
                crate::lookup::lemma_index_of_first(keys, key);
                let at = keys.index_of_first(key).unwrap();
                assert(values[at] != value@);
            }
            assert(now =~= now.restrict(kept));
        }
        self.put_entries(entries);
    }
}

} // verus!
