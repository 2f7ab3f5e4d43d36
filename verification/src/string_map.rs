//! A small map from strings to strings, kept as a list of entries with
//! pairwise distinct keys.

use vstd::prelude::*;

verus! {

/// One key of a [`StringMap`] with the value stored under it.
#[derive(Debug)]
struct Entry {
    key: String,
    value: String,
}

/// No two positions of `entries` hold the same key.
spec fn distinct_keys(entries: Seq<Entry>) -> bool {
    forall|i: int, j: int|
        0 <= i < j < entries.len() ==> (#[trigger] entries[i]).key@ != (#[trigger] entries[j]).key@
}

/// The map that a list of entries stands for; a later entry wins over an
/// earlier one with the same key.
spec fn map_of(entries: Seq<Entry>) -> Map<Seq<char>, Seq<char>>
    decreases entries.len(),
{
    if entries.len() == 0 {
        Map::empty()
    } else {
        map_of(entries.drop_last()).insert(entries.last().key@, entries.last().value@)
    }
}

/// With distinct keys, `map_of` has one key per entry and maps each entry's
/// key to that entry's value.
proof fn lemma_map_of_entries(entries: Seq<Entry>)
    requires
        distinct_keys(entries),
    ensures
        map_of(entries).dom().finite(),
        map_of(entries).len() == entries.len(),
        forall|k: Seq<char>| #[trigger]
            map_of(entries).contains_key(k) <==> exists|i: int|
                0 <= i < entries.len() && (#[trigger] entries[i]).key@ == k,
        forall|i: int|
            0 <= i < entries.len() ==> map_of(entries).contains_key((#[trigger] entries[i]).key@)
                && map_of(entries)[entries[i].key@] == entries[i].value@,
    decreases entries.len(),
{
    if entries.len() > 0 {
        let rest = entries.drop_last();
        assert(distinct_keys(rest));
        lemma_map_of_entries(rest);
        assert forall|i: int| 0 <= i < entries.len() implies map_of(entries).contains_key(
            (#[trigger] entries[i]).key@,
        ) && map_of(entries)[entries[i].key@] == entries[i].value@ by {
            if i < rest.len() {
                assert(rest[i] == entries[i]);
            }
        }
    }
}

/// A finite map from strings to strings, such as the labels of a pod or the
/// resource requests of a container.
///
/// Its view is a `Map<Seq<char>, Seq<char>>`. No key is held twice; the order
/// of the entries carries no meaning.
#[derive(Debug)]
pub struct StringMap {
    entries: Vec<Entry>,
}

impl View for StringMap {
    type V = Map<Seq<char>, Seq<char>>;

    closed spec fn view(&self) -> Map<Seq<char>, Seq<char>> {
        map_of(self.entries@)
    }
}

impl StringMap {
    #[verifier::type_invariant]
    spec fn well_formed(self) -> bool {
        distinct_keys(self.entries@)
    }

    /// The empty map.
    pub fn new() -> (map: StringMap)
        ensures
            map@ == Map::<Seq<char>, Seq<char>>::empty(),
    {
        StringMap { entries: Vec::new() }
    }

    /// The number of keys.
    pub fn len(&self) -> (n: usize)
        ensures
            self@.dom().finite(),
            n == self@.len(),
    {
        proof {
            use_type_invariant(self);
            lemma_map_of_entries(self.entries@);
        }
        self.entries.len()
    }

    /// Whether the map holds no key at all.
    pub fn is_empty(&self) -> (empty: bool)
        ensures
            empty == (self@ == Map::<Seq<char>, Seq<char>>::empty()),
    {
        proof {
            use_type_invariant(self);
            lemma_map_of_entries(self.entries@);
        }
        self.entries.len() == 0
    }

    /// The position of `key` among the entries, or the number of entries
    /// where no entry holds it.
    fn position(entries: &Vec<Entry>, key: &String) -> (at: usize)
        ensures
            at <= entries@.len(),
            at < entries@.len() ==> entries@[at as int].key@ == key@,
            forall|i: int| 0 <= i < at ==> (#[trigger] entries@[i]).key@ != key@,
    {
        let mut at: usize = 0;
        while at < entries.len()
            invariant
                at <= entries@.len(),
                forall|i: int| 0 <= i < at ==> (#[trigger] entries@[i]).key@ != key@,
            decreases entries@.len() - at,
        {
            if entries[at].key == *key {
                return at;
            }
            at += 1;
        }
        at
    }

    /// The value stored under `key`, if there is one.
    pub fn get(&self, key: &String) -> (found: Option<&String>)
        ensures
            match found {
                Some(value) => self@.contains_key(key@) && self@[key@] == value@,
                None => !self@.contains_key(key@),
            },
    {
        proof {
            use_type_invariant(self);
            lemma_map_of_entries(self.entries@);
        }
        let at = Self::position(&self.entries, key);
        if at < self.entries.len() {
            Some(&self.entries[at].value)
        } else {
            None
        }
    }

    /// Whether a value is stored under `key`.
    pub fn contains_key(&self, key: &String) -> (held: bool)
        ensures
            held == self@.contains_key(key@),
    {
        self.get(key).is_some()
    }

    /// Stores `value` under `key`, in place of the value that was stored there
    /// before, if any.
    pub fn insert(&mut self, key: String, value: String)
        ensures
            final(self)@ == old(self)@.insert(key@, value@),
    {
        proof {
            use_type_invariant(&*self);
        }
        let mut entries: Vec<Entry> = Vec::new();
        std::mem::swap(&mut entries, &mut self.entries);
        let ghost before = entries@;
        let ghost k = key@;
        let ghost v = value@;
        let at = Self::position(&entries, &key);
        if at < entries.len() {
            entries.set(at, Entry { key, value });
            proof {
                let after = entries@;
                assert(distinct_keys(after));
                lemma_map_of_entries(before);
                lemma_map_of_entries(after);
                assert forall|q: Seq<char>| #[trigger]
                    map_of(after).contains_key(q) <==> map_of(before).insert(k, v).contains_key(
                        q,
                    ) by {
                    if map_of(before).contains_key(q) {
                        let i = choose|i: int|
                            0 <= i < before.len() && (#[trigger] before[i]).key@ == q;
                        assert(after[i].key@ == q);
                    }
                }
                assert(map_of(after) =~= map_of(before).insert(k, v));
            }
        } else {
            entries.push(Entry { key, value });
            proof {
                assert(entries@.drop_last() =~= before);
                assert(distinct_keys(entries@));
            }
        }
        self.entries = entries;
    }

    /// The entries as pairs of key and value, one pair for each key.
    pub fn pairs(&self) -> (pairs: Vec<(String, String)>)
        ensures
            pairs@.len() == self@.len(),
            forall|i: int|
                0 <= i < pairs@.len() ==> self@.contains_key((#[trigger] pairs@[i]).0@)
                    && self@[pairs@[i].0@] == pairs@[i].1@,
            forall|i: int, j: int|
                0 <= i < j < pairs@.len() ==> (#[trigger] pairs@[i]).0@ != (#[trigger] pairs@[j]).0@,
    {
        proof {
            use_type_invariant(self);
            lemma_map_of_entries(self.entries@);
        }
        let mut pairs: Vec<(String, String)> = Vec::new();
        let mut at: usize = 0;
        while at < self.entries.len()
            invariant
                at <= self.entries@.len(),
                pairs@.len() == at,
                forall|i: int|
                    0 <= i < at ==> (#[trigger] pairs@[i]).0@ == self.entries@[i].key@ && pairs@[i].1@
                        == self.entries@[i].value@,
            decreases self.entries@.len() - at,
        {
            pairs.push((self.entries[at].key.clone(), self.entries[at].value.clone()));
            at += 1;
        }
        pairs
    }
}

impl Clone for StringMap {
    fn clone(&self) -> (copy: StringMap)
        ensures
            copy@ == self@,
    {
        proof {
            use_type_invariant(self);
        }
        let mut entries: Vec<Entry> = Vec::new();
        let mut at: usize = 0;
        while at < self.entries.len()
            invariant
                at <= self.entries@.len(),
                entries@.len() == at,
                forall|i: int|
                    0 <= i < at ==> (#[trigger] entries@[i]).key@ == self.entries@[i].key@
                        && entries@[i].value@ == self.entries@[i].value@,
            decreases self.entries@.len() - at,
        {
            entries.push(
                Entry { key: self.entries[at].key.clone(), value: self.entries[at].value.clone() },
            );
            at += 1;
        }
        proof {
            assert(distinct_keys(entries@));
            lemma_same_entries_same_map(entries@, self.entries@);
        }
        StringMap { entries }
    }
}

/// Lists that agree on keys and values position by position stand for the
/// same map.
proof fn lemma_same_entries_same_map(a: Seq<Entry>, b: Seq<Entry>)
    requires
        a.len() == b.len(),
        forall|i: int|
            0 <= i < a.len() ==> (#[trigger] a[i]).key@ == b[i].key@ && a[i].value@ == b[i].value@,
    ensures
        map_of(a) == map_of(b),
    decreases a.len(),
{
    if a.len() > 0 {
        assert(a.last().key@ == b.last().key@ && a.last().value@ == b.last().value@);
        assert forall|i: int| 0 <= i < a.drop_last().len() implies (#[trigger] a.drop_last()[i]).key@
            == b.drop_last()[i].key@ && a.drop_last()[i].value@ == b.drop_last()[i].value@ by {
            assert(a[i].key@ == b[i].key@);
        }
        lemma_same_entries_same_map(a.drop_last(), b.drop_last());
    }
}

} // verus!
