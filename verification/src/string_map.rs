//! A map from text to text that keeps its entries in the order in which their keys first came.
use crate::text::same_text;
use vstd::prelude::*;
use vstd::string::*;

verus! {

/// A key and its value, as text.
pub type Entry = (Seq<char>, Seq<char>);

/// No key occurs twice.
pub open spec fn keys_distinct(entries: Seq<Entry>) -> bool {
    forall|i: int, j: int|
        0 <= i < j < entries.len() ==> (#[trigger] entries[i]).0 != (#[trigger] entries[j]).0
}

/// The index of the first entry whose key is `key`, or the number of entries.
pub open spec fn key_index(entries: Seq<Entry>, key: Seq<char>) -> int
    decreases entries.len(),
{
    if entries.len() == 0 || entries[0].0 == key {
        0
    } else {
        1 + key_index(entries.drop_first(), key)
    }
}

/// `entries` with `key` set to `value`: in place where the key is there, else at the end.
pub open spec fn with_entry(entries: Seq<Entry>, key: Seq<char>, value: Seq<char>) -> Seq<Entry> {
    let i = key_index(entries, key);
    if i < entries.len() {
        entries.update(i, (key, value))
    } else {
        entries.push((key, value))
    }
}

/// What is left of `pairs` when each in turn is set: the last value of each key counts.
pub open spec fn collected(pairs: Seq<Entry>) -> Seq<Entry>
    decreases pairs.len(),
{
    if pairs.len() == 0 {
        Seq::empty()
    } else {
        with_entry(collected(pairs.drop_last()), pairs.last().0, pairs.last().1)
    }
}

/// The mathematical map that `pairs` set one after another.
pub open spec fn map_of(pairs: Seq<Entry>) -> Map<Seq<char>, Seq<char>>
    decreases pairs.len(),
{
    if pairs.len() == 0 {
        Map::empty()
    } else {
        map_of(pairs.drop_last()).insert(pairs.last().0, pairs.last().1)
    }
}

proof fn lemma_key_index(entries: Seq<Entry>, key: Seq<char>)
    ensures
        0 <= key_index(entries, key) <= entries.len(),
        key_index(entries, key) < entries.len() ==> entries[key_index(entries, key)].0 == key,
        forall|j: int| 0 <= j < key_index(entries, key) ==> (#[trigger] entries[j]).0 != key,
    decreases entries.len(),
{
    if entries.len() > 0 && entries[0].0 != key {
        let rest = entries.drop_first();
        lemma_key_index(rest, key);
        assert forall|j: int| 0 <= j < key_index(entries, key) implies (
        #[trigger] entries[j]).0 != key by {
            if j > 0 {
                assert(entries[j] == rest[j - 1]);
            }
        }
    }
}

/// The index of a key is the one place where it stands first.
pub proof fn lemma_key_index_is(entries: Seq<Entry>, key: Seq<char>, i: int)
    requires
        0 <= i <= entries.len(),
        i < entries.len() ==> entries[i].0 == key,
        forall|j: int| 0 <= j < i ==> (#[trigger] entries[j]).0 != key,
    ensures
        key_index(entries, key) == i,
{
    lemma_key_index(entries, key);
    let f = key_index(entries, key);
    if f < i {
        assert(entries[f].0 == key);
    } else if i < f {
        assert(entries[i].0 != key);
    }
}

proof fn lemma_with_entry_distinct(entries: Seq<Entry>, key: Seq<char>, value: Seq<char>)
    requires
        keys_distinct(entries),
    ensures
        keys_distinct(with_entry(entries, key, value)),
{
    lemma_key_index(entries, key);
    let k = key_index(entries, key);
    let after = with_entry(entries, key, value);
    assert forall|i: int, j: int| 0 <= i < j < after.len() implies (#[trigger] after[i]).0 != (
    #[trigger] after[j]).0 by {
        if k < entries.len() {
            assert(after[i].0 == entries[i].0);
            assert(after[j].0 == entries[j].0);
        } else if j < entries.len() {
            assert(after[i] == entries[i] && after[j] == entries[j]);
        } else {
            assert(after[i] == entries[i]);
        }
    }
}

/// What collecting leaves never holds a key twice.
pub proof fn lemma_collected_distinct(pairs: Seq<Entry>)
    ensures
        keys_distinct(collected(pairs)),
    decreases pairs.len(),
{
    if pairs.len() > 0 {
        lemma_collected_distinct(pairs.drop_last());
        lemma_with_entry_distinct(collected(pairs.drop_last()), pairs.last().0, pairs.last().1);
    }
}

/// Whether some entry has the key `key`.
pub open spec fn has_key(pairs: Seq<Entry>, key: Seq<char>) -> bool {
    exists|i: int| 0 <= i < pairs.len() && (#[trigger] pairs[i]).0 == key
}

proof fn lemma_map_of(pairs: Seq<Entry>)
    ensures
        forall|key: Seq<char>| #[trigger]
            map_of(pairs).contains_key(key) == has_key(pairs, key),
        keys_distinct(pairs) ==> forall|i: int|
            0 <= i < pairs.len() ==> map_of(pairs)[(#[trigger] pairs[i]).0] == pairs[i].1,
    decreases pairs.len(),
{
    if pairs.len() > 0 {
        let front = pairs.drop_last();
        lemma_map_of(front);
        assert forall|key: Seq<char>| #[trigger]
            map_of(pairs).contains_key(key) == has_key(pairs, key) by {
            assert(map_of(front).contains_key(key) == has_key(front, key));
            assert(pairs[pairs.len() - 1] == pairs.last());
            if has_key(front, key) {
                let i = choose|i: int| 0 <= i < front.len() && (#[trigger] front[i]).0 == key;
                assert(pairs[i].0 == key);
            }
            if has_key(pairs, key) {
                let i = choose|i: int| 0 <= i < pairs.len() && (#[trigger] pairs[i]).0 == key;
                if i < front.len() {
                    assert(front[i].0 == key);
                }
            }
        }
        if keys_distinct(pairs) {
            assert(keys_distinct(front)) by {
                assert forall|i: int, j: int| 0 <= i < j < front.len() implies (
                #[trigger] front[i]).0 != (#[trigger] front[j]).0 by {
                    assert(front[i] == pairs[i] && front[j] == pairs[j]);
                }
            }
            assert forall|i: int| 0 <= i < pairs.len() implies map_of(pairs)[(
            #[trigger] pairs[i]).0] == pairs[i].1 by {
                if i < front.len() {
                    assert(front[i] == pairs[i]);
                    assert(pairs[i].0 != pairs[pairs.len() - 1].0);
                }
            }
        }
    }
}

proof fn lemma_with_entry_map(entries: Seq<Entry>, key: Seq<char>, value: Seq<char>)
    requires
        keys_distinct(entries),
    ensures
        map_of(with_entry(entries, key, value)) == map_of(entries).insert(key, value),
{
    lemma_key_index(entries, key);
    lemma_with_entry_distinct(entries, key, value);
    let k = key_index(entries, key);
    let after = with_entry(entries, key, value);
    if k == entries.len() {
        assert(after.drop_last() =~= entries);
    } else {
        lemma_map_of(entries);
        lemma_map_of(after);
        let want = map_of(entries).insert(key, value);
        assert forall|x: Seq<char>| #[trigger] map_of(after).contains_key(x)
            == want.contains_key(x) by {
            assert(map_of(entries).contains_key(x) == has_key(entries, x));
            if has_key(after, x) {
                let i = choose|i: int| 0 <= i < after.len() && (#[trigger] after[i]).0 == x;
                assert(entries[i].0 == x);
            }
            if has_key(entries, x) {
                let i = choose|i: int| 0 <= i < entries.len() && (#[trigger] entries[i]).0 == x;
                assert(after[i].0 == x);
            }
            assert(after[k].0 == key);
        }
        assert forall|x: Seq<char>| #[trigger] map_of(after).contains_key(x) implies map_of(
            after,
        )[x] == want[x] by {
            let i = choose|i: int| 0 <= i < after.len() && (#[trigger] after[i]).0 == x;
            assert(map_of(after)[after[i].0] == after[i].1);
            if i != k {
                assert(entries[i] == after[i]);
                assert(map_of(entries)[entries[i].0] == entries[i].1);
                if x == key {
                    assert(after[k].0 == after[i].0);
                }
            }
        }
        assert(map_of(after) =~= want);
    }
}

/// Collecting pairs gives the map that the pairs set one after another: of a key that comes more
/// than once the last value counts.
pub proof fn law_collected_map(pairs: Seq<Entry>)
    ensures
        map_of(collected(pairs)) == map_of(pairs),
    decreases pairs.len(),
{
    if pairs.len() > 0 {
        law_collected_map(pairs.drop_last());
        lemma_collected_distinct(pairs.drop_last());
        lemma_with_entry_map(collected(pairs.drop_last()), pairs.last().0, pairs.last().1);
    }
}

/// Pairs with distinct keys are collected as they stand.
pub proof fn law_collected_of_distinct(pairs: Seq<Entry>)
    requires
        keys_distinct(pairs),
    ensures
        collected(pairs) == pairs,
    decreases pairs.len(),
{
    if pairs.len() > 0 {
        let front = pairs.drop_last();
        assert forall|i: int, j: int| 0 <= i < j < front.len() implies (#[trigger] front[i]).0 != (
        #[trigger] front[j]).0 by {
            assert(front[i] == pairs[i] && front[j] == pairs[j]);
        }
        law_collected_of_distinct(front);
        assert forall|j: int| 0 <= j < front.len() implies (#[trigger] front[j]).0
            != pairs.last().0 by {
            assert(front[j] == pairs[j]);
            assert(pairs[j].0 != pairs[pairs.len() - 1].0);
        }
        lemma_key_index_is(front, pairs.last().0, front.len() as int);
        assert(front.push(pairs.last()) =~= pairs);
    } else {
        assert(pairs =~= Seq::empty());
    }
}

/// The text of a pair of strings.
pub open spec fn entry_view(entry: (String, String)) -> Entry {
    (entry.0@, entry.1@)
}

/// The text of pairs of strings.
pub open spec fn entries_view(pairs: Seq<(String, String)>) -> Seq<Entry> {
    Seq::new(pairs.len(), |i: int| entry_view(pairs[i]))
}

/// A map from text to text.
#[derive(Debug)]
pub struct StringMap {
    entries: Vec<(String, String)>,
}

impl View for StringMap {
    type V = Map<Seq<char>, Seq<char>>;

    open spec fn view(&self) -> Map<Seq<char>, Seq<char>> {
        map_of(self.entries())
    }
}

impl StringMap {
    /// The entries, in the order in which their keys first came.
    pub closed spec fn entries(self) -> Seq<Entry> {
        entries_view(self.entries@)
    }

    #[verifier::type_invariant]
    spec fn well_formed(self) -> bool {
        keys_distinct(self.entries())
    }

    /// A map without entries.
    pub fn new() -> (map: StringMap)
        ensures
            map.entries() == Seq::<Entry>::empty(),
            map@ == Map::<Seq<char>, Seq<char>>::empty(),
    {
        let map = StringMap { entries: Vec::new() };
        assert(map.entries() =~= Seq::<Entry>::empty());
        map
    }

    /// The number of entries; no two of them have the same key.
    pub fn len(&self) -> (n: usize)
        ensures
            n == self.entries().len(),
            keys_distinct(self.entries()),
    {
        proof {
            use_type_invariant(self);
        }
        self.entries.len()
    }

    /// The key and value of the entry at `i`.
    pub fn entry(&self, i: usize) -> (entry: (&str, &str))
        requires
            i < self.entries().len(),
        ensures
            (entry.0@, entry.1@) == self.entries()[i as int],
    {
        let pair = &self.entries[i];
        (pair.0.as_str(), pair.1.as_str())
    }

    /// The index of the entry whose key is `key`, or the number of entries.
    fn position(&self, key: &str) -> (i: usize)
        ensures
            i == key_index(self.entries(), key@),
            i <= self.entries().len(),
    {
        let mut i: usize = 0;
        while i < self.entries.len()
            invariant
                i <= self.entries.len(),
                forall|j: int| 0 <= j < i ==> (#[trigger] self.entries()[j]).0 != key@,
            decreases self.entries.len() - i,
        {
            let pair = &self.entries[i];
            assert(self.entries()[i as int] == (pair.0@, pair.1@));
            if same_text(pair.0.as_str(), key) {
                proof {
                    lemma_key_index_is(self.entries(), key@, i as int);
                }
                return i;
            }
            i = i + 1;
        }
        proof {
            lemma_key_index_is(self.entries(), key@, i as int);
        }
        i
    }

    /// The value of `key`.
    pub fn get(&self, key: &str) -> (value: Option<&str>)
        ensures
            match value {
                Some(value) => self@.contains_key(key@) && self@[key@] == value@,
                None => !self@.contains_key(key@),
            },
    {
        proof {
            use_type_invariant(self);
            lemma_map_of(self.entries());
            lemma_key_index(self.entries(), key@);
        }
        let i = self.position(key);
        if i < self.entries.len() {
            let pair = &self.entries[i];
            assert(self.entries()[i as int] == (pair.0@, pair.1@));
            Some(pair.1.as_str())
        } else {
            None
        }
    }

    /// Sets `key` to `value`.
    pub fn insert(&mut self, key: String, value: String)
        ensures
            final(self).entries() == with_entry(old(self).entries(), key@, value@),
            final(self)@ == old(self)@.insert(key@, value@),
    {
        proof {
            use_type_invariant(&*self);
            lemma_with_entry_distinct(self.entries(), key@, value@);
            lemma_with_entry_map(self.entries(), key@, value@);
        }
        let ghost before = self.entries();
        let i = self.position(key.as_str());
        let ghost pair = (key@, value@);
        let mut entries: Vec<(String, String)> = Vec::new();
        proof {
            assert(entries_view(entries@) =~= Seq::<
                Entry,
            >::empty());
        }
        std::mem::swap(&mut entries, &mut self.entries);
        if i < entries.len() {
            entries.set(i, (key, value));
            assert(entries_view(entries@)
                =~= before.update(i as int, pair));
        } else {
            entries.push((key, value));
            assert(entries_view(entries@)
                =~= before.push(pair));
        }
        self.entries = entries;
    }
}

impl Clone for StringMap {
    fn clone(&self) -> (copy: Self)
        ensures
            copy.entries() == self.entries(),
            copy@ == self@,
    {
        proof {
            use_type_invariant(self);
        }
        let mut entries: Vec<(String, String)> = Vec::new();
        let mut i: usize = 0;
        while i < self.entries.len()
            invariant
                entries.len() == i <= self.entries.len(),
                entries_view(entries@) == self.entries().take(i as int),
            decreases self.entries.len() - i,
        {
            let pair = &self.entries[i];
            assert(self.entries()[i as int] == entry_view(*pair));
            let ghost before = entries@;
            entries.push((pair.0.clone(), pair.1.clone()));
            assert forall|j: int| 0 <= j < i implies #[trigger] entries_view(entries@)[j]
                == self.entries()[j] by {
                assert(entries_view(before)[j] == self.entries().take(i as int)[j]);
            }
            assert(entries_view(entries@)
                =~= self.entries().take(i + 1));
            i = i + 1;
        }
        assert(self.entries().take(i as int) =~= self.entries());
        StringMap { entries }
    }
}

/// Of a key that comes more than once the last value counts: the last pair of each key is among
/// what collecting leaves, and every entry that is left was one of the pairs.
pub proof fn law_last_value_counts(pairs: Seq<Entry>, i: int)
    requires
        0 <= i < pairs.len(),
        forall|j: int| i < j < pairs.len() ==> (#[trigger] pairs[j]).0 != pairs[i].0,
    ensures
        collected(pairs).contains(pairs[i]),
        forall|k: int|
            0 <= k < collected(pairs).len() ==> pairs.contains(#[trigger] collected(pairs)[k]),
    decreases pairs.len(),
{
    lemma_collected_from_pairs(pairs);
    let front = pairs.drop_last();
    let before = collected(front);
    let last = pairs.last();
    let after = collected(pairs);
    let k = key_index(before, last.0);
    lemma_key_index(before, last.0);
    if i == pairs.len() - 1 {
        assert(after[k] == last);
    } else {
        assert forall|j: int| i < j < front.len() implies (#[trigger] front[j]).0 != front[i].0 by {
            assert(front[j] == pairs[j]);
        }
        law_last_value_counts(front, i);
        assert(pairs[pairs.len() - 1].0 != pairs[i].0);
        let p = choose|p: int| 0 <= p < before.len() && before[p] == front[i];
        assert(after[p] == pairs[i]);
    }
}

proof fn lemma_collected_from_pairs(pairs: Seq<Entry>)
    ensures
        forall|k: int|
            0 <= k < collected(pairs).len() ==> pairs.contains(#[trigger] collected(pairs)[k]),
    decreases pairs.len(),
{
    if pairs.len() > 0 {
        let front = pairs.drop_last();
        let before = collected(front);
        let after = collected(pairs);
        lemma_collected_from_pairs(front);
        lemma_key_index(before, pairs.last().0);
        assert forall|k: int| 0 <= k < after.len() implies pairs.contains(
            #[trigger] after[k],
        ) by {
            if k < before.len() && after[k] == before[k] {
                let j = choose|j: int| 0 <= j < front.len() && front[j] == before[k];
                assert(pairs[j] == after[k]);
            } else {
                assert(pairs[pairs.len() - 1] == after[k]);
            }
        }
    }
}

} // verus!
