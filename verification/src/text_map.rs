//! Text helpers, and a map from texts to texts that remembers the order of insertion.
use crate::kafka;
use vstd::prelude::*;
use vstd::string::{StrSliceExecFns, StringExecFns};

verus! {

/// Whether `text` begins with `prefix`.
pub open spec fn has_prefix(text: Seq<char>, prefix: Seq<char>) -> bool {
    prefix.len() <= text.len() && text.take(prefix.len() as int) == prefix
}

/// Whether `text` begins with `prefix`.
pub fn starts_with(text: &str, prefix: &str) -> (r: bool)
    ensures
        r == has_prefix(text@, prefix@),
{
    let length = prefix.unicode_len();
    if text.unicode_len() < length {
        return false;
    }
    let mut i: usize = 0;
    while i < length
        invariant
            i <= length,
            length == prefix@.len(),
            length <= text@.len(),
            forall|k: int| 0 <= k < i ==> text@[k] == prefix@[k],
        decreases length - i,
    {
        if text.get_char(i) != prefix.get_char(i) {
            proof {
                assert(text@.take(length as int)[i as int] != prefix@[i as int]);
            }
            return false;
        }
        i += 1;
    }
    proof {
        assert(text@.take(length as int) =~= prefix@);
    }
    true
}

/// Whether two texts are equal.
pub fn same_text(a: &str, b: &str) -> (r: bool)
    ensures
        r == (a@ == b@),
{
    a.to_owned() == b.to_owned()
}

/// Two texts, one after the other.
pub fn join(a: &str, b: &str) -> (r: String)
    ensures
        r@ == a@ + b@,
{
    a.to_owned().concat(b)
}

/// The texts of an entry.
pub open spec fn entry_view(entry: (String, String)) -> (Seq<char>, Seq<char>) {
    (entry.0@, entry.1@)
}

/// The texts of entries.
pub open spec fn entries_view(entries: Seq<(String, String)>) -> Seq<(Seq<char>, Seq<char>)> {
    entries.map_values(|e: (String, String)| entry_view(e))
}

/// The map that results from inserting the pairs one after another.
pub open spec fn map_of(pairs: Seq<(Seq<char>, Seq<char>)>) -> kafka::TextMap
    decreases pairs.len(),
{
    if pairs.len() == 0 {
        Map::empty()
    } else {
        map_of(pairs.drop_last()).insert(pairs.last().0, pairs.last().1)
    }
}

/// No key occurs twice.
pub open spec fn distinct_keys(pairs: Seq<(Seq<char>, Seq<char>)>) -> bool {
    forall|i: int, j: int|
        0 <= i < j < pairs.len() ==> #[trigger] pairs[i].0 != #[trigger] pairs[j].0
}

/// The keys of the map are the keys of the pairs.
pub proof fn lemma_map_of_contains(pairs: Seq<(Seq<char>, Seq<char>)>, key: Seq<char>)
    ensures
        map_of(pairs).contains_key(key) <==> exists|i: int|
            0 <= i < pairs.len() && #[trigger] pairs[i].0 == key,
    decreases pairs.len(),
{
    if pairs.len() > 0 {
        let init = pairs.drop_last();
        lemma_map_of_contains(init, key);
        if pairs.last().0 == key {
            assert(pairs[pairs.len() - 1].0 == key);
        } else if map_of(init).contains_key(key) {
            let i = choose|i: int| 0 <= i < init.len() && #[trigger] init[i].0 == key;
            assert(pairs[i].0 == key);
        } else {
            assert forall|i: int| 0 <= i < pairs.len() implies #[trigger] pairs[i].0 != key by {
                if i < init.len() {
                    assert(init[i].0 == pairs[i].0);
                }
            }
        }
    }
}

/// Where keys are distinct, each pair is in the map.
pub proof fn lemma_map_of_index(pairs: Seq<(Seq<char>, Seq<char>)>, i: int)
    requires
        distinct_keys(pairs),
        0 <= i < pairs.len(),
    ensures
        map_of(pairs).contains_key(pairs[i].0),
        map_of(pairs)[pairs[i].0] == pairs[i].1,
    decreases pairs.len(),
{
    let init = pairs.drop_last();
    if i < init.len() {
        assert(distinct_keys(init)) by {
            assert forall|a: int, b: int| 0 <= a < b < init.len() implies #[trigger] init[a].0
                != #[trigger] init[b].0 by {
                assert(pairs[a].0 != pairs[b].0);
            }
        }
        lemma_map_of_index(init, i);
        assert(init[i] == pairs[i]);
        assert(pairs[i].0 != pairs[pairs.len() - 1].0);
    }
}

/// Replacing the value of a key at its one place is inserting it into the map.
pub proof fn lemma_map_of_update(
    pairs: Seq<(Seq<char>, Seq<char>)>,
    i: int,
    key: Seq<char>,
    value: Seq<char>,
)
    requires
        distinct_keys(pairs),
        0 <= i < pairs.len(),
        pairs[i].0 == key,
    ensures
        map_of(pairs.update(i, (key, value))) == map_of(pairs).insert(key, value),
        distinct_keys(pairs.update(i, (key, value))),
    decreases pairs.len(),
{
    let updated = pairs.update(i, (key, value));
    assert(distinct_keys(updated)) by {
        assert forall|a: int, b: int| 0 <= a < b < updated.len() implies #[trigger] updated[a].0
            != #[trigger] updated[b].0 by {
            assert(pairs[a].0 != pairs[b].0);
        }
    }
    let init = pairs.drop_last();
    if i == pairs.len() - 1 {
        assert(updated.drop_last() =~= init);
        assert(map_of(updated) =~= map_of(pairs).insert(key, value));
    } else {
        assert(distinct_keys(init)) by {
            assert forall|a: int, b: int| 0 <= a < b < init.len() implies #[trigger] init[a].0
                != #[trigger] init[b].0 by {
                assert(pairs[a].0 != pairs[b].0);
            }
        }
        assert(updated.drop_last() =~= init.update(i, (key, value)));
        assert(init[i] == pairs[i]);
        lemma_map_of_update(init, i, key, value);
        assert(pairs[i].0 != pairs[pairs.len() - 1].0);
        assert(map_of(updated) =~= map_of(pairs).insert(key, value));
    }
}

/// Where keys are distinct, the map has as many keys as there are pairs.
pub proof fn lemma_map_of_len(pairs: Seq<(Seq<char>, Seq<char>)>)
    requires
        distinct_keys(pairs),
    ensures
        map_of(pairs).dom().finite(),
        map_of(pairs).len() == pairs.len(),
    decreases pairs.len(),
{
    if pairs.len() > 0 {
        let init = pairs.drop_last();
        assert(distinct_keys(init)) by {
            assert forall|a: int, b: int| 0 <= a < b < init.len() implies #[trigger] init[a].0
                != #[trigger] init[b].0 by {
                assert(pairs[a].0 != pairs[b].0);
            }
        }
        lemma_map_of_len(init);
        lemma_map_of_contains(init, pairs.last().0);
        assert forall|i: int| 0 <= i < init.len() implies #[trigger] init[i].0
            != pairs.last().0 by {
            assert(pairs[i].0 != pairs[pairs.len() - 1].0);
        }
    }
}

/// A map from texts to texts. Its entries keep the order in which their keys were inserted first,
/// and no key occurs twice.
#[derive(Debug)]
pub struct StringMap {
    entries: Vec<(String, String)>,
}

impl View for StringMap {
    type V = kafka::TextMap;

    closed spec fn view(&self) -> kafka::TextMap {
        map_of(entries_view(self.entries@))
    }
}

impl StringMap {
    /// The entries in order.
    pub closed spec fn pairs(&self) -> Seq<(Seq<char>, Seq<char>)> {
        entries_view(self.entries@)
    }

    #[verifier::type_invariant]
    spec fn keys_are_distinct(&self) -> bool {
        distinct_keys(entries_view(self.entries@))
    }

    /// An empty map.
    pub fn new() -> (map: StringMap)
        ensures
            map@ == kafka::TextMap::empty(),
    {
        let map = StringMap { entries: Vec::new() };
        proof {
            assert(entries_view(map.entries@) =~= Seq::empty());
        }
        map
    }

    /// The entries in order: they are the map, and no key occurs twice among them.
    pub fn entries(&self) -> (entries: &Vec<(String, String)>)
        ensures
            entries_view(entries@) == self.pairs(),
            map_of(self.pairs()) == self@,
            distinct_keys(self.pairs()),
    {
        proof {
            use_type_invariant(self);
        }
        &self.entries
    }

    /// The index of a key among entries, or their number where the key is not among them.
    fn position(entries: &Vec<(String, String)>, key: &str) -> (r: usize)
        ensures
            r <= entries.len(),
            r < entries.len() ==> entries_view(entries@)[r as int].0 == key@,
            forall|i: int| 0 <= i < r ==> #[trigger] entries_view(entries@)[i].0 != key@,
    {
        let mut i: usize = 0;
        while i < entries.len()
            invariant
                i <= entries.len(),
                forall|k: int| 0 <= k < i ==> #[trigger] entries_view(entries@)[k].0 != key@,
            decreases entries.len() - i,
        {
            if same_text(entries[i].0.as_str(), key) {
                return i;
            }
            i += 1;
        }
        i
    }

    /// The number of keys.
    pub fn len(&self) -> (r: usize)
        ensures
            r == self@.len(),
    {
        proof {
            use_type_invariant(self);
            lemma_map_of_len(entries_view(self.entries@));
        }
        self.entries.len()
    }

    /// The value of a key.
    pub fn get(&self, key: &str) -> (r: Option<&String>)
        ensures
            r is Some <==> self@.contains_key(key@),
            r matches Some(value) ==> value@ == self@[key@],
    {
        proof {
            use_type_invariant(self);
            lemma_map_of_contains(entries_view(self.entries@), key@);
        }
        let i = StringMap::position(&self.entries, key);
        if i < self.entries.len() {
            proof {
                lemma_map_of_index(entries_view(self.entries@), i as int);
            }
            Some(&self.entries[i].1)
        } else {
            None
        }
    }

    /// Whether the map has a key.
    pub fn contains_key(&self, key: &str) -> (r: bool)
        ensures
            r == self@.contains_key(key@),
    {
        self.get(key).is_some()
    }

    /// The map with a value stored under a key, over an earlier value if there is one.
    pub fn insert(self, key: String, value: String) -> (r: StringMap)
        ensures
            r@ == self@.insert(key@, value@),
    {
        proof {
            use_type_invariant(&self);
            lemma_map_of_contains(entries_view(self.entries@), key@);
        }
        let ghost pairs = entries_view(self.entries@);
        let mut entries = self.entries;
        let i = StringMap::position(&entries, key.as_str());
        if i < entries.len() {
            entries.set(i, (key, value));
            proof {
                lemma_map_of_update(pairs, i as int, key@, value@);
                assert(entries_view(entries@) =~= pairs.update(i as int, (key@, value@)));
            }
        } else {
            entries.push((key, value));
            proof {
                let after = pairs.push((key@, value@));
                assert(entries_view(entries@) =~= after);
                assert(after.drop_last() =~= pairs);
                assert forall|a: int, b: int| 0 <= a < b < after.len() implies #[trigger] after[a].0
                    != #[trigger] after[b].0 by {
                    assert(after[a] == pairs[a]);
                    if b < pairs.len() {
                        assert(after[b] == pairs[b]);
                    }
                }
            }
        }
        StringMap { entries }
    }

    /// The map that results from inserting entries one after another.
    pub fn from_entries(entries: Vec<(String, String)>) -> (map: StringMap)
        ensures
            map@ == map_of(entries_view(entries@)),
    {
        let ghost pairs = entries_view(entries@);
        let mut map = StringMap::new();
        let mut i: usize = 0;
        while i < entries.len()
            invariant
                i <= entries.len(),
                pairs == entries_view(entries@),
                map@ == map_of(pairs.take(i as int)),
            decreases entries.len() - i,
        {
            map = map.insert(entries[i].0.clone(), entries[i].1.clone());
            proof {
                assert(pairs.take(i + 1).drop_last() =~= pairs.take(i as int));
            }
            i += 1;
        }
        proof {
            assert(pairs.take(pairs.len() as int) =~= pairs);
        }
        map
    }
}

/// A text begins with another exactly where that one is a prefix of it.
pub proof fn law_prefix_is_the_beginning(text: Seq<char>, prefix: Seq<char>)
    ensures
        has_prefix(text, prefix) <==> prefix.is_prefix_of(text),
{
    if prefix.len() <= text.len() {
        assert(text.take(prefix.len() as int) =~= text.subrange(0, prefix.len() as int));
    }
}

/// The map that pairs come to has the keys of the pairs and no others, each with the value that
/// stands last under it.
pub proof fn law_last_value_of_a_key_counts(pairs: Seq<(Seq<char>, Seq<char>)>, key: Seq<char>)
    ensures
        map_of(pairs).contains_key(key) <==> exists|i: int|
            0 <= i < pairs.len() && #[trigger] pairs[i].0 == key,
        forall|i: int|
            0 <= i < pairs.len() && (#[trigger] pairs[i]).0 == key && (forall|j: int|
                i < j < pairs.len() ==> (#[trigger] pairs[j]).0 != key) ==> map_of(pairs)[key]
                == pairs[i].1,
    decreases pairs.len(),
{
    lemma_map_of_contains(pairs, key);
    if pairs.len() > 0 {
        let init = pairs.drop_last();
        law_last_value_of_a_key_counts(init, key);
        assert forall|i: int|
            0 <= i < pairs.len() && (#[trigger] pairs[i]).0 == key && (forall|j: int|
                i < j < pairs.len() ==> (#[trigger] pairs[j]).0 != key) implies map_of(pairs)[key]
            == pairs[i].1 by {
            if i < init.len() {
                assert(pairs[pairs.len() - 1].0 != key);
                assert(init[i] == pairs[i]);
                assert forall|j: int| i < j < init.len() implies (#[trigger] init[j]).0 != key by {
                    assert(pairs[j] == init[j]);
                }
            }
        }
    }
}

/// The texts of entries are the texts of each, key and value in their places.
pub proof fn law_entries_are_taken_one_by_one(entries: Seq<(String, String)>, i: int)
    requires
        0 <= i < entries.len(),
    ensures
        entries_view(entries).len() == entries.len(),
        entries_view(entries)[i].0 == entries[i].0@,
        entries_view(entries)[i].1 == entries[i].1@,
{
}

} // verus!
