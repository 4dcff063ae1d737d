use vstd::prelude::*;
use crate::json::{encode_object, encoded, json_object_text, EncodeError};

verus! {

/// One key with its value.
#[derive(Clone, Debug, PartialEq, Eq)]
pub struct Entry {
    pub key: String,
    pub value: String,
}

/// The keys and values of a sequence of entries, as sequences of characters.
pub open spec fn texts_of(entries: Seq<Entry>) -> Seq<(Seq<char>, Seq<char>)> {
    Seq::new(entries.len(), |i: int| (entries[i].key@, entries[i].value@))
}

/// No key stands twice in `entries`.
pub open spec fn keys_distinct(entries: Seq<(Seq<char>, Seq<char>)>) -> bool {
    forall|i: int, j: int|
        0 <= i < entries.len() && 0 <= j < entries.len() && i != j ==> entries[i].0 != entries[j].0
}

/// The map that a sequence of entries stands for: each key with its value.
pub open spec fn map_of(entries: Seq<(Seq<char>, Seq<char>)>) -> Map<Seq<char>, Seq<char>>
    decreases entries.len(),
{
    if entries.len() == 0 {
        Map::empty()
    } else {
        map_of(entries.drop_last()).insert(entries.last().0, entries.last().1)
    }
}

/// Index of the first entry with the given key at or after `from`, or the
/// number of entries where there is none.
pub open spec fn index_of_key(entries: Seq<(Seq<char>, Seq<char>)>, key: Seq<char>, from: int) -> int
    decreases entries.len() - from,
{
    if from < 0 || from >= entries.len() {
        entries.len() as int
    } else if entries[from].0 == key {
        from
    } else {
        index_of_key(entries, key, from + 1)
    }
}

/// The entries after `key` has been given `value`: the value replaced where
/// the key stands, the pair added at the end where it does not.
pub open spec fn with_pair(
    entries: Seq<(Seq<char>, Seq<char>)>,
    key: Seq<char>,
    value: Seq<char>,
) -> Seq<(Seq<char>, Seq<char>)> {
    let k = index_of_key(entries, key, 0);
    if k < entries.len() {
        entries.update(k, (key, value))
    } else {
        entries.push((key, value))
    }
}

/// `index_of_key` finds the first entry with the key, if there is one.
pub proof fn lemma_index_of_key(entries: Seq<(Seq<char>, Seq<char>)>, key: Seq<char>, from: int)
    requires
        0 <= from <= entries.len(),
    ensures
        from <= index_of_key(entries, key, from) <= entries.len(),
        index_of_key(entries, key, from) < entries.len() ==> entries[index_of_key(
            entries,
            key,
            from,
        )].0 == key,
        forall|j: int| from <= j < index_of_key(entries, key, from) ==> entries[j].0 != key,
    decreases entries.len() - from,
{
    if from < entries.len() && entries[from].0 != key {
        lemma_index_of_key(entries, key, from + 1);
    }
}

/// The map holds exactly the keys of the entries.
pub proof fn lemma_map_of_dom(entries: Seq<(Seq<char>, Seq<char>)>, key: Seq<char>)
    ensures
        map_of(entries).dom().contains(key) <==> exists|i: int|
            0 <= i < entries.len() && #[trigger] entries[i].0 == key,
        map_of(entries).dom().finite(),
    decreases entries.len(),
{
    if entries.len() > 0 {
        let front = entries.drop_last();
        lemma_map_of_dom(front, key);
        if exists|i: int| 0 <= i < entries.len() && #[trigger] entries[i].0 == key {
            let i = choose|i: int| 0 <= i < entries.len() && #[trigger] entries[i].0 == key;
            if i < entries.len() - 1 {
                assert(front[i].0 == key);
            }
        }
    }
}

/// Where no key stands twice, the map has as many keys as there are entries.
pub proof fn lemma_map_of_len(entries: Seq<(Seq<char>, Seq<char>)>)
    requires
        keys_distinct(entries),
    ensures
        map_of(entries).dom().finite(),
        map_of(entries).dom().len() == entries.len(),
    decreases entries.len(),
{
    if entries.len() > 0 {
        let front = entries.drop_last();
        lemma_map_of_len(front);
        lemma_map_of_dom(front, entries.last().0);
        assert(map_of(entries).dom() =~= map_of(front).dom().insert(entries.last().0));
    } else {
        assert(map_of(entries).dom() =~= Set::<Seq<char>>::empty());
    }
}

/// Giving a key a value adds an entry where the key is new, and none where
/// the key is there.
pub proof fn lemma_with_pair_len(
    entries: Seq<(Seq<char>, Seq<char>)>,
    key: Seq<char>,
    value: Seq<char>,
)
    ensures
        with_pair(entries, key, value).len() == entries.len() + (if map_of(
            entries,
        ).dom().contains(key) {
            0int
        } else {
            1int
        }),
{
    lemma_index_of_key(entries, key, 0);
    lemma_map_of_dom(entries, key);
}

/// Where no key stands twice, the map gives each key the value beside it.
pub proof fn lemma_map_of_value(entries: Seq<(Seq<char>, Seq<char>)>, i: int)
    requires
        keys_distinct(entries),
        0 <= i < entries.len(),
    ensures
        map_of(entries).dom().contains(entries[i].0),
        map_of(entries)[entries[i].0] == entries[i].1,
    decreases entries.len(),
{
    if i < entries.len() - 1 {
        let front = entries.drop_last();
        lemma_map_of_value(front, i);
    }
}

/// Giving a key a value does to the map what `insert` does, and keeps the
/// keys distinct.
pub proof fn lemma_with_pair(entries: Seq<(Seq<char>, Seq<char>)>, key: Seq<char>, value: Seq<char>)
    requires
        keys_distinct(entries),
    ensures
        keys_distinct(with_pair(entries, key, value)),
        map_of(with_pair(entries, key, value)) == map_of(entries).insert(key, value),
{
    lemma_index_of_key(entries, key, 0);
    let k = index_of_key(entries, key, 0);
    if k < entries.len() {
        lemma_replace(entries, k, value);
    } else {
        assert(entries.push((key, value)).drop_last() =~= entries);
    }
}

/// Replacing the value of entry `k` is an `insert` on the map.
proof fn lemma_replace(entries: Seq<(Seq<char>, Seq<char>)>, k: int, value: Seq<char>)
    requires
        keys_distinct(entries),
        0 <= k < entries.len(),
    ensures
        map_of(entries.update(k, (entries[k].0, value))) == map_of(entries).insert(
            entries[k].0,
            value,
        ),
    decreases entries.len(),
{
    let key = entries[k].0;
    let changed = entries.update(k, (key, value));
    let front = entries.drop_last();
    if k == entries.len() - 1 {
        assert(changed.drop_last() =~= front);
    } else {
        assert(changed.drop_last() =~= front.update(k, (front[k].0, value)));
        lemma_replace(front, k, value);
    }
}

/// Keys with their values, each key once, in the order in which the keys
/// were first given.
#[derive(Debug, PartialEq, Eq)]
pub struct Pairs {
    entries: Vec<Entry>,
}

impl View for Pairs {
    type V = Map<Seq<char>, Seq<char>>;

    /// The map that the pairs stand for.
    open spec fn view(&self) -> Map<Seq<char>, Seq<char>> {
        map_of(self.entries())
    }
}

impl Pairs {
    /// The pairs in order, as sequences of characters.
    pub closed spec fn entries(&self) -> Seq<(Seq<char>, Seq<char>)> {
        texts_of(self.entries@)
    }

    /// No key stands twice.
    #[verifier::type_invariant]
    closed spec fn distinct(&self) -> bool {
        keys_distinct(texts_of(self.entries@))
    }


    /// No pairs at all.
    pub fn new() -> (pairs: Pairs)
        ensures
            pairs.entries() == Seq::<(Seq<char>, Seq<char>)>::empty(),
            pairs@ == Map::<Seq<char>, Seq<char>>::empty(),
    {
        let pairs = Pairs { entries: Vec::new() };
        pairs
    }

    /// The number of pairs.
    pub fn len(&self) -> (n: usize)
        ensures
            n == self.entries().len(),
            n == self@.dom().len(),
            self@.dom().finite(),
            keys_distinct(self.entries()),
    {
        proof {
            use_type_invariant(self);
            lemma_map_of_len(self.entries());
        }
        self.entries.len()
    }

    /// The key of pair `i`.
    pub fn key_at(&self, i: usize) -> (key: &String)
        requires
            i < self.entries().len(),
        ensures
            key@ == self.entries()[i as int].0,
    {
        &self.entries[i].key
    }

    /// The value of pair `i`.
    pub fn value_at(&self, i: usize) -> (value: &String)
        requires
            i < self.entries().len(),
        ensures
            value@ == self.entries()[i as int].1,
    {
        &self.entries[i].value
    }

    /// Looks for `key`: the index of its pair, or the number of pairs.
    fn find(&self, key: &String) -> (k: usize)
        ensures
            k == index_of_key(self.entries(), key@, 0),
            k <= self.entries().len(),
    {
        let mut k: usize = 0;
        while k < self.entries.len() && !(self.entries[k].key == *key)
            invariant
                k <= self.entries@.len(),
                index_of_key(self.entries(), key@, 0) == index_of_key(
                    self.entries(),
                    key@,
                    k as int,
                ),
            decreases self.entries@.len() - k,
        {
            k = k + 1;
        }
        k
    }

    /// The value that stands beside `key`, if the key is there.
    pub fn get(&self, key: &String) -> (value: Option<&String>)
        ensures
            match value {
                Some(v) => self@.dom().contains(key@) && v@ == self@[key@],
                None => !self@.dom().contains(key@),
            },
    {
        let k = self.find(key);
        proof {
            use_type_invariant(self);
            lemma_index_of_key(self.entries(), key@, 0);
            lemma_map_of_dom(self.entries(), key@);
            if k < self.entries().len() {
                lemma_map_of_value(self.entries(), k as int);
            }
        }
        if k < self.entries.len() {
            Some(&self.entries[k].value)
        } else {
            None
        }
    }

    /// Gives `key` the value `value`. A key that is there keeps its place and
    /// takes the new value; a new key goes to the end.
    pub fn insert(&mut self, key: String, value: String)
        ensures
            keys_distinct(final(self).entries()),
            final(self).entries() == with_pair(old(self).entries(), key@, value@),
            final(self)@ == old(self)@.insert(key@, value@),
            final(self).entries().len() == old(self).entries().len() + (if old(
                self,
            )@.dom().contains(key@) {
                0int
            } else {
                1int
            }),
    {
        let k = self.find(&key);
        proof {
            use_type_invariant(&*self);
            lemma_with_pair(self.entries(), key@, value@);
            lemma_with_pair_len(self.entries(), key@, value@);
        }
        let mut entries: Vec<Entry> = Vec::new();
        core::mem::swap(&mut self.entries, &mut entries);
        if k < entries.len() {
            entries[k] = Entry { key, value };
        } else {
            entries.push(Entry { key, value });
        }
        assert(texts_of(entries@) =~= with_pair(old(self).entries(), key@, value@));
        self.entries = entries;
    }

    /// The pairs as the text of one JSON object: the encoder's text for these
    /// keys and values. Keys and values are strings, so the encoder has nothing
    /// to refuse.
    pub fn to_json(&self) -> (r: Result<String, EncodeError>)
        ensures
            r matches Ok(text) && text@ == json_object_text(self.entries()),
    {
        encoded(encode_object(&self.entries))
    }
}

} // verus!
