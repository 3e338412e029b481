//! A map whose keys are identifiers, told apart by their text.

use vstd::prelude::*;

verus! {

/// An identifier.
pub trait Id: Sized {
    /// The text that tells the identifier from others.
    spec fn text(&self) -> Seq<char>;

    /// Whether two identifiers are the same.
    fn same_as(&self, other: &Self) -> (same: bool)
        ensures
            same == (self.text() == other.text()),
    ;

    /// A copy of the identifier.
    fn copy(&self) -> (copy: Self)
        ensures
            copy == *self,
    ;
}

/// A map from identifiers to values. No identifier occurs twice.
pub struct IdMap<K: Id, V> {
    entries: Vec<(K, V)>,
}

/// Whether the entry at `i` is the one for `text`.
spec fn is_entry<K: Id, V>(entries: Seq<(K, V)>, text: Seq<char>, i: int) -> bool {
    0 <= i < entries.len() && entries[i].0.text() == text
}

/// Whether no identifier occurs twice.
spec fn distinct<K: Id, V>(entries: Seq<(K, V)>) -> bool {
    forall|i: int, j: int|
        #![trigger entries[i], entries[j]]
        0 <= i < j < entries.len() ==> entries[i].0.text() != entries[j].0.text()
}

/// The map that the entries make up.
spec fn map_of<K: Id, V>(entries: Seq<(K, V)>) -> Map<Seq<char>, V> {
    Map::new(
        |text: Seq<char>| exists|i: int| is_entry(entries, text, i),
        |text: Seq<char>| entries[choose|i: int| is_entry(entries, text, i)].1,
    )
}

/// What the map says of the identifier of an entry.
proof fn lemma_entry<K: Id, V>(entries: Seq<(K, V)>, i: int)
    requires
        distinct(entries),
        0 <= i < entries.len(),
    ensures
        map_of(entries).contains_key(entries[i].0.text()),
        map_of(entries)[entries[i].0.text()] == entries[i].1,
{
    let text = entries[i].0.text();
    assert(is_entry(entries, text, i));
    let j = choose|j: int| is_entry(entries, text, j);
    assert(entries[i].0.text() == entries[j].0.text());
}

/// What the map says of an identifier that no entry has.
proof fn lemma_no_entry<K: Id, V>(entries: Seq<(K, V)>, text: Seq<char>)
    requires
        forall|i: int| 0 <= i < entries.len() ==> (#[trigger] entries[i]).0.text() != text,
    ensures
        !map_of(entries).contains_key(text),
{
    assert forall|i: int| !is_entry(entries, text, i) by {
        if is_entry(entries, text, i) {
            assert(entries[i].0.text() == text);
        }
    }
}

/// Replacing an entry by one for the same identifier.
proof fn lemma_update<K: Id, V>(entries: Seq<(K, V)>, i: int, key: K, value: V)
    requires
        distinct(entries),
        0 <= i < entries.len(),
        entries[i].0.text() == key.text(),
    ensures
        distinct(entries.update(i, (key, value))),
        map_of(entries.update(i, (key, value))) == map_of(entries).insert(key.text(), value),
{
    let after = entries.update(i, (key, value));
    assert forall|a: int, b: int|
        #![trigger after[a], after[b]]
        0 <= a < b < after.len() implies after[a].0.text() != after[b].0.text() by {
        assert(entries[a].0.text() != entries[b].0.text());
    }
    assert forall|text: Seq<char>| #[trigger]
        map_of(after).contains_key(text) <==> map_of(entries).insert(
            key.text(),
            value,
        ).contains_key(text) by {
        if map_of(after).contains_key(text) {
            let j = choose|j: int| is_entry(after, text, j);
            lemma_entry(entries, j);
        }
        if map_of(entries).contains_key(text) {
            let j = choose|j: int| is_entry(entries, text, j);
            lemma_entry(after, j);
        }
        lemma_entry(after, i);
    }
    assert forall|text: Seq<char>| map_of(after).contains_key(text) implies #[trigger] map_of(
        after,
    )[text] == map_of(entries).insert(key.text(), value)[text] by {
        let j = choose|j: int| is_entry(after, text, j);
        lemma_entry(after, j);
        lemma_entry(entries, j);
    }
    assert(map_of(after) =~= map_of(entries).insert(key.text(), value));
}

/// Adding an entry for a new identifier.
proof fn lemma_push<K: Id, V>(entries: Seq<(K, V)>, key: K, value: V)
    requires
        distinct(entries),
        forall|i: int| 0 <= i < entries.len() ==> (#[trigger] entries[i]).0.text() != key.text(),
    ensures
        distinct(entries.push((key, value))),
        map_of(entries.push((key, value))) == map_of(entries).insert(key.text(), value),
{
    let after = entries.push((key, value));
    assert forall|a: int, b: int|
        #![trigger after[a], after[b]]
        0 <= a < b < after.len() implies after[a].0.text() != after[b].0.text() by {
        assert(entries[a] == after[a]);
        if b < entries.len() {
            assert(entries[b] == after[b]);
        }
    }
    lemma_no_entry(entries, key.text());
    assert forall|text: Seq<char>| #[trigger]
        map_of(after).contains_key(text) <==> map_of(entries).insert(
            key.text(),
            value,
        ).contains_key(text) by {
        if map_of(after).contains_key(text) {
            let j = choose|j: int| is_entry(after, text, j);
            if j < entries.len() {
                lemma_entry(entries, j);
            }
        }
        if map_of(entries).contains_key(text) {
            let j = choose|j: int| is_entry(entries, text, j);
            assert(after[j] == entries[j]);
            lemma_entry(after, j);
        }
        lemma_entry(after, entries.len() as int);
    }
    assert forall|text: Seq<char>| map_of(after).contains_key(text) implies #[trigger] map_of(
        after,
    )[text] == map_of(entries).insert(key.text(), value)[text] by {
        let j = choose|j: int| is_entry(after, text, j);
        lemma_entry(after, j);
        if j < entries.len() {
            lemma_entry(entries, j);
        }
    }
    assert(map_of(after) =~= map_of(entries).insert(key.text(), value));
}

/// Taking an entry out.
proof fn lemma_remove<K: Id, V>(entries: Seq<(K, V)>, i: int)
    requires
        distinct(entries),
        0 <= i < entries.len(),
    ensures
        distinct(entries.remove(i)),
        map_of(entries.remove(i)) == map_of(entries).remove(entries[i].0.text()),
{
    let after = entries.remove(i);
    let gone = entries[i].0.text();
    assert forall|j: int| 0 <= j < after.len() implies #[trigger] after[j] == entries[if j < i {
        j
    } else {
        j + 1
    }] by {}
    assert forall|a: int, b: int|
        #![trigger after[a], after[b]]
        0 <= a < b < after.len() implies after[a].0.text() != after[b].0.text() by {
        let a1 = if a < i { a } else { a + 1 };
        let b1 = if b < i { b } else { b + 1 };
        assert(entries[a1].0.text() != entries[b1].0.text());
    }
    assert forall|text: Seq<char>| #[trigger]
        map_of(after).contains_key(text) <==> map_of(entries).remove(gone).contains_key(text) by {
        if map_of(after).contains_key(text) {
            let j = choose|j: int| is_entry(after, text, j);
            let j1 = if j < i { j } else { j + 1 };
            assert(after[j] == entries[j1]);
            lemma_entry(entries, j1);
        }
        if map_of(entries).remove(gone).contains_key(text) {
            let j = choose|j: int| is_entry(entries, text, j);
            let j0 = if j < i { j } else { j - 1 };
            assert(after[j0] == entries[j]);
            lemma_entry(after, j0);
        }
    }
    assert forall|text: Seq<char>| map_of(after).contains_key(text) implies #[trigger] map_of(
        after,
    )[text] == map_of(entries).remove(gone)[text] by {
        let j = choose|j: int| is_entry(after, text, j);
        let j1 = if j < i { j } else { j + 1 };
        assert(after[j] == entries[j1]);
        lemma_entry(after, j);
        lemma_entry(entries, j1);
    }
    assert(map_of(after) =~= map_of(entries).remove(gone));
}

/// The texts of the identifiers, in the order of the entries.
spec fn texts<K: Id, V>(entries: Seq<(K, V)>) -> Seq<Seq<char>> {
    entries.map_values(|e: (K, V)| e.0.text())
}

/// The texts are those that the map has, each once.
proof fn lemma_texts<K: Id, V>(entries: Seq<(K, V)>)
    requires
        distinct(entries),
    ensures
        texts(entries).no_duplicates(),
        texts(entries).to_set() == map_of(entries).dom(),
{
    let keys = texts(entries);
    assert forall|a: int, b: int|
        0 <= a < keys.len() && 0 <= b < keys.len() && a != b implies keys[a] != keys[b] by {
        if a < b {
            assert(entries[a].0.text() != entries[b].0.text());
        } else {
            assert(entries[b].0.text() != entries[a].0.text());
        }
    }
    assert forall|text: Seq<char>|
        keys.to_set().contains(text) <==> map_of(entries).dom().contains(text) by {
        if keys.to_set().contains(text) {
            let j = choose|j: int| 0 <= j < keys.len() && keys[j] == text;
            lemma_entry(entries, j);
        }
        if map_of(entries).dom().contains(text) {
            let j = choose|j: int| is_entry(entries, text, j);
            assert(keys[j] == text);
        }
    }
    assert(keys.to_set() =~= map_of(entries).dom());
}

/// The entries are as many as the identifiers.
proof fn lemma_len<K: Id, V>(entries: Seq<(K, V)>)
    requires
        distinct(entries),
    ensures
        map_of(entries).dom().finite(),
        map_of(entries).len() == entries.len(),
    decreases entries.len(),
{
    if entries.len() == 0 {
        assert forall|text: Seq<char>| !map_of(entries).contains_key(text) by {
            lemma_no_entry(entries, text);
        }
        assert(map_of(entries).dom() =~= Set::empty());
    } else {
        let last = entries.len() - 1;
        lemma_remove(entries, last);
        lemma_len(entries.remove(last));
        lemma_entry(entries, last);
        let text = entries[last].0.text();
        assert(map_of(entries) =~= map_of(entries.remove(last)).insert(text, entries[last].1));
    }
}

impl<K: Id, V> IdMap<K, V> {
    #[verifier::type_invariant]
    spec fn consistent(self) -> bool {
        distinct(self.entries@)
    }

    /// An empty map.
    pub fn new() -> (map: Self)
        ensures
            map@ == Map::<Seq<char>, V>::empty(),
    {
        let map = IdMap { entries: Vec::new() };
        proof {
            assert forall|text: Seq<char>| !map_of(map.entries@).contains_key(text) by {
                lemma_no_entry(map.entries@, text);
            }
            assert(map@ =~= Map::<Seq<char>, V>::empty());
        }
        map
    }

    /// How many identifiers the map has.
    pub fn len(&self) -> (len: usize)
        ensures
            self@.dom().finite(),
            len == self@.len(),
    {
        proof {
            use_type_invariant(self);
            lemma_len(self.entries@);
        }
        self.entries.len()
    }

    /// Whether the map has no identifier.
    pub fn is_empty(&self) -> (empty: bool)
        ensures
            empty == (self@ == Map::<Seq<char>, V>::empty()),
    {
        proof {
            use_type_invariant(self);
            if self.entries@.len() == 0 {
                assert forall|text: Seq<char>| !map_of(self.entries@).contains_key(text) by {
                    lemma_no_entry(self.entries@, text);
                }
                assert(self@ =~= Map::<Seq<char>, V>::empty());
            } else {
                lemma_entry(self.entries@, 0);
            }
        }
        self.entries.len() == 0
    }

    /// Where the entry for an identifier is.
    fn find(&self, key: &K) -> (place: Option<usize>)
        ensures
            match place {
                Some(i) => is_entry(self.entries@, key.text(), i as int),
                None => forall|i: int|
                    0 <= i < self.entries@.len() ==> (#[trigger] self.entries@[i]).0.text()
                        != key.text(),
            },
    {
        let mut i: usize = 0;
        while i < self.entries.len()
            invariant
                i <= self.entries@.len(),
                forall|j: int|
                    0 <= j < i ==> (#[trigger] self.entries@[j]).0.text() != key.text(),
            decreases self.entries@.len() - i,
        {
            if self.entries[i].0.same_as(key) {
                return Some(i);
            }
            i = i + 1;
        }
        None
    }

    /// Whether the map has the identifier.
    pub fn contains_key(&self, key: &K) -> (found: bool)
        ensures
            found == self@.contains_key(key.text()),
    {
        proof {
            use_type_invariant(self);
        }
        match self.find(key) {
            Some(i) => {
                proof {
                    lemma_entry(self.entries@, i as int);
                }
                true
            },
            None => {
                proof {
                    lemma_no_entry(self.entries@, key.text());
                }
                false
            },
        }
    }

    /// The value for the identifier, if the map has it.
    pub fn get(&self, key: &K) -> (value: Option<&V>)
        ensures
            match value {
                Some(v) => self@.contains_key(key.text()) && *v == self@[key.text()],
                None => !self@.contains_key(key.text()),
            },
    {
        proof {
            use_type_invariant(self);
        }
        match self.find(key) {
            Some(i) => {
                proof {
                    lemma_entry(self.entries@, i as int);
                }
                Some(&self.entries[i].1)
            },
            None => {
                proof {
                    lemma_no_entry(self.entries@, key.text());
                }
                None
            },
        }
    }

    /// Sets the value for the identifier.
    pub fn insert(&mut self, key: K, value: V)
        ensures
            final(self)@ == old(self)@.insert(key.text(), value),
    {
        proof {
            use_type_invariant(&*self);
        }
        let place = self.find(&key);
        let mut entries: Vec<(K, V)> = Vec::new();
        std::mem::swap(&mut entries, &mut self.entries);
        match place {
            Some(i) => {
                proof {
                    lemma_update(entries@, i as int, key, value);
                }
                entries.set(i, (key, value));
            },
            None => {
                proof {
                    lemma_push(entries@, key, value);
                }
                entries.push((key, value));
            },
        }
        self.entries = entries;
    }

    /// Takes the identifier out of the map, and gives the value it had.
    pub fn remove(&mut self, key: &K) -> (value: Option<V>)
        ensures
            final(self)@ == old(self)@.remove(key.text()),
            match value {
                Some(v) => old(self)@.contains_key(key.text()) && v == old(self)@[key.text()],
                None => !old(self)@.contains_key(key.text()),
            },
    {
        proof {
            use_type_invariant(&*self);
        }
        match self.find(key) {
            Some(i) => {
                let mut entries: Vec<(K, V)> = Vec::new();
                std::mem::swap(&mut entries, &mut self.entries);
                proof {
                    lemma_entry(entries@, i as int);
                    lemma_remove(entries@, i as int);
                }
                let entry = entries.remove(i);
                self.entries = entries;
                Some(entry.1)
            },
            None => {
                proof {
                    lemma_no_entry(self.entries@, key.text());
                    assert(self@ =~= self@.remove(key.text()));
                }
                None
            },
        }
    }

    /// The identifiers of the map, in some order, each once.
    pub fn keys(&self) -> (keys: Vec<&K>)
        ensures
            keys@.map_values(|key: &K| key.text()).no_duplicates(),
            keys@.map_values(|key: &K| key.text()).to_set() == self@.dom(),
    {
        proof {
            use_type_invariant(self);
        }
        let mut keys: Vec<&K> = Vec::new();
        let mut i: usize = 0;
        while i < self.entries.len()
            invariant
                i <= self.entries@.len(),
                keys@.len() == i,
                forall|j: int| 0 <= j < i ==> *keys@[j] == self.entries@[j].0,
            decreases self.entries@.len() - i,
        {
            keys.push(&self.entries[i].0);
            i = i + 1;
        }
        proof {
            lemma_texts(self.entries@);
            assert(keys@.map_values(|key: &K| key.text()) =~= texts(self.entries@));
        }
        keys
    }

    /// The values of the map, in some order: one for each identifier.
    pub fn values(&self) -> (values: Vec<&V>)
        ensures
            exists|keys: Seq<Seq<char>>|
                {
                    &&& keys.no_duplicates()
                    &&& #[trigger] keys.to_set() == self@.dom()
                    &&& values@.len() == keys.len()
                    &&& forall|i: int| 0 <= i < keys.len() ==> *values@[i] == self@[keys[i]]
                },
    {
        proof {
            use_type_invariant(self);
        }
        let mut values: Vec<&V> = Vec::new();
        let mut i: usize = 0;
        while i < self.entries.len()
            invariant
                i <= self.entries@.len(),
                values@.len() == i,
                forall|j: int| 0 <= j < i ==> *values@[j] == self.entries@[j].1,
            decreases self.entries@.len() - i,
        {
            values.push(&self.entries[i].1);
            i = i + 1;
        }
        proof {
            let entries = self.entries@;
            let keys = texts(entries);
            lemma_texts(entries);
            assert forall|j: int| 0 <= j < keys.len() implies *values@[j] == self@[keys[j]] by {
                lemma_entry(entries, j);
            }
        }
        values
    }
}

/// `std::fmt::DebugMap`, a map in the middle of being shown.
#[verifier::external_type_specification]
#[verifier::external_body]
pub struct ExDebugMap<'a, 'b: 'a>(std::fmt::DebugMap<'a, 'b>);

/// `std::fmt::Formatter::debug_map` starts to show a map. Nothing is claimed of it.
pub assume_specification<'a, 'b>[ std::fmt::Formatter::<'a>::debug_map ](
    f: &'b mut std::fmt::Formatter<'a>,
) -> std::fmt::DebugMap<'b, 'a>;

/// Calls `std::fmt::DebugMap::entry`, which shows one key with its value. Nothing is claimed of
/// it.
#[verifier::external_body]
fn show_entry<K: std::fmt::Debug, V: std::fmt::Debug>(
    shown: &mut std::fmt::DebugMap<'_, '_>,
    key: &K,
    value: &V,
) {
    shown.entry(key, value);
}

/// `std::fmt::DebugMap::finish` ends it. Nothing is claimed of it.
pub assume_specification<'a, 'b: 'a>[ std::fmt::DebugMap::<'a, 'b>::finish ](
    shown: &mut std::fmt::DebugMap<'a, 'b>,
) -> std::fmt::Result;

/// Shows the identifiers with their values.
impl<K: Id + std::fmt::Debug, V: std::fmt::Debug> std::fmt::Debug for IdMap<K, V> {
    fn fmt(&self, f: &mut std::fmt::Formatter<'_>) -> std::fmt::Result {
        let mut shown = f.debug_map();
        let mut i: usize = 0;
        while i < self.entries.len()
            invariant
                i <= self.entries@.len(),
            decreases self.entries@.len() - i,
        {
            show_entry(&mut shown, &self.entries[i].0, &self.entries[i].1);
            i = i + 1;
        }
        shown.finish()
    }
}

impl<K: Id, V: Clone> Clone for IdMap<K, V> {
    fn clone(&self) -> (map: Self)
        ensures
            map@.dom() == self@.dom(),
            forall|text: Seq<char>| #[trigger]
                map@.contains_key(text) ==> cloned::<V>(self@[text], map@[text]),
    {
        proof {
            use_type_invariant(self);
        }
        let mut entries: Vec<(K, V)> = Vec::new();
        let mut i: usize = 0;
        while i < self.entries.len()
            invariant
                i <= self.entries@.len(),
                entries@.len() == i,
                forall|j: int|
                    0 <= j < i ==> {
                        &&& (#[trigger] entries@[j]).0 == self.entries@[j].0
                        &&& cloned::<V>(self.entries@[j].1, entries@[j].1)
                    },
            decreases self.entries@.len() - i,
        {
            let key = self.entries[i].0.copy();
            let value = self.entries[i].1.clone();
            entries.push((key, value));
            i = i + 1;
        }
        proof {
            assert forall|a: int, b: int|
                #![trigger entries@[a], entries@[b]]
                0 <= a < b < entries@.len() implies entries@[a].0.text() != entries@[b].0.text() by {
                assert(self.entries@[a].0.text() != self.entries@[b].0.text());
            }
            assert forall|text: Seq<char>|
                map_of(entries@).dom().contains(text) <==> self@.dom().contains(text) by {
                if map_of(entries@).dom().contains(text) {
                    let j = choose|j: int| is_entry(entries@, text, j);
                    lemma_entry(self.entries@, j);
                }
                if self@.dom().contains(text) {
                    let j = choose|j: int| is_entry(self.entries@, text, j);
                    assert(entries@[j].0.text() == text);
                    lemma_entry(entries@, j);
                }
            }
            assert(map_of(entries@).dom() =~= self@.dom());
            assert forall|text: Seq<char>| #[trigger]
                map_of(entries@).contains_key(text) implies cloned::<V>(
                self@[text],
                map_of(entries@)[text],
            ) by {
                let j = choose|j: int| is_entry(entries@, text, j);
                lemma_entry(entries@, j);
                lemma_entry(self.entries@, j);
            }
        }
        IdMap { entries }
    }
}

impl<K: Id, V> View for IdMap<K, V> {
    type V = Map<Seq<char>, V>;

    closed spec fn view(&self) -> Map<Seq<char>, V> {
        map_of(self.entries@)
    }
}

} // verus!
