//! Sets and maps keyed by text, kept as vectors without repetition.

use crate::text::str_eq;
use vstd::prelude::*;
use vstd::string::*;

verus! {

/// The characters of each text of a list.
pub open spec fn texts(items: Seq<String>) -> Seq<Seq<char>> {
    items.map_values(|s: String| s@)
}

/// Copies a list of texts.
pub fn clone_texts(items: &Vec<String>) -> (r: Vec<String>)
    ensures
        r@ == items@,
{
    let mut out: Vec<String> = Vec::new();
    let mut i: usize = 0;
    while i < items.len()
        invariant
            i <= items@.len(),
            out@ == items@.take(i as int),
        decreases items.len() - i,
    {
        out.push(items[i].clone());
        i = i + 1;
    }
    assert(items@.take(i as int) =~= items@);
    out
}

/// Finds a text in a list.
pub fn position(items: &Vec<String>, text: &str) -> (r: Option<usize>)
    ensures
        match r {
            Some(i) => i < items@.len() && items@[i as int]@ == text@ && forall|j: int|
                0 <= j < i ==> (#[trigger] items@[j])@ != text@,
            None => !texts(items@).contains(text@),
        },
{
    let mut i: usize = 0;
    while i < items.len()
        invariant
            i <= items@.len(),
            forall|j: int| 0 <= j < i ==> (#[trigger] items@[j])@ != text@,
        decreases items.len() - i,
    {
        if str_eq(items[i].as_str(), text) {
            return Some(i);
        }
        i = i + 1;
    }
    assert(!texts(items@).contains(text@)) by {
        if texts(items@).contains(text@) {
            let j = choose|j: int| 0 <= j < texts(items@).len() && texts(items@)[j] == text@;
            assert(items@[j]@ == text@);
        }
    }
    None
}

/// A set of texts.
#[derive(Debug)]
pub struct TextSet {
    items: Vec<String>,
}

impl View for TextSet {
    type V = Set<Seq<char>>;

    closed spec fn view(&self) -> Set<Seq<char>> {
        texts(self.items@).to_set()
    }
}

impl TextSet {
    /// No text stands in the list twice.
    pub closed spec fn wf(&self) -> bool {
        texts(self.items@).no_duplicates()
    }

    pub fn new() -> (r: Self)
        ensures
            r.wf(),
            r@ == Set::<Seq<char>>::empty(),
    {
        let r = TextSet { items: Vec::new() };
        assert(texts(r.items@) =~= Seq::empty());
        assert(r@ =~= Set::empty());
        r
    }

    pub fn contains(&self, text: &str) -> (r: bool)
        ensures
            r == self@.contains(text@),
    {
        match position(&self.items, text) {
            Some(i) => {
                assert(texts(self.items@)[i as int] == text@);
                true
            },
            None => false,
        }
    }

    /// Adds a text; whether it was not there yet.
    pub fn insert(&mut self, text: String) -> (r: bool)
        requires
            old(self).wf(),
        ensures
            final(self).wf(),
            final(self)@ == old(self)@.insert(text@),
            r == !old(self)@.contains(text@),
    {
        if self.contains(text.as_str()) {
            assert(self@.insert(text@) =~= self@);
            return false;
        }
        let ghost before = texts(self.items@);
        self.items.push(text);
        proof {
            assert(texts(self.items@) =~= before.push(text@));
            assert(self@ =~= before.to_set().insert(text@)) by {
                assert forall|x: Seq<char>|
                    self@.contains(x) <==> before.to_set().insert(text@).contains(x) by {
                    if before.contains(x) {
                        let i = choose|i: int| 0 <= i < before.len() && before[i] == x;
                        assert(before.push(text@)[i] == x);
                    }
                    assert(before.push(text@)[before.len() as int] == text@);
                }
            }
            assert forall|i: int, j: int|
                0 <= i < j < texts(self.items@).len() implies texts(self.items@)[i] != texts(
                self.items@,
            )[j] by {
                if j == before.len() {
                    assert(before.contains(before[i]));
                }
            }
        }
        true
    }

    /// Takes a text out; whether it was there.
    pub fn remove(&mut self, text: &str) -> (r: bool)
        requires
            old(self).wf(),
        ensures
            final(self).wf(),
            final(self)@ == old(self)@.remove(text@),
            r == old(self)@.contains(text@),
    {
        let ghost before = texts(self.items@);
        match position(&self.items, text) {
            None => {
                assert(self@.remove(text@) =~= self@);
                false
            },
            Some(i) => {
                assert(before[i as int] == text@);
                self.items.remove(i);
                proof {
                    let after = texts(self.items@);
                    assert(after =~= before.remove(i as int));
                    assert forall|x: Seq<char>|
                        after.contains(x) <==> before.contains(x) && x != text@ by {
                        if after.contains(x) {
                            let j = choose|j: int| 0 <= j < after.len() && after[j] == x;
                            let k = if j < i {
                                j
                            } else {
                                j + 1
                            };
                            assert(before[k] == x);
                            assert(k != i);
                        }
                        if before.contains(x) && x != text@ {
                            let k = choose|k: int| 0 <= k < before.len() && before[k] == x;
                            let j = if k < i {
                                k
                            } else {
                                k - 1
                            };
                            assert(after[j] == x);
                        }
                    }
                    assert(self@ =~= before.to_set().remove(text@));
                    assert forall|j: int, k: int| 0 <= j < k < after.len() implies after[j]
                        != after[k] by {
                        let j2 = if j < i {
                            j
                        } else {
                            j + 1
                        };
                        let k2 = if k < i {
                            k
                        } else {
                            k + 1
                        };
                        assert(before[j2] != before[k2]);
                    }
                }
                true
            },
        }
    }

    /// How many texts there are.
    pub fn len(&self) -> (r: usize)
        requires
            self.wf(),
        ensures
            r == self@.len(),
    {
        proof {
            texts(self.items@).unique_seq_to_set();
        }
        self.items.len()
    }

    /// The texts, each once, in some order.
    pub fn list(&self) -> (r: Vec<String>)
        requires
            self.wf(),
        ensures
            texts(r@).no_duplicates(),
            texts(r@).to_set() == self@,
    {
        clone_texts(&self.items)
    }
}

/// A map from texts to values.
#[derive(Debug)]
pub struct TextMap<V> {
    entries: Vec<(String, V)>,
}

/// The keys of a list of entries.
pub open spec fn entry_keys<V>(entries: Seq<(String, V)>) -> Seq<Seq<char>> {
    entries.map_values(|e: (String, V)| e.0@)
}

/// The map that a list of entries stands for; a later entry counts over an earlier one.
pub open spec fn entry_map<V>(entries: Seq<(String, V)>) -> Map<Seq<char>, V>
    decreases entries.len(),
{
    if entries.len() == 0 {
        Map::empty()
    } else {
        entry_map(entries.drop_last()).insert(entries.last().0@, entries.last().1)
    }
}

/// What a map made of entries with distinct keys holds.
proof fn lemma_entry_map<V>(entries: Seq<(String, V)>)
    requires
        entry_keys(entries).no_duplicates(),
    ensures
        forall|k: Seq<char>| entry_map(entries).dom().contains(k) <==> entry_keys(entries).contains(k),
        forall|i: int|
            0 <= i < entries.len() ==> entry_map(entries)[(#[trigger] entries[i]).0@] == entries[i].1,
    decreases entries.len(),
{
    let keys = entry_keys(entries);
    if entries.len() > 0 {
        let rest = entries.drop_last();
        assert(entry_keys(rest) =~= keys.drop_last());
        assert(entry_keys(rest).no_duplicates()) by {
            assert forall|i: int, j: int|
                0 <= i < j < entry_keys(rest).len() implies entry_keys(rest)[i] != entry_keys(
                rest,
            )[j] by {
                assert(keys[i] != keys[j]);
            }
        }
        lemma_entry_map(rest);
        assert forall|k: Seq<char>| entry_map(entries).dom().contains(k) <==> keys.contains(k) by {
            if keys.contains(k) {
                let i = choose|i: int| 0 <= i < keys.len() && keys[i] == k;
                if i < rest.len() {
                    assert(entry_keys(rest)[i] == k);
                }
            }
            if entry_keys(rest).contains(k) {
                let i = choose|i: int| 0 <= i < rest.len() && entry_keys(rest)[i] == k;
                assert(keys[i] == k);
            }
            assert(keys[entries.len() - 1] == entries.last().0@);
        }
        assert forall|i: int| 0 <= i < entries.len() implies entry_map(entries)[(
        #[trigger] entries[i]).0@] == entries[i].1 by {
            if i < rest.len() {
                assert(rest[i] == entries[i]);
                assert(keys[i] != keys[entries.len() - 1]);
            }
        }
    }
}

impl<V> View for TextMap<V> {
    type V = Map<Seq<char>, V>;

    closed spec fn view(&self) -> Map<Seq<char>, V> {
        entry_map(self.entries@)
    }
}

impl<V> TextMap<V> {
    /// No key stands in the list twice.
    pub closed spec fn wf(&self) -> bool {
        entry_keys(self.entries@).no_duplicates()
    }

    pub fn new() -> (r: Self)
        ensures
            r.wf(),
            r@ == Map::<Seq<char>, V>::empty(),
    {
        TextMap { entries: Vec::new() }
    }

    fn find(&self, key: &str) -> (r: Option<usize>)
        requires
            self.wf(),
        ensures
            match r {
                Some(i) => i < self.entries@.len() && self.entries@[i as int].0@ == key@
                    && self@.dom().contains(key@) && self@[key@] == self.entries@[i as int].1,
                None => !self@.dom().contains(key@) && !entry_keys(self.entries@).contains(key@),
            },
    {
        proof {
            lemma_entry_map(self.entries@);
        }
        let mut i: usize = 0;
        while i < self.entries.len()
            invariant
                i <= self.entries@.len(),
                self.wf(),
                forall|k: Seq<char>|
                    entry_map(self.entries@).dom().contains(k) <==> entry_keys(
                        self.entries@,
                    ).contains(k),
                forall|i: int|
                    0 <= i < self.entries@.len() ==> entry_map(self.entries@)[(
                    #[trigger] self.entries@[i]).0@] == self.entries@[i].1,
                forall|j: int| 0 <= j < i ==> (#[trigger] self.entries@[j]).0@ != key@,
            decreases self.entries.len() - i,
        {
            if str_eq(self.entries[i].0.as_str(), key) {
                assert(entry_keys(self.entries@)[i as int] == key@);
                assert(entry_keys(self.entries@).contains(key@));
                return Some(i);
            }
            i = i + 1;
        }
        assert(!entry_keys(self.entries@).contains(key@)) by {
            if entry_keys(self.entries@).contains(key@) {
                let j = choose|j: int|
                    0 <= j < self.entries@.len() && entry_keys(self.entries@)[j] == key@;
                assert(self.entries@[j].0@ == key@);
            }
        }
        None
    }

    pub fn contains_key(&self, key: &str) -> (r: bool)
        requires
            self.wf(),
        ensures
            r == self@.dom().contains(key@),
    {
        self.find(key).is_some()
    }

    pub fn get(&self, key: &str) -> (r: Option<&V>)
        requires
            self.wf(),
        ensures
            match r {
                Some(v) => self@.dom().contains(key@) && *v == self@[key@],
                None => !self@.dom().contains(key@),
            },
    {
        match self.find(key) {
            Some(i) => Some(&self.entries[i].1),
            None => None,
        }
    }

    /// Takes an entry out and returns its value.
    pub fn remove(&mut self, key: &str) -> (r: Option<V>)
        requires
            old(self).wf(),
        ensures
            final(self).wf(),
            final(self)@ == old(self)@.remove(key@),
            match r {
                Some(v) => old(self)@.dom().contains(key@) && v == old(self)@[key@],
                None => !old(self)@.dom().contains(key@),
            },
    {
        match self.find(key) {
            None => {
                assert(self@.remove(key@) =~= self@);
                None
            },
            Some(i) => {
                let ghost before = self.entries@;
                let (_, value) = self.entries.remove(i);
                proof {
                    let after = self.entries@;
                    assert(after =~= before.remove(i as int));
                    let bk = entry_keys(before);
                    let ak = entry_keys(after);
                    assert forall|j: int, k: int| 0 <= j < k < ak.len() implies ak[j] != ak[k] by {
                        let j2 = if j < i {
                            j
                        } else {
                            j + 1
                        };
                        let k2 = if k < i {
                            k
                        } else {
                            k + 1
                        };
                        assert(bk[j2] != bk[k2]);
                    }
                    lemma_entry_map(before);
                    lemma_entry_map(after);
                    assert forall|x: Seq<char>| ak.contains(x) <==> bk.contains(x) && x != key@ by {
                        if ak.contains(x) {
                            let j = choose|j: int| 0 <= j < ak.len() && ak[j] == x;
                            let k = if j < i {
                                j
                            } else {
                                j + 1
                            };
                            assert(bk[k] == x);
                            assert(bk[i as int] == key@);
                        }
                        if bk.contains(x) && x != key@ {
                            let k = choose|k: int| 0 <= k < bk.len() && bk[k] == x;
                            let j = if k < i {
                                k
                            } else {
                                k - 1
                            };
                            assert(ak[j] == x);
                        }
                    }
                    assert forall|x: Seq<char>| entry_map(after).dom().contains(x) implies entry_map(
                        after,
                    )[x] == entry_map(before)[x] by {
                        assert(ak.contains(x));
                        let j = choose|j: int| 0 <= j < ak.len() && ak[j] == x;
                        let k = if j < i {
                            j
                        } else {
                            j + 1
                        };
                        assert(after[j] == before[k]);
                    }
                    assert forall|x: Seq<char>|
                        self@.dom().contains(x) <==> entry_map(before).remove(key@).dom().contains(
                            x,
                        ) by {
                        assert(ak.contains(x) <==> bk.contains(x) && x != key@);
                        assert(entry_map(before).dom().contains(x) <==> bk.contains(x));
                    }
                    assert(self@ =~= entry_map(before).remove(key@));
                }
                Some(value)
            },
        }
    }

    /// Sets the value under a key and returns the one that was there.
    pub fn insert(&mut self, key: String, value: V) -> (r: Option<V>)
        requires
            old(self).wf(),
        ensures
            final(self).wf(),
            final(self)@ == old(self)@.insert(key@, value),
            match r {
                Some(v) => old(self)@.dom().contains(key@) && v == old(self)@[key@],
                None => !old(self)@.dom().contains(key@),
            },
    {
        let previous = self.remove(key.as_str());
        let ghost before = self.entries@;
        proof {
            lemma_entry_map(before);
            assert(!self@.dom().contains(key@));
        }
        self.entries.push((key, value));
        proof {
            let after = self.entries@;
            let bk = entry_keys(before);
            assert(entry_keys(after) =~= bk.push(key@));
            assert forall|i: int, j: int|
                0 <= i < j < entry_keys(after).len() implies entry_keys(after)[i] != entry_keys(
                after,
            )[j] by {
                if j == before.len() {
                    assert(bk.contains(bk[i]));
                }
            }
            assert(after.drop_last() =~= before);
            assert(self@ =~= old(self)@.insert(key@, value));
        }
        previous
    }

    /// The keys, each once, in some order.
    pub fn keys(&self) -> (r: Vec<String>)
        requires
            self.wf(),
        ensures
            texts(r@).no_duplicates(),
            texts(r@).to_set() == self@.dom(),
    {
        proof {
            lemma_entry_map(self.entries@);
        }
        let mut out: Vec<String> = Vec::new();
        let mut i: usize = 0;
        while i < self.entries.len()
            invariant
                i <= self.entries@.len(),
                texts(out@) == entry_keys(self.entries@).take(i as int),
            decreases self.entries.len() - i,
        {
            let ghost before = out@;
            out.push(self.entries[i].0.clone());
            assert(texts(out@) =~= texts(before).push(self.entries@[i as int].0@));
            assert(entry_keys(self.entries@).take(i + 1) =~= entry_keys(self.entries@).take(
                i as int,
            ).push(self.entries@[i as int].0@));
            i = i + 1;
        }
        assert(entry_keys(self.entries@).take(i as int) =~= entry_keys(self.entries@));
        assert(texts(out@).to_set() =~= self@.dom());
        out
    }
}

} // verus!
