//! A dictionary from strings to values.
use crate::ast::{lemma_name_pos, name_pos};
use crate::text::{has_prefix, same, starts_with};
use vstd::prelude::*;

verus! {

/// One key with its value.
pub struct Entry<T> {
    pub key: String,
    pub val: T,
}

/// A dictionary that keeps its keys in the order in which they came. Of two entries
/// under one key the first counts.
pub struct Dict<T> {
    pub entries: Vec<Entry<T>>,
}

pub open spec fn entry_keys<T>(s: Seq<Entry<T>>) -> Seq<Seq<char>> {
    s.map_values(|e: Entry<T>| e.key@)
}

/// The map that a list of entries stands for.
pub open spec fn entry_map<T: View>(s: Seq<Entry<T>>) -> Map<Seq<char>, T::V> {
    Map::new(
        |k: Seq<char>| name_pos(entry_keys(s), k, 0) is Some,
        |k: Seq<char>| s[name_pos(entry_keys(s), k, 0)->0].val@,
    )
}

impl<T: View> View for Dict<T> {
    type V = Map<Seq<char>, T::V>;

    open spec fn view(&self) -> Map<Seq<char>, T::V> {
        entry_map(self.entries@)
    }
}

impl<T: View> Dict<T> {
    /// The empty dictionary.
    pub fn new() -> (d: Self)
        ensures
            d@ == Map::<Seq<char>, T::V>::empty(),
    {
        let d = Dict { entries: Vec::new() };
        assert(d@ =~= Map::<Seq<char>, T::V>::empty());
        d
    }

    /// The value under `key`.
    pub fn get(&self, key: &str) -> (r: Option<&T>)
        ensures
            match r {
                Some(v) => self@.dom().contains(key@) && v@ == self@[key@],
                None => !self@.dom().contains(key@),
            },
    {
        for i in 0..self.entries.len()
            invariant
                name_pos(entry_keys(self.entries@), key@, 0) == name_pos(
                    entry_keys(self.entries@),
                    key@,
                    i as int,
                ),
        {
            if same(self.entries[i].key.as_str(), key) {
                return Some(&self.entries[i].val);
            }
        }
        None
    }

    /// Whether there is a value under `key`.
    pub fn has(&self, key: &str) -> (r: bool)
        ensures
            r == self@.dom().contains(key@),
    {
        match self.get(key) {
            Some(_) => true,
            None => false,
        }
    }

    /// Puts `val` under `key`, in place of the value that was there.
    pub fn put(&mut self, key: &str, val: T)
        ensures
            final(self)@ == old(self)@.insert(key@, val@),
    {
        let ghost before = self.entries@;
        let ghost keys = entry_keys(before);
        let n: usize = self.entries.len();
        let mut i: usize = 0;
        while i < n
            invariant
                n == self.entries@.len(),
                i <= n,
                self.entries@ == before,
                before == old(self).entries@,
                keys == entry_keys(before),
                name_pos(keys, key@, 0) == name_pos(keys, key@, i as int),
            decreases n - i,
        {
            if same(self.entries[i].key.as_str(), key) {
                let k = self.entries[i].key.clone();
                self.entries.set(i, Entry { key: k, val });
                proof {
                    assert(entry_keys(self.entries@) =~= keys);
                    lemma_name_pos(keys, key@, 0);
                    assert forall|q: Seq<char>| q != key@ implies name_pos(keys, q, 0) != Some(
                        i as int,
                    ) by {
                        lemma_name_pos(keys, q, 0);
                    }
                    assert(self@ =~= entry_map(before).insert(key@, val@)) by {
                        assert forall|q: Seq<char>| self@.dom().contains(q) implies self@[q]
                            == entry_map(before).insert(key@, val@)[q] by {
                            lemma_name_pos(keys, q, 0);
                        }
                    }
                }
                return ;
            }
            i = i + 1;
        }
        self.entries.push(Entry { key: String::from_str(key), val });
        proof {
            let after = entry_keys(self.entries@);
            assert(after =~= keys.push(key@));
            assert forall|q: Seq<char>| true implies name_pos(after, q, 0) == (match name_pos(
                keys,
                q,
                0,
            ) {
                Some(k) => Some(k),
                None => if q == key@ {
                    Some(keys.len() as int)
                } else {
                    None
                },
            }) by {
                lemma_name_pos(keys, q, 0);
                lemma_name_pos(after, q, 0);
                match name_pos(keys, q, 0) {
                    Some(k) => {
                        assert(after[k] == q);
                        let m = name_pos(after, q, 0)->0;
                        if m < k {
                            assert(after[m] == keys[m]);
                        }
                    },
                    None => {
                        if q == key@ {
                            assert(after[keys.len() as int] == q);
                            let m = name_pos(after, q, 0)->0;
                            if m < keys.len() {
                                assert(after[m] == keys[m]);
                            }
                        } else if name_pos(after, q, 0) is Some {
                            let m = name_pos(after, q, 0)->0;
                            if m < keys.len() {
                                assert(after[m] == keys[m]);
                            }
                        }
                    },
                }
            }
            assert(self@ =~= entry_map(before).insert(key@, val@)) by {
                assert forall|q: Seq<char>| self@.dom().contains(q) implies self@[q] == entry_map(
                    before,
                ).insert(key@, val@)[q] by {
                    lemma_name_pos(keys, q, 0);
                    lemma_name_pos(after, q, 0);
                }
            }
        }
    }

    /// Whether some key begins with `p`.
    pub fn has_key_prefix(&self, p: &str) -> (r: bool)
        ensures
            r == exists|k: Seq<char>| #[trigger] self@.dom().contains(k) && starts_with(k, p@),
    {
        let ghost keys = entry_keys(self.entries@);
        for i in 0..self.entries.len()
            invariant
                keys == entry_keys(self.entries@),
                forall|j: int| 0 <= j < i ==> !starts_with(#[trigger] keys[j], p@),
        {
            if has_prefix(self.entries[i].key.as_str(), p) {
                proof {
                    lemma_name_pos(keys, keys[i as int], 0);
                    assert(self@.dom().contains(keys[i as int]));
                }
                return true;
            }
        }
        proof {
            assert forall|k: Seq<char>| #[trigger] self@.dom().contains(k) implies !starts_with(
                k,
                p@,
            ) by {
                lemma_name_pos(keys, k, 0);
            }
        }
        false
    }
}

} // verus!
