//! A catalog of records keyed by their own identifier, kept in key order.
//!
//! This is the ordered map from an identifier to the record that carries it:
//! iterating it yields the records in the order `str` sorts their keys, and
//! inserting a record whose key is already present replaces the old one.

use vstd::prelude::*;
use crate::order::{compare_text, same_text, text_lt, KeyOrder, lemma_text_lt_irreflexive, lemma_text_lt_total, lemma_text_lt_asymmetric, lemma_text_lt_transitive};

verus! {

/// A record that carries its own text key.
pub trait Keyed {
    /// The record's key.
    spec fn key(&self) -> Seq<char>;

    /// The record's key, as text.
    fn key_str(&self) -> (s: &str)
        ensures
            s@ == self.key(),
    ;
}

/// The keys of `s` are strictly increasing.
pub open spec fn keys_sorted<T: Keyed>(s: Seq<T>) -> bool {
    forall|i: int, j: int| 0 <= i < j < s.len() ==> text_lt(#[trigger] s[i].key(), #[trigger] s[j].key())
}

/// Some record of `s` carries key `k`.
pub open spec fn has_key<T: Keyed>(s: Seq<T>, k: Seq<char>) -> bool {
    exists|i: int| 0 <= i < s.len() && #[trigger] s[i].key() == k
}

/// An index of `s` whose record carries key `k`, when there is one.
pub open spec fn key_index<T: Keyed>(s: Seq<T>, k: Seq<char>) -> int {
    choose|i: int| 0 <= i < s.len() && #[trigger] s[i].key() == k
}

/// The record of `s` that carries key `k`, if there is one.
pub open spec fn lookup<T: Keyed>(s: Seq<T>, k: Seq<char>) -> Option<T> {
    if has_key(s, k) {
        Some(s[key_index(s, k)])
    } else {
        None
    }
}

/// In a sorted sequence the record at index `i` is the one found by its key.
pub proof fn lemma_lookup_at<T: Keyed>(s: Seq<T>, i: int)
    requires
        keys_sorted(s),
        0 <= i < s.len(),
    ensures
        lookup(s, s[i].key()) == Some(s[i]),
{
    let k = s[i].key();
    assert(has_key(s, k));
    let j = key_index(s, k);
    if j < i {
        assert(text_lt(s[j].key(), s[i].key()));
        lemma_text_lt_irreflexive(k);
    } else if i < j {
        assert(text_lt(s[i].key(), s[j].key()));
        lemma_text_lt_irreflexive(k);
    }
}

/// Records kept in strictly increasing key order.
#[derive(Debug)]
pub struct Catalog<T: Keyed> {
    items: Vec<T>,
}

impl<T: Keyed> View for Catalog<T> {
    type V = Seq<T>;

    closed spec fn view(&self) -> Seq<T> {
        self.items@
    }
}

impl<T: Keyed> Catalog<T> {
    #[verifier::type_invariant]
    closed spec fn sorted(&self) -> bool {
        keys_sorted(self.items@)
    }

    /// An empty catalog.
    pub fn new() -> (c: Self)
        ensures
            c@ == Seq::<T>::empty(),
    {
        Catalog { items: Vec::new() }
    }

    /// The records in key order.
    pub fn entries(&self) -> (s: &[T])
        ensures
            s@ == self@,
            keys_sorted(self@),
    {
        proof {
            use_type_invariant(self);
        }
        self.items.as_slice()
    }

    /// The number of records.
    pub fn len(&self) -> (n: usize)
        ensures
            n == self@.len(),
    {
        self.items.len()
    }

    /// Whether the catalog holds no record.
    pub fn is_empty(&self) -> (b: bool)
        ensures
            b == (self@.len() == 0),
    {
        self.items.len() == 0
    }

    /// The index of the first record whose key does not sort before `key`.
    fn position(&self, key: &str) -> (i: usize)
        ensures
            i <= self@.len(),
            forall|j: int| 0 <= j < i ==> text_lt(#[trigger] self@[j].key(), key@),
            i < self@.len() ==> !text_lt(self@[i as int].key(), key@),
    {
        let mut i: usize = 0;
        while i < self.items.len()
            invariant
                i <= self@.len(),
                forall|j: int| 0 <= j < i ==> text_lt(#[trigger] self@[j].key(), key@),
            decreases self@.len() - i,
        {
            if compare_text(self.items[i].key_str(), key) != KeyOrder::Before {
                return i;
            }
            i = i + 1;
        }
        i
    }

    /// The record that carries `key`, if any.
    pub fn get(&self, key: &str) -> (r: Option<&T>)
        ensures
            match r {
                Some(t) => lookup(self@, key@) == Some(*t),
                None => lookup(self@, key@) is None,
            },
    {
        proof {
            use_type_invariant(self);
        }
        let i = self.position(key);
        if i < self.items.len() && same_text(self.items[i].key_str(), key) {
            proof {
                lemma_lookup_at(self@, i as int);
            }
            Some(&self.items[i])
        } else {
            proof {
                if has_key(self@, key@) {
                    let j = choose|j: int| 0 <= j < self@.len() && #[trigger] self@[j].key() == key@;
                    if j < i {
                        lemma_text_lt_irreflexive(key@);
                    } else if j > i {
                        lemma_text_lt_total(self@[i as int].key(), key@);
                        lemma_text_lt_asymmetric(self@[i as int].key(), key@);
                    }
                }
            }
            None
        }
    }

    /// Whether some record carries `key`.
    pub fn contains_key(&self, key: &str) -> (b: bool)
        ensures
            b == has_key(self@, key@),
    {
        self.get(key).is_some()
    }

    /// Puts `item` in the catalog, replacing the record with the same key.
    /// Returns the record that was replaced.
    pub fn insert(&mut self, item: T) -> (replaced: Option<T>)
        ensures
            keys_sorted(final(self)@),
            replaced == lookup(old(self)@, item.key()),
            lookup(final(self)@, item.key()) == Some(item),
            forall|k: Seq<char>| k != item.key() ==> #[trigger] lookup(final(self)@, k) == lookup(old(self)@, k),
            final(self)@.len() == old(self)@.len() + (if has_key(old(self)@, item.key()) { 0int } else { 1int }),
    {
        proof {
            use_type_invariant(&*self);
        }
        let ghost before = self@;
        let ghost key = item.key();
        let i = self.position(item.key_str());
        let mut items: Vec<T> = Vec::new();
        std::mem::swap(&mut items, &mut self.items);
        assert(items@ == before);
        if i < items.len() && same_text(items[i].key_str(), item.key_str()) {
            let prev = items.remove(i);
            items.insert(i, item);
            proof {
                assert(items@ =~= before.update(i as int, item));
                lemma_lookup_at(before, i as int);
                assert forall|a: int, b: int| 0 <= a < b < items@.len() implies text_lt(
                    #[trigger] items@[a].key(),
                    #[trigger] items@[b].key(),
                ) by {
                    if a == i {
                        assert(before[a].key() == key);
                    }
                    if b == i {
                        assert(before[b].key() == key);
                    }
                }
                lemma_lookup_at(items@, i as int);
                assert forall|k: Seq<char>| k != key implies #[trigger] lookup(items@, k) == lookup(before, k) by {
                    lemma_lookup_same_keys(before, items@, i as int, k);
                }
            }
            self.items = items;
            Some(prev)
        } else {
            proof {
                assert(!has_key(before, key)) by {
                    if has_key(before, key) {
                        let j = choose|j: int| 0 <= j < before.len() && #[trigger] before[j].key() == key;
                        if j < i {
                            lemma_text_lt_irreflexive(key);
                        } else if j > i {
                            lemma_text_lt_total(before[i as int].key(), key);
                            lemma_text_lt_asymmetric(before[i as int].key(), key);
                        }
                    }
                }
                if i < before.len() {
                    lemma_text_lt_total(before[i as int].key(), key);
                }
            }
            items.insert(i, item);
            proof {
                let after = items@;
                assert(after =~= before.insert(i as int, item));
                assert forall|a: int, b: int| 0 <= a < b < after.len() implies text_lt(
                    #[trigger] after[a].key(),
                    #[trigger] after[b].key(),
                ) by {
                    if a < i && b == i {
                    } else if a == i && b > i {
                        if b - 1 > i {
                            lemma_text_lt_transitive(key, before[i as int].key(), before[b - 1].key());
                        }
                    } else if a < i && b > i {
                    } else if a > i {
                        assert(after[a] == before[a - 1]);
                        assert(after[b] == before[b - 1]);
                    }
                }
                lemma_lookup_at(after, i as int);
                assert forall|k: Seq<char>| k != key implies #[trigger] lookup(after, k) == lookup(before, k) by {
                    lemma_lookup_insert(before, after, i as int, item, k);
                }
            }
            self.items = items;
            None
        }
    }
}

proof fn lemma_lookup_same_keys<T: Keyed>(before: Seq<T>, after: Seq<T>, i: int, k: Seq<char>)
    requires
        keys_sorted(before),
        keys_sorted(after),
        0 <= i < before.len(),
        after == before.update(i, after[i]),
        after[i].key() == before[i].key(),
        k != before[i].key(),
    ensures
        lookup(after, k) == lookup(before, k),
{
    if has_key(before, k) {
        let j = choose|j: int| 0 <= j < before.len() && #[trigger] before[j].key() == k;
        assert(after[j].key() == k);
        lemma_lookup_at(before, j);
        lemma_lookup_at(after, j);
    } else if has_key(after, k) {
        let j = choose|j: int| 0 <= j < after.len() && #[trigger] after[j].key() == k;
        assert(before[j].key() == k);
    }
}

proof fn lemma_lookup_insert<T: Keyed>(before: Seq<T>, after: Seq<T>, i: int, item: T, k: Seq<char>)
    requires
        keys_sorted(before),
        keys_sorted(after),
        0 <= i <= before.len(),
        after == before.insert(i, item),
        k != item.key(),
    ensures
        lookup(after, k) == lookup(before, k),
{
    if has_key(before, k) {
        let j = choose|j: int| 0 <= j < before.len() && #[trigger] before[j].key() == k;
        lemma_lookup_at(before, j);
        if j < i {
            assert(after[j] == before[j]);
            lemma_lookup_at(after, j);
        } else {
            assert(after[j + 1] == before[j]);
            lemma_lookup_at(after, j + 1);
        }
    } else if has_key(after, k) {
        let j = choose|j: int| 0 <= j < after.len() && #[trigger] after[j].key() == k;
        if j < i {
            assert(before[j].key() == k);
        } else if j > i {
            assert(before[j - 1].key() == k);
        }
    }
}

} // verus!
