//! An owned mapping from string identifiers to records.
//!
//! Every raw table and every identifier-keyed part of the model is held in a
//! [`Dict`]: a list of key/value entries whose keys are distinct. Records
//! can be removed by key, which is how the assembler drains side tables so
//! that no record is ever attached to two entities.

use vstd::prelude::*;

verus! {

/// An owned mapping from string keys to values, with distinct keys.
///
/// Its view is the [`Map`] from key characters to values.
#[derive(Debug)]
pub struct Dict<V> {
    entries: Vec<(String, V)>,
}

impl<V> View for Dict<V> {
    type V = Map<Seq<char>, V>;

    open spec fn view(&self) -> Map<Seq<char>, V> {
        Map::new(
            |k: Seq<char>| self.spec_contains(k),
            |k: Seq<char>| self.entry_seq()[self.spec_index(k)].1,
        )
    }
}

impl<V> Dict<V> {
    /// The keys of any two distinct entries differ.
    pub closed spec fn wf(self) -> bool {
        forall|i: int, j: int|
            0 <= i < j < self.entries@.len() ==> self.entries@[i].0@ != self.entries@[j].0@
    }

    /// The entries, in insertion order.
    pub closed spec fn entry_seq(self) -> Seq<(String, V)> {
        self.entries@
    }

    /// How many entries the mapping holds.
    pub open spec fn spec_len(self) -> nat {
        self.entry_seq().len()
    }

    /// Whether some entry has key `k`.
    pub open spec fn spec_contains(self, k: Seq<char>) -> bool {
        exists|i: int| 0 <= i < self.entry_seq().len() && self.entry_seq()[i].0@ == k
    }

    /// The position of the entry with key `k`.
    pub closed spec fn spec_index(self, k: Seq<char>) -> int {
        choose|i: int| 0 <= i < self.entry_seq().len() && self.entry_seq()[i].0@ == k
    }

    /// The position of any entry whose key is `k` is the position the
    /// mapping resolves `k` to; in particular the value at `k` is that
    /// entry's value.
    proof fn lemma_index_unique(self, i: int)
        requires
            self.wf(),
            0 <= i < self.entry_seq().len(),
        ensures
            self.spec_index(self.entry_seq()[i].0@) == i,
            self@.contains_key(self.entry_seq()[i].0@),
            self@[self.entry_seq()[i].0@] == self.entry_seq()[i].1,
    {
        let k = self.entry_seq()[i].0@;
        assert(self.spec_contains(k));
        let j = self.spec_index(k);
        assert(0 <= j < self.entry_seq().len() && self.entry_seq()[j].0@ == k);
        if i < j {
            assert(self.entry_seq()[i].0@ != self.entry_seq()[j].0@);
        } else if j < i {
            assert(self.entry_seq()[j].0@ != self.entry_seq()[i].0@);
        }
    }

    /// In a well-formed mapping the keys of any two distinct entries
    /// differ.
    pub proof fn lemma_entry_keys_distinct(self)
        requires
            self.wf(),
        ensures
            forall|i: int, j: int|
                0 <= i < j < self.entry_seq().len() ==> (#[trigger] self.entry_seq()[i]).0@ != (
                #[trigger] self.entry_seq()[j]).0@,
    {
    }

    /// An empty mapping.
    pub fn new() -> (r: Dict<V>)
        ensures
            r.wf(),
            r@ == Map::<Seq<char>, V>::empty(),
            r.spec_len() == 0,
    {
        let d = Dict { entries: Vec::new() };
        proof {
            assert(d@ =~= Map::<Seq<char>, V>::empty());
        }
        d
    }

    /// How many entries the mapping holds.
    pub fn len(&self) -> (r: usize)
        ensures
            r == self.spec_len(),
    {
        self.entries.len()
    }

    /// Whether the mapping holds no entry.
    pub fn is_empty(&self) -> (r: bool)
        ensures
            r == (self.spec_len() == 0),
    {
        self.entries.is_empty()
    }

    /// Looks a key up and borrows its value.
    pub fn get(&self, key: &str) -> (r: Option<&V>)
        requires
            self.wf(),
        ensures
            match r {
                Some(v) => self@.contains_key(key@) && *v == self@[key@],
                None => !self@.contains_key(key@),
            },
    {
        let n = self.entries.len();
        let mut i: usize = 0;
        while i < n
            invariant
                self.wf(),
                n == self.entry_seq().len(),
                i <= n,
                forall|j: int| 0 <= j < i ==> self.entry_seq()[j].0@ != key@,
            decreases n - i,
        {
            if string_eq_str(&self.entries[i].0, key) {
                proof {
                    self.lemma_index_unique(i as int);
                }
                return Some(&self.entries[i].1);
            }
            i = i + 1;
        }
        proof {
            assert(!self.spec_contains(key@));
        }
        None
    }

    /// Whether the mapping holds an entry for `key`.
    pub fn contains_key(&self, key: &str) -> (r: bool)
        requires
            self.wf(),
        ensures
            r == self@.contains_key(key@),
    {
        match self.get(key) {
            Some(_) => true,
            None => false,
        }
    }

    /// Puts a value under a key, replacing any value the key held before.
    pub fn insert(&mut self, key: String, value: V)
        requires
            old(self).wf(),
        ensures
            final(self).wf(),
            final(self)@ == old(self)@.insert(key@, value),
            old(self)@.contains_key(key@) ==> final(self).spec_len() == old(self).spec_len(),
            !old(self)@.contains_key(key@) ==> final(self).spec_len() == old(self).spec_len()
                + 1 && final(self).entry_seq() == old(self).entry_seq().push((key, value)),
    {
        let n = self.entries.len();
        let mut i: usize = 0;
        while i < n
            invariant
                self.wf(),
                self == old(self),
                n == self.entry_seq().len(),
                i <= n,
                forall|j: int| 0 <= j < i ==> self.entry_seq()[j].0@ != key@,
            decreases n - i,
        {
            if string_eq_str(&self.entries[i].0, key.as_str()) {
                proof {
                    self.lemma_index_unique(i as int);
                }
                self.entries.remove(i);
                self.entries.insert(i, (key, value));
                proof {
                    assert(self.entry_seq() =~= old(self).entry_seq().update(
                        i as int,
                        (key, value),
                    ));
                    assert forall|p: int, q: int|
                        0 <= p < q < self.entry_seq().len() implies self.entry_seq()[p].0@
                        != self.entry_seq()[q].0@ by {
                        assert(old(self).entry_seq()[p].0@ != old(self).entry_seq()[q].0@);
                    }
                    lemma_view_after_update(*old(self), *self, i as int, key, value);
                }
                return ;
            }
            i = i + 1;
        }
        self.entries.push((key, value));
        proof {
            assert(forall|j: int|
                0 <= j < old(self).entry_seq().len() ==> self.entry_seq()[j] == old(
                    self,
                ).entry_seq()[j]);
            assert(!old(self).spec_contains(key@));
            lemma_view_after_push(*old(self), *self, key, value);
        }
    }

    /// Removes a key's entry and hands back its value, if the key is held.
    /// Entries under other keys are untouched and keep their order.
    pub fn remove(&mut self, key: &str) -> (r: Option<V>)
        requires
            old(self).wf(),
        ensures
            final(self).wf(),
            match r {
                Some(v) => old(self)@.contains_key(key@) && v == old(self)@[key@] && final(self)@
                    == old(self)@.remove(key@) && final(self).spec_len() + 1 == old(
                    self,
                ).spec_len(),
                None => !old(self)@.contains_key(key@) && *final(self) == *old(self),
            },
            final(self)@.dom() == old(self)@.dom().remove(key@),
    {
        let n = self.entries.len();
        let mut i: usize = 0;
        while i < n
            invariant
                self.wf(),
                self == old(self),
                n == self.entry_seq().len(),
                i <= n,
                forall|j: int| 0 <= j < i ==> self.entry_seq()[j].0@ != key@,
            decreases n - i,
        {
            if string_eq_str(&self.entries[i].0, key) {
                proof {
                    self.lemma_index_unique(i as int);
                }
                let entry = self.entries.remove(i);
                proof {
                    assert forall|p: int, q: int|
                        0 <= p < q < self.entry_seq().len() implies self.entry_seq()[p].0@
                        != self.entry_seq()[q].0@ by {
                        let p0 = if p < i as int { p } else { p + 1 };
                        let q0 = if q < i as int { q } else { q + 1 };
                        assert(old(self).entry_seq()[p0].0@ != old(self).entry_seq()[q0].0@);
                    }
                    lemma_view_after_remove(*old(self), *self, i as int, key@);
                    assert(self@.dom() =~= old(self)@.dom().remove(key@));
                }
                return Some(entry.1);
            }
            i = i + 1;
        }
        proof {
            assert(!self.spec_contains(key@));
            assert(self@.dom() =~= old(self)@.dom().remove(key@));
        }
        None
    }

    /// Borrows the entries, in order.
    pub fn entries_ref(&self) -> (r: &Vec<(String, V)>)
        ensures
            r@ == self.entry_seq(),
    {
        &self.entries
    }

    /// Gives the entries up, in order.
    pub fn into_entries(self) -> (r: Vec<(String, V)>)
        ensures
            r@ == self.entry_seq(),
    {
        self.entries
    }

    /// Wraps a list of entries whose keys are already distinct.
    pub fn from_entries(entries: Vec<(String, V)>) -> (r: Option<Dict<V>>)
        ensures
            match r {
                Some(d) => d.wf() && d.entry_seq() == entries@ && (forall|i: int, j: int|
                    0 <= i < j < entries@.len() ==> entries@[i].0@ != entries@[j].0@),
                None => exists|i: int, j: int|
                    0 <= i < j < entries@.len() && entries@[i].0@ == entries@[j].0@,
            },
    {
        let n = entries.len();
        let mut i: usize = 0;
        while i < n
            invariant
                n == entries@.len(),
                i <= n,
                forall|p: int, q: int| 0 <= p < q < i ==> entries@[p].0@ != entries@[q].0@,
            decreases n - i,
        {
            let mut j: usize = 0;
            while j < i
                invariant
                    n == entries@.len(),
                    j <= i < n,
                    forall|q: int| 0 <= q < j ==> entries@[q].0@ != entries@[i as int].0@,
                decreases i - j,
            {
                if string_eq_str(&entries[j].0, entries[i].0.as_str()) {
                    return None;
                }
                j = j + 1;
            }
            i = i + 1;
        }
        Some(Dict { entries })
    }
}

/// After replacing the entry at `i`, the mapping is the old mapping with the
/// replaced key bound to the new value.
proof fn lemma_view_after_update<V>(pre: Dict<V>, post: Dict<V>, i: int, key: String, value: V)
    requires
        pre.wf(),
        post.wf(),
        0 <= i < pre.entry_seq().len(),
        pre.entry_seq()[i].0@ == key@,
        post.entry_seq() == pre.entry_seq().update(i, (key, value)),
    ensures
        post@ == pre@.insert(key@, value),
{
    assert forall|k: Seq<char>| #[trigger]
        post@.contains_key(k) == pre@.insert(key@, value).contains_key(k) && (
        post@.contains_key(k) ==> post@[k] == pre@.insert(key@, value)[k]) by {
        if k == key@ {
            assert(post.entry_seq()[i].0@ == k);
            post.lemma_index_unique(i);
        } else {
            if pre.spec_contains(k) {
                let j = pre.spec_index(k);
                assert(pre.entry_seq()[j].0@ == k);
                assert(j != i);
                assert(post.entry_seq()[j].0@ == k);
                pre.lemma_index_unique(j);
                post.lemma_index_unique(j);
            } else if post.spec_contains(k) {
                let j = post.spec_index(k);
                assert(post.entry_seq()[j].0@ == k);
                assert(j != i);
                assert(pre.entry_seq()[j].0@ == k);
                assert(pre.spec_contains(k));
            }
        }
    }
    assert(post@ =~= pre@.insert(key@, value));
}

/// After pushing an entry under a fresh key, the mapping is the old mapping
/// with that key bound.
proof fn lemma_view_after_push<V>(pre: Dict<V>, post: Dict<V>, key: String, value: V)
    requires
        pre.wf(),
        post.wf(),
        !pre.spec_contains(key@),
        post.entry_seq() == pre.entry_seq().push((key, value)),
    ensures
        post@ == pre@.insert(key@, value),
{
    let n = pre.entry_seq().len() as int;
    assert forall|k: Seq<char>| #[trigger]
        post@.contains_key(k) == pre@.insert(key@, value).contains_key(k) && (
        post@.contains_key(k) ==> post@[k] == pre@.insert(key@, value)[k]) by {
        if k == key@ {
            assert(post.entry_seq()[n].0@ == k);
            post.lemma_index_unique(n);
        } else {
            if pre.spec_contains(k) {
                let j = pre.spec_index(k);
                assert(pre.entry_seq()[j].0@ == k);
                assert(post.entry_seq()[j].0@ == k);
                pre.lemma_index_unique(j);
                post.lemma_index_unique(j);
            } else if post.spec_contains(k) {
                let j = post.spec_index(k);
                assert(post.entry_seq()[j].0@ == k);
                assert(j != n);
                assert(pre.entry_seq()[j].0@ == k);
                assert(pre.spec_contains(k));
            }
        }
    }
    assert(post@ =~= pre@.insert(key@, value));
}

/// After removing the entry at `i`, the mapping is the old mapping without
/// the removed key.
proof fn lemma_view_after_remove<V>(pre: Dict<V>, post: Dict<V>, i: int, key: Seq<char>)
    requires
        pre.wf(),
        post.wf(),
        0 <= i < pre.entry_seq().len(),
        pre.entry_seq()[i].0@ == key,
        post.entry_seq() == pre.entry_seq().remove(i),
    ensures
        post@ == pre@.remove(key),
{
    assert forall|k: Seq<char>| #[trigger]
        post@.contains_key(k) == pre@.remove(key).contains_key(k) && (post@.contains_key(k)
            ==> post@[k] == pre@.remove(key)[k]) by {
        if k == key {
            if post.spec_contains(k) {
                let j = post.spec_index(k);
                assert(post.entry_seq()[j].0@ == k);
                let j0 = if j < i { j } else { j + 1 };
                assert(pre.entry_seq()[j0].0@ == k);
                pre.lemma_index_unique(j0);
                pre.lemma_index_unique(i);
            }
        } else {
            if pre.spec_contains(k) {
                let j = pre.spec_index(k);
                assert(pre.entry_seq()[j].0@ == k);
                assert(j != i);
                let j1 = if j < i { j } else { j - 1 };
                assert(post.entry_seq()[j1].0@ == k);
                pre.lemma_index_unique(j);
                post.lemma_index_unique(j1);
            } else if post.spec_contains(k) {
                let j = post.spec_index(k);
                assert(post.entry_seq()[j].0@ == k);
                let j0 = if j < i { j } else { j + 1 };
                assert(pre.entry_seq()[j0].0@ == k);
                assert(pre.spec_contains(k));
            }
        }
    }
    assert(post@ =~= pre@.remove(key));
}

/// Compares an owned key with a borrowed one.
fn string_eq_str(a: &String, b: &str) -> (r: bool)
    ensures
        r == (a@ == b@),
{
    let owned: String = b.to_owned();
    *a == owned
}

} // verus!
