//! String-keyed association containers backing the macro index.
//!
//! `StrMap` is an association list with pairwise-distinct keys whose
//! mathematical view is a finite `Map<Seq<char>, _>`; `StrSet` is a plain
//! name list viewed as a `Set<Seq<char>>`.

use vstd::prelude::*;

verus! {

/// Relies on `str`'s `PartialEq`: two string slices compare equal exactly
/// when their character sequences are equal.
#[verifier::external_body]
pub(crate) fn str_eq(a: &str, b: &str) -> (r: bool)
    ensures
        r == (a@ == b@),
{
    a == b
}

/// A clone whose result provably denotes the same mathematical value.
pub trait Duplicable: View + Sized {
    fn dup(&self) -> (r: Self)
        ensures
            r@ == self@;
}

/// No two entries of `s` share a key.
spec fn unique_keys<V>(s: Seq<(String, V)>) -> bool {
    forall|i: int, j: int| 0 <= i < j < s.len() ==> s[i].0@ != s[j].0@
}

/// The finite map denoted by a sequence of key/value entries; a later
/// entry with the same key wins.
spec fn entries_map<V: View>(s: Seq<(String, V)>) -> Map<Seq<char>, V::V>
    decreases s.len(),
{
    if s.len() == 0 {
        Map::empty()
    } else {
        entries_map(s.drop_last()).insert(s.last().0@, s.last().1@)
    }
}

proof fn lemma_entries_map_contains<V: View>(s: Seq<(String, V)>, k: Seq<char>)
    ensures
        entries_map(s).contains_key(k) <==> (exists|i: int|
            0 <= i < s.len() && s[i].0@ == k),
    decreases s.len(),
{
    if s.len() > 0 {
        lemma_entries_map_contains(s.drop_last(), k);
        if s.last().0@ == k {
            assert(s[s.len() - 1].0@ == k);
        } else {
            if exists|i: int| 0 <= i < s.drop_last().len() && s.drop_last()[i].0@ == k {
                let i = choose|i: int| 0 <= i < s.drop_last().len() && s.drop_last()[i].0@ == k;
                assert(s[i].0@ == k);
            }
            if exists|i: int| 0 <= i < s.len() && s[i].0@ == k {
                let i = choose|i: int| 0 <= i < s.len() && s[i].0@ == k;
                assert(i < s.len() - 1);
                assert(s.drop_last()[i].0@ == k);
            }
        }
    }
}

proof fn lemma_entries_map_index<V: View>(s: Seq<(String, V)>, i: int)
    requires
        unique_keys(s),
        0 <= i < s.len(),
    ensures
        entries_map(s).contains_key(s[i].0@),
        entries_map(s)[s[i].0@] == s[i].1@,
    decreases s.len(),
{
    if i < s.len() - 1 {
        assert(s.drop_last()[i] == s[i]);
        assert(unique_keys(s.drop_last())) by {
            assert(forall|a: int, b: int|
                0 <= a < b < s.drop_last().len() ==> s.drop_last()[a].0@ == s[a].0@
                    && s.drop_last()[b].0@ == s[b].0@);
        }
        lemma_entries_map_index(s.drop_last(), i);
        assert(s[i].0@ != s.last().0@);
    }
}

proof fn lemma_entries_map_len<V: View>(s: Seq<(String, V)>)
    requires
        unique_keys(s),
    ensures
        entries_map(s).dom().finite(),
        entries_map(s).dom().len() == s.len(),
    decreases s.len(),
{
    if s.len() > 0 {
        assert(unique_keys(s.drop_last())) by {
            assert(forall|a: int, b: int|
                0 <= a < b < s.drop_last().len() ==> s.drop_last()[a].0@ == s[a].0@
                    && s.drop_last()[b].0@ == s[b].0@);
        }
        lemma_entries_map_len(s.drop_last());
        lemma_entries_map_contains(s.drop_last(), s.last().0@);
        assert(!entries_map(s.drop_last()).contains_key(s.last().0@)) by {
            assert(forall|i: int|
                0 <= i < s.drop_last().len() ==> s.drop_last()[i].0@ == s[i].0@
                    && s[i].0@ != s.last().0@);
        }
        assert(entries_map(s).dom() =~= entries_map(s.drop_last()).dom().insert(s.last().0@));
    }
}

proof fn lemma_entries_map_congruent<V: View>(s1: Seq<(String, V)>, s2: Seq<(String, V)>)
    requires
        s1.len() == s2.len(),
        forall|i: int|
            0 <= i < s1.len() ==> s1[i].0@ == s2[i].0@ && s1[i].1@ == s2[i].1@,
    ensures
        entries_map(s1) =~= entries_map(s2),
    decreases s1.len(),
{
    if s1.len() > 0 {
        assert(forall|i: int|
            0 <= i < s1.drop_last().len() ==> s1.drop_last()[i] == s1[i]
                && s2.drop_last()[i] == s2[i]);
        lemma_entries_map_congruent(s1.drop_last(), s2.drop_last());
        assert(s1.last().0@ == s2.last().0@ && s1.last().1@ == s2.last().1@);
    }
}

proof fn lemma_entries_map_update<V: View>(s: Seq<(String, V)>, i: int, p: (String, V))
    requires
        unique_keys(s),
        0 <= i < s.len(),
        p.0@ == s[i].0@,
    ensures
        unique_keys(s.update(i, p)),
        entries_map(s.update(i, p)) =~= entries_map(s).insert(p.0@, p.1@),
    decreases s.len(),
{
    let s2 = s.update(i, p);
    assert(forall|j: int| 0 <= j < s2.len() ==> s2[j].0@ == s[j].0@);
    if i == s.len() - 1 {
        assert(s2.drop_last() =~= s.drop_last());
        assert(s2.last() == p);
        assert(entries_map(s2) =~= entries_map(s).insert(p.0@, p.1@));
    } else {
        assert(unique_keys(s.drop_last())) by {
            assert(forall|a: int, b: int|
                0 <= a < b < s.drop_last().len() ==> s.drop_last()[a].0@ == s[a].0@
                    && s.drop_last()[b].0@ == s[b].0@);
        }
        assert(s2.drop_last() =~= s.drop_last().update(i, p));
        lemma_entries_map_update(s.drop_last(), i, p);
        assert(s.last().0@ != p.0@);
        assert(s2.last() == s.last());
        assert(entries_map(s2) =~= entries_map(s).insert(p.0@, p.1@));
    }
}

fn find_key<V>(entries: &Vec<(String, V)>, k: &str) -> (r: Option<usize>)
    ensures
        match r {
            Some(i) => i < entries@.len() && entries@[i as int].0@ == k@,
            None => forall|i: int| 0 <= i < entries@.len() ==> entries@[i].0@ != k@,
        },
{
    let n = entries.len();
    let mut i: usize = 0;
    while i < n
        invariant
            n == entries@.len(),
            i <= n,
            forall|j: int| 0 <= j < i ==> entries@[j].0@ != k@,
        decreases n - i,
    {
        if str_eq(entries[i].0.as_str(), k) {
            return Some(i);
        }
        i = i + 1;
    }
    None
}

/// An association list from string keys to values; keys are pairwise
/// distinct, and the view is the finite map the entries denote.
#[derive(Debug)]
pub struct StrMap<V> {
    entries: Vec<(String, V)>,
}

impl<V> StrMap<V> {
    #[verifier::type_invariant]
    closed spec fn key_inv(self) -> bool {
        unique_keys(self.entries@)
    }
}

impl<V: View> View for StrMap<V> {
    type V = Map<Seq<char>, V::V>;

    closed spec fn view(&self) -> Map<Seq<char>, V::V> {
        entries_map(self.entries@)
    }
}

impl<V: View> StrMap<V> {
    pub fn new() -> (r: Self)
        ensures
            r@ == Map::<Seq<char>, V::V>::empty(),
    {
        let r = StrMap { entries: Vec::new() };
        proof {
            assert(r@ =~= Map::<Seq<char>, V::V>::empty());
        }
        r
    }

    pub fn get<'a>(&'a self, k: &str) -> (r: Option<&'a V>)
        ensures
            match r {
                Some(v) => self@.contains_key(k@) && v@ == self@[k@],
                None => !self@.contains_key(k@),
            },
    {
        proof {
            use_type_invariant(&*self);
        }
        match find_key(&self.entries, k) {
            Some(i) => {
                proof {
                    lemma_entries_map_index(self.entries@, i as int);
                }
                Some(&self.entries[i].1)
            },
            None => {
                proof {
                    lemma_entries_map_contains(self.entries@, k@);
                }
                None
            },
        }
    }

    pub fn contains_key(&self, k: &str) -> (r: bool)
        ensures
            r == self@.contains_key(k@),
    {
        self.get(k).is_some()
    }

    pub fn is_empty(&self) -> (r: bool)
        ensures
            r == (self@ =~= Map::<Seq<char>, V::V>::empty()),
    {
        let r = self.entries.is_empty();
        proof {
            if self.entries@.len() == 0 {
                assert(self@ =~= Map::<Seq<char>, V::V>::empty());
            } else {
                assert(self@.contains_key(self.entries@.last().0@));
            }
        }
        r
    }

    pub fn len(&self) -> (n: usize)
        ensures
            n == self@.dom().len(),
            self@.dom().finite(),
    {
        proof {
            use_type_invariant(&*self);
            lemma_entries_map_len(self.entries@);
        }
        self.entries.len()
    }

    pub fn insert(&mut self, k: String, v: V)
        ensures
            final(self)@ == old(self)@.insert(k@, v@),
    {
        proof {
            use_type_invariant(&*self);
        }
        let ghost s0 = self.entries@;
        let ghost kv: Seq<char> = k@;
        let ghost vv = v@;
        let idx = find_key(&self.entries, k.as_str());
        let mut entries: Vec<(String, V)> = Vec::new();
        std::mem::swap(&mut entries, &mut self.entries);
        match idx {
            Some(i) => {
                entries[i] = (k, v);
                proof {
                    lemma_entries_map_update(s0, i as int, entries@[i as int]);
                }
                self.entries = entries;
                proof {
                    assert(self@ =~= old(self)@.insert(kv, vv));
                }
            },
            None => {
                entries.push((k, v));
                proof {
                    assert(forall|a: int, b: int|
                        0 <= a < b < entries@.len() ==> entries@[a].0@ != entries@[b].0@) by {
                        assert(forall|a: int|
                            0 <= a < s0.len() ==> entries@[a] == s0[a]);
                    }
                }
                self.entries = entries;
                proof {
                    assert(self.entries@.drop_last() =~= s0);
                    assert(self@ =~= old(self)@.insert(kv, vv));
                }
            },
        }
    }
}

impl<V: Duplicable> Duplicable for StrMap<V> {
    fn dup(&self) -> (r: Self)
        ensures
            r@ == self@,
    {
        proof {
            use_type_invariant(&*self);
        }
        let n = self.entries.len();
        let mut entries: Vec<(String, V)> = Vec::new();
        let mut i: usize = 0;
        while i < n
            invariant
                n == self.entries@.len(),
                i <= n,
                entries@.len() == i,
                forall|j: int|
                    0 <= j < i ==> entries@[j].0@ == self.entries@[j].0@ && entries@[j].1@
                        == self.entries@[j].1@,
            decreases n - i,
        {
            let key = self.entries[i].0.clone();
            let value = self.entries[i].1.dup();
            entries.push((key, value));
            i = i + 1;
        }
        proof {
            use_type_invariant(&*self);
            assert(forall|a: int, b: int|
                0 <= a < b < entries@.len() ==> entries@[a].0@ != entries@[b].0@);
            lemma_entries_map_congruent(entries@, self.entries@);
        }
        let r = StrMap { entries };
        proof {
            assert(r@ =~= self@);
        }
        r
    }
}

/// The set of names denoted by a sequence of strings.
spec fn items_set(s: Seq<String>) -> Set<Seq<char>>
    decreases s.len(),
{
    if s.len() == 0 {
        Set::empty()
    } else {
        items_set(s.drop_last()).insert(s.last()@)
    }
}

proof fn lemma_items_set_contains(s: Seq<String>, k: Seq<char>)
    ensures
        items_set(s).contains(k) <==> (exists|i: int| 0 <= i < s.len() && s[i]@ == k),
    decreases s.len(),
{
    if s.len() > 0 {
        lemma_items_set_contains(s.drop_last(), k);
        if s.last()@ == k {
            assert(s[s.len() - 1]@ == k);
        } else {
            if exists|i: int| 0 <= i < s.drop_last().len() && s.drop_last()[i]@ == k {
                let i = choose|i: int| 0 <= i < s.drop_last().len() && s.drop_last()[i]@ == k;
                assert(s[i]@ == k);
            }
            if exists|i: int| 0 <= i < s.len() && s[i]@ == k {
                let i = choose|i: int| 0 <= i < s.len() && s[i]@ == k;
                assert(i < s.len() - 1);
                assert(s.drop_last()[i]@ == k);
            }
        }
    }
}

/// A set of names, held as the list of names in insertion order.
#[derive(Debug)]
pub struct StrSet {
    items: Vec<String>,
}

impl View for StrSet {
    type V = Set<Seq<char>>;

    closed spec fn view(&self) -> Set<Seq<char>> {
        items_set(self.items@)
    }
}

impl StrSet {
    pub fn new() -> (r: Self)
        ensures
            r@ == Set::<Seq<char>>::empty(),
    {
        let r = StrSet { items: Vec::new() };
        proof {
            assert(r@ =~= Set::<Seq<char>>::empty());
        }
        r
    }

    pub fn contains(&self, k: &str) -> (r: bool)
        ensures
            r == self@.contains(k@),
    {
        proof {
            lemma_items_set_contains(self.items@, k@);
        }
        let n = self.items.len();
        let mut i: usize = 0;
        while i < n
            invariant
                n == self.items@.len(),
                i <= n,
                forall|j: int| 0 <= j < i ==> self.items@[j]@ != k@,
            decreases n - i,
        {
            if str_eq(self.items[i].as_str(), k) {
                proof {
                    assert(self.items@[i as int]@ == k@);
                    lemma_items_set_contains(self.items@, k@);
                }
                return true;
            }
            i = i + 1;
        }
        false
    }

    pub fn insert(&mut self, k: String)
        ensures
            final(self)@ == old(self)@.insert(k@),
    {
        let ghost kv: Seq<char> = k@;
        self.items.push(k);
        proof {
            assert(self.items@.drop_last() =~= old(self).items@);
            assert(self@ =~= old(self)@.insert(kv));
        }
    }
}

} // verus!
