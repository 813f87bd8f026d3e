use std::collections::hash_map::RandomState;
use std::collections::{BTreeMap, HashMap};
use std::hash::Hash;

use vstd::laws_eq::obeys_concrete_eq;
use vstd::prelude::*;
use vstd::std_specs::btree::{into_iter as tree_map_order, key_obeys_cmp_spec, spec_btree_map_iter};
use vstd::std_specs::iter::IteratorSpec;
use vstd::std_specs::hash::{builds_valid_hashers, obeys_key_model, spec_hash_map_iter, into_iter as hash_map_order};

use crate::prelude::{Document, ExpandableDocument, ProcessedDocument};

verus! {

/// The count of the first entry of `s` whose term is `t`, or 0 when none is.
pub open spec fn first_count<T>(s: Seq<(T, usize)>, t: T) -> nat
    decreases s.len(),
{
    if s.len() == 0 {
        0
    } else if s[0].0 == t {
        s[0].1 as nat
    } else {
        first_count(s.drop_first(), t)
    }
}

/// The index of the last entry of `s` whose count is the largest, or -1 for
/// an empty `s`.
pub open spec fn peak_index<T>(s: Seq<(T, usize)>) -> int
    decreases s.len(),
{
    if s.len() == 0 {
        -1
    } else {
        let p = peak_index(s.drop_last());
        if p < 0 || s[p].1 <= s.last().1 {
            s.len() - 1
        } else {
            p
        }
    }
}

/// No two entries of `s` carry the same term.
pub open spec fn distinct_terms<T>(s: Seq<(T, usize)>) -> bool {
    forall|i: int, j: int| 0 <= i < j < s.len() ==> s[i].0 != s[j].0
}

pub(crate) proof fn lemma_peak_index_bounds<T>(s: Seq<(T, usize)>)
    ensures
        s.len() == 0 ==> peak_index(s) == -1,
        s.len() > 0 ==> 0 <= peak_index(s) < s.len(),
        s.len() > 0 ==> forall|k: int| 0 <= k < s.len() ==> #[trigger] s[k].1 <= s[peak_index(s)].1,
    decreases s.len(),
{
    if s.len() > 0 {
        let r = s.drop_last();
        lemma_peak_index_bounds(r);
        assert forall|k: int| 0 <= k < s.len() implies #[trigger] s[k].1 <= s[peak_index(s)].1 by {
            if k < s.len() - 1 {
                assert(s[k] == r[k]);
            }
        }
    }
}

proof fn lemma_first_count_skip<T>(s: Seq<(T, usize)>, i: int, t: T)
    requires
        0 <= i < s.len(),
        s[i].0 != t,
    ensures
        first_count(s.subrange(i, s.len() as int), t) == first_count(
            s.subrange(i + 1, s.len() as int),
            t,
        ),
{
    assert(s.subrange(i, s.len() as int).drop_first() =~= s.subrange(i + 1, s.len() as int));
}

/// Under distinct terms, the count of the entry at `i` is the count of its term.
pub(crate) proof fn lemma_first_count_at<T>(s: Seq<(T, usize)>, i: int)
    requires
        0 <= i < s.len(),
        forall|j: int| 0 <= j < i ==> s[j].0 != s[i].0,
    ensures
        first_count(s, s[i].0) == s[i].1 as nat,
    decreases i,
{
    if i > 0 {
        let r = s.drop_first();
        lemma_first_count_at(r, i - 1);
    }
}

/// The count of any term is the count of some entry, or 0.
pub(crate) proof fn lemma_first_count_is_entry<T>(s: Seq<(T, usize)>, t: T)
    ensures
        first_count(s, t) == 0 || exists|i: int|
            0 <= i < s.len() && s[i].0 == t && first_count(s, t) == s[i].1 as nat,
    decreases s.len(),
{
    if s.len() > 0 && s[0].0 != t {
        let r = s.drop_first();
        lemma_first_count_is_entry(r, t);
        if first_count(r, t) != 0 {
            let i = choose|i: int| 0 <= i < r.len() && r[i].0 == t && first_count(r, t) == r[i].1 as nat;
            assert(s[i + 1] == r[i]);
        }
    }
}

impl<T> Document for Vec<(T, usize)> {
    type Term = T;
}

impl<T> ExpandableDocument for Vec<(T, usize)> {
    open spec fn listed_terms(&self) -> Seq<T> {
        self@.map_values(|p: (T, usize)| p.0)
    }

    fn terms(&self) -> (r: Vec<&T>) {
        let mut r: Vec<&T> = Vec::new();
        let mut i: usize = 0;
        while i < self.len()
            invariant
                i <= self@.len(),
                r@.len() == i,
                forall|k: int| 0 <= k < i ==> *r@[k] == self@[k].0,
            decreases self@.len() - i,
        {
            r.push(&self[i].0);
            i = i + 1;
        }
        r
    }
}

impl<T: PartialEq> ProcessedDocument for Vec<(T, usize)> {
    open spec fn well_formed(&self) -> bool {
        obeys_concrete_eq::<T>()
    }

    open spec fn frequency(&self, t: T) -> nat {
        first_count(self@, t)
    }

    open spec fn is_blank(&self) -> bool {
        self@.len() == 0
    }

    open spec fn holds_terms_once(&self) -> bool {
        distinct_terms(self@)
    }

    open spec fn top_term(&self) -> Option<T> {
        if self@.len() == 0 {
            None
        } else {
            Some(self@[peak_index(self@)].0)
        }
    }

    proof fn lemma_frequency_fits(&self, t: T) {
        lemma_first_count_is_entry(self@, t);
    }

    fn term_frequency(&self, term: &T) -> (r: usize) {
        proof {
            reveal(obeys_concrete_eq);
        }
        let mut i: usize = 0;
        assert(self@.subrange(0, self@.len() as int) =~= self@);
        while i < self.len()
            invariant
                i <= self@.len(),
                obeys_concrete_eq::<T>(),
                first_count(self@, *term) == first_count(self@.subrange(i as int, self@.len() as int), *term),
            decreases self@.len() - i,
        {
            let same = self[i].0 == *term;
            proof {
                reveal(obeys_concrete_eq);
            }
            if same {
                assert(self@.subrange(i as int, self@.len() as int)[0] == self@[i as int]);
                return self[i].1;
            }
            proof {
                lemma_first_count_skip(self@, i as int, *term);
            }
            i = i + 1;
        }
        0
    }

    fn max(&self) -> (r: Option<&T>) {
        if self.len() == 0 {
            return None;
        }
        let mut best: usize = 0;
        let mut i: usize = 1;
        assert(self@.subrange(0, 1).drop_last() =~= self@.subrange(0, 0));
        assert(peak_index(self@.subrange(0, 0)) == -1);
        while i < self.len()
            invariant
                1 <= i <= self@.len(),
                best as int == peak_index(self@.subrange(0, i as int)),
                best < i,
            decreases self@.len() - i,
        {
            let ghost pre = self@.subrange(0, i as int);
            assert(self@.subrange(0, i + 1).drop_last() =~= pre);
            if self[best].1 <= self[i].1 {
                best = i;
            }
            i = i + 1;
        }
        assert(self@.subrange(0, self@.len() as int) =~= self@);
        proof {
            let s = self@;
            lemma_peak_index_bounds(s);
            if distinct_terms(s) {
                lemma_first_count_at(s, best as int);
                assert forall|t: T| #[trigger] first_count(s, t) <= first_count(s, s[best as int].0) by {
                    lemma_first_count_is_entry(s, t);
                }
            }
        }
        Some(&self[best].0)
    }
}

} // verus!

verus! {

/// The entries of `m` in the order that `m.iter()` visits them.
pub open spec fn hash_entries<T>(m: &HashMap<T, usize>) -> Seq<(T, usize)> {
    hash_map_order(spec_hash_map_iter(m))
}

impl<T> Document for HashMap<T, usize> {
    type Term = T;
}

impl<T: Eq + Hash> ProcessedDocument for HashMap<T, usize> {
    open spec fn well_formed(&self) -> bool {
        obeys_key_model::<T>() && builds_valid_hashers::<RandomState>()
    }

    open spec fn frequency(&self, t: T) -> nat {
        if self@.contains_key(t) {
            self@[t] as nat
        } else {
            0
        }
    }

    open spec fn is_blank(&self) -> bool {
        self@.dom().len() == 0
    }

    open spec fn holds_terms_once(&self) -> bool {
        true
    }

    open spec fn top_term(&self) -> Option<T> {
        let s = hash_entries(self);
        if s.len() == 0 {
            None
        } else {
            Some(s[peak_index(s)].0)
        }
    }

    proof fn lemma_frequency_fits(&self, t: T) {
    }

    fn term_frequency(&self, term: &T) -> (r: usize) {
        match self.get(term) {
            Some(c) => *c,
            None => 0,
        }
    }

    fn max(&self) -> (r: Option<&T>) {
        let ghost s = hash_entries(self);
        let iter = self.iter();
        let ghost v = iter.remaining();
        assert(v.unref() == s);
        let mut best: Option<&T> = None;
        let mut best_count: usize = 0;
        for e in it: iter
            invariant
                it.seq().unref() == s,
                it.index() == 0 ==> best is None,
                it.index() > 0 ==> best == Some(&s[peak_index(s.subrange(0, it.index()))].0),
                it.index() > 0 ==> best_count == s[peak_index(s.subrange(0, it.index()))].1,
        {
            let ghost i = it.index();
            assert(0 <= i < s.len());
            assert(s[i] == (*e.0, *e.1));
            assert(s.subrange(0, i + 1).drop_last() =~= s.subrange(0, i));
            assert(peak_index(s.subrange(0, 0)) == -1);
            proof {
                lemma_peak_index_bounds(s.subrange(0, i));
                lemma_peak_index_bounds(s.subrange(0, i + 1));
            }
            let (k, c) = e;
            if best.is_none() || best_count <= *c {
                best = Some(k);
                best_count = *c;
            }
        }
        assert(s.subrange(0, s.len() as int) =~= s);
        proof {
            lemma_peak_index_bounds(s);
            if s.len() > 0 {
                let p = peak_index(s);
                assert(v[p].0 == s[p].0 && v[p].1 == s[p].1);
                assert(self@.contains_key(*v[p].0));
                assert forall|t: T| #[trigger] self.frequency(t) <= self.frequency(s[p].0) by {
                    if self@.contains_key(t) {
                        assert(v.contains((&t, &self@[t])));
                        let j = choose|j: int| 0 <= j < v.len() && v[j] == (&t, &self@[t]);
                        assert(s[j].1 == self@[t]);
                    }
                }
            } else {
                assert(self@.dom().len() == 0);
                assert forall|t: T| #[trigger] self.frequency(t) == 0 by {
                    if self@.contains_key(t) {
                        assert(self@.dom().contains(t));
                    }
                }
            }
        }
        best
    }
}

/// The entries of `m` in the order that `m.iter()` visits them.
pub open spec fn tree_entries<T>(m: &BTreeMap<T, usize>) -> Seq<(T, usize)> {
    tree_map_order(spec_btree_map_iter(m))
}

impl<T> Document for BTreeMap<T, usize> {
    type Term = T;
}

impl<T: Ord> ProcessedDocument for BTreeMap<T, usize> {
    open spec fn well_formed(&self) -> bool {
        key_obeys_cmp_spec::<T>()
    }

    open spec fn frequency(&self, t: T) -> nat {
        if self@.contains_key(t) {
            self@[t] as nat
        } else {
            0
        }
    }

    open spec fn is_blank(&self) -> bool {
        self@.dom().len() == 0
    }

    open spec fn holds_terms_once(&self) -> bool {
        true
    }

    open spec fn top_term(&self) -> Option<T> {
        let s = tree_entries(self);
        if s.len() == 0 {
            None
        } else {
            Some(s[peak_index(s)].0)
        }
    }

    proof fn lemma_frequency_fits(&self, t: T) {
    }

    fn term_frequency(&self, term: &T) -> (r: usize) {
        match self.get(term) {
            Some(c) => *c,
            None => 0,
        }
    }

    fn max(&self) -> (r: Option<&T>) {
        let ghost s = tree_entries(self);
        let iter = self.iter();
        let ghost v = iter.remaining();
        assert(v.unref() == s);
        let mut best: Option<&T> = None;
        let mut best_count: usize = 0;
        for e in it: iter
            invariant
                it.seq().unref() == s,
                it.index() == 0 ==> best is None,
                it.index() > 0 ==> best == Some(&s[peak_index(s.subrange(0, it.index()))].0),
                it.index() > 0 ==> best_count == s[peak_index(s.subrange(0, it.index()))].1,
        {
            let ghost i = it.index();
            assert(0 <= i < s.len());
            assert(s[i] == (*e.0, *e.1));
            assert(s.subrange(0, i + 1).drop_last() =~= s.subrange(0, i));
            assert(peak_index(s.subrange(0, 0)) == -1);
            proof {
                lemma_peak_index_bounds(s.subrange(0, i));
                lemma_peak_index_bounds(s.subrange(0, i + 1));
            }
            let (k, c) = e;
            if best.is_none() || best_count <= *c {
                best = Some(k);
                best_count = *c;
            }
        }
        assert(s.subrange(0, s.len() as int) =~= s);
        proof {
            lemma_peak_index_bounds(s);
            if s.len() > 0 {
                let p = peak_index(s);
                assert(v[p].0 == s[p].0 && v[p].1 == s[p].1);
                assert(self@.contains_key(*v[p].0));
                assert forall|t: T| #[trigger] self.frequency(t) <= self.frequency(s[p].0) by {
                    if self@.contains_key(t) {
                        assert(v.contains((&t, &self@[t])));
                        let j = choose|j: int| 0 <= j < v.len() && v[j] == (&t, &self@[t]);
                        assert(s[j].1 == self@[t]);
                    }
                }
            } else {
                assert(self@.dom().len() == 0);
                assert forall|t: T| #[trigger] self.frequency(t) == 0 by {
                    if self@.contains_key(t) {
                        assert(self@.dom().contains(t));
                    }
                }
            }
        }
        best
    }
}

} // verus!
