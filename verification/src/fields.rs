//! Field maps: the `column -> value` maps that ops carry.
//!
//! A value is the JSON text of the column's value (`None` for SQL NULL or an
//! absent column), so two values are the same exactly when their texts are.

use vstd::prelude::*;

use crate::text::{chars_of, lemma_lex_irrefl, lemma_lex_total, lemma_lex_trans, lex_lt, lex_lt_chars};

verus! {

/// JSON text of one field value; `None` stands for NULL.
pub type FieldText = Option<String>;

pub open spec fn value_view(v: FieldText) -> Option<Seq<char>> {
    v.deep_view()
}

/// A map from field names to values, kept as a vector of keys in ascending
/// order (the order in which a `BTreeMap` walks them).
pub struct FieldMap {
    pub entries: Vec<(String, FieldText)>,
}

impl FieldMap {
    pub open spec fn key_at(self, i: int) -> Seq<char> {
        self.entries@[i].0@
    }

    pub open spec fn val_at(self, i: int) -> Option<Seq<char>> {
        value_view(self.entries@[i].1)
    }

    /// Keys are pairwise distinct and ascending.
    pub open spec fn wf(self) -> bool {
        &&& forall|i: int, j: int|
            0 <= i < j < self.entries@.len() ==> #[trigger] self.key_at(i) != #[trigger] self.key_at(j)
        &&& self.ascending()
    }

    /// Each key comes before the keys after it.
    #[verifier::opaque]
    pub open spec fn ascending(self) -> bool {
        forall|i: int, j: int|
            0 <= i < j < self.entries@.len() ==> lex_lt(#[trigger] self.key_at(i), #[trigger] self.key_at(j))
    }

    pub open spec fn has_key(self, k: Seq<char>) -> bool {
        exists|i: int| 0 <= i < self.entries@.len() && #[trigger] self.key_at(i) == k
    }

    pub open spec fn index_of(self, k: Seq<char>) -> int {
        choose|i: int| 0 <= i < self.entries@.len() && #[trigger] self.key_at(i) == k
    }

    /// The keys in entry order.
    pub open spec fn keys(self) -> Seq<Seq<char>> {
        Seq::new(self.entries@.len(), |i: int| self.key_at(i))
    }

    pub open spec fn view(self) -> Map<Seq<char>, Option<Seq<char>>> {
        Map::new(|k: Seq<char>| self.has_key(k), |k: Seq<char>| self.val_at(self.index_of(k)))
    }

    pub proof fn lemma_lookup(self, i: int)
        requires
            self.wf(),
            0 <= i < self.entries@.len(),
        ensures
            self@.dom().contains(self.key_at(i)),
            self@[self.key_at(i)] == self.val_at(i),
            self.index_of(self.key_at(i)) == i,
    {
        let k = self.key_at(i);
        assert(self.has_key(k));
        let j = self.index_of(k);
        assert(self.key_at(j) == k);
        if j < i {
            assert(self.key_at(j) != self.key_at(i));
        } else if i < j {
            assert(self.key_at(i) != self.key_at(j));
        }
    }

    pub proof fn lemma_dom_len(self)
        requires
            self.wf(),
        ensures
            self@.dom() =~= self.keys().to_set(),
            self@.dom().finite(),
            self@.dom().len() == self.entries@.len(),
    {
        assert forall|k: Seq<char>| self@.dom().contains(k) <==> self.keys().to_set().contains(k) by {
            if self@.dom().contains(k) {
                let i = self.index_of(k);
                assert(self.keys()[i] == k);
            }
            if self.keys().to_set().contains(k) {
                let i = choose|i: int| 0 <= i < self.keys().len() && self.keys()[i] == k;
                assert(self.key_at(i) == k);
            }
        }
        assert(self.keys().no_duplicates()) by {
            assert forall|i: int, j: int|
                0 <= i < self.keys().len() && 0 <= j < self.keys().len() && i != j
                implies self.keys()[i] != self.keys()[j] by {
                if i < j {
                    assert(self.key_at(i) != self.key_at(j));
                } else {
                    assert(self.key_at(j) != self.key_at(i));
                }
            }
        }
        self.keys().unique_seq_to_set();
    }

    pub fn new() -> (r: FieldMap)
        ensures
            r.wf(),
            r@ == Map::<Seq<char>, Option<Seq<char>>>::empty(),
            r.entries@.len() == 0,
    {
        let r = FieldMap { entries: Vec::new() };
        proof {
            reveal(FieldMap::ascending);
        }
        assert(r@ =~= Map::<Seq<char>, Option<Seq<char>>>::empty());
        r
    }

    /// Number of fields.
    pub fn len(&self) -> (r: usize)
        requires
            self.wf(),
        ensures
            r == self@.dom().len(),
    {
        proof {
            self.lemma_dom_len();
        }
        self.entries.len()
    }

    pub fn is_empty(&self) -> (r: bool)
        requires
            self.wf(),
        ensures
            r == (self@.dom().len() == 0),
            r == (self@ == Map::<Seq<char>, Option<Seq<char>>>::empty()),
    {
        proof {
            self.lemma_dom_len();
            if self.entries@.len() > 0 {
                self.lemma_lookup(0);
            } else {
                assert(self@ =~= Map::<Seq<char>, Option<Seq<char>>>::empty());
            }
        }
        self.entries.len() == 0
    }

    /// Position of `key`, if present.
    pub fn find(&self, key: &str) -> (r: Option<usize>)
        requires
            self.wf(),
        ensures
            r is None <==> !self@.dom().contains(key@),
            r matches Some(i) ==> i < self.entries@.len() && self.key_at(i as int) == key@,
    {
        let mut i: usize = 0;
        while i < self.entries.len()
            invariant
                i <= self.entries@.len(),
                forall|j: int| 0 <= j < i ==> self.key_at(j) != key@,
            decreases self.entries.len() - i,
        {
            if crate::text::str_eq(self.entries[i].0.as_str(), key) {
                assert(self.key_at(i as int) == key@);
                assert(self.has_key(key@));
                return Some(i);
            }
            i = i + 1;
        }
        proof {
            if self@.dom().contains(key@) {
                let j = self.index_of(key@);
                assert(self.key_at(j) == key@);
            }
        }
        None
    }

    pub fn contains_key(&self, key: &str) -> (r: bool)
        requires
            self.wf(),
        ensures
            r == self@.dom().contains(key@),
    {
        self.find(key).is_some()
    }

    /// The value stored for `key` (cloned), `None` when the key is absent.
    pub fn get(&self, key: &str) -> (r: Option<FieldText>)
        requires
            self.wf(),
        ensures
            r is None <==> !self@.dom().contains(key@),
            r matches Some(v) ==> value_view(v) == self@[key@],
    {
        match self.find(key) {
            Some(i) => {
                proof {
                    self.lemma_lookup(i as int);
                }
                Some(self.entries[i].1.clone())
            },
            None => None,
        }
    }

    /// Set `key` to `value`, replacing any value it had.
    pub fn insert(&mut self, key: String, value: FieldText)
        requires
            old(self).wf(),
        ensures
            final(self).wf(),
            final(self)@ == old(self)@.insert(key@, value_view(value)),
    {
        let ghost pre = *self;
        match self.find(key.as_str()) {
            Some(i) => {
                self.entries.set(i, (key, value));
                proof {
                    let post = *self;
                    reveal(FieldMap::ascending);
                    assert forall|a: int| 0 <= a < post.entries@.len() implies #[trigger] post.key_at(a)
                        == pre.key_at(a) by {}
                    assert forall|a: int, b: int|
                        0 <= a < b < post.entries@.len() implies #[trigger] post.key_at(a)
                        != #[trigger] post.key_at(b) by {
                        assert(pre.key_at(a) != pre.key_at(b));
                    }
                    assert forall|a: int, b: int|
                        0 <= a < b < post.entries@.len() implies lex_lt(#[trigger] post.key_at(a),
                        #[trigger] post.key_at(b)) by {
                        assert(lex_lt(pre.key_at(a), pre.key_at(b)));
                    }
                    assert forall|k: Seq<char>|
                        #[trigger] post@.dom().contains(k) <==> pre@.insert(
                            key@,
                            value_view(value),
                        ).dom().contains(k) by {
                        if pre@.dom().contains(k) {
                            let j = pre.index_of(k);
                            assert(post.key_at(j) == k || j == i);
                        }
                        if post@.dom().contains(k) {
                            let j = post.index_of(k);
                            assert(pre.key_at(j) == k || j == i);
                        }
                    }
                    assert forall|k: Seq<char>| #[trigger] post@.dom().contains(k) implies post@[k]
                        == pre@.insert(key@, value_view(value))[k] by {
                        let j = post.index_of(k);
                        post.lemma_lookup(j);
                        if j != i as int {
                            pre.lemma_lookup(j);
                        }
                    }
                    assert(post@ =~= pre@.insert(key@, value_view(value)));
                }
            },
            None => {
                let p = self.position(key.as_str());
                self.entries.insert(p, (key, value));
                proof {
                    self.lemma_inserted(pre, p as int, key@, value_view(value));
                }
            },
        }
    }

    /// Where `key` belongs: after every smaller key.
    fn position(&self, key: &str) -> (r: usize)
        requires
            self.wf(),
        ensures
            r <= self.entries@.len(),
            forall|j: int| 0 <= j < r ==> lex_lt(#[trigger] self.key_at(j), key@),
            r < self.entries@.len() ==> !lex_lt(self.key_at(r as int), key@),
    {
        let kc = chars_of(key);
        let mut i: usize = 0;
        while i < self.entries.len()
            invariant
                i <= self.entries@.len(),
                kc@ == key@,
                forall|j: int| 0 <= j < i ==> lex_lt(#[trigger] self.key_at(j), key@),
            decreases self.entries.len() - i,
        {
            let ec = chars_of(self.entries[i].0.as_str());
            if !lex_lt_chars(&ec, &kc) {
                return i;
            }
            i = i + 1;
        }
        i
    }

    /// Inserting an absent key at its place keeps the map well formed and
    /// maps the key to the value.
    proof fn lemma_inserted(self, pre: FieldMap, p: int, key: Seq<char>, v: Option<Seq<char>>)
        requires
            pre.wf(),
            !pre@.dom().contains(key),
            0 <= p <= pre.entries@.len(),
            self.entries@.len() == pre.entries@.len() + 1,
            self.key_at(p) == key,
            self.val_at(p) == v,
            forall|j: int| 0 <= j < p ==> self.entries@[j] == pre.entries@[j],
            forall|j: int| p < j < self.entries@.len() ==> self.entries@[j] == pre.entries@[j - 1],
            forall|j: int| 0 <= j < p ==> lex_lt(#[trigger] pre.key_at(j), key),
            p < pre.entries@.len() ==> !lex_lt(pre.key_at(p), key),
        ensures
            self.wf(),
            self@ == pre@.insert(key, v),
    {
        reveal(FieldMap::ascending);
        let n = self.entries@.len();
        assert forall|j: int| 0 <= j < pre.entries@.len() implies pre.key_at(j) != key by {
            if pre.key_at(j) == key {
                assert(pre.has_key(key));
            }
        }
        assert forall|j: int| p <= j < pre.entries@.len() implies lex_lt(key, #[trigger] pre.key_at(j)) by {
            lemma_lex_total(pre.key_at(p), key);
            if j > p {
                assert(lex_lt(pre.key_at(p), pre.key_at(j)));
                lemma_lex_trans(key, pre.key_at(p), pre.key_at(j));
            }
        }
        assert forall|a: int, b: int| 0 <= a < b < n implies lex_lt(#[trigger] self.key_at(a), #[trigger] self.key_at(b)) by {
            if b < p {
                assert(self.entries@[a] == pre.entries@[a] && self.entries@[b] == pre.entries@[b]);
                assert(lex_lt(pre.key_at(a), pre.key_at(b)));
            } else if b == p {
                assert(self.entries@[a] == pre.entries@[a]);
                assert(lex_lt(pre.key_at(a), key));
            } else if a < p {
                assert(self.entries@[a] == pre.entries@[a] && self.entries@[b] == pre.entries@[b - 1]);
                assert(lex_lt(pre.key_at(a), key));
                assert(lex_lt(key, pre.key_at(b - 1)));
                lemma_lex_trans(pre.key_at(a), key, pre.key_at(b - 1));
            } else if a == p {
                assert(self.entries@[b] == pre.entries@[b - 1]);
                assert(lex_lt(key, pre.key_at(b - 1)));
            } else {
                assert(self.entries@[a] == pre.entries@[a - 1] && self.entries@[b] == pre.entries@[b - 1]);
                assert(lex_lt(pre.key_at(a - 1), pre.key_at(b - 1)));
            }
        }
        assert forall|a: int, b: int| 0 <= a < b < n implies #[trigger] self.key_at(a) != #[trigger] self.key_at(b) by {
            assert(lex_lt(self.key_at(a), self.key_at(b)));
            lemma_lex_irrefl(self.key_at(a));
        }
        assert forall|k: Seq<char>| #[trigger] self@.dom().contains(k) <==> pre@.insert(key, v).dom().contains(k) by {
            if pre@.dom().contains(k) {
                let j = pre.index_of(k);
                if j < p {
                    assert(self.key_at(j) == k);
                } else {
                    assert(self.key_at(j + 1) == k);
                }
            }
            if k == key {
                assert(self.key_at(p) == k);
            }
            if self@.dom().contains(k) {
                let j = self.index_of(k);
                if j < p {
                    assert(pre.key_at(j) == k);
                } else if j > p {
                    assert(pre.key_at(j - 1) == k);
                }
            }
        }
        assert forall|k: Seq<char>| #[trigger] self@.dom().contains(k) implies self@[k] == pre@.insert(key, v)[k] by {
            let j = self.index_of(k);
            self.lemma_lookup(j);
            if j < p {
                pre.lemma_lookup(j);
            } else if j > p {
                pre.lemma_lookup(j - 1);
            }
        }
        assert(self@ =~= pre@.insert(key, v));
    }

    /// Every key of `other` set to its value there (`other` wins).
    pub fn merge_from(&mut self, other: &FieldMap)
        requires
            old(self).wf(),
            other.wf(),
        ensures
            final(self).wf(),
            final(self)@ == old(self)@.union_prefer_right(other@),
    {
        let ghost base = self@;
        let mut i: usize = 0;
        while i < other.entries.len()
            invariant
                self.wf(),
                other.wf(),
                i <= other.entries@.len(),
                forall|k: Seq<char>|
                    #[trigger] self@.dom().contains(k) <==> base.dom().contains(k) || exists|p: int|
                        0 <= p < i && other.key_at(p) == k,
                forall|k: Seq<char>|
                    #[trigger] self@.dom().contains(k) ==> self@[k] == if exists|p: int|
                        0 <= p < i && other.key_at(p) == k {
                        other@[k]
                    } else {
                        base[k]
                    },
            decreases other.entries@.len() - i,
        {
            proof {
                other.lemma_lookup(i as int);
            }
            let k = other.entries[i].0.clone();
            let v = value_clone(&other.entries[i].1);
            self.insert(k, v);
            proof {
                assert forall|q: Seq<char>|
                    #[trigger] self@.dom().contains(q) <==> base.dom().contains(q) || exists|p: int|
                        0 <= p < i + 1 && other.key_at(p) == q by {
                    if q == other.key_at(i as int) {
                    } else if exists|p: int| 0 <= p < i + 1 && other.key_at(p) == q {
                        let p = choose|p: int| 0 <= p < i + 1 && other.key_at(p) == q;
                        assert(p < i);
                    }
                }
                assert forall|q: Seq<char>|
                    #[trigger] self@.dom().contains(q) implies self@[q] == if exists|p: int|
                        0 <= p < i + 1 && other.key_at(p) == q {
                        other@[q]
                    } else {
                        base[q]
                    } by {
                    if q == other.key_at(i as int) {
                    } else if exists|p: int| 0 <= p < i + 1 && other.key_at(p) == q {
                        let p = choose|p: int| 0 <= p < i + 1 && other.key_at(p) == q;
                        assert(p < i);
                    }
                }
            }
            i = i + 1;
        }
        proof {
            assert forall|q: Seq<char>| other@.dom().contains(q) implies exists|p: int|
                0 <= p < other.entries@.len() && other.key_at(p) == q by {
                let p = other.index_of(q);
            }
            assert forall|q: Seq<char>|
                (exists|p: int| 0 <= p < other.entries@.len() && other.key_at(p) == q) implies
                other@.dom().contains(q) by {
                let p = choose|p: int| 0 <= p < other.entries@.len() && other.key_at(p) == q;
                assert(other.has_key(q));
            }
            assert(self@ =~= base.union_prefer_right(other@));
        }
    }

    /// Every key of `other` set to `value`.
    pub fn assign_keys(&mut self, other: &FieldMap, value: &FieldText)
        requires
            old(self).wf(),
            other.wf(),
        ensures
            final(self).wf(),
            final(self)@ == old(self)@.union_prefer_right(
                Map::new(|k: Seq<char>| other@.dom().contains(k), |k: Seq<char>| value_view(*value)),
            ),
    {
        let ghost base = self@;
        let ghost upd = Map::new(
            |k: Seq<char>| other@.dom().contains(k),
            |k: Seq<char>| value_view(*value),
        );
        let mut i: usize = 0;
        while i < other.entries.len()
            invariant
                self.wf(),
                other.wf(),
                i <= other.entries@.len(),
                forall|k: Seq<char>|
                    #[trigger] self@.dom().contains(k) <==> base.dom().contains(k) || exists|p: int|
                        0 <= p < i && other.key_at(p) == k,
                forall|k: Seq<char>|
                    #[trigger] self@.dom().contains(k) ==> self@[k] == if exists|p: int|
                        0 <= p < i && other.key_at(p) == k {
                        value_view(*value)
                    } else {
                        base[k]
                    },
            decreases other.entries@.len() - i,
        {
            let k = other.entries[i].0.clone();
            self.insert(k, value_clone(value));
            proof {
                assert forall|q: Seq<char>|
                    #[trigger] self@.dom().contains(q) <==> base.dom().contains(q) || exists|p: int|
                        0 <= p < i + 1 && other.key_at(p) == q by {
                    if q == other.key_at(i as int) {
                    } else if exists|p: int| 0 <= p < i + 1 && other.key_at(p) == q {
                        let p = choose|p: int| 0 <= p < i + 1 && other.key_at(p) == q;
                        assert(p < i);
                    }
                }
                assert forall|q: Seq<char>|
                    #[trigger] self@.dom().contains(q) implies self@[q] == if exists|p: int|
                        0 <= p < i + 1 && other.key_at(p) == q {
                        value_view(*value)
                    } else {
                        base[q]
                    } by {
                    if q == other.key_at(i as int) {
                    } else if exists|p: int| 0 <= p < i + 1 && other.key_at(p) == q {
                        let p = choose|p: int| 0 <= p < i + 1 && other.key_at(p) == q;
                        assert(p < i);
                    }
                }
            }
            i = i + 1;
        }
        proof {
            assert forall|q: Seq<char>| other@.dom().contains(q) implies exists|p: int|
                0 <= p < other.entries@.len() && other.key_at(p) == q by {
                let p = other.index_of(q);
            }
            assert forall|q: Seq<char>|
                (exists|p: int| 0 <= p < other.entries@.len() && other.key_at(p) == q) implies
                other@.dom().contains(q) by {
                let p = choose|p: int| 0 <= p < other.entries@.len() && other.key_at(p) == q;
                assert(other.has_key(q));
            }
            assert(self@ =~= base.union_prefer_right(upd));
        }
    }

    /// The map without the keys named in `exclude`.
    pub fn without(&self, exclude: &Vec<String>) -> (r: FieldMap)
        requires
            self.wf(),
        ensures
            r.wf(),
            r@ == self@.remove_keys(names(exclude@)),
    {
        let mut out = FieldMap::new();
        let mut i: usize = 0;
        while i < self.entries.len()
            invariant
                self.wf(),
                out.wf(),
                i <= self.entries@.len(),
                forall|k: Seq<char>|
                    #[trigger] out@.dom().contains(k) <==> (exists|p: int|
                        0 <= p < i && self.key_at(p) == k) && !names(exclude@).contains(k),
                forall|k: Seq<char>| #[trigger] out@.dom().contains(k) ==> out@[k] == self@[k],
            decreases self.entries@.len() - i,
        {
            proof {
                self.lemma_lookup(i as int);
            }
            let k = &self.entries[i].0;
            let mut excluded = false;
            let mut j: usize = 0;
            while j < exclude.len()
                invariant
                    j <= exclude@.len(),
                    excluded == exists|q: int| 0 <= q < j && exclude@[q]@ == k@,
                decreases exclude@.len() - j,
            {
                if exclude[j] == *k {
                    excluded = true;
                }
                j = j + 1;
            }
            if !excluded {
                out.insert(k.clone(), value_clone(&self.entries[i].1));
            }
            proof {
                assert forall|q: Seq<char>|
                    #[trigger] out@.dom().contains(q) <==> (exists|p: int|
                        0 <= p < i + 1 && self.key_at(p) == q) && !names(exclude@).contains(q) by {
                    if q == k@ {
                        assert(self.key_at(i as int) == q);
                    } else if exists|p: int| 0 <= p < i + 1 && self.key_at(p) == q {
                        let p = choose|p: int| 0 <= p < i + 1 && self.key_at(p) == q;
                        assert(p < i);
                    }
                }
            }
            i = i + 1;
        }
        proof {
            assert forall|q: Seq<char>| self@.dom().contains(q) implies exists|p: int|
                0 <= p < self.entries@.len() && self.key_at(p) == q by {
                let p = self.index_of(q);
            }
            assert forall|q: Seq<char>|
                (exists|p: int| 0 <= p < self.entries@.len() && self.key_at(p) == q) implies
                self@.dom().contains(q) by {
                let p = choose|p: int| 0 <= p < self.entries@.len() && self.key_at(p) == q;
                assert(self.has_key(q));
            }
            assert(out@ =~= self@.remove_keys(names(exclude@)));
        }
        out
    }

    /// The keys, in ascending order.
    pub fn key_list(&self) -> (r: Vec<String>)
        requires
            self.wf(),
        ensures
            r@.len() == self.entries@.len(),
            forall|i: int| 0 <= i < r@.len() ==> #[trigger] r@[i]@ == self.key_at(i),
            forall|i: int, j: int| 0 <= i < j < r@.len() ==> lex_lt(#[trigger] r@[i]@, #[trigger] r@[j]@),
    {
        proof {
            reveal(FieldMap::ascending);
        }
        let mut out: Vec<String> = Vec::new();
        let mut i: usize = 0;
        while i < self.entries.len()
            invariant
                i <= self.entries@.len(),
                out@.len() == i,
                forall|j: int| 0 <= j < i ==> #[trigger] out@[j]@ == self.key_at(j),
            decreases self.entries.len() - i,
        {
            out.push(self.entries[i].0.clone());
            i = i + 1;
        }
        out
    }
}

impl Clone for FieldMap {
    fn clone(&self) -> (r: FieldMap)
        ensures
            r.entries@ == self.entries@,
    {
        let mut entries: Vec<(String, FieldText)> = Vec::new();
        let mut i: usize = 0;
        while i < self.entries.len()
            invariant
                i <= self.entries@.len(),
                entries@ == self.entries@.take(i as int),
            decreases self.entries.len() - i,
        {
            let k = self.entries[i].0.clone();
            let v = match &self.entries[i].1 {
                Some(s) => Some(s.clone()),
                None => None,
            };
            entries.push((k, v));
            i = i + 1;
            assert(entries@ =~= self.entries@.take(i as int));
        }
        assert(self.entries@.take(self.entries@.len() as int) =~= self.entries@);
        FieldMap { entries }
    }
}

/// The names held by a vector of strings.
pub open spec fn names(v: Seq<String>) -> Set<Seq<char>> {
    Set::new(|k: Seq<char>| exists|i: int| 0 <= i < v.len() && v[i]@ == k)
}

/// `a == b` on field values.
pub fn value_eq(a: &FieldText, b: &FieldText) -> (r: bool)
    ensures
        r == (value_view(*a) == value_view(*b)),
{
    match (a, b) {
        (Some(x), Some(y)) => *x == *y,
        (None, None) => true,
        _ => false,
    }
}

pub fn value_clone(a: &FieldText) -> (r: FieldText)
    ensures
        r == *a,
{
    match a {
        Some(x) => Some(x.clone()),
        None => None,
    }
}

} // verus!
