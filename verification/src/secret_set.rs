//! The set of secrets: entries kept in the order of their names, no two
//! under one name.

use vstd::prelude::*;
use crate::model::Secret;
use crate::order::{name_lt, name_less, name_equal, lemma_name_lt_irreflexive, lemma_name_lt_total, lemma_name_lt_transitive};

verus! {

/// An entry as a mathematical value: name and value.
pub type Entry = (Seq<char>, Seq<char>);

/// Entries in strictly ascending order of their names.
pub open spec fn sorted(s: Seq<Entry>) -> bool {
    forall|i: int, j: int| #![trigger s[i], s[j]] 0 <= i < j < s.len() ==> name_lt(s[i].0, s[j].0)
}

/// The first index at or after `i` whose name does not come before `k`.
pub open spec fn lower_bound_from(s: Seq<Entry>, k: Seq<char>, i: int) -> int
    decreases s.len() - i,
{
    if i >= s.len() || !name_lt(s[i].0, k) {
        i
    } else {
        lower_bound_from(s, k, i + 1)
    }
}

/// The first index whose name does not come before `k`: where `k` stands
/// in a sorted sequence, or would be put.
pub open spec fn lower_bound(s: Seq<Entry>, k: Seq<char>) -> int {
    lower_bound_from(s, k, 0)
}

/// Whether an entry named `k` stands at the place that the order gives it.
pub open spec fn has_name(s: Seq<Entry>, k: Seq<char>) -> bool {
    lower_bound(s, k) < s.len() && s[lower_bound(s, k)].0 == k
}

/// The value kept under `k`, if there is one.
pub open spec fn lookup(s: Seq<Entry>, k: Seq<char>) -> Option<Seq<char>> {
    if has_name(s, k) {
        Some(s[lower_bound(s, k)].1)
    } else {
        None
    }
}

/// Insert-or-overwrite: the entry named `k` gets the value `v`, and a new
/// entry is put where the order of names asks for it.
pub open spec fn upsert(s: Seq<Entry>, k: Seq<char>, v: Seq<char>) -> Seq<Entry> {
    if has_name(s, k) {
        s.update(lower_bound(s, k), (k, v))
    } else {
        s.insert(lower_bound(s, k), (k, v))
    }
}

/// The sequence without the entry named `k`.
pub open spec fn without(s: Seq<Entry>, k: Seq<char>) -> Seq<Entry> {
    if has_name(s, k) {
        s.remove(lower_bound(s, k))
    } else {
        s
    }
}

/// The entries obtained by upserting every pair in turn, starting from
/// nothing: a later pair overwrites an earlier one of the same name.
pub open spec fn build(pairs: Seq<Entry>) -> Seq<Entry>
    decreases pairs.len(),
{
    if pairs.len() == 0 {
        Seq::empty()
    } else {
        upsert(build(pairs.drop_last()), pairs.last().0, pairs.last().1)
    }
}

/// The names of the entries, in order.
pub open spec fn names_of(s: Seq<Entry>) -> Seq<Seq<char>> {
    s.map_values(|e: Entry| e.0)
}

proof fn lemma_lower_bound_from(s: Seq<Entry>, k: Seq<char>, i: int)
    requires
        0 <= i <= s.len(),
    ensures
        i <= lower_bound_from(s, k, i) <= s.len(),
        forall|j: int| i <= j < lower_bound_from(s, k, i) ==> name_lt(#[trigger] s[j].0, k),
        lower_bound_from(s, k, i) < s.len() ==> !name_lt(s[lower_bound_from(s, k, i)].0, k),
    decreases s.len() - i,
{
    if i < s.len() && name_lt(s[i].0, k) {
        lemma_lower_bound_from(s, k, i + 1);
    }
}

/// What the lower bound is: every name before it comes before `k`, and the
/// name at it does not.
pub proof fn lemma_lower_bound(s: Seq<Entry>, k: Seq<char>)
    ensures
        0 <= lower_bound(s, k) <= s.len(),
        forall|j: int| 0 <= j < lower_bound(s, k) ==> name_lt(#[trigger] s[j].0, k),
        lower_bound(s, k) < s.len() ==> !name_lt(s[lower_bound(s, k)].0, k),
{
    lemma_lower_bound_from(s, k, 0);
}

/// In a sorted sequence an entry's index is the lower bound of its name.
pub proof fn lemma_sorted_index(s: Seq<Entry>, j: int)
    requires
        sorted(s),
        0 <= j < s.len(),
    ensures
        lower_bound(s, s[j].0) == j,
        has_name(s, s[j].0),
        lookup(s, s[j].0) == Some(s[j].1),
{
    let k = s[j].0;
    let lb = lower_bound(s, k);
    lemma_lower_bound(s, k);
    lemma_name_lt_irreflexive(k);
    if lb < j {
        assert(name_lt(s[lb].0, s[j].0));
    } else if lb > j {
        assert(name_lt(s[j].0, k));
    }
}

/// In a sorted sequence no two entries share a name.
pub proof fn lemma_sorted_distinct(s: Seq<Entry>, i: int, j: int)
    requires
        sorted(s),
        0 <= i < s.len(),
        0 <= j < s.len(),
        s[i].0 == s[j].0,
    ensures
        i == j,
{
    lemma_sorted_index(s, i);
    lemma_sorted_index(s, j);
}

/// A name that no entry has is below the entry at its lower bound.
proof fn lemma_gap(s: Seq<Entry>, k: Seq<char>)
    requires
        sorted(s),
        !has_name(s, k),
    ensures
        forall|j: int| lower_bound(s, k) <= j < s.len() ==> name_lt(k, #[trigger] s[j].0),
{
    let lb = lower_bound(s, k);
    lemma_lower_bound(s, k);
    assert forall|j: int| lb <= j < s.len() implies name_lt(k, #[trigger] s[j].0) by {
        lemma_name_lt_total(s[lb].0, k);
        if j > lb {
            assert(name_lt(s[lb].0, s[j].0));
            lemma_name_lt_transitive(k, s[lb].0, s[j].0);
        }
    }
}

/// An upsert keeps the order, puts the value under the name and leaves
/// every other name as it was.
pub proof fn lemma_upsert(s: Seq<Entry>, k: Seq<char>, v: Seq<char>)
    requires
        sorted(s),
    ensures
        sorted(upsert(s, k, v)),
        lookup(upsert(s, k, v), k) == Some(v),
        upsert(s, k, v).len() == if has_name(s, k) { s.len() } else { s.len() + 1 },
        forall|other: Seq<char>| other != k ==> lookup(upsert(s, k, v), other) == lookup(s, other),
{
    let lb = lower_bound(s, k);
    let t = upsert(s, k, v);
    lemma_lower_bound(s, k);
    if has_name(s, k) {
        assert forall|i: int, j: int| #![trigger t[i], t[j]] 0 <= i < j < t.len() implies name_lt(
            t[i].0,
            t[j].0,
        ) by {
            assert(name_lt(s[i].0, s[j].0));
        }
    } else {
        lemma_gap(s, k);
        assert forall|i: int, j: int| #![trigger t[i], t[j]] 0 <= i < j < t.len() implies name_lt(
            t[i].0,
            t[j].0,
        ) by {
            if j < lb {
                assert(name_lt(s[i].0, s[j].0));
            } else if j == lb {
                assert(name_lt(s[i].0, k));
            } else if i < lb {
                assert(name_lt(s[i].0, s[j - 1].0));
            } else if i == lb {
                assert(name_lt(k, s[j - 1].0));
            } else {
                assert(name_lt(s[i - 1].0, s[j - 1].0));
            }
        }
    }
    assert(t[lb] == (k, v));
    lemma_sorted_index(t, lb);
    assert forall|other: Seq<char>| other != k implies lookup(t, other) == lookup(s, other) by {
        lemma_upsert_other(s, k, v, other);
    }
}

proof fn lemma_upsert_other(s: Seq<Entry>, k: Seq<char>, v: Seq<char>, other: Seq<char>)
    requires
        sorted(s),
        sorted(upsert(s, k, v)),
        other != k,
    ensures
        lookup(upsert(s, k, v), other) == lookup(s, other),
{
    let lb = lower_bound(s, k);
    let t = upsert(s, k, v);
    lemma_lower_bound(s, k);
    lemma_lower_bound(s, other);
    lemma_lower_bound(t, other);
    let a = lower_bound(s, other);
    let b = lower_bound(t, other);
    if has_name(s, other) {
        if has_name(s, k) {
            assert(t[a] == s[a]);
            lemma_sorted_index(t, a);
        } else if a < lb {
            assert(t[a] == s[a]);
            lemma_sorted_index(t, a);
        } else {
            assert(t[a + 1] == s[a]);
            lemma_sorted_index(t, a + 1);
        }
    } else if has_name(t, other) {
        if has_name(s, k) {
            assert(t[b] == s[b]);
            lemma_sorted_index(s, b);
        } else if b < lb {
            assert(t[b] == s[b]);
            lemma_sorted_index(s, b);
        } else {
            assert(b != lb);
            assert(t[b] == s[b - 1]);
            lemma_sorted_index(s, b - 1);
        }
    }
}

/// Removing a name keeps the order, leaves nothing under that name and
/// leaves every other name as it was.
pub proof fn lemma_without(s: Seq<Entry>, k: Seq<char>)
    requires
        sorted(s),
    ensures
        sorted(without(s, k)),
        lookup(without(s, k), k) is None,
        without(s, k).len() == if has_name(s, k) { s.len() - 1 } else { s.len() as int },
        forall|other: Seq<char>| other != k ==> lookup(without(s, k), other) == lookup(s, other),
{
    let lb = lower_bound(s, k);
    let t = without(s, k);
    lemma_lower_bound(s, k);
    if has_name(s, k) {
        assert forall|i: int, j: int| #![trigger t[i], t[j]] 0 <= i < j < t.len() implies name_lt(
            t[i].0,
            t[j].0,
        ) by {
            let si = if i < lb { i } else { i + 1 };
            let sj = if j < lb { j } else { j + 1 };
            assert(name_lt(s[si].0, s[sj].0));
        }
        if has_name(t, k) {
            let b = lower_bound(t, k);
            lemma_lower_bound(t, k);
            let sb = if b < lb { b } else { b + 1 };
            assert(t[b] == s[sb]);
            lemma_sorted_distinct(s, sb, lb);
        }
    }
    assert forall|other: Seq<char>| other != k implies lookup(t, other) == lookup(s, other) by {
        if has_name(s, k) {
            let a = lower_bound(s, other);
            let b = lower_bound(t, other);
            lemma_lower_bound(s, other);
            lemma_lower_bound(t, other);
            if has_name(s, other) {
                let ta = if a < lb { a } else { a - 1 };
                assert(t[ta] == s[a]);
                lemma_sorted_index(t, ta);
            } else if has_name(t, other) {
                let sb = if b < lb { b } else { b + 1 };
                assert(t[b] == s[sb]);
                lemma_sorted_index(s, sb);
            }
        }
    }
}

/// A name above all the names of a sorted sequence is put at its end.
pub proof fn lemma_upsert_above(s: Seq<Entry>, k: Seq<char>, v: Seq<char>)
    requires
        forall|j: int| 0 <= j < s.len() ==> name_lt(#[trigger] s[j].0, k),
    ensures
        upsert(s, k, v) == s.push((k, v)),
{
    lemma_lower_bound(s, k);
    assert(upsert(s, k, v) =~= s.push((k, v)));
}

/// Built from pairs, the entries are sorted.
pub proof fn lemma_build_sorted(pairs: Seq<Entry>)
    ensures
        sorted(build(pairs)),
    decreases pairs.len(),
{
    if pairs.len() > 0 {
        lemma_build_sorted(pairs.drop_last());
        lemma_upsert(build(pairs.drop_last()), pairs.last().0, pairs.last().1);
    }
}

/// Built from a sorted sequence of pairs, the entries are that sequence.
pub proof fn lemma_build_of_sorted(s: Seq<Entry>)
    requires
        sorted(s),
    ensures
        build(s) == s,
    decreases s.len(),
{
    if s.len() > 0 {
        let p = s.drop_last();
        assert forall|i: int, j: int| #![trigger p[i], p[j]] 0 <= i < j < p.len() implies name_lt(
            p[i].0,
            p[j].0,
        ) by {
            assert(name_lt(s[i].0, s[j].0));
        }
        lemma_build_of_sorted(p);
        assert forall|j: int| 0 <= j < p.len() implies name_lt(#[trigger] p[j].0, s.last().0) by {
            assert(name_lt(s[j].0, s[s.len() - 1].0));
        }
        lemma_upsert_above(p, s.last().0, s.last().1);
        assert(p.push(s.last()) =~= s);
    } else {
        assert(s =~= Seq::empty());
    }
}

/// The pairs of a list of name/value strings, as mathematical values.
pub open spec fn pairs_view(pairs: Seq<(String, String)>) -> Seq<Entry> {
    pairs.map_values(|p: (String, String)| (p.0@, p.1@))
}

/// The secrets of a store, in the order of their names.
pub struct SecretSet {
    entries: Vec<Secret>,
}

impl View for SecretSet {
    type V = Seq<Entry>;

    closed spec fn view(&self) -> Seq<Entry> {
        self.entries@.map_values(|e: Secret| e.pair())
    }
}

impl SecretSet {
    /// The invariant: the entries are in strictly ascending order of their
    /// names, so that no name occurs twice.
    pub open spec fn wf(&self) -> bool {
        sorted(self@)
    }

    /// The empty set.
    pub fn new() -> (s: SecretSet)
        ensures
            s.wf(),
            s@ == Seq::<Entry>::empty(),
    {
        let s = SecretSet { entries: Vec::new() };
        assert(s@ =~= Seq::<Entry>::empty());
        s
    }

    /// The number of secrets.
    pub fn len(&self) -> (n: usize)
        ensures
            n == self@.len(),
    {
        self.entries.len()
    }

    /// Whether there is no secret.
    pub fn is_empty(&self) -> (b: bool)
        ensures
            b == (self@.len() == 0),
    {
        self.entries.len() == 0
    }

    /// The secret at position `i` in the order of names.
    pub fn entry(&self, i: usize) -> (e: &Secret)
        requires
            i < self@.len(),
        ensures
            e.pair() == self@[i as int],
    {
        &self.entries[i]
    }

    /// The index at which `name` stands or would be put.
    fn position(&self, name: &str) -> (i: usize)
        ensures
            i == lower_bound(self@, name@),
            i <= self@.len(),
    {
        let mut i: usize = 0;
        while i < self.entries.len() && name_less(self.entries[i].name.as_str(), name)
            invariant
                0 <= i <= self.entries.len(),
                lower_bound(self@, name@) == lower_bound_from(self@, name@, i as int),
            decreases self.entries.len() - i,
        {
            i += 1;
        }
        i
    }

    /// Whether a secret has this name.
    pub fn contains(&self, name: &str) -> (b: bool)
        ensures
            b == has_name(self@, name@),
    {
        let i = self.position(name);
        i < self.entries.len() && name_equal(self.entries[i].name.as_str(), name)
    }

    /// The value kept under `name`.
    pub fn get(&self, name: &str) -> (r: Option<&String>)
        ensures
            match r {
                Some(v) => lookup(self@, name@) == Some(v@),
                None => lookup(self@, name@) is None,
            },
    {
        let i = self.position(name);
        if i < self.entries.len() && name_equal(self.entries[i].name.as_str(), name) {
            Some(&self.entries[i].value)
        } else {
            None
        }
    }

    /// Puts `value` under `name`: a new entry where the order asks for it,
    /// or a new value for the entry that has the name.
    pub fn insert(&mut self, name: String, value: String)
        requires
            old(self).wf(),
        ensures
            final(self).wf(),
            final(self)@ == upsert(old(self)@, name@, value@),
    {
        let i = self.position(name.as_str());
        let present = i < self.entries.len() && name_equal(self.entries[i].name.as_str(), name.as_str());
        if present {
            self.entries.remove(i);
        }
        self.entries.insert(i, Secret::new(name, value));
        proof {
            lemma_upsert(old(self)@, name@, value@);
            assert(self@ =~= upsert(old(self)@, name@, value@));
        }
    }

    /// Takes the entry named `name` out; says whether there was one.
    pub fn remove(&mut self, name: &str) -> (found: bool)
        requires
            old(self).wf(),
        ensures
            final(self).wf(),
            found == has_name(old(self)@, name@),
            final(self)@ == without(old(self)@, name@),
    {
        let i = self.position(name);
        let present = i < self.entries.len() && name_equal(self.entries[i].name.as_str(), name);
        if present {
            self.entries.remove(i);
        }
        proof {
            lemma_without(old(self)@, name@);
            assert(self@ =~= without(old(self)@, name@));
        }
        present
    }

    /// The set that holds the given pairs; of two pairs with one name the
    /// later one stays.
    pub fn from_pairs(pairs: &Vec<(String, String)>) -> (s: SecretSet)
        ensures
            s.wf(),
            s@ == build(pairs_view(pairs@)),
    {
        let mut s = SecretSet::new();
        let mut i: usize = 0;
        while i < pairs.len()
            invariant
                0 <= i <= pairs.len(),
                s.wf(),
                s@ == build(pairs_view(pairs@).subrange(0, i as int)),
            decreases pairs.len() - i,
        {
            let name = pairs[i].0.clone();
            let value = pairs[i].1.clone();
            s.insert(name, value);
            proof {
                let all = pairs_view(pairs@);
                assert(all.subrange(0, i + 1).drop_last() =~= all.subrange(0, i as int));
            }
            i += 1;
        }
        assert(pairs_view(pairs@).subrange(0, i as int) =~= pairs_view(pairs@));
        s
    }

    /// The name/value pairs, in the order of the names.
    pub fn to_pairs(&self) -> (pairs: Vec<(String, String)>)
        ensures
            pairs_view(pairs@) == self@,
    {
        let mut pairs: Vec<(String, String)> = Vec::new();
        let mut i: usize = 0;
        while i < self.entries.len()
            invariant
                0 <= i <= self.entries.len(),
                pairs@.len() == i,
                forall|j: int| 0 <= j < i ==> (#[trigger] pairs@[j]).0@ == self@[j].0 && pairs@[j].1@ == self@[j].1,
            decreases self.entries.len() - i,
        {
            pairs.push((self.entries[i].name.clone(), self.entries[i].value.clone()));
            i += 1;
        }
        assert(pairs_view(pairs@) =~= self@);
        pairs
    }
}

} // verus!
