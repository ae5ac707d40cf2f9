//! A small map keyed by strings, held as a vector of unique-keyed entries.
//!
//! std's `HashMap` is specified in vstd only for keys whose hashing is known
//! to agree with equality, which vstd establishes for integers and not for
//! `String`; keyed by `String`, its operations would promise nothing here.
use vstd::prelude::*;

verus! {

/// The map that a sequence of entries spells; a later entry wins.
pub open spec fn entries_map<V>(es: Seq<(String, V)>) -> Map<Seq<char>, V>
    decreases es.len(),
{
    if es.len() == 0 {
        Map::empty()
    } else {
        entries_map(es.drop_last()).insert(es.last().0@, es.last().1)
    }
}

/// No two entries share a key.
pub open spec fn unique_keys<V>(es: Seq<(String, V)>) -> bool {
    forall|i: int, j: int| 0 <= i < j < es.len() ==> es[i].0@ != es[j].0@
}

proof fn lemma_domain<V>(es: Seq<(String, V)>, k: Seq<char>)
    ensures
        entries_map(es).contains_key(k) <==> exists|i: int| 0 <= i < es.len() && es[i].0@ == k,
    decreases es.len(),
{
    if es.len() > 0 {
        lemma_domain(es.drop_last(), k);
        if entries_map(es.drop_last()).contains_key(k) {
            let i = choose|i: int| 0 <= i < es.len() - 1 && es.drop_last()[i].0@ == k;
            assert(es[i].0@ == k);
        }
        if exists|i: int| 0 <= i < es.len() && es[i].0@ == k {
            let i = choose|i: int| 0 <= i < es.len() && es[i].0@ == k;
            if i < es.len() - 1 {
                assert(es.drop_last()[i].0@ == k);
            }
        }
    }
}

proof fn lemma_at<V>(es: Seq<(String, V)>, i: int)
    requires
        unique_keys(es),
        0 <= i < es.len(),
    ensures
        entries_map(es).contains_key(es[i].0@),
        entries_map(es)[es[i].0@] == es[i].1,
    decreases es.len(),
{
    if i < es.len() - 1 {
        assert(unique_keys(es.drop_last()));
        lemma_at(es.drop_last(), i);
        assert(es.drop_last()[i] == es[i]);
    }
}

/// Two unique-keyed entry sequences with the same keys at the same values
/// spell the same map as `m`.
proof fn lemma_characterize<V>(es: Seq<(String, V)>, m: Map<Seq<char>, V>)
    requires
        unique_keys(es),
        forall|k: Seq<char>| m.contains_key(k) <==> exists|i: int| 0 <= i < es.len() && es[i].0@ == k,
        forall|i: int| 0 <= i < es.len() ==> m[#[trigger] es[i].0@] == es[i].1,
    ensures
        entries_map(es) == m,
{
    assert forall|k: Seq<char>| entries_map(es).contains_key(k) <==> m.contains_key(k) by {
        lemma_domain(es, k);
    }
    assert forall|k: Seq<char>| #[trigger] entries_map(es).contains_key(k) implies entries_map(es)[k] == m[k] by {
        lemma_domain(es, k);
        let i = choose|i: int| 0 <= i < es.len() && es[i].0@ == k;
        lemma_at(es, i);
    }
    assert(entries_map(es) =~= m);
}

proof fn lemma_finite<V>(es: Seq<(String, V)>)
    ensures
        entries_map(es).dom().finite(),
    decreases es.len(),
{
    if es.len() > 0 {
        lemma_finite(es.drop_last());
    }
}

proof fn lemma_len<V>(es: Seq<(String, V)>)
    requires
        unique_keys(es),
    ensures
        entries_map(es).len() == es.len(),
    decreases es.len(),
{
    if es.len() > 0 {
        let p = es.drop_last();
        assert(unique_keys(p));
        lemma_len(p);
        lemma_finite(p);
        lemma_domain(p, es.last().0@);
        if entries_map(p).contains_key(es.last().0@) {
            let i = choose|i: int| 0 <= i < p.len() && p[i].0@ == es.last().0@;
            assert(es[i].0@ == es[es.len() - 1].0@);
        }
    }
}

/// A map from strings to values with unique keys.
pub struct StrMap<V> {
    entries: Vec<(String, V)>,
}

impl<V> View for StrMap<V> {
    type V = Map<Seq<char>, V>;

    closed spec fn view(&self) -> Self::V {
        entries_map(self.entries@)
    }
}

impl<V> StrMap<V> {
    pub closed spec fn wf(&self) -> bool {
        unique_keys(self.entries@)
    }

    pub fn new() -> (r: Self)
        ensures
            r.wf(),
            r@ == Map::<Seq<char>, V>::empty(),
    {
        StrMap { entries: Vec::new() }
    }

    fn find(&self, k: &String) -> (r: Option<usize>)
        requires
            self.wf(),
        ensures
            r matches Some(i) ==> i < self.entries@.len() && self.entries@[i as int].0@ == k@,
            r is None <==> !self@.contains_key(k@),
    {
        let mut i: usize = 0;
        while i < self.entries.len()
            invariant
                i <= self.entries@.len(),
                forall|j: int| 0 <= j < i ==> self.entries@[j].0@ != k@,
            decreases self.entries@.len() - i,
        {
            if self.entries[i].0 == *k {
                proof { lemma_domain(self.entries@, k@); }
                return Some(i);
            }
            i = i + 1;
        }
        proof { lemma_domain(self.entries@, k@); }
        None
    }

    /// The value under `k`, if any.
    pub fn get(&self, k: &String) -> (r: Option<&V>)
        requires
            self.wf(),
        ensures
            r is None <==> !self@.contains_key(k@),
            r matches Some(v) ==> self@[k@] == *v,
    {
        match self.find(k) {
            Some(i) => {
                proof { lemma_at(self.entries@, i as int); }
                Some(&self.entries[i].1)
            },
            None => None,
        }
    }

    /// Takes the value under `k` out of the map.
    pub fn remove(&mut self, k: &String) -> (r: Option<V>)
        requires
            old(self).wf(),
        ensures
            final(self).wf(),
            final(self)@ == old(self)@.remove(k@),
            r is None <==> !old(self)@.contains_key(k@),
            r matches Some(v) ==> old(self)@[k@] == v,
    {
        match self.find(k) {
            None => {
                assert(old(self)@.remove(k@) =~= old(self)@);
                None
            },
            Some(i) => {
                proof { lemma_at(self.entries@, i as int); }
                let ghost es = self.entries@;
                let (_, v) = self.entries.remove(i);
                let ghost ns = self.entries@;
                assert(ns =~= es.remove(i as int));
                assert(unique_keys(ns)) by {
                    assert forall|a: int, b: int| 0 <= a < b < ns.len() implies ns[a].0@ != ns[b].0@ by {
                        let a0 = if a < i { a } else { a + 1 };
                        let b0 = if b < i { b } else { b + 1 };
                        assert(ns[a] == es[a0] && ns[b] == es[b0]);
                    }
                }
                proof {
                    let m = entries_map(es).remove(k@);
                    assert forall|kk: Seq<char>| m.contains_key(kk) <==> exists|j: int| 0 <= j < ns.len() && ns[j].0@ == kk by {
                        lemma_domain(es, kk);
                        if m.contains_key(kk) {
                            let j = choose|j: int| 0 <= j < es.len() && es[j].0@ == kk;
                            assert(j != i);
                            let j2 = if j < i { j } else { j - 1 };
                            assert(ns[j2] == es[j]);
                        }
                        if exists|j: int| 0 <= j < ns.len() && ns[j].0@ == kk {
                            let j = choose|j: int| 0 <= j < ns.len() && ns[j].0@ == kk;
                            let j0 = if j < i { j } else { j + 1 };
                            assert(ns[j] == es[j0]);
                            assert(j0 != i);
                        }
                    }
                    assert forall|j: int| 0 <= j < ns.len() implies m[#[trigger] ns[j].0@] == ns[j].1 by {
                        let j0 = if j < i { j } else { j + 1 };
                        assert(ns[j] == es[j0]);
                        lemma_at(es, j0);
                    }
                    lemma_characterize(ns, m);
                }
                Some(v)
            },
        }
    }

    /// Sets the value under `k`, replacing any earlier one.
    pub fn insert(&mut self, k: String, v: V)
        requires
            old(self).wf(),
        ensures
            final(self).wf(),
            final(self)@ == old(self)@.insert(k@, v),
    {
        let _ = self.remove(&k);
        let ghost mid = self.entries@;
        proof { lemma_domain(mid, k@); }
        self.entries.push((k, v));
        assert(self.entries@.drop_last() =~= mid);
        assert(unique_keys(self.entries@)) by {
            assert forall|a: int, b: int| 0 <= a < b < self.entries@.len() implies self.entries@[a].0@ != self.entries@[b].0@ by {
                if b == self.entries@.len() - 1 {
                    assert(self.entries@[a] == mid[a]);
                } else {
                    assert(self.entries@[a] == mid[a] && self.entries@[b] == mid[b]);
                }
            }
        }
        assert(self@ =~= old(self)@.insert(k@, v));
    }

    /// The keys, in no particular order, each once.
    pub fn keys(&self) -> (r: Vec<String>)
        requires
            self.wf(),
        ensures
            r@.len() == self@.len(),
            forall|k: Seq<char>| self@.contains_key(k) <==> exists|i: int| 0 <= i < r@.len() && r@[i]@ == k,
    {
        proof { lemma_len(self.entries@); }
        let mut out: Vec<String> = Vec::new();
        let mut i: usize = 0;
        while i < self.entries.len()
            invariant
                i <= self.entries@.len(),
                out@.len() == i,
                forall|j: int| 0 <= j < i ==> out@[j]@ == self.entries@[j].0@,
            decreases self.entries@.len() - i,
        {
            out.push(self.entries[i].0.clone());
            i = i + 1;
        }
        assert forall|k: Seq<char>| self@.contains_key(k) <==> exists|i: int| 0 <= i < out@.len() && out@[i]@ == k by {
            lemma_domain(self.entries@, k);
            if exists|i: int| 0 <= i < out@.len() && out@[i]@ == k {
                let i = choose|i: int| 0 <= i < out@.len() && out@[i]@ == k;
                assert(self.entries@[i].0@ == k);
            }
            if self@.contains_key(k) {
                let i = choose|i: int| 0 <= i < self.entries@.len() && self.entries@[i].0@ == k;
                assert(out@[i]@ == k);
            }
        }
        out
    }

    /// Number of keys.
    pub fn len(&self) -> (r: usize)
        requires
            self.wf(),
        ensures
            r == self@.len(),
            self@.dom().finite(),
    {
        proof {
            lemma_len(self.entries@);
            lemma_finite(self.entries@);
        }
        self.entries.len()
    }

    /// Whether the map is empty.
    pub fn is_empty(&self) -> (r: bool)
        requires
            self.wf(),
        ensures
            r <==> self@.dom() == Set::<Seq<char>>::empty(),
    {
        proof {
            if self.entries@.len() > 0 {
                lemma_at(self.entries@, 0);
            } else {
                assert(self@.dom() =~= Set::<Seq<char>>::empty());
            }
        }
        self.entries.len() == 0
    }
}

} // verus!
