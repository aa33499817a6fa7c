//! A map from text to values, kept as a list of entries.
use crate::seqs;
use crate::seqs::Duplicate;
use crate::text;
use vstd::prelude::*;

verus! {

/// A map whose keys are text.
pub struct StringMap<V> {
    entries: Vec<(String, V)>,
}

/// The entries of a list as a map; of two entries with one key the later counts.
pub open spec fn assoc<W>(s: Seq<(Seq<char>, W)>) -> Map<Seq<char>, W>
    decreases s.len(),
{
    if s.len() == 0 {
        Map::empty()
    } else {
        assoc(s.drop_last()).insert(s.last().0, s.last().1)
    }
}

/// No key occurs twice.
pub open spec fn distinct_keys<W>(s: Seq<(Seq<char>, W)>) -> bool {
    forall|i: int, j: int| 0 <= i < j < s.len() ==> (#[trigger] s[i]).0 != (#[trigger] s[j]).0
}

/// Whether an entry has another key than `k`.
pub open spec fn other_key<W>(k: Seq<char>) -> spec_fn((Seq<char>, W)) -> bool {
    |e: (Seq<char>, W)| e.0 != k
}

/// A list that holds every entry of a map once is that map.
pub proof fn assoc_is<W>(s: Seq<(Seq<char>, W)>, m: Map<Seq<char>, W>)
    requires
        distinct_keys(s),
        forall|i: int| 0 <= i < s.len() ==> m.contains_key((#[trigger] s[i]).0) && m[s[i].0] == s[i].1,
        forall|k: Seq<char>| #[trigger] m.contains_key(k) ==> exists|i: int|
            0 <= i < s.len() && (#[trigger] s[i]).0 == k,
    ensures
        assoc(s) == m,
{
    assoc_keys(s);
    let a = assoc(s);
    assert forall|k: Seq<char>| #[trigger] a.contains_key(k) <==> m.contains_key(k) by {}
    assert forall|k: Seq<char>| #[trigger] a.contains_key(k) implies a[k] == m[k] by {
        let i = choose|i: int| 0 <= i < s.len() && (#[trigger] s[i]).0 == k;
        assoc_at(s, i);
    }
    assert(a =~= m);
}

/// One entry more.
pub proof fn assoc_push<W>(s: Seq<(Seq<char>, W)>, e: (Seq<char>, W))
    ensures
        assoc(s.push(e)) == assoc(s).insert(e.0, e.1),
{
    assert(s.push(e).drop_last() =~= s);
}

/// The keys of a list of entries.
pub proof fn assoc_keys<W>(s: Seq<(Seq<char>, W)>)
    ensures
        assoc(s).dom().finite(),
        assoc(s).dom().len() <= s.len(),
        forall|k: Seq<char>| #[trigger] assoc(s).contains_key(k) <==> exists|i: int|
            0 <= i < s.len() && (#[trigger] s[i]).0 == k,
    decreases s.len(),
{
    if s.len() > 0 {
        let t = s.drop_last();
        assoc_keys(t);
        assert forall|k: Seq<char>| #[trigger] assoc(s).contains_key(k) <==> exists|i: int|
            0 <= i < s.len() && (#[trigger] s[i]).0 == k by {
            if assoc(s).contains_key(k) {
                if k == s.last().0 {
                    assert(s[s.len() - 1].0 == k);
                } else {
                    assert(assoc(t).contains_key(k));
                    let i = choose|i: int| 0 <= i < t.len() && (#[trigger] t[i]).0 == k;
                    assert(s[i].0 == k);
                }
            }
            if exists|i: int| 0 <= i < s.len() && (#[trigger] s[i]).0 == k {
                let i = choose|i: int| 0 <= i < s.len() && (#[trigger] s[i]).0 == k;
                if i < t.len() {
                    assert(t[i].0 == k);
                    assert(assoc(t).contains_key(k));
                }
            }
        }
    }
}

proof fn assoc_len<W>(s: Seq<(Seq<char>, W)>)
    requires
        distinct_keys(s),
    ensures
        assoc(s).dom().len() == s.len(),
    decreases s.len(),
{
    if s.len() > 0 {
        let t = s.drop_last();
        assoc_len(t);
        assoc_keys(t);
        assert(!assoc(t).contains_key(s.last().0));
        assert(assoc(s).dom() =~= assoc(t).dom().insert(s.last().0));
    }
}

/// The value of a list's last entry with a key.
pub proof fn assoc_at<W>(s: Seq<(Seq<char>, W)>, i: int)
    requires
        0 <= i < s.len(),
        forall|j: int| i < j < s.len() ==> (#[trigger] s[j]).0 != s[i].0,
    ensures
        assoc(s).contains_key(s[i].0),
        assoc(s)[s[i].0] == s[i].1,
    decreases s.len(),
{
    if i < s.len() - 1 {
        let t = s.drop_last();
        assert(t[i] == s[i]);
        assert(s[s.len() - 1].0 != s[i].0);
        assoc_at(t, i);
    }
}

proof fn assoc_filter<W>(s: Seq<(Seq<char>, W)>, k: Seq<char>)
    ensures
        assoc(s.filter(other_key::<W>(k))) == assoc(s).remove(k),
    decreases s.len(),
{
    let p = other_key::<W>(k);
    if s.len() == 0 {
        seqs::filter_empty(s, p);
        assert(assoc(s).remove(k) =~= assoc(s));
    } else {
        let t = s.drop_last();
        assoc_filter(t, k);
        assert(s =~= t.push(s.last()));
        seqs::filter_push(t, s.last(), p);
        if p(s.last()) {
            assoc_push(t.filter(p), s.last());
            assert(assoc(s).remove(k) =~= assoc(t).remove(k).insert(s.last().0, s.last().1));
        } else {
            assert(assoc(s).remove(k) =~= assoc(t).remove(k));
        }
    }
}

proof fn filter_distinct<W>(s: Seq<(Seq<char>, W)>, p: spec_fn((Seq<char>, W)) -> bool)
    requires
        distinct_keys(s),
    ensures
        distinct_keys(s.filter(p)),
    decreases s.len(),
{
    if s.len() == 0 {
        seqs::filter_empty(s, p);
    } else {
        let t = s.drop_last();
        filter_distinct(t, p);
        assert(s =~= t.push(s.last()));
        seqs::filter_push(t, s.last(), p);
        seqs::filter_members(t, p);
        let f = t.filter(p);
        assert forall|i: int| 0 <= i < f.len() implies (#[trigger] f[i]).0 != s.last().0 by {
            assert(f.contains(f[i]));
            assert(t.contains(f[i]));
            let m = choose|m: int| 0 <= m < t.len() && t[m] == f[i];
            assert(s[m] == t[m]);
            assert(s[m].0 != s[s.len() - 1].0);
        }
    }
}

impl<V: View> View for StringMap<V> {
    type V = Map<Seq<char>, V::V>;

    closed spec fn view(&self) -> Map<Seq<char>, V::V> {
        assoc(seqs::views(self.entries@))
    }
}

impl<V: View> StringMap<V> {
    /// No key is held twice.
    pub closed spec fn wf(&self) -> bool {
        distinct_keys(seqs::views(self.entries@))
    }

    /// The entries, in the order in which they were written.
    pub closed spec fn listing(&self) -> Seq<(Seq<char>, V::V)> {
        seqs::views(self.entries@)
    }

    /// The entries make up the map.
    pub proof fn listing_is_map(&self)
        ensures
            self@ == assoc(self.listing()),
            self.wf() == distinct_keys(self.listing()),
    {
    }

    /// An empty map.
    pub fn new() -> (r: Self)
        ensures
            r@ == Map::<Seq<char>, V::V>::empty(),
            r.wf(),
            r.listing() == Seq::<(Seq<char>, V::V)>::empty(),
    {
        let r: StringMap<V> = StringMap { entries: Vec::new() };
        proof {
            assert(seqs::views(r.entries@) =~= Seq::<(Seq<char>, V::V)>::empty());
        }
        r
    }

    /// The number of keys.
    pub fn len(&self) -> (r: usize)
        requires
            self.wf(),
        ensures
            self@.dom().finite(),
            r == self@.dom().len(),
            r == self.listing().len(),
    {
        proof {
            assoc_len(seqs::views(self.entries@));
            assoc_keys(seqs::views(self.entries@));
        }
        self.entries.len()
    }

    /// The key and the value of the entry `i`.
    pub fn entry(&self, i: usize) -> (r: (&String, &V))
        requires
            i < self.listing().len(),
        ensures
            r.0@ == self.listing()[i as int].0,
            r.1@ == self.listing()[i as int].1,
    {
        let e = &self.entries[i];
        (&e.0, &e.1)
    }

    /// The number of entries.
    pub fn count(&self) -> (r: usize)
        ensures
            r == self.listing().len(),
    {
        self.entries.len()
    }

    fn position(&self, key: &str) -> (r: Option<usize>)
        ensures
            match r {
                Some(i) => {
                    &&& i < self.entries@.len()
                    &&& self.entries@[i as int].0@ == key@
                    &&& self@.contains_key(key@)
                    &&& self@[key@] == self.entries@[i as int].1@
                },
                None => !self@.contains_key(key@),
            },
    {
        let ghost s = seqs::views(self.entries@);
        let mut n: usize = self.entries.len();
        while n > 0
            invariant
                n <= self.entries@.len(),
                s == seqs::views(self.entries@),
                forall|j: int| n <= j < s.len() ==> (#[trigger] s[j]).0 != key@,
            decreases n,
        {
            if text::same_text(self.entries[n - 1].0.as_str(), key) {
                proof {
                    assert(s[n - 1].0 == key@);
                    assoc_at(s, n - 1);
                }
                return Some(n - 1);
            }
            proof {
                assert(s[n - 1].0 != key@);
            }
            n = n - 1;
        }
        proof {
            assoc_keys(s);
        }
        None
    }

    /// The value under a key.
    pub fn get(&self, key: &str) -> (r: Option<&V>)
        ensures
            match r {
                Some(v) => self@.contains_key(key@) && self@[key@] == v@,
                None => !self@.contains_key(key@),
            },
    {
        match self.position(key) {
            Some(i) => Some(&self.entries[i].1),
            None => None,
        }
    }

    /// Whether there is a value under a key.
    pub fn contains(&self, key: &str) -> (r: bool)
        ensures
            r == self@.contains_key(key@),
    {
        self.position(key).is_some()
    }

    /// Forgets the value under a key.
    pub fn remove(&mut self, key: &str)
        ensures
            final(self)@ == old(self)@.remove(key@),
            old(self).wf() ==> final(self).wf(),
            final(self).listing() == old(self).listing().filter(other_key::<V::V>(key@)),
    {
        let mut kept: Vec<(String, V)> = Vec::new();
        let mut rest: Vec<(String, V)> = Vec::new();
        std::mem::swap(&mut rest, &mut self.entries);
        let ghost s = seqs::views(old(self).entries@);
        let ghost p = other_key::<V::V>(key@);
        let ghost n = rest@.len();
        proof {
            assoc_filter(s, key@);
            if distinct_keys(s) {
                filter_distinct(s, p);
            }
            seqs::filter_empty(s.skip(n as int), p);
            assert(seqs::views(kept@) =~= Seq::<(Seq<char>, V::V)>::empty());
        }
        while rest.len() > 0
            invariant
                s == seqs::views(old(self).entries@),
                n == s.len(),
                p == other_key::<V::V>(key@),
                rest@ == old(self).entries@.take(rest@.len() as int),
                rest@.len() <= n,
                s.skip(rest@.len() as int).filter(p) == seqs::views(kept@).reverse(),
            decreases rest@.len(),
        {
            let ghost m = rest@.len() - 1;
            proof {
                assert(s.skip(m) =~= seq![s[m]] + s.skip(m + 1));
                filter_front(s.skip(m + 1), s[m], p);
            }
            let e = rest.pop();
            if let Some(e) = e {
                proof {
                    assert(e == old(self).entries@[m]);
                    assert((e.0@, e.1@) == s[m]);
                }
                if !text::same_text(e.0.as_str(), key) {
                    proof {
                        let before = seqs::views(kept@);
                        seqs::views_push(kept@, e);
                        assert(before.push(s[m]).reverse() =~= seq![s[m]] + before.reverse());
                    }
                    kept.push(e);
                }
            }
            proof {
                assert(rest@ =~= old(self).entries@.take(m));
            }
        }
        let ghost back = kept@;
        proof {
            assert(s.skip(0) =~= s);
        }
        while kept.len() > 0
            invariant
                kept@ == back.take(kept@.len() as int),
                kept@.len() <= back.len(),
                self.entries@ == back.skip(kept@.len() as int).reverse(),
            decreases kept@.len(),
        {
            let ghost m = kept@.len() - 1;
            let e = kept.pop();
            if let Some(e) = e {
                proof {
                    assert(e == back[m]);
                    assert(back.skip(m).reverse() =~= back.skip(m + 1).reverse().push(back[m]));
                }
                self.entries.push(e);
            }
            proof {
                assert(kept@ =~= back.take(m));
            }
        }
        proof {
            assert(back.skip(0) =~= back);
            assert(seqs::views(self.entries@) =~= seqs::views(back).reverse());
        }
    }

    /// Writes the value under a key.
    pub fn insert(&mut self, key: String, value: V)
        ensures
            final(self)@ == old(self)@.insert(key@, value@),
            old(self).wf() ==> final(self).wf(),
            final(self).listing() == old(self).listing().filter(other_key::<V::V>(key@)).push(
                (key@, value@),
            ),
    {
        self.remove(key.as_str());
        let ghost s = seqs::views(self.entries@);
        proof {
            assoc_push(s, (key@, value@));
            seqs::views_push(self.entries@, (key, value));
            assert(old(self)@.remove(key@).insert(key@, value@) =~= old(self)@.insert(
                key@,
                value@,
            ));
            assoc_keys(s);
            assert forall|i: int| 0 <= i < s.len() implies (#[trigger] s[i]).0 != key@ by {
                if s[i].0 == key@ {
                    assert(assoc(s).contains_key(key@));
                }
            }
        }
        self.entries.push((key, value));
    }

    /// Forgets everything.
    pub fn clear(&mut self)
        ensures
            final(self)@ == Map::<Seq<char>, V::V>::empty(),
            final(self).wf(),
    {
        self.entries.clear();
        proof {
            assert(seqs::views(self.entries@) =~= Seq::<(Seq<char>, V::V)>::empty());
        }
    }
}

proof fn filter_front<W>(s: Seq<W>, x: W, p: spec_fn(W) -> bool)
    ensures
        (seq![x] + s).filter(p) == if p(x) {
            seq![x] + s.filter(p)
        } else {
            s.filter(p)
        },
{
    Seq::filter_distributes_over_add(seq![x], s, p);
    let e = Seq::<W>::empty();
    assert(seq![x] =~= e.push(x));
    seqs::filter_empty(e, p);
    seqs::filter_push(e, x, p);
    assert(e + s.filter(p) =~= s.filter(p));
    assert(e.push(x) + s.filter(p) =~= seq![x] + s.filter(p));
}

impl<V: Duplicate> Duplicate for StringMap<V> {
    fn duplicate(&self) -> (r: Self) {
        let mut out: StringMap<V> = StringMap { entries: Vec::new() };
        let ghost s = seqs::views(self.entries@);
        let mut i: usize = 0;
        proof {
            assert(seqs::views(out.entries@) =~= s.take(0));
        }
        while i < self.entries.len()
            invariant
                i <= self.entries@.len(),
                s == seqs::views(self.entries@),
                seqs::views(out.entries@) == s.take(i as int),
            decreases self.entries@.len() - i,
        {
            let e = &self.entries[i];
            let k = e.0.clone();
            let v = e.1.duplicate();
            proof {
                seqs::take_step(s, i as int);
                seqs::views_push(out.entries@, (k, v));
            }
            out.entries.push((k, v));
            i = i + 1;
        }
        proof {
            assert(s.take(i as int) =~= s);
        }
        out
    }
}

} // verus!
