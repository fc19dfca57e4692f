use vstd::prelude::*;

verus! {

/// A string-to-string mapping, stored as a vector of key/value pairs whose
/// keys are pairwise distinct. Its mathematical content is the `Map` from a
/// key's characters to its value's characters; inserting a key that is
/// already present replaces the value (last write wins).
#[derive(Debug)]
pub struct Dict {
    pairs: Vec<(String, String)>,
}

/// The map denoted by a sequence of key/value pairs; a later pair overrides
/// an earlier one with the same key.
spec fn pairs_map(s: Seq<(String, String)>) -> Map<Seq<char>, Seq<char>>
    decreases s.len(),
{
    if s.len() == 0 {
        Map::<Seq<char>, Seq<char>>::empty()
    } else {
        pairs_map(s.drop_last()).insert(s.last().0@, s.last().1@)
    }
}

/// No key's characters occur twice in the sequence of pairs.
spec fn distinct_keys(s: Seq<(String, String)>) -> bool {
    forall|i: int, j: int| 0 <= i < j < s.len() ==> s[i].0@ != s[j].0@
}

/// The characters of each pair of strings, in order.
pub open spec fn entry_views(s: Seq<(String, String)>) -> Seq<(Seq<char>, Seq<char>)> {
    s.map_values(|p: (String, String)| (p.0@, p.1@))
}

/// The listing `es` enumerates the mapping `m`: every listed entry is a pair
/// of the map, no key is listed twice, and every key of the map is listed.
pub open spec fn entries_match(m: Map<Seq<char>, Seq<char>>, es: Seq<(Seq<char>, Seq<char>)>) -> bool {
    &&& m.dom().finite()
    &&& es.len() == m.dom().len()
    &&& forall|i: int| 0 <= i < es.len() ==> m.contains_pair(#[trigger] es[i].0, es[i].1)
    &&& forall|i: int, j: int| 0 <= i < j < es.len() ==> #[trigger] es[i].0 != #[trigger] es[j].0
    &&& forall|k: Seq<char>|
        #[trigger] m.dom().contains(k) ==> exists|i: int| 0 <= i < es.len() && #[trigger] es[i].0 == k
}

/// A listing that enumerates a mapping holds exactly the mapping's pairs:
/// the set of listed entries and the set of the map's key/value pairs are
/// one and the same, whatever order the listing uses.
pub proof fn lemma_entries_exact(m: Map<Seq<char>, Seq<char>>, es: Seq<(Seq<char>, Seq<char>)>)
    requires
        entries_match(m, es),
    ensures
        forall|k: Seq<char>, v: Seq<char>|
            #[trigger] es.contains((k, v)) <==> #[trigger] m.contains_pair(k, v),
{
    assert forall|k: Seq<char>, v: Seq<char>| #[trigger] es.contains((k, v)) implies #[trigger] m.contains_pair(
        k,
        v,
    ) by {
        let i = choose|i: int| 0 <= i < es.len() && es[i] == (k, v);
        assert(m.contains_pair(es[i].0, es[i].1));
    }
    assert forall|k: Seq<char>, v: Seq<char>| #[trigger] m.contains_pair(k, v) implies #[trigger] es.contains(
        (k, v),
    ) by {
        assert(m.dom().contains(k));
        let i = choose|i: int| 0 <= i < es.len() && #[trigger] es[i].0 == k;
        assert(m.contains_pair(es[i].0, es[i].1));
        assert(es[i] == (k, v));
    }
}

impl View for Dict {
    type V = Map<Seq<char>, Seq<char>>;

    closed spec fn view(&self) -> Map<Seq<char>, Seq<char>> {
        pairs_map(self.pairs@)
    }
}

proof fn lemma_key_membership(s: Seq<(String, String)>)
    ensures
        forall|k: Seq<char>|
            #[trigger] pairs_map(s).dom().contains(k) <==> exists|i: int|
                0 <= i < s.len() && #[trigger] s[i].0@ == k,
    decreases s.len(),
{
    if s.len() > 0 {
        let d = s.drop_last();
        lemma_key_membership(d);
        assert forall|k: Seq<char>| #[trigger] pairs_map(s).dom().contains(k) implies exists|i: int|
            0 <= i < s.len() && #[trigger] s[i].0@ == k by {
            if k == s.last().0@ {
                assert(s[s.len() - 1].0@ == k);
            } else {
                assert(pairs_map(d).dom().contains(k));
                let i = choose|i: int| 0 <= i < d.len() && #[trigger] d[i].0@ == k;
                assert(d[i] == s[i]);
                assert(s[i].0@ == k);
            }
        }
        assert forall|k: Seq<char>|
            (exists|i: int| 0 <= i < s.len() && #[trigger] s[i].0@ == k) implies #[trigger] pairs_map(
            s,
        ).dom().contains(k) by {
            let i = choose|i: int| 0 <= i < s.len() && #[trigger] s[i].0@ == k;
            if i < s.len() - 1 {
                assert(d[i] == s[i]);
                assert(d[i].0@ == k);
                assert(pairs_map(d).dom().contains(k));
            }
        }
    }
}

proof fn lemma_dom_card(s: Seq<(String, String)>)
    requires
        distinct_keys(s),
    ensures
        pairs_map(s).dom().finite(),
        pairs_map(s).dom().len() == s.len(),
    decreases s.len(),
{
    if s.len() > 0 {
        let d = s.drop_last();
        assert(forall|a: int| 0 <= a < d.len() ==> d[a] == s[a]);
        lemma_dom_card(d);
        lemma_key_membership(d);
        assert(!pairs_map(d).dom().contains(s.last().0@)) by {
            if pairs_map(d).dom().contains(s.last().0@) {
                let i = choose|i: int| 0 <= i < d.len() && #[trigger] d[i].0@ == s.last().0@;
                assert(s[i].0@ == s[s.len() - 1].0@);
            }
        }
        assert(pairs_map(s).dom() =~= pairs_map(d).dom().insert(s.last().0@));
    } else {
        assert(pairs_map(s).dom() =~= Set::<Seq<char>>::empty());
    }
}

proof fn lemma_value_at(s: Seq<(String, String)>, i: int)
    requires
        distinct_keys(s),
        0 <= i < s.len(),
    ensures
        pairs_map(s).contains_pair(s[i].0@, s[i].1@),
    decreases s.len(),
{
    let d = s.drop_last();
    if i < s.len() - 1 {
        assert(forall|a: int| 0 <= a < d.len() ==> d[a] == s[a]);
        lemma_value_at(d, i);
        assert(s[i].0@ != s.last().0@);
    }
}

proof fn lemma_update(s: Seq<(String, String)>, i: int, p: (String, String))
    requires
        distinct_keys(s),
        0 <= i < s.len(),
        p.0@ == s[i].0@,
    ensures
        pairs_map(s.update(i, p)) == pairs_map(s).insert(p.0@, p.1@),
    decreases s.len(),
{
    let s2 = s.update(i, p);
    let d = s.drop_last();
    if i == s.len() - 1 {
        assert(s2.drop_last() =~= d);
        assert(s2.last() == p);
        assert(pairs_map(d).insert(p.0@, s.last().1@).insert(p.0@, p.1@) =~= pairs_map(d).insert(
            p.0@,
            p.1@,
        ));
    } else {
        let d2 = d.update(i, p);
        assert(forall|a: int| 0 <= a < d.len() ==> d[a] == s[a]);
        assert(s2.drop_last() =~= d2);
        assert(s2.last() == s.last());
        lemma_update(d, i, p);
        assert(s.last().0@ != p.0@);
        assert(pairs_map(d).insert(p.0@, p.1@).insert(s.last().0@, s.last().1@) =~= pairs_map(
            d,
        ).insert(s.last().0@, s.last().1@).insert(p.0@, p.1@));
    }
}

impl Dict {
    /// The keys held by the vector of pairs are pairwise distinct.
    pub closed spec fn wf(&self) -> bool {
        distinct_keys(self.pairs@)
    }

    /// An empty mapping.
    pub fn new() -> (d: Dict)
        ensures
            d.wf(),
            d@ == Map::<Seq<char>, Seq<char>>::empty(),
    {
        Dict { pairs: Vec::new() }
    }

    /// Binds `key` to `value`, replacing any earlier binding of `key`.
    pub fn insert(&mut self, key: String, value: String)
        requires
            old(self).wf(),
        ensures
            final(self).wf(),
            final(self)@ == old(self)@.insert(key@, value@),
    {
        let ghost orig = self.pairs@;
        let n: usize = self.pairs.len();
        let mut i: usize = 0;
        while i < n
            invariant
                i <= n,
                n == self.pairs.len(),
                self.pairs@ == orig,
                distinct_keys(orig),
                old(self)@ == pairs_map(orig),
                forall|j: int| 0 <= j < i ==> orig[j].0@ != key@,
            decreases n - i,
        {
            if self.pairs[i].0 == key {
                proof {
                    assert(orig[i as int].0@ == key@);
                    lemma_update(orig, i as int, (key, value));
                }
                self.pairs.set(i, (key, value));
                proof {
                    assert forall|a: int, b: int|
                        0 <= a < b < self.pairs@.len() implies self.pairs@[a].0@
                        != self.pairs@[b].0@ by {
                        assert(self.pairs@[a].0@ == orig[a].0@);
                        assert(self.pairs@[b].0@ == orig[b].0@);
                    }
                    assert(distinct_keys(self.pairs@));
                }
                return;
            }
            i += 1;
        }
        proof {
            let s2 = orig.push((key, value));
            assert(s2.drop_last() =~= orig);
            assert forall|a: int, b: int| 0 <= a < b < s2.len() implies s2[a].0@ != s2[b].0@ by {
                if b < orig.len() {
                    assert(s2[a] == orig[a]);
                    assert(s2[b] == orig[b]);
                } else {
                    assert(s2[a] == orig[a]);
                    assert(s2[b] == (key, value));
                }
            }
            assert(distinct_keys(s2));
        }
        self.pairs.push((key, value));
    }

    /// The bindings, one pair per key, in the mapping's storage order.
    pub fn pairs(&self) -> (r: Vec<(String, String)>)
        requires
            self.wf(),
        ensures
            entries_match(self@, entry_views(r@)),
    {
        let r = clone_pairs(&self.pairs);
        proof {
            let es = entry_views(r@);
            lemma_key_membership(self.pairs@);
            lemma_dom_card(self.pairs@);
            assert forall|i: int| 0 <= i < es.len() implies self@.contains_pair(
                #[trigger] es[i].0,
                es[i].1,
            ) by {
                lemma_value_at(self.pairs@, i);
            }
            assert forall|k: Seq<char>| #[trigger] self@.dom().contains(k) implies exists|i: int|
                0 <= i < es.len() && #[trigger] es[i].0 == k by {
                let i = choose|i: int| 0 <= i < self.pairs@.len() && #[trigger] self.pairs@[i].0@ == k;
                assert(es[i].0 == k);
            }
        }
        r
    }
}

/// A fresh vector holding, pair for pair, the same strings.
fn clone_pairs(v: &Vec<(String, String)>) -> (r: Vec<(String, String)>)
    ensures
        r@ == v@,
{
    let mut r: Vec<(String, String)> = Vec::new();
    let mut i: usize = 0;
    while i < v.len()
        invariant
            i <= v.len(),
            r@.len() == i,
            forall|j: int| 0 <= j < i ==> r@[j] == v@[j],
        decreases v.len() - i,
    {
        let key = v[i].0.clone();
        let value = v[i].1.clone();
        r.push((key, value));
        i += 1;
    }
    proof {
        assert(r@ =~= v@);
    }
    r
}

impl Clone for Dict {
    /// A copy with the same mathematical content.
    fn clone(&self) -> (r: Self)
        ensures
            r@ == self@,
            r.wf() <==> self.wf(),
    {
        Dict { pairs: clone_pairs(&self.pairs) }
    }
}

} // verus!
