use vstd::prelude::*;

verus! {

/// The map that a sequence of key/value pairs describes, later pairs taking precedence.
pub open spec fn pairs_map(s: Seq<(String, String)>) -> Map<Seq<char>, Seq<char>>
    decreases s.len(),
{
    if s.len() == 0 {
        Map::empty()
    } else {
        pairs_map(s.drop_last()).insert(s.last().0@, s.last().1@)
    }
}

/// No key occurs twice.
pub open spec fn distinct_keys(s: Seq<(String, String)>) -> bool {
    forall|i: int, j: int| 0 <= i < j < s.len() ==> (#[trigger] s[i]).0@ != (#[trigger] s[j]).0@
}

/// The position of the pair with key `k`, if there is one.
pub open spec fn key_index(s: Seq<(String, String)>, k: Seq<char>) -> Option<int>
    decreases s.len(),
{
    if s.len() == 0 {
        None
    } else if s.last().0@ == k {
        Some(s.len() - 1)
    } else {
        key_index(s.drop_last(), k)
    }
}

pub proof fn lemma_pairs_map_lookup(s: Seq<(String, String)>, k: Seq<char>)
    requires
        distinct_keys(s),
    ensures
        pairs_map(s).dom().contains(k) <==> key_index(s, k) is Some,
        key_index(s, k) matches Some(i) ==> 0 <= i < s.len() && s[i].0@ == k && pairs_map(s)[k]
            == s[i].1@,
        key_index(s, k) is None ==> forall|i: int| 0 <= i < s.len() ==> (#[trigger] s[i]).0@ != k,
    decreases s.len(),
{
    if s.len() > 0 {
        let t = s.drop_last();
        assert(distinct_keys(t)) by {
            assert forall|i: int, j: int| 0 <= i < j < t.len() implies (#[trigger] t[i]).0@ != (
            #[trigger] t[j]).0@ by {
                assert(t[i] == s[i] && t[j] == s[j]);
            }
        }
        lemma_pairs_map_lookup(t, k);
        if s.last().0@ != k {
            assert forall|i: int| 0 <= i < s.len() && key_index(t, k) is None implies (
            #[trigger] s[i]).0@ != k by {
                if i < t.len() {
                    assert(t[i] == s[i]);
                }
            }
        }
    }
}

/// The pairs whose keys differ from `k`, in order.
pub open spec fn without_key(s: Seq<(String, String)>, k: Seq<char>) -> Seq<(String, String)> {
    s.filter(|p: (String, String)| p.0@ != k)
}

/// A map from tag keys to tag values, held as pairs with distinct keys in insertion order.
#[derive(Debug)]
pub struct TagMap {
    entries: Vec<(String, String)>,
}

impl View for TagMap {
    type V = Map<Seq<char>, Seq<char>>;

    closed spec fn view(&self) -> Map<Seq<char>, Seq<char>> {
        pairs_map(self.entries@)
    }
}

impl TagMap {
    /// Keys are distinct.
    pub closed spec fn wf(self) -> bool {
        distinct_keys(self.entries@)
    }

    /// The pairs, in order.
    pub closed spec fn pairs(self) -> Seq<(String, String)> {
        self.entries@
    }

    /// The view is the map of the pairs, whose keys are distinct.
    pub proof fn lemma_pairs(self)
        requires
            self.wf(),
        ensures
            self@ == pairs_map(self.pairs()),
            distinct_keys(self.pairs()),
            self@.dom().finite(),
    {
        lemma_pairs_map_finite(self.entries@);
    }

    /// An empty map.
    pub fn new() -> (r: TagMap)
        ensures
            r.wf(),
            r@ == Map::<Seq<char>, Seq<char>>::empty(),
            r.pairs().len() == 0,
    {
        TagMap { entries: Vec::new() }
    }

    /// The number of tags.
    pub fn len(&self) -> (r: usize)
        requires
            self.wf(),
        ensures
            r == self@.len(),
            r == self.pairs().len(),
    {
        proof {
            lemma_pairs_map_len(self.entries@);
        }
        self.entries.len()
    }

    /// Whether there are no tags.
    pub fn is_empty(&self) -> (r: bool)
        requires
            self.wf(),
        ensures
            r == (self@.len() == 0),
            r == (self@ == Map::<Seq<char>, Seq<char>>::empty()),
    {
        proof {
            lemma_pairs_map_len(self.entries@);
            lemma_pairs_map_finite(self.entries@);
            if self.entries@.len() > 0 {
                let k = self.entries@.last().0@;
                assert(self@.dom().contains(k));
            }
        }
        self.entries.len() == 0
    }

    /// The position of the pair with key `k`.
    fn find(&self, k: &str) -> (r: Option<usize>)
        requires
            self.wf(),
        ensures
            match r {
                Some(i) => i < self.entries@.len() && self.entries@[i as int].0@ == k@ && self@.dom().contains(
                    k@,
                ) && self@[k@] == self.entries@[i as int].1@,
                None => !self@.dom().contains(k@),
            },
    {
        let key = String::from_str(k);
        let mut i: usize = 0;
        while i < self.entries.len()
            invariant
                self.wf(),
                i <= self.entries@.len(),
                key@ == k@,
                forall|j: int| 0 <= j < i ==> (#[trigger] self.entries@[j]).0@ != k@,
            decreases self.entries@.len() - i,
        {
            if self.entries[i].0 == key {
                proof {
                    lemma_entry_in_map(self.entries@, i as int);
                }
                return Some(i);
            }
            i = i + 1;
        }
        proof {
            lemma_pairs_map_lookup(self.entries@, k@);
            if let Some(m) = key_index(self.entries@, k@) {
                assert(self.entries@[m].0@ == k@);
            }
        }
        None
    }

    /// The value of tag `k`.
    pub fn get(&self, k: &str) -> (r: Option<&String>)
        requires
            self.wf(),
        ensures
            match r {
                Some(v) => self@.dom().contains(k@) && v@ == self@[k@],
                None => !self@.dom().contains(k@),
            },
    {
        match self.find(k) {
            Some(i) => Some(&self.entries[i].1),
            None => None,
        }
    }

    /// Whether tag `k` is present.
    pub fn contains_key(&self, k: &str) -> (r: bool)
        requires
            self.wf(),
        ensures
            r == self@.dom().contains(k@),
    {
        self.find(k).is_some()
    }

    /// Sets tag `k` to `v`, replacing its value in place when present and appending it
    /// otherwise.
    pub fn insert(&mut self, k: String, v: String)
        requires
            old(self).wf(),
        ensures
            final(self).wf(),
            final(self)@ == old(self)@.insert(k@, v@),
    {
        proof {
            lemma_pairs_map_lookup(self.entries@, k@);
        }
        match self.find(k.as_str()) {
            Some(i) => {
                let ghost before = self.entries@;
                self.entries.set(i, (k, v));
                proof {
                    lemma_pairs_map_update(before, i as int, self.entries@[i as int]);
                }
            },
            None => {
                let ghost before = self.entries@;
                self.entries.push((k, v));
                proof {
                    assert(self.entries@.drop_last() =~= before);
                    assert forall|a: int, b: int| 0 <= a < b < self.entries@.len() implies (
                    #[trigger] self.entries@[a]).0@ != (#[trigger] self.entries@[b]).0@ by {
                        if b == before.len() {
                            assert(self.entries@[a] == before[a]);
                        } else {
                            assert(self.entries@[a] == before[a]);
                            assert(self.entries@[b] == before[b]);
                        }
                    }
                }
            },
        }
    }

    /// The tags as key/value pairs, in order.
    pub fn to_pairs(&self) -> (r: Vec<(String, String)>)
        requires
            self.wf(),
        ensures
            r@ == self.pairs(),
            pairs_map(r@) == self@,
            distinct_keys(r@),
    {
        clone_pairs(&self.entries)
    }

    /// A map from pairs, later pairs replacing the values of earlier ones with the same key.
    pub fn from_pairs(pairs: Vec<(String, String)>) -> (r: TagMap)
        ensures
            r.wf(),
            r@ == pairs_map(pairs@),
    {
        let mut m = TagMap::new();
        let mut i: usize = 0;
        assert(pairs@.take(0) =~= Seq::<(String, String)>::empty());
        while i < pairs.len()
            invariant
                i <= pairs@.len(),
                m.wf(),
                m@ == pairs_map(pairs@.take(i as int)),
            decreases pairs@.len() - i,
        {
            let k = pairs[i].0.clone();
            let v = pairs[i].1.clone();
            assert(pairs@.take(i + 1).drop_last() =~= pairs@.take(i as int));
            m.insert(k, v);
            i = i + 1;
        }
        assert(pairs@.take(pairs@.len() as int) =~= pairs@);
        m
    }

    /// Whether every tag of `self` is present in `other` with the same value.
    pub fn is_contained_in(&self, other: &TagMap) -> (r: bool)
        requires
            self.wf(),
            other.wf(),
        ensures
            r == self@.submap_of(other@),
    {
        proof {
            lemma_pairs_map_finite(self.entries@);
        }
        let mut i: usize = 0;
        while i < self.entries.len()
            invariant
                self.wf(),
                other.wf(),
                i <= self.entries@.len(),
                forall|j: int|
                    0 <= j < i ==> other@.dom().contains((#[trigger] self.entries@[j]).0@)
                        && other@[self.entries@[j].0@] == self.entries@[j].1@,
            decreases self.entries@.len() - i,
        {
            let ghost k = self.entries@[i as int].0@;
            proof {
                lemma_pairs_map_lookup(self.entries@, k);
                lemma_pairs_map_lookup(self.entries@, k);
            }
            match other.get(self.entries[i].0.as_str()) {
                Some(v) => {
                    if *v != self.entries[i].1 {
                        proof {
                            lemma_entry_in_map(self.entries@, i as int);
                        }
                        return false;
                    }
                },
                None => {
                    proof {
                        lemma_entry_in_map(self.entries@, i as int);
                    }
                    return false;
                },
            }
            i = i + 1;
        }
        proof {
            assert forall|k: Seq<char>| #[trigger] self@.dom().contains(k) implies other@.dom().contains(
                k,
            ) && other@[k] == self@[k] by {
                lemma_pairs_map_lookup(self.entries@, k);
                let m = key_index(self.entries@, k)->0;
                assert(self.entries@[m].0@ == k);
            }
        }
        true
    }
}

impl Clone for TagMap {
    fn clone(&self) -> (r: Self)
        ensures
            r@ == self@,
            r.pairs() == self.pairs(),
            r.wf() == self.wf(),
    {
        TagMap { entries: clone_pairs(&self.entries) }
    }
}

/// A copy of the pairs.
fn clone_pairs(v: &Vec<(String, String)>) -> (r: Vec<(String, String)>)
    ensures
        r@ == v@,
{
    let mut r: Vec<(String, String)> = Vec::new();
    let mut i: usize = 0;
    while i < v.len()
        invariant
            i <= v@.len(),
            r@ == v@.take(i as int),
        decreases v@.len() - i,
    {
        let k = v[i].0.clone();
        let x = v[i].1.clone();
        r.push((k, x));
        assert(r@ =~= v@.take(i + 1));
        i = i + 1;
    }
    assert(v@.take(v@.len() as int) =~= v@);
    r
}

/// Entry `i` of pairs with distinct keys is in their map.
pub proof fn lemma_entry_in_map(s: Seq<(String, String)>, i: int)
    requires
        distinct_keys(s),
        0 <= i < s.len(),
    ensures
        pairs_map(s).dom().contains(s[i].0@),
        pairs_map(s)[s[i].0@] == s[i].1@,
{
    lemma_pairs_map_lookup(s, s[i].0@);
    let m = key_index(s, s[i].0@);
    if m is None {
        assert(s[i].0@ != s[i].0@);
    } else {
        let j = m->0;
        if j != i {
            if j < i {
                assert(s[j].0@ != s[i].0@);
            } else {
                assert(s[i].0@ != s[j].0@);
            }
        }
    }
}

pub proof fn lemma_pairs_map_finite(s: Seq<(String, String)>)
    ensures
        pairs_map(s).dom().finite(),
    decreases s.len(),
{
    if s.len() > 0 {
        lemma_pairs_map_finite(s.drop_last());
    }
}

pub proof fn lemma_pairs_map_len(s: Seq<(String, String)>)
    requires
        distinct_keys(s),
    ensures
        pairs_map(s).len() == s.len(),
        pairs_map(s).dom().finite(),
    decreases s.len(),
{
    if s.len() > 0 {
        let t = s.drop_last();
        assert(distinct_keys(t)) by {
            assert forall|i: int, j: int| 0 <= i < j < t.len() implies (#[trigger] t[i]).0@ != (
            #[trigger] t[j]).0@ by {
                assert(t[i] == s[i] && t[j] == s[j]);
            }
        }
        lemma_pairs_map_len(t);
        lemma_pairs_map_lookup(t, s.last().0@);
        if let Some(m) = key_index(t, s.last().0@) {
            assert(t[m] == s[m]);
            assert(s[m].0@ != s[s.len() - 1].0@);
        }
        assert(!pairs_map(t).dom().contains(s.last().0@));
    } else {
        assert(pairs_map(s).dom() =~= Set::<Seq<char>>::empty());
    }
}

/// Replacing the value of entry `i` (keeping its key) updates the map at that key.
pub proof fn lemma_pairs_map_update(s: Seq<(String, String)>, i: int, p: (String, String))
    requires
        distinct_keys(s),
        0 <= i < s.len(),
        p.0@ == s[i].0@,
    ensures
        distinct_keys(s.update(i, p)),
        pairs_map(s.update(i, p)) == pairs_map(s).insert(p.0@, p.1@),
    decreases s.len(),
{
    let u = s.update(i, p);
    assert(distinct_keys(u)) by {
        assert forall|a: int, b: int| 0 <= a < b < u.len() implies (#[trigger] u[a]).0@ != (
        #[trigger] u[b]).0@ by {
            assert(u[a].0@ == s[a].0@);
            assert(u[b].0@ == s[b].0@);
        }
    }
    let t = s.drop_last();
    assert(distinct_keys(t)) by {
        assert forall|a: int, b: int| 0 <= a < b < t.len() implies (#[trigger] t[a]).0@ != (
        #[trigger] t[b]).0@ by {
            assert(t[a] == s[a] && t[b] == s[b]);
        }
    }
    if i == s.len() - 1 {
        assert(u.drop_last() =~= t);
        assert(pairs_map(u) =~= pairs_map(s).insert(p.0@, p.1@));
    } else {
        lemma_pairs_map_update(t, i, p);
        assert(u.drop_last() =~= t.update(i, p));
        assert(s.last().0@ != p.0@) by {
            assert(s[i].0@ != s[s.len() - 1].0@);
        }
        assert(pairs_map(u) =~= pairs_map(s).insert(p.0@, p.1@));
    }
}

} // verus!
