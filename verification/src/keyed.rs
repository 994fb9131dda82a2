use vstd::prelude::*;

verus! {

/// The map that a sequence of (name, value) entries describes, later entries taking
/// precedence.
pub open spec fn keyed_map<V>(s: Seq<(String, V)>) -> Map<Seq<char>, V>
    decreases s.len(),
{
    if s.len() == 0 {
        Map::empty()
    } else {
        keyed_map(s.drop_last()).insert(s.last().0@, s.last().1)
    }
}

/// No name occurs twice.
pub open spec fn names_distinct<V>(s: Seq<(String, V)>) -> bool {
    forall|i: int, j: int| 0 <= i < j < s.len() ==> (#[trigger] s[i]).0@ != (#[trigger] s[j]).0@
}

/// The names, in order.
pub open spec fn names_of<V>(s: Seq<(String, V)>) -> Seq<Seq<char>> {
    s.map_values(|e: (String, V)| e.0@)
}

proof fn lemma_prefix_distinct<V>(s: Seq<(String, V)>)
    requires
        names_distinct(s),
        s.len() > 0,
    ensures
        names_distinct(s.drop_last()),
{
    let t = s.drop_last();
    assert forall|i: int, j: int| 0 <= i < j < t.len() implies (#[trigger] t[i]).0@ != (
    #[trigger] t[j]).0@ by {
        assert(t[i] == s[i] && t[j] == s[j]);
    }
}

/// The domain of the map is the set of names, and entry `i` gives the value of its name.
pub proof fn lemma_keyed_map<V>(s: Seq<(String, V)>)
    requires
        names_distinct(s),
    ensures
        forall|k: Seq<char>|
            #[trigger] keyed_map(s).dom().contains(k) <==> exists|i: int|
                0 <= i < s.len() && (#[trigger] s[i]).0@ == k,
        forall|i: int| 0 <= i < s.len() ==> #[trigger] keyed_map(s)[s[i].0@] == s[i].1,
        keyed_map(s).dom().finite(),
        keyed_map(s).len() == s.len(),
    decreases s.len(),
{
    if s.len() > 0 {
        let t = s.drop_last();
        lemma_prefix_distinct(s);
        lemma_keyed_map(t);
        let last = s.last();
        assert(!keyed_map(t).dom().contains(last.0@)) by {
            if keyed_map(t).dom().contains(last.0@) {
                let i = choose|i: int| 0 <= i < t.len() && (#[trigger] t[i]).0@ == last.0@;
                assert(s[i] == t[i]);
                assert(s[i].0@ != s[s.len() - 1].0@);
            }
        }
        assert forall|k: Seq<char>| #[trigger] keyed_map(s).dom().contains(k) implies exists|i: int|
            0 <= i < s.len() && (#[trigger] s[i]).0@ == k by {
            if k == last.0@ {
                assert(s[s.len() - 1].0@ == k);
            } else {
                let i = choose|i: int| 0 <= i < t.len() && (#[trigger] t[i]).0@ == k;
                assert(s[i] == t[i]);
            }
        }
        assert forall|k: Seq<char>|
            (exists|i: int| 0 <= i < s.len() && (#[trigger] s[i]).0@ == k) implies #[trigger] keyed_map(
            s,
        ).dom().contains(k) by {
            let i = choose|i: int| 0 <= i < s.len() && (#[trigger] s[i]).0@ == k;
            if i < t.len() {
                assert(s[i] == t[i]);
                assert(t[i].0@ == k);
            }
        }
        assert forall|i: int| 0 <= i < s.len() implies #[trigger] keyed_map(s)[s[i].0@] == s[i].1 by {
            if i < t.len() {
                assert(s[i] == t[i]);
                assert(s[i].0@ != s[s.len() - 1].0@);
                assert(keyed_map(t)[t[i].0@] == t[i].1);
            }
        }
    } else {
        assert(keyed_map(s).dom() =~= Set::<Seq<char>>::empty());
    }
}

/// The position of the entry named `k`.
pub fn keyed_find<V>(v: &Vec<(String, V)>, k: &str) -> (r: Option<usize>)
    requires
        names_distinct(v@),
    ensures
        match r {
            Some(i) => i < v@.len() && v@[i as int].0@ == k@ && keyed_map(v@).dom().contains(k@)
                && keyed_map(v@)[k@] == v@[i as int].1,
            None => !keyed_map(v@).dom().contains(k@),
        },
{
    proof {
        lemma_keyed_map(v@);
    }
    let key = String::from_str(k);
    let mut i: usize = 0;
    while i < v.len()
        invariant
            names_distinct(v@),
            i <= v@.len(),
            key@ == k@,
            forall|j: int| 0 <= j < i ==> (#[trigger] v@[j]).0@ != k@,
        decreases v@.len() - i,
    {
        if v[i].0 == key {
            proof {
                lemma_keyed_map(v@);
                assert(keyed_map(v@)[v@[i as int].0@] == v@[i as int].1);
            }
            return Some(i);
        }
        i = i + 1;
    }
    None
}

/// Sets the entry named `k` to `x`, in place when present and appended otherwise.
pub fn keyed_set<V>(v: &mut Vec<(String, V)>, k: String, x: V)
    requires
        names_distinct(old(v)@),
    ensures
        names_distinct(final(v)@),
        keyed_map(final(v)@) == keyed_map(old(v)@).insert(k@, x),
{
    proof {
        lemma_keyed_map(v@);
    }
    let ghost kv = k@;
    let ghost before = v@;
    match keyed_find(v, k.as_str()) {
        Some(i) => {
            v.set(i, (k, x));
            proof {
                let after = v@;
                assert(names_distinct(after)) by {
                    assert forall|a: int, b: int| 0 <= a < b < after.len() implies (
                    #[trigger] after[a]).0@ != (#[trigger] after[b]).0@ by {
                        assert(after[a].0@ == before[a].0@);
                        assert(after[b].0@ == before[b].0@);
                    }
                }
                lemma_keyed_map(after);
                assert(keyed_map(after) =~= keyed_map(before).insert(kv, x)) by {
                    assert forall|n: Seq<char>| #[trigger] keyed_map(after).dom().contains(n) <==> keyed_map(
                        before,
                    ).insert(kv, x).dom().contains(n) by {
                        if keyed_map(after).dom().contains(n) {
                            let j = choose|j: int| 0 <= j < after.len() && (#[trigger] after[j]).0@ == n;
                            assert(before[j].0@ == after[j].0@);
                        }
                        if keyed_map(before).dom().contains(n) {
                            let j = choose|j: int| 0 <= j < before.len() && (#[trigger] before[j]).0@
                                == n;
                            assert(before[j].0@ == after[j].0@);
                        }
                    }
                    assert forall|n: Seq<char>| #[trigger] keyed_map(after).dom().contains(n) implies keyed_map(
                        after,
                    )[n] == keyed_map(before).insert(kv, x)[n] by {
                        let j = choose|j: int| 0 <= j < after.len() && (#[trigger] after[j]).0@ == n;
                        assert(keyed_map(after)[after[j].0@] == after[j].1);
                        if j != i {
                            assert(after[j] == before[j]);
                            assert(keyed_map(before)[before[j].0@] == before[j].1);
                        }
                    }
                }
            }
        },
        None => {
            v.push((k, x));
            proof {
                let after = v@;
                assert(after.drop_last() =~= before);
                assert(names_distinct(after)) by {
                    assert forall|a: int, b: int| 0 <= a < b < after.len() implies (
                    #[trigger] after[a]).0@ != (#[trigger] after[b]).0@ by {
                        assert(after[a] == before[a]);
                        if b < before.len() {
                            assert(after[b] == before[b]);
                        }
                    }
                }
            }
        },
    }
}

/// Removes the entry named `k`, if present, keeping the order of the others.
pub fn keyed_remove<V>(v: &mut Vec<(String, V)>, k: &str)
    requires
        names_distinct(old(v)@),
    ensures
        names_distinct(final(v)@),
        keyed_map(final(v)@) == keyed_map(old(v)@).remove(k@),
{
    proof {
        lemma_keyed_map(v@);
    }
    let ghost before = v@;
    match keyed_find(v, k) {
        Some(i) => {
            let _ = v.remove(i);
            proof {
                let after = v@;
                assert(after =~= before.subrange(0, i as int) + before.subrange(
                    i + 1,
                    before.len() as int,
                ));
                assert forall|j: int| 0 <= j < after.len() implies #[trigger] after[j] == (if j < i {
                    before[j]
                } else {
                    before[j + 1]
                }) by {}
                assert(names_distinct(after)) by {
                    assert forall|a: int, b: int| 0 <= a < b < after.len() implies (
                    #[trigger] after[a]).0@ != (#[trigger] after[b]).0@ by {
                        let a2 = if a < i { a } else { a + 1 };
                        let b2 = if b < i { b } else { b + 1 };
                        assert(after[a] == before[a2]);
                        assert(after[b] == before[b2]);
                    }
                }
                lemma_keyed_map(after);
                assert(keyed_map(after) =~= keyed_map(before).remove(k@)) by {
                    assert forall|n: Seq<char>| #[trigger] keyed_map(after).dom().contains(n) <==> keyed_map(
                        before,
                    ).remove(k@).dom().contains(n) by {
                        if keyed_map(after).dom().contains(n) {
                            let j = choose|j: int| 0 <= j < after.len() && (#[trigger] after[j]).0@ == n;
                            let j2 = if j < i { j } else { j + 1 };
                            assert(after[j] == before[j2]);
                            assert(before[j2].0@ != before[i as int].0@);
                        }
                        if keyed_map(before).remove(k@).dom().contains(n) {
                            let j = choose|j: int| 0 <= j < before.len() && (#[trigger] before[j]).0@
                                == n;
                            assert(j != i);
                            let j3 = if j < i { j } else { j - 1 };
                            assert(after[j3] == before[j]);
                        }
                    }
                    assert forall|n: Seq<char>| #[trigger] keyed_map(after).dom().contains(n) implies keyed_map(
                        after,
                    )[n] == keyed_map(before).remove(k@)[n] by {
                        let j = choose|j: int| 0 <= j < after.len() && (#[trigger] after[j]).0@ == n;
                        let j2 = if j < i { j } else { j + 1 };
                        assert(after[j] == before[j2]);
                        assert(keyed_map(after)[after[j].0@] == after[j].1);
                        assert(keyed_map(before)[before[j2].0@] == before[j2].1);
                        assert(before[j2].0@ != before[i as int].0@);
                    }
                }
            }
        },
        None => {
            assert(keyed_map(before).remove(k@) =~= keyed_map(before));
        },
    }
}

/// Removes the entry named `k` and hands its value back, if present; the order of the
/// others is kept.
pub fn keyed_take<V>(v: &mut Vec<(String, V)>, k: &str) -> (r: Option<V>)
    requires
        names_distinct(old(v)@),
    ensures
        names_distinct(final(v)@),
        keyed_map(final(v)@) == keyed_map(old(v)@).remove(k@),
        match r {
            Some(x) => keyed_map(old(v)@).dom().contains(k@) && keyed_map(old(v)@)[k@] == x,
            None => !keyed_map(old(v)@).dom().contains(k@),
        },
{
    proof {
        lemma_keyed_map(v@);
    }
    let ghost before = v@;
    match keyed_find(v, k) {
        Some(i) => {
            let (_, x) = v.remove(i);
            proof {
                let after = v@;
                assert(after =~= before.subrange(0, i as int) + before.subrange(
                    i + 1,
                    before.len() as int,
                ));
                assert forall|j: int| 0 <= j < after.len() implies #[trigger] after[j] == (if j < i {
                    before[j]
                } else {
                    before[j + 1]
                }) by {}
                assert(names_distinct(after)) by {
                    assert forall|a: int, b: int| 0 <= a < b < after.len() implies (
                    #[trigger] after[a]).0@ != (#[trigger] after[b]).0@ by {
                        let a2 = if a < i { a } else { a + 1 };
                        let b2 = if b < i { b } else { b + 1 };
                        assert(after[a] == before[a2]);
                        assert(after[b] == before[b2]);
                    }
                }
                lemma_keyed_map(after);
                assert(keyed_map(after) =~= keyed_map(before).remove(k@)) by {
                    assert forall|n: Seq<char>| #[trigger] keyed_map(after).dom().contains(n) <==> keyed_map(
                        before,
                    ).remove(k@).dom().contains(n) by {
                        if keyed_map(after).dom().contains(n) {
                            let j = choose|j: int| 0 <= j < after.len() && (#[trigger] after[j]).0@ == n;
                            let j2 = if j < i { j } else { j + 1 };
                            assert(after[j] == before[j2]);
                            assert(before[j2].0@ != before[i as int].0@);
                        }
                        if keyed_map(before).remove(k@).dom().contains(n) {
                            let j = choose|j: int| 0 <= j < before.len() && (#[trigger] before[j]).0@
                                == n;
                            assert(j != i);
                            let j3 = if j < i { j } else { j - 1 };
                            assert(after[j3] == before[j]);
                        }
                    }
                    assert forall|n: Seq<char>| #[trigger] keyed_map(after).dom().contains(n) implies keyed_map(
                        after,
                    )[n] == keyed_map(before).remove(k@)[n] by {
                        let j = choose|j: int| 0 <= j < after.len() && (#[trigger] after[j]).0@ == n;
                        let j2 = if j < i { j } else { j + 1 };
                        assert(after[j] == before[j2]);
                        assert(keyed_map(after)[after[j].0@] == after[j].1);
                        assert(keyed_map(before)[before[j2].0@] == before[j2].1);
                        assert(before[j2].0@ != before[i as int].0@);
                    }
                }
            }
            Some(x)
        },
        None => {
            assert(keyed_map(before).remove(k@) =~= keyed_map(before));
            None
        },
    }
}

} // verus!
