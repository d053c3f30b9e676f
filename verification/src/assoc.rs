//! Association lists with string keys, the store's in-memory mapping
//! representation: a vector of key/value entries with pairwise-distinct keys,
//! viewed abstractly as a `Map` from key characters to the value's deep view.

use vstd::prelude::*;

verus! {

/// The mathematical map an association list denotes. Entries later in the
/// sequence shadow earlier ones with the same key.
pub open spec fn amap_of<V: DeepView>(s: Seq<(String, V)>) -> Map<Seq<char>, V::V>
    decreases s.len(),
{
    if s.len() == 0 {
        Map::empty()
    } else {
        amap_of(s.drop_last()).insert(s.last().0@, s.last().1.deep_view())
    }
}

/// Some entry of the list carries key `k`.
pub open spec fn has_key<V>(s: Seq<(String, V)>, k: Seq<char>) -> bool {
    exists|i: int| 0 <= i < s.len() && s[i].0@ == k
}

/// No two entries of the list share a key.
pub open spec fn distinct_keys<V>(s: Seq<(String, V)>) -> bool {
    forall|i: int, j: int| 0 <= i < j < s.len() ==> s[i].0@ != s[j].0@
}

proof fn lemma_has_key_unfold<V>(s: Seq<(String, V)>, k: Seq<char>)
    requires
        s.len() > 0,
    ensures
        has_key(s, k) <==> (s.last().0@ == k || has_key(s.drop_last(), k)),
{
    if has_key(s, k) {
        let i = choose|i: int| 0 <= i < s.len() && s[i].0@ == k;
        if i < s.len() - 1 {
            assert(s.drop_last()[i].0@ == k);
        }
    }
    if has_key(s.drop_last(), k) {
        let i = choose|i: int| 0 <= i < s.drop_last().len() && s.drop_last()[i].0@ == k;
        assert(s[i].0@ == k);
    }
    if s.last().0@ == k {
        assert(s[s.len() - 1].0@ == k);
    }
}

/// The denoted map holds exactly the keys that some entry carries.
pub proof fn lemma_amap_dom<V: DeepView>(s: Seq<(String, V)>)
    ensures
        forall|k: Seq<char>| #[trigger] amap_of(s).contains_key(k) <==> has_key(s, k),
    decreases s.len(),
{
    if s.len() > 0 {
        lemma_amap_dom(s.drop_last());
        assert forall|k: Seq<char>|
            #[trigger] amap_of(s).contains_key(k) <==> has_key(s, k) by {
            lemma_has_key_unfold(s, k);
            assert(amap_of(s.drop_last()).contains_key(k) <==> has_key(s.drop_last(), k));
            assert(amap_of(s).contains_key(k) <==> (k == s.last().0@ || amap_of(
                s.drop_last(),
            ).contains_key(k)));
        }
    }
}

/// With distinct keys, each entry's key maps to that entry's value.
pub proof fn lemma_amap_index<V: DeepView>(s: Seq<(String, V)>, i: int)
    requires
        distinct_keys(s),
        0 <= i < s.len(),
    ensures
        amap_of(s).contains_key(s[i].0@),
        amap_of(s)[s[i].0@] == s[i].1.deep_view(),
    decreases s.len(),
{
    if i < s.len() - 1 {
        assert(s.drop_last()[i] == s[i]);
        lemma_amap_index(s.drop_last(), i);
        assert(s[i].0@ != s.last().0@);
    }
}

/// With distinct keys, the denoted map has exactly one key per entry.
pub proof fn lemma_amap_len<V: DeepView>(s: Seq<(String, V)>)
    requires
        distinct_keys(s),
    ensures
        amap_of(s).dom().finite(),
        amap_of(s).dom().len() == s.len(),
    decreases s.len(),
{
    if s.len() > 0 {
        lemma_amap_len(s.drop_last());
        lemma_amap_dom(s.drop_last());
        if amap_of(s.drop_last()).contains_key(s.last().0@) {
            let i = choose|i: int|
                0 <= i < s.drop_last().len() && s.drop_last()[i].0@ == s.last().0@;
            assert(s[i].0@ == s[s.len() - 1].0@);
            assert(false);
        }
        assert(amap_of(s).dom() =~= amap_of(s.drop_last()).dom().insert(s.last().0@));
    } else {
        assert(amap_of(s).dom() =~= Set::<Seq<char>>::empty());
    }
}

/// Appending an entry inserts its key; a fresh key keeps the keys distinct.
pub proof fn lemma_amap_push<V: DeepView>(s: Seq<(String, V)>, e: (String, V))
    ensures
        amap_of(s.push(e)) == amap_of(s).insert(e.0@, e.1.deep_view()),
        (distinct_keys(s) && !has_key(s, e.0@)) ==> distinct_keys(s.push(e)),
{
    assert(s.push(e).drop_last() =~= s);
    assert(s.push(e).last() == e);
    if distinct_keys(s) && !has_key(s, e.0@) {
        assert forall|i: int, j: int|
            0 <= i < j < s.push(e).len() implies s.push(e)[i].0@ != s.push(e)[j].0@ by {
            if j == s.len() {
                assert(s[i].0@ != e.0@);
            }
        }
    }
}

/// Removing the entry at `i` removes its key from the denoted map.
pub proof fn lemma_amap_remove<V: DeepView>(s: Seq<(String, V)>, i: int)
    requires
        distinct_keys(s),
        0 <= i < s.len(),
    ensures
        amap_of(s.remove(i)) == amap_of(s).remove(s[i].0@),
        distinct_keys(s.remove(i)),
        !has_key(s.remove(i), s[i].0@),
    decreases s.len(),
{
    assert forall|a: int, b: int|
        0 <= a < b < s.remove(i).len() implies s.remove(i)[a].0@ != s.remove(i)[b].0@ by {
        assert(s.remove(i)[a] == (if a < i { s[a] } else { s[a + 1] }));
        assert(s.remove(i)[b] == (if b < i { s[b] } else { s[b + 1] }));
    }
    if has_key(s.remove(i), s[i].0@) {
        let j = choose|j: int| 0 <= j < s.remove(i).len() && s.remove(i)[j].0@ == s[i].0@;
        assert(s.remove(i)[j] == (if j < i { s[j] } else { s[j + 1] }));
        assert(false);
    }
    if i == s.len() - 1 {
        assert(s.remove(i) =~= s.drop_last());
        lemma_amap_dom(s.drop_last());
        if amap_of(s.drop_last()).contains_key(s[i].0@) {
            let j = choose|j: int|
                0 <= j < s.drop_last().len() && s.drop_last()[j].0@ == s[i].0@;
            assert(s[j].0@ == s[i].0@);
            assert(false);
        }
        assert(amap_of(s.remove(i)) =~= amap_of(s).remove(s[i].0@));
    } else {
        assert(distinct_keys(s.drop_last())) by {
            assert forall|a: int, b: int|
                0 <= a < b < s.drop_last().len() implies
                s.drop_last()[a].0@ != s.drop_last()[b].0@ by {
                assert(s.drop_last()[a] == s[a]);
                assert(s.drop_last()[b] == s[b]);
            }
        }
        lemma_amap_remove(s.drop_last(), i);
        assert(s.remove(i).drop_last() =~= s.drop_last().remove(i));
        assert(s.remove(i).last() == s.last());
        assert(s.drop_last()[i] == s[i]);
        assert(s[i].0@ != s.last().0@);
        assert(amap_of(s.remove(i)) =~= amap_of(s).remove(s[i].0@));
    }
}

/// Finds the position of the entry carrying `key`, if there is one.
pub(crate) fn assoc_find<V: DeepView>(v: &Vec<(String, V)>, key: &String) -> (r: Option<usize>)
    ensures
        (match r {
            Some(i) => i < v@.len() && v@[i as int].0@ == key@,
            None => !has_key(v@, key@),
        }),
{
    let mut i: usize = 0;
    while i < v.len()
        invariant
            i <= v@.len(),
            forall|j: int| 0 <= j < i ==> v@[j].0@ != key@,
        decreases v@.len() - i,
    {
        if v[i].0 == *key {
            return Some(i);
        }
        i = i + 1;
    }
    None
}

/// Looks up the value stored under `key`, if there is one.
pub(crate) fn assoc_get<'a, V: DeepView>(v: &'a Vec<(String, V)>, key: &String) -> (r: Option<
    &'a V,
>)
    requires
        distinct_keys(v@),
    ensures
        (match r {
            Some(val) => amap_of(v@).contains_key(key@) && val.deep_view() == amap_of(v@)[key@],
            None => !amap_of(v@).contains_key(key@),
        }),
{
    proof {
        lemma_amap_dom(v@);
    }
    match assoc_find(v, key) {
        Some(i) => {
            proof {
                lemma_amap_index(v@, i as int);
            }
            Some(&v[i].1)
        },
        None => None,
    }
}

/// Inserts `value` under `key`, replacing and returning any previous value.
pub(crate) fn assoc_insert<V: DeepView>(v: &mut Vec<(String, V)>, key: &String, value: V) -> (prev:
    Option<V>)
    requires
        distinct_keys(old(v)@),
    ensures
        distinct_keys(final(v)@),
        amap_of(final(v)@) == amap_of(old(v)@).insert(key@, value.deep_view()),
        (match prev {
            Some(p) => amap_of(old(v)@).contains_key(key@)
                && p.deep_view() == amap_of(old(v)@)[key@],
            None => !amap_of(old(v)@).contains_key(key@),
        }),
{
    let ghost s0 = v@;
    proof {
        lemma_amap_dom(s0);
    }
    match assoc_find(v, key) {
        Some(i) => {
            proof {
                lemma_amap_index(s0, i as int);
                lemma_amap_remove(s0, i as int);
            }
            let (ekey, eval) = v.remove(i);
            let ghost s1 = v@;
            v.push((ekey, value));
            proof {
                lemma_amap_push(s1, v@.last());
                assert(amap_of(s0).remove(key@).insert(key@, value.deep_view())
                    =~= amap_of(s0).insert(key@, value.deep_view()));
            }
            Some(eval)
        },
        None => {
            v.push((key.clone(), value));
            proof {
                lemma_amap_push(s0, v@.last());
            }
            None
        },
    }
}

/// Removes the entry stored under `key`, returning its value if one was there.
pub(crate) fn assoc_remove<V: DeepView>(v: &mut Vec<(String, V)>, key: &String) -> (removed: Option<
    V,
>)
    requires
        distinct_keys(old(v)@),
    ensures
        distinct_keys(final(v)@),
        amap_of(final(v)@) == amap_of(old(v)@).remove(key@),
        (match removed {
            Some(p) => amap_of(old(v)@).contains_key(key@)
                && p.deep_view() == amap_of(old(v)@)[key@],
            None => !amap_of(old(v)@).contains_key(key@) && final(v)@ == old(v)@,
        }),
{
    let ghost s0 = v@;
    proof {
        lemma_amap_dom(s0);
    }
    match assoc_find(v, key) {
        Some(i) => {
            proof {
                lemma_amap_index(s0, i as int);
                lemma_amap_remove(s0, i as int);
            }
            let entry = v.remove(i);
            Some(entry.1)
        },
        None => {
            proof {
                assert(amap_of(s0).remove(key@) =~= amap_of(s0));
            }
            None
        },
    }
}

} // verus!
