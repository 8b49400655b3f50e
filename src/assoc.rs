//! Lists of (key, value) pairs with unique keys, viewed as maps.
use vstd::prelude::*;

verus! {

/// No two pairs of the list carry the same key.
pub open spec fn keys_unique<V>(s: Seq<(String, V)>) -> bool {
    forall|i: int, j: int|
        0 <= i < s.len() && 0 <= j < s.len() && i != j ==> #[trigger] s[i].0@ != #[trigger] s[j].0@
}

/// The map that a list stands for: each key to the value paired with it.
pub open spec fn kv_map<V>(s: Seq<(String, V)>) -> Map<Seq<char>, V>
    decreases s.len(),
{
    if s.len() == 0 {
        Map::empty()
    } else {
        kv_map(s.drop_last()).insert(s.last().0@, s.last().1)
    }
}

/// The map of a list of string pairs, on the characters of its values.
pub open spec fn text_map(s: Seq<(String, String)>) -> Map<Seq<char>, Seq<char>> {
    kv_map(s).map_values(|v: String| v@)
}

pub proof fn lemma_kv_map_finite<V>(s: Seq<(String, V)>)
    ensures
        kv_map(s).dom().finite(),
    decreases s.len(),
{
    if s.len() > 0 {
        lemma_kv_map_finite(s.drop_last());
    }
}

pub proof fn lemma_kv_map_absent<V>(s: Seq<(String, V)>, k: Seq<char>)
    ensures
        kv_map(s).contains_key(k) <==> exists|i: int| 0 <= i < s.len() && #[trigger] s[i].0@ == k,
    decreases s.len(),
{
    if s.len() > 0 {
        let d = s.drop_last();
        lemma_kv_map_absent(d, k);
        if kv_map(s).contains_key(k) && k != s.last().0@ {
            let i = choose|i: int| 0 <= i < d.len() && #[trigger] d[i].0@ == k;
            assert(s[i].0@ == k);
        }
        if exists|i: int| 0 <= i < s.len() && #[trigger] s[i].0@ == k {
            let i = choose|i: int| 0 <= i < s.len() && #[trigger] s[i].0@ == k;
            if i < s.len() - 1 {
                assert(d[i].0@ == k);
            }
        }
    }
}

pub proof fn lemma_kv_map_lookup<V>(s: Seq<(String, V)>, i: int)
    requires
        keys_unique(s),
        0 <= i < s.len(),
    ensures
        kv_map(s).contains_key(s[i].0@),
        kv_map(s)[s[i].0@] == s[i].1,
    decreases s.len(),
{
    if i < s.len() - 1 {
        let d = s.drop_last();
        assert(keys_unique(d)) by {
            assert forall|a: int, b: int|
                0 <= a < d.len() && 0 <= b < d.len() && a != b implies #[trigger] d[a].0@
                != #[trigger] d[b].0@ by {
                assert(d[a] == s[a] && d[b] == s[b]);
            }
        }
        assert(d[i] == s[i]);
        lemma_kv_map_lookup(d, i);
        assert(s[i].0@ != s[s.len() - 1].0@);
    }
}

pub proof fn lemma_kv_map_push<V>(s: Seq<(String, V)>, e: (String, V))
    ensures
        kv_map(s.push(e)) == kv_map(s).insert(e.0@, e.1),
{
    assert(s.push(e).drop_last() =~= s);
}

pub proof fn lemma_keys_unique_push<V>(s: Seq<(String, V)>, e: (String, V))
    requires
        keys_unique(s),
        forall|i: int| 0 <= i < s.len() ==> #[trigger] s[i].0@ != e.0@,
    ensures
        keys_unique(s.push(e)),
{
    let t = s.push(e);
    assert forall|a: int, b: int|
        0 <= a < t.len() && 0 <= b < t.len() && a != b implies #[trigger] t[a].0@
        != #[trigger] t[b].0@ by {
        if a < s.len() && b < s.len() {
            assert(t[a] == s[a] && t[b] == s[b]);
        } else if a < s.len() {
            assert(t[a] == s[a]);
        } else {
            assert(t[b] == s[b]);
        }
    }
}

pub proof fn lemma_kv_map_update<V>(s: Seq<(String, V)>, i: int, e: (String, V))
    requires
        keys_unique(s),
        0 <= i < s.len(),
        e.0@ == s[i].0@,
    ensures
        kv_map(s.update(i, e)) == kv_map(s).insert(e.0@, e.1),
    decreases s.len(),
{
    let t = s.update(i, e);
    if i == s.len() - 1 {
        assert(t.drop_last() =~= s.drop_last());
        assert(kv_map(t) =~= kv_map(s).insert(e.0@, e.1));
    } else {
        let d = s.drop_last();
        assert(t.drop_last() =~= d.update(i, e));
        assert(keys_unique(d)) by {
            assert forall|a: int, b: int|
                0 <= a < d.len() && 0 <= b < d.len() && a != b implies #[trigger] d[a].0@
                != #[trigger] d[b].0@ by {
                assert(d[a] == s[a] && d[b] == s[b]);
            }
        }
        assert(d[i] == s[i]);
        assert(t.last() == s.last());
        assert(s.last().0@ != s[i].0@);
        lemma_kv_map_update(d, i, e);
        assert(kv_map(t) =~= kv_map(s).insert(e.0@, e.1));
    }
}

pub proof fn lemma_keys_unique_update<V>(s: Seq<(String, V)>, i: int, e: (String, V))
    requires
        keys_unique(s),
        0 <= i < s.len(),
        e.0@ == s[i].0@,
    ensures
        keys_unique(s.update(i, e)),
{
    let t = s.update(i, e);
    assert forall|a: int, b: int|
        0 <= a < t.len() && 0 <= b < t.len() && a != b implies #[trigger] t[a].0@
        != #[trigger] t[b].0@ by {
        assert(s[a].0@ != s[b].0@);
    }
}

pub proof fn lemma_kv_map_remove<V>(s: Seq<(String, V)>, i: int)
    requires
        keys_unique(s),
        0 <= i < s.len(),
    ensures
        kv_map(s.remove(i)) == kv_map(s).remove(s[i].0@),
        keys_unique(s.remove(i)),
    decreases s.len(),
{
    let k = s[i].0@;
    let d = s.drop_last();
    let r = s.remove(i);
    assert(keys_unique(d)) by {
        assert forall|a: int, b: int|
            0 <= a < d.len() && 0 <= b < d.len() && a != b implies #[trigger] d[a].0@
            != #[trigger] d[b].0@ by {
            assert(d[a] == s[a] && d[b] == s[b]);
        }
    }
    assert(keys_unique(r)) by {
        assert forall|a: int, b: int|
            0 <= a < r.len() && 0 <= b < r.len() && a != b implies #[trigger] r[a].0@
            != #[trigger] r[b].0@ by {
            let sa = if a < i { a } else { a + 1 };
            let sb = if b < i { b } else { b + 1 };
            assert(r[a] == s[sa] && r[b] == s[sb]);
        }
    }
    if i == s.len() - 1 {
        assert(r =~= d);
        lemma_kv_map_absent(d, k);
        assert forall|j: int| 0 <= j < d.len() implies #[trigger] d[j].0@ != k by {
            assert(d[j] == s[j]);
        }
        assert(kv_map(r) =~= kv_map(s).remove(k));
    } else {
        assert(r =~= d.remove(i).push(s.last()));
        assert(d[i] == s[i]);
        lemma_kv_map_remove(d, i);
        lemma_kv_map_push(d.remove(i), s.last());
        assert(s.last().0@ != k);
        assert(kv_map(r) =~= kv_map(s).remove(k));
    }
}

/// Position of `key` in `list`, if the list holds it.
pub fn find_key<V>(list: &Vec<(String, V)>, key: &String) -> (r: Option<usize>)
    ensures
        r matches Some(i) ==> i < list@.len() && list@[i as int].0@ == key@,
        r is None ==> forall|j: int| 0 <= j < list@.len() ==> #[trigger] list@[j].0@ != key@,
{
    let mut i: usize = 0;
    while i < list.len()
        invariant
            i <= list@.len(),
            forall|j: int| 0 <= j < i ==> #[trigger] list@[j].0@ != key@,
        decreases list@.len() - i,
    {
        if list[i].0 == *key {
            return Some(i);
        }
        i = i + 1;
    }
    None
}

/// Binds `key` to `value`, replacing a former binding of the key.
pub fn kv_put<V>(list: &mut Vec<(String, V)>, key: String, value: V)
    requires
        keys_unique(old(list)@),
    ensures
        keys_unique(final(list)@),
        kv_map(final(list)@) == kv_map(old(list)@).insert(key@, value),
{
    match find_key(list, &key) {
        Some(i) => {
            proof {
                lemma_kv_map_update(list@, i as int, (key, value));
                lemma_keys_unique_update(list@, i as int, (key, value));
            }
            list.set(i, (key, value));
        },
        None => {
            proof {
                lemma_kv_map_push(list@, (key, value));
                lemma_keys_unique_push(list@, (key, value));
            }
            list.push((key, value));
        },
    }
}

/// Removes the binding of `key`, handing back its value.
pub fn kv_take<V>(list: &mut Vec<(String, V)>, key: &String) -> (r: Option<V>)
    requires
        keys_unique(old(list)@),
    ensures
        keys_unique(final(list)@),
        kv_map(final(list)@) == kv_map(old(list)@).remove(key@),
        r == (if kv_map(old(list)@).contains_key(key@) {
            Some(kv_map(old(list)@)[key@])
        } else {
            None::<V>
        }),
{
    proof {
        lemma_kv_map_absent(list@, key@);
    }
    match find_key(list, key) {
        Some(i) => {
            proof {
                lemma_kv_map_lookup(list@, i as int);
                lemma_kv_map_remove(list@, i as int);
            }
            let (_, v) = list.remove(i);
            Some(v)
        },
        None => {
            assert(kv_map(list@).remove(key@) =~= kv_map(list@));
            None
        },
    }
}

/// The value bound to `key`, if any.
pub fn kv_get<'a, V>(list: &'a Vec<(String, V)>, key: &String) -> (r: Option<&'a V>)
    requires
        keys_unique(list@),
    ensures
        r is Some <==> kv_map(list@).contains_key(key@),
        r matches Some(v) ==> *v == kv_map(list@)[key@],
{
    proof {
        lemma_kv_map_absent(list@, key@);
    }
    match find_key(list, key) {
        Some(i) => {
            proof {
                lemma_kv_map_lookup(list@, i as int);
            }
            Some(&list[i].1)
        },
        None => None,
    }
}

} // verus!
