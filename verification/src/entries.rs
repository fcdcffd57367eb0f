//! Entries keyed by name, kept in the order their names first arrived; a
//! name that arrives again replaces the value it had.
use vstd::prelude::*;

verus! {

/// The index of the entry named `k`, or -1 when there is none.
pub open spec fn key_index<V>(e: Seq<(String, V)>, k: Seq<char>) -> int
    decreases e.len(),
{
    if e.len() == 0 {
        -1
    } else if e.last().0@ == k {
        e.len() - 1
    } else {
        key_index(e.drop_last(), k)
    }
}

/// The value of the entry named `k`.
pub open spec fn lookup<V>(e: Seq<(String, V)>, k: Seq<char>) -> Option<V> {
    let i = key_index(e, k);
    if i >= 0 {
        Some(e[i].1)
    } else {
        None
    }
}

/// `e` with `v` as the value of `k`: the entry named `k` is replaced where
/// there is one, else a new entry is added at the end.
pub open spec fn upsert<V>(e: Seq<(String, V)>, k: String, v: V) -> Seq<(String, V)> {
    let i = key_index(e, k@);
    if i >= 0 {
        e.update(i, (k, v))
    } else {
        e.push((k, v))
    }
}

/// The names of the entries.
pub open spec fn keys_of<V>(e: Seq<(String, V)>) -> Seq<Seq<char>> {
    e.map_values(|p: (String, V)| p.0@)
}

/// No two entries have the same name.
pub open spec fn distinct_keys<V>(e: Seq<(String, V)>) -> bool {
    forall|i: int, j: int| 0 <= i < j < e.len() ==> e[i].0@ != e[j].0@
}

pub proof fn lemma_key_index_bounds<V>(e: Seq<(String, V)>, k: Seq<char>)
    ensures
        -1 <= key_index(e, k) < e.len(),
        key_index(e, k) >= 0 ==> e[key_index(e, k)].0@ == k,
        key_index(e, k) < 0 ==> forall|i: int| 0 <= i < e.len() ==> e[i].0@ != k,
    decreases e.len(),
{
    if e.len() > 0 && e.last().0@ != k {
        lemma_key_index_bounds(e.drop_last(), k);
        assert forall|i: int| 0 <= i < e.len() - 1 implies e[i] == e.drop_last()[i] by {}
    }
}

/// Upserting keeps names distinct.
pub proof fn lemma_upsert_distinct<V>(e: Seq<(String, V)>, k: String, v: V)
    requires
        distinct_keys(e),
    ensures
        distinct_keys(upsert(e, k, v)),
        upsert(e, k, v).len() >= e.len(),
{
    lemma_key_index_bounds(e, k@);
}

/// After upserting `k`, looking `k` up gives the new value, and every other
/// name keeps what it had.
pub proof fn lemma_lookup_upsert<V>(e: Seq<(String, V)>, k: String, v: V, q: Seq<char>)
    requires
        distinct_keys(e),
    ensures
        lookup(upsert(e, k, v), q) == if q == k@ {
            Some(v)
        } else {
            lookup(e, q)
        },
{
    lemma_key_index_bounds(e, k@);
    lemma_upsert_distinct(e, k, v);
    let u = upsert(e, k, v);
    let ik = key_index(e, k@);
    lemma_key_index_bounds(u, q);
    lemma_key_index_bounds(e, q);
    lemma_key_index_unique(u, q);
    lemma_key_index_unique(e, q);
    let pos = if ik >= 0 { ik } else { e.len() as int };
    assert(u[pos] == (k, v));
    if q == k@ {
        assert(key_index(u, q) == pos);
    } else {
        let iq = key_index(e, q);
        if iq >= 0 {
            assert(iq != pos);
            assert(u[iq] == e[iq]);
            assert(key_index(u, q) == iq);
        } else {
            if key_index(u, q) >= 0 {
                let j = key_index(u, q);
                assert(j != pos);
                assert(u[j] == e[j]);
            }
        }
    }
}

proof fn lemma_key_index_unique<V>(e: Seq<(String, V)>, k: Seq<char>)
    requires
        distinct_keys(e),
    ensures
        forall|i: int| 0 <= i < e.len() && e[i].0@ == k ==> key_index(e, k) == i,
    decreases e.len(),
{
    lemma_key_index_bounds(e, k);
    if e.len() > 0 && e.last().0@ != k {
        lemma_key_index_unique(e.drop_last(), k);
    }
}

/// The position of the entry named `k`, searching from the end.
pub fn find_key<V>(e: &Vec<(String, V)>, k: &String) -> (r: Option<usize>)
    ensures
        match r {
            Some(i) => key_index(e@, k@) == i as int,
            None => key_index(e@, k@) == -1,
        },
{
    let mut n: usize = e.len();
    assert(e@.take(n as int) == e@);
    while n > 0
        invariant
            n <= e.len(),
            key_index(e@, k@) == key_index(e@.take(n as int), k@),
        decreases n,
    {
        assert(e@.take(n as int).drop_last() == e@.take(n - 1));
        if e[n - 1].0.eq(k) {
            return Some(n - 1);
        }
        n = n - 1;
    }
    None
}

/// Sets the value of `k` to `v`.
pub fn upsert_entry<V>(e: &mut Vec<(String, V)>, k: String, v: V)
    ensures
        final(e)@ == upsert(old(e)@, k, v),
{
    match find_key(e, &k) {
        Some(i) => {
            proof {
                lemma_key_index_bounds(e@, k@);
            }
            e.set(i, (k, v));
        },
        None => {
            e.push((k, v));
        },
    }
}


/// With distinct names, each name is listed once, and a name has a value
/// exactly when it is listed.
pub proof fn lemma_keys_lookup<V>(e: Seq<(String, V)>)
    requires
        distinct_keys(e),
    ensures
        keys_of(e).no_duplicates(),
        forall|n: Seq<char>| #[trigger] lookup(e, n) is Some <==> keys_of(e).contains(n),
{
    assert forall|n: Seq<char>| #[trigger] lookup(e, n) is Some <==> keys_of(e).contains(n) by {
        lemma_key_index_bounds(e, n);
        if keys_of(e).contains(n) {
            let i = choose|i: int| 0 <= i < e.len() && keys_of(e)[i] == n;
            assert(e[i].0@ == n);
        }
        if lookup(e, n) is Some {
            let i = key_index(e, n);
            assert(keys_of(e)[i] == n);
        }
    }
    assert forall|i: int, j: int| 0 <= i < keys_of(e).len() && 0 <= j < keys_of(e).len() && i != j implies keys_of(e)[i] != keys_of(e)[j] by {
        if i < j {
            assert(e[i].0@ != e[j].0@);
        } else {
            assert(e[j].0@ != e[i].0@);
        }
    }
}

} // verus!
