//! Keyed lists: entries in the order in which their keys first came, each key
//! at most once.
use crate::text::same;
use vstd::prelude::*;

verus! {

/// The position of the first entry at or behind `i` with key `k`, or the length.
pub open spec fn key_from<V>(p: Seq<(Seq<char>, V)>, k: Seq<char>, i: int) -> int
    decreases p.len() - i,
{
    if i >= p.len() || p[i].0 == k {
        i
    } else {
        key_from(p, k, i + 1)
    }
}

/// The value under a key.
pub open spec fn lookup<V>(p: Seq<(Seq<char>, V)>, k: Seq<char>) -> Option<V> {
    let i = key_from(p, k, 0);
    if i < p.len() {
        Some(p[i].1)
    } else {
        None
    }
}

/// The list with `v` under `k`: in the place of the key's entry, or at the end.
pub open spec fn put<V>(p: Seq<(Seq<char>, V)>, k: Seq<char>, v: V) -> Seq<(Seq<char>, V)> {
    let i = key_from(p, k, 0);
    if i < p.len() {
        p.update(i, (k, v))
    } else {
        p.push((k, v))
    }
}

/// The list without the entry of `k`.
pub open spec fn without<V>(p: Seq<(Seq<char>, V)>, k: Seq<char>) -> Seq<(Seq<char>, V)> {
    let i = key_from(p, k, 0);
    if i < p.len() {
        p.remove(i)
    } else {
        p
    }
}

/// No key occurs twice.
pub open spec fn distinct_keys<V>(p: Seq<(Seq<char>, V)>) -> bool {
    forall|i: int, j: int| 0 <= i < j < p.len() ==> (#[trigger] p[i]).0 != (#[trigger] p[j]).0
}

pub proof fn lemma_key_from<V>(p: Seq<(Seq<char>, V)>, k: Seq<char>, i: int)
    requires
        0 <= i <= p.len(),
    ensures
        i <= key_from(p, k, i) <= p.len(),
        key_from(p, k, i) < p.len() ==> p[key_from(p, k, i)].0 == k,
        forall|j: int| i <= j < key_from(p, k, i) ==> (#[trigger] p[j]).0 != k,
    decreases p.len() - i,
{
    if i < p.len() && p[i].0 != k {
        lemma_key_from(p, k, i + 1);
    }
}

/// What was put under a key is found there, other keys keep what they had, and
/// no key comes to occur twice.
pub proof fn put_then_lookup<V>(p: Seq<(Seq<char>, V)>, k: Seq<char>, v: V, other: Seq<char>)
    ensures
        lookup(put(p, k, v), k) == Some(v),
        other != k ==> lookup(put(p, k, v), other) == lookup(p, other),
        distinct_keys(p) ==> distinct_keys(put(p, k, v)),
{
    lemma_key_from(p, k, 0);
    lemma_key_from(p, other, 0);
    let q = put(p, k, v);
    lemma_key_from(q, k, 0);
    lemma_key_from(q, other, 0);
    let i = key_from(p, k, 0);
    let n = key_from(q, k, 0);
    if n < i {
        assert(q[n].0 == k);
        assert(q[n] == p[n]);
    }
    if n > i {
        assert(q[i].0 != k);
    }
    if other != k {
        let a = key_from(p, other, 0);
        let b = key_from(q, other, 0);
        if b < q.len() {
            assert(q[b].0 == other);
            assert(b < p.len() && q[b] == p[b]);
        }
        if a < p.len() {
            assert(p[a].0 == other);
            assert(q[a] == p[a]);
        }
        if a < b && a < p.len() {
            assert(q[a].0 != other);
        }
        if b < a && b < q.len() {
            assert(p[b].0 != other);
        }
    }
}

/// A removed key is gone and other keys keep what they had.
pub proof fn without_then_lookup<V>(p: Seq<(Seq<char>, V)>, k: Seq<char>, other: Seq<char>)
    requires
        distinct_keys(p),
    ensures
        lookup(without(p, k), k) is None,
        other != k ==> lookup(without(p, k), other) == lookup(p, other),
        distinct_keys(without(p, k)),
{
    lemma_key_from(p, k, 0);
    lemma_key_from(p, other, 0);
    let i = key_from(p, k, 0);
    let q = without(p, k);
    lemma_key_from(q, k, 0);
    lemma_key_from(q, other, 0);
    assert forall|j: int| 0 <= j < q.len() implies #[trigger] q[j] == (if j < i {
        p[j]
    } else {
        p[j + 1]
    }) by {}
    let n = key_from(q, k, 0);
    if n < q.len() {
        assert(q[n].0 == k);
        if n >= i {
            assert(p[n + 1].0 == k && p[i].0 == k);
        } else {
            assert(p[n].0 != k);
        }
    }
    if other != k {
        let a = key_from(p, other, 0);
        let b = key_from(q, other, 0);
        let a2 = if a > i { a - 1 } else { a };
        if a < p.len() {
            assert(p[a].0 == other);
            assert(q[a2].0 == other);
            assert(b <= a2);
            if b < a2 {
                assert(q[b].0 == other);
                if b < i {
                    assert(p[b].0 != other);
                } else {
                    assert(p[b + 1].0 != other);
                }
            }
        } else if b < q.len() {
            assert(q[b].0 == other);
            if b < i {
                assert(p[b].0 != other);
            } else {
                assert(p[b + 1].0 != other);
            }
        }
    }
    assert forall|x: int, y: int| 0 <= x < y < q.len() implies (#[trigger] q[x]).0 != (
    #[trigger] q[y]).0 by {
        let x2 = if x < i { x } else { x + 1 };
        let y2 = if y < i { y } else { y + 1 };
        assert(p[x2].0 != p[y2].0);
    }
}

/// Whether `q` shows the entries of `p`, key by key.
pub open spec fn shows<A, V>(p: Seq<(String, A)>, q: Seq<(Seq<char>, V)>) -> bool {
    p.len() == q.len() && forall|i: int|
        0 <= i < p.len() ==> (#[trigger] q[i]).0 == p[i].0@
}

/// The position of a key, or the length.
pub(crate) fn find_key<A, V>(p: &Vec<(String, A)>, k: &str, q: Ghost<Seq<(Seq<char>, V)>>) -> (r: usize)
    requires
        shows(p@, q@),
    ensures
        r == key_from(q@, k@, 0),
        r <= p@.len(),
{
    let mut i: usize = 0;
    while i < p.len()
        invariant
            i <= p@.len(),
            shows(p@, q@),
            key_from(q@, k@, 0) == key_from(q@, k@, i as int),
        decreases p@.len() - i,
    {
        assert(q@[i as int].0 == p@[i as int].0@);
        if same(&p[i].0, k) {
            return i;
        }
        i += 1;
    }
    i
}

} // verus!
