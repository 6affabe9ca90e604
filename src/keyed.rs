//! A sequence whose elements carry distinct keys, seen as a map from key to
//! element, and how that map changes when the sequence is pushed to, written
//! at an index, or has an index removed.
use vstd::prelude::*;

verus! {

pub open spec fn has_key<T>(s: Seq<T>, key: spec_fn(T) -> Seq<char>, k: Seq<char>) -> bool {
    exists|i: int| 0 <= i < s.len() && #[trigger] key(s[i]) == k
}

/// The map from each key to the element of `s` that carries it.
pub open spec fn keyed<T>(s: Seq<T>, key: spec_fn(T) -> Seq<char>) -> Map<Seq<char>, T> {
    Map::new(
        |k: Seq<char>| has_key(s, key, k),
        |k: Seq<char>| s[choose|i: int| 0 <= i < s.len() && #[trigger] key(s[i]) == k],
    )
}

pub open spec fn keys_unique<T>(s: Seq<T>, key: spec_fn(T) -> Seq<char>) -> bool {
    forall|i: int, j: int|
        0 <= i < s.len() && 0 <= j < s.len() && #[trigger] key(s[i]) == #[trigger] key(s[j])
            ==> i == j
}

pub proof fn lemma_keyed_at<T>(s: Seq<T>, key: spec_fn(T) -> Seq<char>, j: int)
    requires
        keys_unique(s, key),
        0 <= j < s.len(),
    ensures
        keyed(s, key).contains_key(key(s[j])),
        keyed(s, key)[key(s[j])] == s[j],
{
    let k = key(s[j]);
    assert(has_key(s, key, k));
    let i = choose|i: int| 0 <= i < s.len() && #[trigger] key(s[i]) == k;
    assert(key(s[i]) == key(s[j]));
}

pub proof fn lemma_keyed_push<T>(s: Seq<T>, key: spec_fn(T) -> Seq<char>, x: T)
    requires
        keys_unique(s, key),
        !keyed(s, key).contains_key(key(x)),
    ensures
        keys_unique(s.push(x), key),
        keyed(s.push(x), key) == keyed(s, key).insert(key(x), x),
{
    let t = s.push(x);
    assert forall|i: int, j: int|
        0 <= i < t.len() && 0 <= j < t.len() && #[trigger] key(t[i]) == #[trigger] key(t[j])
        implies i == j by {
        if i < s.len() && j == s.len() {
            assert(t[i] == s[i]);
            assert(has_key(s, key, key(x)));
        }
        if j < s.len() && i == s.len() {
            assert(t[j] == s[j]);
            assert(has_key(s, key, key(x)));
        }
        if i < s.len() && j < s.len() {
            assert(t[i] == s[i] && t[j] == s[j]);
        }
    }
    let m = keyed(s, key).insert(key(x), x);
    assert forall|k: Seq<char>| #[trigger] keyed(t, key).contains_key(k) == m.contains_key(k) by {
        if has_key(t, key, k) && k != key(x) {
            let i = choose|i: int| 0 <= i < t.len() && #[trigger] key(t[i]) == k;
            assert(i != s.len());
            assert(t[i] == s[i]);
            assert(has_key(s, key, k));
        }
        if has_key(s, key, k) {
            let i = choose|i: int| 0 <= i < s.len() && #[trigger] key(s[i]) == k;
            assert(t[i] == s[i]);
            assert(has_key(t, key, k));
        }
        if k == key(x) {
            assert(t[s.len() as int] == x);
            assert(has_key(t, key, k));
        }
    }
    assert forall|k: Seq<char>| #[trigger] keyed(t, key).contains_key(k) implies keyed(
        t,
        key,
    )[k] == m[k] by {
        let i = choose|i: int| 0 <= i < t.len() && #[trigger] key(t[i]) == k;
        lemma_keyed_at(t, key, i);
        if i < s.len() {
            assert(t[i] == s[i]);
            lemma_keyed_at(s, key, i);
        }
    }
    assert(keyed(t, key) =~= m);
}

pub proof fn lemma_keyed_update<T>(s: Seq<T>, key: spec_fn(T) -> Seq<char>, j: int, x: T)
    requires
        keys_unique(s, key),
        0 <= j < s.len(),
        key(x) == key(s[j]),
    ensures
        keys_unique(s.update(j, x), key),
        keyed(s.update(j, x), key) == keyed(s, key).insert(key(x), x),
{
    let t = s.update(j, x);
    assert forall|a: int, b: int|
        0 <= a < t.len() && 0 <= b < t.len() && #[trigger] key(t[a]) == #[trigger] key(t[b])
        implies a == b by {
        assert(key(t[a]) == key(s[a]));
        assert(key(t[b]) == key(s[b]));
    }
    let m = keyed(s, key).insert(key(x), x);
    assert forall|k: Seq<char>| #[trigger] keyed(t, key).contains_key(k) == m.contains_key(k) by {
        if has_key(t, key, k) {
            let i = choose|i: int| 0 <= i < t.len() && #[trigger] key(t[i]) == k;
            assert(key(t[i]) == key(s[i]));
            assert(has_key(s, key, k));
        }
        if has_key(s, key, k) {
            let i = choose|i: int| 0 <= i < s.len() && #[trigger] key(s[i]) == k;
            assert(key(t[i]) == key(s[i]));
            assert(has_key(t, key, k));
        }
        lemma_keyed_at(s, key, j);
    }
    assert forall|k: Seq<char>| #[trigger] keyed(t, key).contains_key(k) implies keyed(
        t,
        key,
    )[k] == m[k] by {
        let i = choose|i: int| 0 <= i < t.len() && #[trigger] key(t[i]) == k;
        assert(key(t[i]) == key(s[i]));
        lemma_keyed_at(t, key, i);
        lemma_keyed_at(s, key, i);
    }
    assert(keyed(t, key) =~= m);
}

pub proof fn lemma_keyed_remove<T>(s: Seq<T>, key: spec_fn(T) -> Seq<char>, j: int)
    requires
        keys_unique(s, key),
        0 <= j < s.len(),
    ensures
        keys_unique(s.remove(j), key),
        keyed(s.remove(j), key) == keyed(s, key).remove(key(s[j])),
{
    let t = s.remove(j);
    // index in `s` of the element at index `a` of `t`
    assert forall|a: int| 0 <= a < t.len() implies #[trigger] t[a] == s[if a < j {
        a
    } else {
        a + 1
    }] by {}
    assert forall|a: int, b: int|
        0 <= a < t.len() && 0 <= b < t.len() && #[trigger] key(t[a]) == #[trigger] key(t[b])
        implies a == b by {
        let a2 = if a < j {
            a
        } else {
            a + 1
        };
        let b2 = if b < j {
            b
        } else {
            b + 1
        };
        assert(t[a] == s[a2] && t[b] == s[b2]);
    }
    let m = keyed(s, key).remove(key(s[j]));
    assert forall|k: Seq<char>| #[trigger] keyed(t, key).contains_key(k) == m.contains_key(k) by {
        if has_key(t, key, k) {
            let a = choose|a: int| 0 <= a < t.len() && #[trigger] key(t[a]) == k;
            let a2 = if a < j {
                a
            } else {
                a + 1
            };
            assert(t[a] == s[a2]);
            assert(has_key(s, key, k));
            assert(a2 != j);
        }
        if has_key(s, key, k) && k != key(s[j]) {
            let i = choose|i: int| 0 <= i < s.len() && #[trigger] key(s[i]) == k;
            let a = if i < j {
                i
            } else {
                i - 1
            };
            assert(i != j);
            assert(t[a] == s[i]);
            assert(has_key(t, key, k));
        }
    }
    assert forall|k: Seq<char>| #[trigger] keyed(t, key).contains_key(k) implies keyed(
        t,
        key,
    )[k] == m[k] by {
        let a = choose|a: int| 0 <= a < t.len() && #[trigger] key(t[a]) == k;
        let a2 = if a < j {
            a
        } else {
            a + 1
        };
        assert(t[a] == s[a2]);
        lemma_keyed_at(t, key, a);
        lemma_keyed_at(s, key, a2);
    }
    assert(keyed(t, key) =~= m);
}

/// Filtering keeps a sequence whose elements all pass.
pub proof fn lemma_filter_all<A>(s: Seq<A>, pred: spec_fn(A) -> bool)
    requires
        forall|i: int| 0 <= i < s.len() ==> pred(#[trigger] s[i]),
    ensures
        s.filter(pred) == s,
    decreases s.len(),
{
    reveal(Seq::filter);
    if s.len() > 0 {
        lemma_filter_all(s.drop_last(), pred);
        assert(s.drop_last().push(s.last()) =~= s);
    }
}

/// Filtering out a value that occurs once, at `j`, removes index `j`.
pub proof fn lemma_filter_remove<A>(s: Seq<A>, pred: spec_fn(A) -> bool, j: int)
    requires
        0 <= j < s.len(),
        !pred(s[j]),
        forall|i: int| 0 <= i < s.len() && i != j ==> pred(#[trigger] s[i]),
    ensures
        s.filter(pred) == s.remove(j),
    decreases s.len(),
{
    reveal(Seq::filter);
    let d = s.drop_last();
    if j == s.len() - 1 {
        lemma_filter_all(d, pred);
        assert(s.remove(j) =~= d);
    } else {
        lemma_filter_remove(d, pred, j);
        assert(d.remove(j).push(s.last()) =~= s.remove(j));
    }
}

} // verus!
