//! Lists used as maps: each item has a key, a lookup gives the first item
//! with a key, a store replaces that item (or appends), a removal drops
//! every item with the key.
use vstd::prelude::*;

verus! {

/// The first item whose key is `k`.
pub open spec fn find_by<T, K>(s: Seq<T>, key: spec_fn(T) -> K, k: K) -> Option<T>
    decreases s.len(),
{
    if s.len() == 0 {
        None
    } else if key(s[0]) == k {
        Some(s[0])
    } else {
        find_by(s.drop_first(), key, k)
    }
}

/// The items with `e` stored under its key: in place of the first item with
/// that key, or at the end when there is none.
pub open spec fn upsert_by<T, K>(s: Seq<T>, key: spec_fn(T) -> K, e: T) -> Seq<T>
    decreases s.len(),
{
    if s.len() == 0 {
        seq![e]
    } else if key(s[0]) == key(e) {
        seq![e] + s.drop_first()
    } else {
        seq![s[0]] + upsert_by(s.drop_first(), key, e)
    }
}

/// The items whose key is not `k`.
pub open spec fn remove_by<T, K>(s: Seq<T>, key: spec_fn(T) -> K, k: K) -> Seq<T>
    decreases s.len(),
{
    if s.len() == 0 {
        s
    } else if key(s[0]) == k {
        remove_by(s.drop_first(), key, k)
    } else {
        seq![s[0]] + remove_by(s.drop_first(), key, k)
    }
}

/// What a read gives back of a write: after a store the key gives the
/// stored item and every other key what it gave before; after a removal
/// the key gives nothing and every other key what it gave before.
pub proof fn lemma_find_after_write<T, K>(s: Seq<T>, key: spec_fn(T) -> K, e: T, k: K, x: K)
    ensures
        find_by(upsert_by(s, key, e), key, x) == if x == key(e) {
            Some(e)
        } else {
            find_by(s, key, x)
        },
        find_by(remove_by(s, key, k), key, x) == if x == k {
            None
        } else {
            find_by(s, key, x)
        },
        remove_by(s, key, k).len() <= s.len(),
    decreases s.len(),
{
    if s.len() > 0 {
        lemma_find_after_write(s.drop_first(), key, e, k, x);
    }
    let u = upsert_by(s, key, e);
    if s.len() == 0 {
        assert(u[0] == e);
        assert(u.drop_first() =~= Seq::<T>::empty());
        assert(find_by(u.drop_first(), key, x) is None);
    } else if key(s[0]) != key(e) {
        assert(u[0] == s[0]);
        assert(u.drop_first() =~= upsert_by(s.drop_first(), key, e));
    } else {
        assert(u[0] == e);
        assert(u.drop_first() =~= s.drop_first());
    }
    if s.len() > 0 && key(s[0]) != k {
        let w = remove_by(s, key, k);
        assert(w[0] == s[0]);
        assert(w.drop_first() =~= remove_by(s.drop_first(), key, k));
    }
}

/// A store where the first item with the key is at `i` (or where none has
/// it, `i` being the length) is an update at `i` (or a push).
pub proof fn lemma_upsert_at<T, K>(s: Seq<T>, key: spec_fn(T) -> K, e: T, i: int)
    requires
        0 <= i <= s.len(),
        forall|j: int| 0 <= j < i ==> key(#[trigger] s[j]) != key(e),
        i < s.len() ==> key(s[i]) == key(e),
    ensures
        upsert_by(s, key, e) == if i < s.len() {
            s.update(i, e)
        } else {
            s.push(e)
        },
    decreases s.len(),
{
    if s.len() == 0 {
        assert(s.push(e) =~= seq![e]);
    } else if i == 0 {
        assert(seq![e] + s.drop_first() =~= s.update(0, e));
    } else {
        let t = s.drop_first();
        assert forall|j: int| 0 <= j < i - 1 implies key(#[trigger] t[j]) != key(e) by {
            assert(t[j] == s[j + 1]);
        }
        lemma_upsert_at(t, key, e, i - 1);
        if i < s.len() {
            assert(seq![s[0]] + t.update(i - 1, e) =~= s.update(i, e));
        } else {
            assert(seq![s[0]] + t.push(e) =~= s.push(e));
        }
    }
}

/// The first item with a key found at `i` by a scan from the front.
pub proof fn lemma_find_at<T, K>(s: Seq<T>, key: spec_fn(T) -> K, k: K, i: int)
    requires
        0 <= i <= s.len(),
        forall|j: int| 0 <= j < i ==> key(#[trigger] s[j]) != k,
        i < s.len() ==> key(s[i]) == k,
    ensures
        find_by(s, key, k) == if i < s.len() {
            Some(s[i])
        } else {
            None
        },
    decreases s.len(),
{
    if s.len() > 0 && i > 0 {
        let t = s.drop_first();
        assert forall|j: int| 0 <= j < i - 1 implies key(#[trigger] t[j]) != k by {
            assert(t[j] == s[j + 1]);
        }
        lemma_find_at(t, key, k, i - 1);
    }
}

/// Removing from a list grown at the end.
pub proof fn lemma_remove_push<T, K>(s: Seq<T>, key: spec_fn(T) -> K, x: T, k: K)
    ensures
        remove_by(s.push(x), key, k) == if key(x) == k {
            remove_by(s, key, k)
        } else {
            remove_by(s, key, k).push(x)
        },
    decreases s.len(),
{
    if s.len() == 0 {
        assert(s.push(x).drop_first() =~= s);
        assert(seq![x] + s =~= s.push(x));
    } else {
        assert(s.push(x).drop_first() =~= s.drop_first().push(x));
        lemma_remove_push(s.drop_first(), key, x, k);
        if key(s[0]) != k && key(x) != k {
            assert(seq![s[0]] + remove_by(s.drop_first(), key, k).push(x) =~= (seq![s[0]] + remove_by(
                s.drop_first(),
                key,
                k,
            )).push(x));
        }
    }
}

/// No two items share a key.
pub open spec fn keys_distinct<T, K>(s: Seq<T>, key: spec_fn(T) -> K) -> bool {
    forall|i: int, j: int| 0 <= i < j < s.len() ==> key(#[trigger] s[i]) != key(#[trigger] s[j])
}

proof fn lemma_distinct_cons<T, K>(a: T, t: Seq<T>, key: spec_fn(T) -> K)
    requires
        keys_distinct(t, key),
        forall|j: int| 0 <= j < t.len() ==> key(#[trigger] t[j]) != key(a),
    ensures
        keys_distinct(seq![a] + t, key),
{
    let u = seq![a] + t;
    assert forall|i: int, j: int| 0 <= i < j < u.len() implies key(#[trigger] u[i]) != key(#[trigger] u[j]) by {
        assert(u[j] == t[j - 1]);
        if i > 0 {
            assert(u[i] == t[i - 1]);
        }
    }
}

proof fn lemma_upsert_items<T, K>(s: Seq<T>, key: spec_fn(T) -> K, e: T)
    ensures
        forall|k: int| 0 <= k < upsert_by(s, key, e).len() ==> #[trigger] upsert_by(s, key, e)[k] == e || s.contains(
            upsert_by(s, key, e)[k],
        ),
    decreases s.len(),
{
    let u = upsert_by(s, key, e);
    if s.len() > 0 {
        let t = s.drop_first();
        lemma_upsert_items(t, key, e);
        assert forall|k: int| 0 <= k < u.len() implies #[trigger] u[k] == e || s.contains(u[k]) by {
            if key(s[0]) == key(e) {
                if k > 0 {
                    assert(u[k] == t[k - 1]);
                    assert(s[k] == t[k - 1]);
                }
            } else {
                if k == 0 {
                    assert(s[0] == u[0]);
                } else {
                    let w = upsert_by(t, key, e);
                    assert(u[k] == w[k - 1]);
                    if w[k - 1] != e {
                        let m = choose|m: int| 0 <= m < t.len() && t[m] == w[k - 1];
                        assert(s[m + 1] == t[m]);
                    }
                }
            }
        }
    }
}

proof fn lemma_remove_items<T, K>(s: Seq<T>, key: spec_fn(T) -> K, k0: K)
    ensures
        forall|k: int| 0 <= k < remove_by(s, key, k0).len() ==> s.contains(#[trigger] remove_by(s, key, k0)[k]),
    decreases s.len(),
{
    if s.len() > 0 {
        let t = s.drop_first();
        lemma_remove_items(t, key, k0);
        let r = remove_by(s, key, k0);
        let w = remove_by(t, key, k0);
        assert forall|k: int| 0 <= k < r.len() implies s.contains(#[trigger] r[k]) by {
            if key(s[0]) == k0 {
                assert(r[k] == w[k]);
                let m = choose|m: int| 0 <= m < t.len() && t[m] == w[k];
                assert(s[m + 1] == t[m]);
            } else if k == 0 {
                assert(r[0] == s[0]);
            } else {
                assert(r[k] == w[k - 1]);
                let m = choose|m: int| 0 <= m < t.len() && t[m] == w[k - 1];
                assert(s[m + 1] == t[m]);
            }
        }
    }
}

/// Storing and removing keep the keys distinct.
pub proof fn lemma_writes_keep_keys_distinct<T, K>(s: Seq<T>, key: spec_fn(T) -> K, e: T, k0: K)
    requires
        keys_distinct(s, key),
    ensures
        keys_distinct(upsert_by(s, key, e), key),
        keys_distinct(remove_by(s, key, k0), key),
    decreases s.len(),
{
    if s.len() == 0 {
        assert(upsert_by(s, key, e).len() == 1);
    } else {
        let t = s.drop_first();
        assert(keys_distinct(t, key)) by {
            assert forall|i: int, j: int| 0 <= i < j < t.len() implies key(#[trigger] t[i]) != key(#[trigger] t[j]) by {
                assert(t[i] == s[i + 1] && t[j] == s[j + 1]);
            }
        }
        assert forall|j: int| 0 <= j < t.len() implies key(#[trigger] t[j]) != key(s[0]) by {
            assert(t[j] == s[j + 1]);
        }
        lemma_writes_keep_keys_distinct(t, key, e, k0);
        if key(s[0]) == key(e) {
            lemma_distinct_cons(e, t, key);
        } else {
            let w = upsert_by(t, key, e);
            lemma_upsert_items(t, key, e);
            assert forall|j: int| 0 <= j < w.len() implies key(#[trigger] w[j]) != key(s[0]) by {
                if w[j] != e {
                    let m = choose|m: int| 0 <= m < t.len() && t[m] == w[j];
                }
            }
            lemma_distinct_cons(s[0], w, key);
        }
        if key(s[0]) != k0 {
            let w = remove_by(t, key, k0);
            lemma_remove_items(t, key, k0);
            assert forall|j: int| 0 <= j < w.len() implies key(#[trigger] w[j]) != key(s[0]) by {
                let m = choose|m: int| 0 <= m < t.len() && t[m] == w[j];
            }
            lemma_distinct_cons(s[0], w, key);
        }
    }
}

} // verus!
