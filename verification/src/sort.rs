//! Deterministic ordering of batched requests.
//!
//! A sorted batch is a permutation of the input that is ordered by the key;
//! items with equal keys may come out in either order. Where the key holds
//! every field of a request, the sorted batch does not depend on the order
//! in which the requests arrived.

use vstd::prelude::*;

verus! {

/// A total preorder on request keys.
pub trait KeyOrder: Sized + Copy {
    /// Whether `self`'s key is at most `other`'s.
    spec fn key_le(self, other: Self) -> bool;

    proof fn key_le_total(a: Self, b: Self)
        ensures
            a.key_le(b) || b.key_le(a),
    ;

    proof fn key_le_transitive(a: Self, b: Self, c: Self)
        requires
            a.key_le(b),
            b.key_le(c),
        ensures
            a.key_le(c),
    ;

    /// Compares two keys.
    fn le(&self, other: &Self) -> (r: bool)
        ensures
            r == self.key_le(*other),
    ;
}

/// Whether `s` is ordered by key.
pub open spec fn sorted_by_key<T: KeyOrder>(s: Seq<T>) -> bool {
    forall|i: int, j: int| 0 <= i < j < s.len() ==> s[i].key_le(s[j])
}

impl KeyOrder for u64 {
    open spec fn key_le(self, other: Self) -> bool {
        self <= other
    }

    proof fn key_le_total(a: Self, b: Self) {
    }

    proof fn key_le_transitive(a: Self, b: Self, c: Self) {
    }

    fn le(&self, other: &Self) -> (r: bool) {
        *self <= *other
    }
}

fn insert_by_key<T: KeyOrder>(out: &mut Vec<T>, x: T)
    requires
        sorted_by_key(old(out)@),
    ensures
        sorted_by_key(final(out)@),
        final(out)@.to_multiset() == old(out)@.to_multiset().insert(x),
{
    let ghost o = out@;
    let mut j: usize = 0;
    while j < out.len() && out[j].le(&x)
        invariant
            out@ == o,
            j <= o.len(),
            forall|k: int| 0 <= k < j ==> #[trigger] o[k].key_le(x),
        decreases out.len() - j,
    {
        j += 1;
    }
    proof {
        if j < o.len() {
            T::key_le_total(o[j as int], x);
        }
    }
    out.insert(j, x);
    proof {
        let n = out@;
        assert(n =~= o.take(j as int).push(x) + o.skip(j as int));
        assert forall|a: int, b: int| 0 <= a < b < n.len() implies n[a].key_le(n[b]) by {
            if b < j {
                assert(n[a] == o[a] && n[b] == o[b]);
            } else if b == j {
                assert(n[a] == o[a]);
            } else if a == j {
                assert(n[b] == o[b - 1]);
                if b - 1 > j {
                    T::key_le_transitive(x, o[j as int], o[b - 1]);
                }
            } else if a < j {
                assert(n[a] == o[a] && n[b] == o[b - 1]);
                if j < o.len() {
                    T::key_le_total(o[j as int], x);
                    if a < j as int && j as int <= b - 1 {
                        if (j as int) < b - 1 {
                            T::key_le_transitive(o[a], x, o[j as int]);
                            T::key_le_transitive(o[a], o[j as int], o[b - 1]);
                        } else {
                            T::key_le_transitive(o[a], x, o[j as int]);
                        }
                    }
                }
            } else {
                assert(n[a] == o[a - 1] && n[b] == o[b - 1]);
            }
        }
        vstd::seq_lib::lemma_multiset_commutative(o.take(j as int).push(x), o.skip(j as int));
        vstd::seq_lib::lemma_multiset_commutative(o.take(j as int), o.skip(j as int));
        assert(o.take(j as int) + o.skip(j as int) =~= o);
        o.take(j as int).to_multiset_ensures();
    }
}

/// Sorts a batch by key (`sort_unstable_by_key`): the result is ordered by
/// key and holds exactly the input's items.
pub fn sort_by_key<T: KeyOrder>(items: &[T]) -> (out: Vec<T>)
    ensures
        sorted_by_key(out@),
        out@.to_multiset() == items@.to_multiset(),
{
    let mut out: Vec<T> = Vec::new();
    let mut i: usize = 0;
    proof {
        assert(items@.take(0) =~= Seq::<T>::empty());
        assert(out@ =~= Seq::<T>::empty());
        Seq::<T>::empty().to_multiset_ensures();
    }
    while i < items.len()
        invariant
            i <= items@.len(),
            sorted_by_key(out@),
            out@.to_multiset() == items@.take(i as int).to_multiset(),
        decreases items.len() - i,
    {
        insert_by_key(&mut out, items[i]);
        proof {
            assert(items@.take(i + 1) =~= items@.take(i as int).push(items@[i as int]));
            items@.take(i as int).to_multiset_ensures();
        }
        i += 1;
    }
    assert(items@.take(items@.len() as int) =~= items@);
    out
}

/// Two items whose keys are each at most the other's are the same item,
/// for any two items of `s`.
pub open spec fn key_antisymmetric_on<T: KeyOrder>(s: Seq<T>) -> bool {
    forall|x: T, y: T| #![trigger x.key_le(y), y.key_le(x)]
        s.contains(x) && s.contains(y) && x.key_le(y) && y.key_le(x) ==> x == y
}

/// Two key-ordered permutations of the same items are the same sequence
/// when the key tells the items apart.
pub proof fn lemma_sorted_permutation_unique<T: KeyOrder>(a: Seq<T>, b: Seq<T>)
    requires
        sorted_by_key(a),
        sorted_by_key(b),
        a.to_multiset() == b.to_multiset(),
        key_antisymmetric_on(a),
    ensures
        a == b,
    decreases a.len(),
{
    broadcast use vstd::seq_lib::group_to_multiset_ensures;

    a.to_multiset_ensures();
    b.to_multiset_ensures();
    if a.len() == 0 {
        assert(b.len() == 0);
        assert(a =~= b);
    } else {
        let x = a[0];
        let y = b[0];
        assert(a.contains(x));
        assert(b.to_multiset().count(x) > 0);
        assert(b.contains(x));
        let j = choose|j: int| 0 <= j < b.len() && b[j] == x;
        T::key_le_total(y, y);
        if j > 0 {
            assert(b[0].key_le(b[j]));
        }
        assert(y.key_le(x));
        assert(b.contains(y));
        assert(a.to_multiset().count(y) > 0);
        assert(a.contains(y));
        let k = choose|k: int| 0 <= k < a.len() && a[k] == y;
        T::key_le_total(x, x);
        if k > 0 {
            assert(a[0].key_le(a[k]));
        }
        assert(x.key_le(y));
        assert(x == y);
        let ta = a.drop_first();
        let tb = b.drop_first();
        assert(a.remove(0) =~= ta);
        assert(b.remove(0) =~= tb);
        assert(ta.to_multiset() == a.to_multiset().remove(x));
        assert(tb.to_multiset() == b.to_multiset().remove(y));
        assert(sorted_by_key(ta)) by {
            assert forall|i: int, l: int| 0 <= i < l < ta.len() implies ta[i].key_le(ta[l]) by {
                assert(ta[i] == a[i + 1] && ta[l] == a[l + 1]);
            }
        }
        assert(sorted_by_key(tb)) by {
            assert forall|i: int, l: int| 0 <= i < l < tb.len() implies tb[i].key_le(tb[l]) by {
                assert(tb[i] == b[i + 1] && tb[l] == b[l + 1]);
            }
        }
        assert(key_antisymmetric_on(ta)) by {
            assert forall|p: T, q: T| ta.contains(p) && ta.contains(q) && p.key_le(q) && q.key_le(p) implies p == q by {
                let ip = choose|i: int| 0 <= i < ta.len() && ta[i] == p;
                let iq = choose|i: int| 0 <= i < ta.len() && ta[i] == q;
                assert(a[ip + 1] == p && a[iq + 1] == q);
                assert(a.contains(p) && a.contains(q));
            }
        }
        lemma_sorted_permutation_unique(ta, tb);
        assert forall|i: int| 0 <= i < a.len() implies a[i] == b[i] by {
            if i > 0 {
                assert(a[i] == ta[i - 1] && b[i] == tb[i - 1]);
            }
        }
        assert(a =~= b);
    }
}

} // verus!
