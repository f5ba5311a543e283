//! The order of byte sequences: that of the dictionary, byte by byte.

use core::cmp::Ordering;
use vstd::prelude::*;

verus! {

/// Whether `a` comes before `b` in the order of the dictionary: at the first place where
/// they differ, `a` has ended or has the smaller byte.
pub open spec fn precedes(a: Seq<u8>, b: Seq<u8>) -> bool {
    exists|k: int|
        #![trigger a.subrange(0, k)]
        {
            &&& 0 <= k <= a.len()
            &&& k < b.len()
            &&& a.subrange(0, k) == b.subrange(0, k)
            &&& (k == a.len() || a[k] < b[k])
        }
}

/// How `a` and `b` are ordered: as the dictionary orders them, byte by byte.
pub open spec fn byte_order(a: Seq<u8>, b: Seq<u8>) -> Ordering {
    if a == b {
        Ordering::Equal
    } else if precedes(a, b) {
        Ordering::Less
    } else {
        Ordering::Greater
    }
}

/// The length of the longest common prefix of `a` and `b`, which settles how the two
/// are ordered.
pub(crate) fn common_prefix(a: &[u8], b: &[u8]) -> (k: usize)
    ensures
        k <= a@.len(),
        k <= b@.len(),
        a@.subrange(0, k as int) == b@.subrange(0, k as int),
        k < a@.len() && k < b@.len() ==> a@[k as int] != b@[k as int],
        a@ == b@ <==> k == a@.len() && k == b@.len(),
        precedes(a@, b@) <==> k < b@.len() && (k == a@.len() || a@[k as int] < b@[k as int]),
        precedes(b@, a@) <==> k < a@.len() && (k == b@.len() || b@[k as int] < a@[k as int]),
{
    let mut k: usize = 0;
    while k < a.len() && k < b.len() && a[k] == b[k]
        invariant
            k <= a@.len(),
            k <= b@.len(),
            a@.subrange(0, k as int) == b@.subrange(0, k as int),
        decreases a@.len() - k,
    {
        k = k + 1;
        assert(a@.subrange(0, k as int) =~= a@.subrange(0, k - 1).push(a@[k - 1]));
        assert(b@.subrange(0, k as int) =~= b@.subrange(0, k - 1).push(b@[k - 1]));
    }
    proof {
        lemma_order_at_first_difference(a@, b@, k as int);
    }
    k
}

/// Two byte sequences that agree up to `n` and differ there, if both go on, are ordered
/// by what stands at `n`.
proof fn lemma_order_at_first_difference(a: Seq<u8>, b: Seq<u8>, n: int)
    requires
        0 <= n <= a.len(),
        n <= b.len(),
        a.subrange(0, n) == b.subrange(0, n),
        n < a.len() && n < b.len() ==> a[n] != b[n],
    ensures
        a == b <==> n == a.len() && n == b.len(),
        precedes(a, b) <==> n < b.len() && (n == a.len() || a[n] < b[n]),
        precedes(b, a) <==> n < a.len() && (n == b.len() || b[n] < a[n]),
{
    if n == a.len() && n == b.len() {
        assert(a =~= a.subrange(0, n));
        assert(b =~= b.subrange(0, n));
    }
    assert forall|j: int| j != n && 0 <= j <= a.len() && j < b.len() && a.subrange(0, j)
        == b.subrange(0, j) && (j == a.len() || a[j] < b[j]) implies false by {
        lemma_prefixes_part(a, b, n, j);
    }
    assert forall|j: int| j != n && 0 <= j <= b.len() && j < a.len() && b.subrange(0, j)
        == a.subrange(0, j) && (j == b.len() || b[j] < a[j]) implies false by {
        lemma_prefixes_part(b, a, n, j);
    }
    if n < b.len() && (n == a.len() || a[n] < b[n]) {
        assert(a.subrange(0, n) == b.subrange(0, n));
    }
    if n < a.len() && (n == b.len() || b[n] < a[n]) {
        assert(b.subrange(0, n) == a.subrange(0, n));
    }
}

/// Two sequences cannot part ways at two different places.
proof fn lemma_prefixes_part(a: Seq<u8>, b: Seq<u8>, n: int, j: int)
    requires
        0 <= n <= a.len(),
        n <= b.len(),
        a.subrange(0, n) == b.subrange(0, n),
        n < a.len() && n < b.len() ==> a[n] != b[n],
        0 <= j <= a.len(),
        j < b.len(),
        a.subrange(0, j) == b.subrange(0, j),
        j == a.len() || a[j] < b[j],
    ensures
        j == n,
{
    if j < n {
        assert(a[j] == a.subrange(0, n)[j]);
        assert(b[j] == b.subrange(0, n)[j]);
    } else if n < j {
        assert(a[n] == a.subrange(0, j)[n]);
        assert(b[n] == b.subrange(0, j)[n]);
    }
}

/// Walks the common prefix of `a` and `b` from `n` on, to the place where they part.
proof fn lemma_order_from(a: Seq<u8>, b: Seq<u8>, n: int)
    requires
        0 <= n <= a.len(),
        n <= b.len(),
        a.subrange(0, n) == b.subrange(0, n),
    ensures
        a == b ==> !precedes(a, b) && !precedes(b, a),
        a != b ==> (precedes(a, b) <==> !precedes(b, a)),
    decreases a.len() - n,
{
    if n < a.len() && n < b.len() && a[n] == b[n] {
        assert(a.subrange(0, n + 1) =~= a.subrange(0, n).push(a[n]));
        assert(b.subrange(0, n + 1) =~= b.subrange(0, n).push(b[n]));
        lemma_order_from(a, b, n + 1);
    } else {
        lemma_order_at_first_difference(a, b, n);
    }
}

/// Of two byte sequences exactly one holds: they are equal, the first precedes the
/// second, or the second precedes the first. So [`byte_order`] is `Less` one way round
/// exactly when it is `Greater` the other way round.
pub proof fn lemma_order_is_total(a: Seq<u8>, b: Seq<u8>)
    ensures
        a == b ==> !precedes(a, b) && !precedes(b, a),
        a != b ==> (precedes(a, b) <==> !precedes(b, a)),
        byte_order(a, b) is Equal <==> a == b,
        byte_order(a, b) is Less <==> byte_order(b, a) is Greater,
{
    assert(a.subrange(0, 0) =~= b.subrange(0, 0));
    lemma_order_from(a, b, 0);
}

/// What precedes a sequence also precedes everything that the sequence precedes.
pub proof fn lemma_order_is_transitive(a: Seq<u8>, b: Seq<u8>, c: Seq<u8>)
    requires
        precedes(a, b),
        precedes(b, c),
    ensures
        precedes(a, c),
{
    let i = choose|k: int|
        #![trigger a.subrange(0, k)]
        {
            &&& 0 <= k <= a.len()
            &&& k < b.len()
            &&& a.subrange(0, k) == b.subrange(0, k)
            &&& (k == a.len() || a[k] < b[k])
        };
    let j = choose|k: int|
        #![trigger b.subrange(0, k)]
        {
            &&& 0 <= k <= b.len()
            &&& k < c.len()
            &&& b.subrange(0, k) == c.subrange(0, k)
            &&& (k == b.len() || b[k] < c[k])
        };
    let k = if i <= j {
        i
    } else {
        j
    };
    assert forall|m: int| 0 <= m < k implies a[m] == c[m] by {
        assert(a[m] == a.subrange(0, i)[m]);
        assert(b[m] == b.subrange(0, i)[m]);
        assert(b[m] == b.subrange(0, j)[m]);
        assert(c[m] == c.subrange(0, j)[m]);
    }
    assert(a.subrange(0, k) =~= c.subrange(0, k));
    if j < i {
        assert(a[j] == a.subrange(0, i)[j]);
        assert(b[j] == b.subrange(0, i)[j]);
    } else if i < j {
        assert(b[i] == b.subrange(0, j)[i]);
        assert(c[i] == c.subrange(0, j)[i]);
    }
}

} // verus!
