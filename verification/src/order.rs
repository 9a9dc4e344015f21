//! The lexicographic order on byte sequences, by which streams are compared.

use vstd::prelude::*;

verus! {

/// How one byte sequence stands to another.
#[derive(Clone, Copy, Debug, PartialEq, Eq, Structural)]
pub enum Order {
    /// It comes first.
    Less,
    /// They are the same.
    Equal,
    /// It comes last.
    Greater,
}

/// `a` comes before `b`, as seen at index `k`: both agree on their first `k`
/// bytes, and there `a` ends while `b` goes on, or holds the smaller byte.
pub open spec fn precedes_at(a: Seq<u8>, b: Seq<u8>, k: int) -> bool {
    &&& 0 <= k <= a.len()
    &&& k < b.len()
    &&& a.take(k) == b.take(k)
    &&& (k == a.len() || a[k] < b[k])
}

/// `a` comes before `b` in lexicographic order.
pub open spec fn precedes(a: Seq<u8>, b: Seq<u8>) -> bool {
    exists|k: int| precedes_at(a, b, k)
}

/// How `a` stands to `b` in lexicographic order.
pub open spec fn order(a: Seq<u8>, b: Seq<u8>) -> Order {
    if a == b {
        Order::Equal
    } else if precedes(a, b) {
        Order::Less
    } else {
        Order::Greater
    }
}

/// Two sequences that agree on their first `k` bytes are ordered by what
/// follows: by their lengths where one of them ends at `k`, and else by
/// their bytes at `k` where these differ.
pub proof fn lemma_decided_at(a: Seq<u8>, b: Seq<u8>, k: int)
    requires
        0 <= k <= a.len(),
        k <= b.len(),
        a.take(k) == b.take(k),
    ensures
        k == a.len() && k == b.len() ==> order(a, b) == Order::Equal,
        k == a.len() && k < b.len() ==> order(a, b) == Order::Less,
        k < a.len() && k == b.len() ==> order(a, b) == Order::Greater,
        k < a.len() && k < b.len() && a[k] < b[k] ==> order(a, b) == Order::Less,
        k < a.len() && k < b.len() && a[k] > b[k] ==> order(a, b) == Order::Greater,
{
    if k == a.len() && k == b.len() {
        assert(a.take(k) == a);
        assert(b.take(k) == b);
    } else if k == a.len() || (k < b.len() && a[k] < b[k]) {
        assert(precedes_at(a, b, k));
    } else if k == b.len() || a[k] > b[k] {
        assert forall|j: int| !precedes_at(a, b, j) by {
            if precedes_at(a, b, j) {
                if j < k {
                    assert(a[j] == a.take(k)[j] && b[j] == b.take(k)[j]);
                } else if j > k {
                    assert(a[k] == a.take(j)[k] && b[k] == b.take(j)[k]);
                }
            }
        }
    }
}

/// An index up to which `a` and `b` agree, and at which one of them ends or
/// their bytes differ.
pub proof fn first_difference(a: Seq<u8>, b: Seq<u8>) -> (k: int)
    ensures
        0 <= k <= a.len(),
        k <= b.len(),
        a.take(k) == b.take(k),
        k == a.len() || k == b.len() || a[k] != b[k],
{
    assert(a.take(0) == b.take(0));
    first_difference_from(a, b, 0)
}

proof fn first_difference_from(a: Seq<u8>, b: Seq<u8>, start: int) -> (k: int)
    requires
        0 <= start <= a.len(),
        start <= b.len(),
        a.take(start) == b.take(start),
    ensures
        start <= k <= a.len(),
        k <= b.len(),
        a.take(k) == b.take(k),
        k == a.len() || k == b.len() || a[k] != b[k],
    decreases a.len() - start,
{
    if start == a.len() || start == b.len() || a[start] != b[start] {
        start
    } else {
        assert(a.take(start + 1) == a.take(start).push(a[start]));
        assert(b.take(start + 1) == b.take(start).push(b[start]));
        first_difference_from(a, b, start + 1)
    }
}

/// Any two sequences are ordered, and one way only: `a` stands to `b` as
/// `b` stands to `a`, the other way round.
pub proof fn lemma_order_is_total(a: Seq<u8>, b: Seq<u8>)
    ensures
        order(a, b) == Order::Equal <==> a == b,
        order(a, b) == Order::Less <==> precedes(a, b),
        order(a, b) == Order::Greater <==> precedes(b, a),
        order(a, b) == Order::Less <==> order(b, a) == Order::Greater,
        order(a, b) == Order::Equal <==> order(b, a) == Order::Equal,
        !(precedes(a, b) && precedes(b, a)),
        !precedes(a, a),
{
    let k = first_difference(a, b);
    lemma_decided_at(a, b, k);
    lemma_decided_at(b, a, k);
}

/// The order is transitive.
pub proof fn lemma_order_is_transitive(a: Seq<u8>, b: Seq<u8>, c: Seq<u8>)
    requires
        precedes(a, b),
        precedes(b, c),
    ensures
        precedes(a, c),
{
    let i = choose|i: int| precedes_at(a, b, i);
    let j = choose|j: int| precedes_at(b, c, j);
    let m = if i <= j { i } else { j };
    assert(a.take(m) == a.take(i).take(m));
    assert(b.take(m) == b.take(i).take(m));
    assert(b.take(m) == b.take(j).take(m));
    assert(c.take(m) == c.take(j).take(m));
    if i < j {
        assert(b[i] == b.take(j)[i] && c[i] == c.take(j)[i]);
    } else if j < i {
        assert(a[j] == a.take(i)[j] && b[j] == b.take(i)[j]);
    }
    assert(precedes_at(a, c, m));
}

/// Finds how `a` stands to `b` in lexicographic order.
pub fn order_of(a: &[u8], b: &[u8]) -> (found: Order)
    ensures
        found == order(a@, b@),
{
    let mut i: usize = 0;
    while i < a.len() && i < b.len()
        invariant
            i <= a@.len(),
            i <= b@.len(),
            a@.take(i as int) == b@.take(i as int),
        decreases a@.len() - i,
    {
        if a[i] != b[i] {
            proof {
                lemma_decided_at(a@, b@, i as int);
            }
            return if a[i] < b[i] {
                Order::Less
            } else {
                Order::Greater
            };
        }
        i += 1;
    }
    proof {
        lemma_decided_at(a@, b@, i as int);
    }
    if i < b.len() {
        Order::Less
    } else if i < a.len() {
        Order::Greater
    } else {
        Order::Equal
    }
}

} // verus!
