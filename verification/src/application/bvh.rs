//! The integer steps of building a bounding-volume hierarchy: partitioning a node's range of
//! triangles into its left-hand and right-hand items, and the ranges of its two children.
//! Which side a triangle goes to is a floating-point decision that the caller makes.
use vstd::prelude::*;
use crate::utils::{le, swap_items, swapped, MinHeap};

verus! {

broadcast use {vstd::seq_lib::group_to_multiset_ensures, vstd::laws_cmp::group_laws_cmp};

/// The state of a partition after its first `k` steps over a range whose items go left where
/// `goes_left` holds: `order[p]` is the slot whose item now stands at slot `p`; `pending` lists
/// the slots of right-hand items still waiting to be exchanged, lowest first; `last` is the
/// slot that last received a left-hand item. Slots count from the start of the range.
///
/// A left-hand item is exchanged with the lowest waiting right-hand item, if any; the
/// right-hand item it displaces waits no more.
pub open spec fn partition_steps(goes_left: Seq<bool>, k: nat) -> (Seq<int>, Seq<int>, int)
    decreases k,
{
    if k == 0 {
        (Seq::new(goes_left.len(), |p: int| p), Seq::empty(), 0)
    } else {
        let (order, pending, last) = partition_steps(goes_left, (k - 1) as nat);
        let i = k - 1;
        if goes_left[i] {
            if pending.len() > 0 {
                (swapped(order, i, pending[0]), pending.drop_first(), pending[0])
            } else {
                (order, pending, i)
            }
        } else {
            (order, pending.push(i), last)
        }
    }
}

/// The waiting slots of `pending`, as positions of the whole sequence.
pub open spec fn waiting_positions(start: int, pending: Seq<int>) -> Seq<usize> {
    pending.map_values(|x: int| (start + x) as usize)
}

/// The waiting slots come in increasing order and lie before slot `k`.
proof fn lemma_partition_steps_pending(goes_left: Seq<bool>, k: nat)
    requires
        k <= goes_left.len(),
    ensures
        ({
            let (order, pending, last) = partition_steps(goes_left, k);
            &&& order.len() == goes_left.len()
            &&& forall|a: int, b: int| 0 <= a < b < pending.len() ==> pending[a] < pending[b]
            &&& forall|a: int| 0 <= a < pending.len() ==> 0 <= #[trigger] pending[a] < k
            &&& 0 <= last
            &&& (last == 0 || last < k)
        }),
    decreases k,
{
    if k > 0 {
        lemma_partition_steps_pending(goes_left, (k - 1) as nat);
    }
}

/// What holds after the first `k` steps of a partition: the slots from `k` on are untouched,
/// the first `k` slots hold the first `k` items in some order, each waiting slot still holds its
/// own right-hand item and lies at or after `last`, every slot after `last` holds a right-hand
/// item, slot `last` holds a left-hand item unless none has been seen, and left-hand items
/// stand in the order they came in.
#[verifier::spinoff_prover]
proof fn lemma_partition_invariants(gl: Seq<bool>, k: nat)
    requires
        k <= gl.len(),
    ensures
        ({
            let (o, q, l) = partition_steps(gl, k);
            let n = gl.len() as int;
            &&& o.len() == n
            &&& forall|p: int| k <= p < n ==> #[trigger] o[p] == p
            &&& forall|p: int| 0 <= p < k ==> 0 <= #[trigger] o[p] < k
            &&& o.no_duplicates()
            &&& forall|a: int, b: int| 0 <= a < b < q.len() ==> q[a] < q[b]
            &&& forall|a: int|
                0 <= a < q.len() ==> 0 <= #[trigger] q[a] < k && o[q[a]] == q[a] && !gl[q[a]] && l <= q[a]
            &&& 0 <= l
            &&& (l == 0 || l < k)
            &&& forall|p: int| l < p < k ==> !gl[#[trigger] o[p]]
            &&& (gl[o[l]] || forall|p: int| 0 <= p < k ==> !#[trigger] gl[p])
            &&& forall|p1: int, p2: int|
                0 <= p1 < p2 < n && gl[#[trigger] o[p1]] && gl[#[trigger] o[p2]] ==> o[p1] < o[p2]
        }),
    decreases k,
{
    let n = gl.len() as int;
    if k == 0 {
        let o = Seq::new(gl.len(), |p: int| p);
        assert(partition_steps(gl, 0).0 == o);
        assert(o.no_duplicates());
    } else {
        let i = k - 1;
        lemma_partition_invariants(gl, (k - 1) as nat);
        let (o, q, l) = partition_steps(gl, (k - 1) as nat);
        let (o2, q2, l2) = partition_steps(gl, k);
        assert(o[i] == i);
        if gl[i] {
            if q.len() > 0 {
                let j = q[0];
                assert(o2 == swapped(o, i, j) && q2 == q.drop_first() && l2 == j);
                assert(o[j] == j && !gl[j] && l <= j && j < i);
                assert(o2[j] == i && o2[i] == j);
                assert forall|p: int| 0 <= p < n && p != i && p != j implies #[trigger] o2[p] == o[p] by {}
                assert forall|p: int| k <= p < n implies #[trigger] o2[p] == p by {}
                assert forall|p: int| 0 <= p < k implies 0 <= #[trigger] o2[p] < k by {
                    if p != i && p != j {
                        assert(o2[p] == o[p]);
                    }
                }
                assert forall|a: int, b: int| 0 <= a < n && 0 <= b < n && a != b implies o2[a] != o2[b] by {
                    if a != i && a != j && b != i && b != j {
                        assert(o[a] != o[b]);
                    } else if a == j && b != i {
                        assert(o2[b] == o[b] && o[b] != o[i]);
                    } else if b == j && a != i {
                        assert(o2[a] == o[a] && o[a] != o[i]);
                    } else if a == i && b != j {
                        assert(o2[b] == o[b] && o[b] != o[j]);
                    } else if b == i && a != j {
                        assert(o2[a] == o[a] && o[a] != o[j]);
                    }
                }
                assert forall|a: int|
                    0 <= a < q2.len() implies 0 <= #[trigger] q2[a] < k && o2[q2[a]] == q2[a] && !gl[q2[a]] && l2
                        <= q2[a] by {
                    assert(q2[a] == q[a + 1]);
                    assert(q[0] < q[a + 1]);
                }
                assert forall|p: int| l2 < p < k implies !gl[#[trigger] o2[p]] by {
                    if p != i {
                        assert(o2[p] == o[p]);
                    }
                }
                assert forall|p1: int, p2: int|
                    0 <= p1 < p2 < n && gl[#[trigger] o2[p1]] && gl[#[trigger] o2[p2]] implies o2[p1] < o2[p2] by {
                    if p1 == j {
                        if p2 < i {
                            assert(o2[p2] == o[p2]);
                        }
                    } else if p2 == j {
                        assert(o2[p1] == o[p1]);
                    } else if p1 == i || p2 == i {
                    } else {
                        assert(o2[p1] == o[p1] && o2[p2] == o[p2]);
                    }
                }
            } else {
                assert(o2 == o && q2 == q && l2 == i);
                assert forall|p1: int, p2: int|
                    0 <= p1 < p2 < n && gl[#[trigger] o2[p1]] && gl[#[trigger] o2[p2]] implies o2[p1] < o2[p2] by {
                    if p2 == i {
                        assert(o[p1] < i);
                    }
                }
            }
        } else {
            assert(o2 == o && q2 == q.push(i) && l2 == l);
            assert forall|a: int|
                0 <= a < q2.len() implies 0 <= #[trigger] q2[a] < k && o2[q2[a]] == q2[a] && !gl[q2[a]] && l2
                    <= q2[a] by {
                if a < q.len() {
                    assert(q2[a] == q[a]);
                }
            }
            assert forall|a: int, b: int| 0 <= a < b < q2.len() implies q2[a] < q2[b] by {
                if b < q.len() {
                    assert(q2[a] == q[a] && q2[b] == q[b]);
                } else {
                    assert(q2[a] == q[a]);
                }
            }
            if !gl[o[l]] {
                assert forall|p: int| 0 <= p < k implies !#[trigger] gl[p] by {
                    if p < i {
                        assert(!gl[p]);
                    }
                }
            }
        }
    }
}

/// What a partition does to its range, whose items go left where `goes_left` holds: it only
/// rearranges the range (every slot keeps one item, no item is lost or doubled); afterwards
/// every slot after the returned one holds an item that goes right, the returned slot holds an
/// item that goes left unless none does, and the items that go left keep the order they came in.
pub proof fn law_partition_separates_the_sides(goes_left: Seq<bool>)
    ensures
        ({
            let (order, pending, last) = partition_steps(goes_left, goes_left.len());
            let n = goes_left.len() as int;
            &&& order.len() == n
            &&& order.no_duplicates()
            &&& forall|p: int| 0 <= p < n ==> 0 <= #[trigger] order[p] < n
            &&& 0 <= last && (n == 0 || last < n)
            &&& forall|p: int| last < p < n ==> !goes_left[#[trigger] order[p]]
            &&& (exists|x: int| 0 <= x < n && #[trigger] goes_left[x]) ==> goes_left[order[last]]
            &&& forall|p1: int, p2: int|
                0 <= p1 < p2 < n && goes_left[#[trigger] order[p1]] && goes_left[#[trigger] order[p2]]
                    ==> order[p1] < order[p2]
        }),
{
    lemma_partition_invariants(goes_left, goes_left.len());
    lemma_partition_steps_pending(goes_left, goes_left.len());
}

/// Partitions the range `start..end` of `items` and `centers` (moved alike): going through the
/// range in order, an item that goes left (`goes_left[i - start]`) is exchanged with the lowest
/// waiting right-hand item, if any, and an item that goes right waits. Returns the position that
/// last received a left-hand item, or `start` if none did. Positions outside the range keep
/// their items.
#[verifier::spinoff_prover]
pub fn partition_range<A, B>(
    items: &mut Vec<A>,
    centers: &mut Vec<B>,
    goes_left: &Vec<bool>,
    start: usize,
    end: usize,
) -> (last_left: usize)
    requires
        start <= end <= old(items)@.len(),
        old(centers)@.len() == old(items)@.len(),
        goes_left@.len() == end - start,
    ensures
        ({
            let (order, pending, last) = partition_steps(goes_left@, (end - start) as nat);
            &&& final(items)@.len() == old(items)@.len()
            &&& final(centers)@.len() == old(centers)@.len()
            &&& forall|p: int|
                0 <= p < old(items)@.len() && !(start <= p < end) ==> #[trigger] final(items)@[p]
                    == old(items)@[p] && final(centers)@[p] == old(centers)@[p]
            &&& forall|p: int|
                start <= p < end ==> #[trigger] final(items)@[p] == old(items)@[start + order[p - start]]
                    && final(centers)@[p] == old(centers)@[start + order[p - start]]
            &&& last_left == start + last
        }),
        start <= last_left <= end,
        start < end ==> last_left < end,
{
    let mut right_indices: MinHeap<usize> = MinHeap::new();
    let mut last_left = start;
    let mut i = start;
    let ghost gl = goes_left@;
    let ghost n = (end - start) as nat;
    proof {
        assert(waiting_positions(start as int, Seq::<int>::empty()).to_multiset() =~= right_indices@);
    }
    while i < end
        invariant
            start <= i <= end <= old(items)@.len(),
            gl == goes_left@,
            gl.len() == n,
            n == end - start,
            items@.len() == old(items)@.len(),
            centers@.len() == old(centers)@.len(),
            old(centers)@.len() == old(items)@.len(),
            right_indices@ == waiting_positions(start as int, partition_steps(gl, (i - start) as nat).1).to_multiset(),
            last_left == start + partition_steps(gl, (i - start) as nat).2,
            forall|p: int|
                0 <= p < old(items)@.len() && !(start <= p < end) ==> #[trigger] items@[p] == old(items)@[p]
                    && centers@[p] == old(centers)@[p],
            forall|p: int|
                start <= p < end ==> #[trigger] items@[p] == old(items)@[start + partition_steps(
                    gl,
                    (i - start) as nat,
                ).0[p - start]] && centers@[p] == old(centers)@[start + partition_steps(
                    gl,
                    (i - start) as nat,
                ).0[p - start]],
        decreases end - i,
    {
        let ghost k = (i - start) as nat;
        proof {
            lemma_partition_steps_pending(gl, k);
        }
        let ghost order = partition_steps(gl, k).0;
        let ghost pending = partition_steps(gl, k).1;
        let ghost w = waiting_positions(start as int, pending);
        let ghost it0 = items@;
        let ghost ce0 = centers@;
        let ghost next = partition_steps(gl, k + 1);
        assert(next == (if gl[k as int] {
            if pending.len() > 0 {
                (swapped(order, k as int, pending[0]), pending.drop_first(), pending[0])
            } else {
                (order, pending, k as int)
            }
        } else {
            (order, pending.push(k as int), partition_steps(gl, k).2)
        }));
        if goes_left[i - start] {
            if !right_indices.is_empty() {
                let ghost before = right_indices@;
                let swap_index = right_indices.pop().unwrap();
                proof {
                    assert(w.contains(swap_index));
                    let m = choose|m: int| 0 <= m < w.len() && w[m] == swap_index;
                    assert(w.contains(w[0]));
                    assert(before.count(w[0]) > 0);
                    assert(le(swap_index, w[0]));
                    if m > 0 {
                        assert(pending[0] < pending[m]);
                    }
                    assert(swap_index == start + pending[0]);
                    assert(w.remove(0) =~= waiting_positions(start as int, pending.drop_first()));
                }
                swap_items(items, i, swap_index);
                swap_items(centers, i, swap_index);
                last_left = swap_index;
                proof {
                    let o2 = next.0;
                    assert(o2 == swapped(order, k as int, pending[0]));
                    assert forall|p: int| start <= p < end implies #[trigger] items@[p]
                        == old(items)@[start + o2[p - start]] && centers@[p] == old(centers)@[start
                        + o2[p - start]] by {
                        if p == i {
                            assert(items@[p] == it0[swap_index as int]);
                            assert(centers@[p] == ce0[swap_index as int]);
                            assert(o2[p - start] == order[pending[0]]);
                        } else if p == swap_index {
                            assert(items@[p] == it0[i as int]);
                            assert(centers@[p] == ce0[i as int]);
                            assert(o2[p - start] == order[k as int]);
                        } else {
                            assert(items@[p] == it0[p]);
                            assert(centers@[p] == ce0[p]);
                            assert(o2[p - start] == order[p - start]);
                        }
                    }
                    assert forall|p: int| 0 <= p < old(items)@.len() && !(start <= p < end) implies
                        #[trigger] items@[p] == old(items)@[p] && centers@[p] == old(centers)@[p] by {
                        assert(items@[p] == it0[p]);
                        assert(centers@[p] == ce0[p]);
                    }
                    assert(right_indices@ == waiting_positions(start as int, next.1).to_multiset());
                    assert(last_left == start + next.2);
                }
            } else {
                last_left = i;
                proof {
                    assert(pending.len() == 0) by {
                        if pending.len() > 0 {
                            assert(w.to_multiset().count(w[0]) > 0);
                        }
                    }
                    assert(next.0 == order && next.1 == pending && next.2 == k);
                }
            }
        } else {
            right_indices.push(i);
            proof {
                assert(w.push(i) =~= waiting_positions(start as int, pending.push(k as int)));
                assert(next.0 == order && next.2 == partition_steps(gl, k).2);
            }
        }
        proof {
            assert forall|p: int| start <= p < end implies #[trigger] items@[p] == old(items)@[start
                + next.0[p - start]] && centers@[p] == old(centers)@[start + next.0[p - start]] by {
                if !(gl[k as int] && pending.len() > 0) {
                    assert(next.0 == order);
                    assert(items@[p] == it0[p]);
                    assert(centers@[p] == ce0[p]);
                }
            }
        }
        i = i + 1;
        assert(partition_steps(gl, (i - start) as nat) == next);
    }
    proof {
        lemma_partition_steps_pending(gl, n);
    }
    last_left
}

/// The ranges, as a first position and a count, of the two children of a node holding the
/// `count` items from `start` on, split at `last_left`: the left child holds the items before
/// `last_left` and the right child the rest; a child that would be empty is `None`.
pub open spec fn spec_child_ranges(start: int, count: int, last_left: int) -> (
    Option<(int, int)>,
    Option<(int, int)>,
) {
    (
        if last_left > start {
            Some((start, last_left - start))
        } else {
            None
        },
        if start + count > last_left {
            Some((last_left, start + count - last_left))
        } else {
            None
        },
    )
}

/// A range held in machine integers, as mathematical integers.
pub open spec fn range_of(r: Option<(usize, usize)>) -> Option<(int, int)> {
    match r {
        Some((s, c)) => Some((s as int, c as int)),
        None => None,
    }
}

/// The ranges of the two children of a node (see `spec_child_ranges`).
pub fn child_ranges(start: usize, count: usize, last_left: usize) -> (r: (
    Option<(usize, usize)>,
    Option<(usize, usize)>,
))
    requires
        start + count <= usize::MAX,
    ensures
        (range_of(r.0), range_of(r.1)) == spec_child_ranges(start as int, count as int, last_left as int),
{
    let end = start + count;
    let left = if last_left > start {
        Some((start, last_left - start))
    } else {
        None
    };
    let right = if end > last_left {
        Some((last_left, end - last_left))
    } else {
        None
    };
    (left, right)
}

/// When the split lies within the node's range, its children tile that range: the left child,
/// if any, starts where the node does, the right child, if any, starts where the left one ends
/// (or where the node starts), and their counts add up to the node's.
pub proof fn law_children_tile_the_range(start: int, count: int, last_left: int)
    requires
        0 <= count,
        start <= last_left <= start + count,
    ensures
        ({
            let (l, r) = spec_child_ranges(start, count, last_left);
            let lc = match l {
                Some((_, c)) => c,
                None => 0,
            };
            let rc = match r {
                Some((_, c)) => c,
                None => 0,
            };
            &&& l matches Some((s, c)) ==> s == start && c > 0
            &&& r matches Some((s, c)) ==> s == start + lc && c > 0
            &&& lc + rc == count
        }),
{
}

} // verus!
