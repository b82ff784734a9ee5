//! Small shared utilities: a min-priority queue and GPU-facing counters.
use vstd::prelude::*;
use rand::Rng;
use std::cmp::Ordering;
use vstd::laws_cmp::{
    obeys_cmp, obeys_cmp_ord, obeys_cmp_partial_ord, obeys_partial_cmp_spec_properties,
};
use vstd::laws_eq::{obeys_concrete_eq, obeys_eq_spec_properties};
use vstd::multiset::Multiset;
use vstd::std_specs::cmp::{OrdSpec, PartialEqSpec, PartialOrdIs, PartialOrdSpec};

pub mod mesh;
pub mod vector;

verus! {

broadcast use vstd::seq_lib::group_to_multiset_ensures;

/// A count of entities, laid out as the GPU reads it.
#[derive(Debug, Clone, Copy)]
pub struct EntityCount {
    pub count: u32,
}

/// One value drawn from the thread's random generator (`rand::thread_rng().gen::<u32>()`).
/// The value depends on the generator's state, so nothing is claimed of it: any `u32` may come.
#[verifier::external_body]
fn random_u32() -> u32 {
    rand::thread_rng().gen()
}

/// A random identifier; every `u32` is possible.
pub fn generate_random_id() -> u32 {
    random_u32()
}

/// `T`'s `Ord` and `PartialOrd` agree with each other and with a total order, in which two
/// items tie exactly when `T`'s `==` calls them equal. All the integer types meet this.
pub open spec fn lawful_order<T: Ord>() -> bool {
    obeys_cmp::<T>()
}

/// `a` comes no later than `b` in `T`'s order.
pub open spec fn le<T: PartialOrd>(a: T, b: T) -> bool {
    a.is_le(&b)
}

/// `a` comes strictly before `b` in `T`'s order.
pub open spec fn lt<T: PartialOrd>(a: T, b: T) -> bool {
    a.is_lt(&b)
}

/// Of two items of a lawful `T`, exactly one of: the first comes before, they tie, or the
/// second comes before.
proof fn lemma_trichotomy<T: Ord>(a: T, b: T)
    requires
        lawful_order::<T>(),
    ensures
        a.partial_cmp_spec(&b) == Some(Ordering::Less) || a.partial_cmp_spec(&b) == Some(Ordering::Equal)
            || a.partial_cmp_spec(&b) == Some(Ordering::Greater),
        a.partial_cmp_spec(&b) == Some(Ordering::Less) <==> b.partial_cmp_spec(&a) == Some(Ordering::Greater),
        a.partial_cmp_spec(&b) == Some(Ordering::Equal) <==> b.partial_cmp_spec(&a) == Some(Ordering::Equal),
        a.partial_cmp_spec(&b) == Some(Ordering::Equal) <==> a.eq_spec(&b),
{
    reveal(obeys_cmp_ord);
    reveal(obeys_cmp_partial_ord);
    reveal(obeys_partial_cmp_spec_properties);
    assert(a.partial_cmp_spec(&b) == Some(a.cmp_spec(&b)));
    assert(a.eq_spec(&b) <==> b.eq_spec(&a));
    assert(b.partial_cmp_spec(&a) == Some(Ordering::Less) <==> a.partial_cmp_spec(&b) == Some(
        Ordering::Greater,
    ));
}

/// Strict precedence of a lawful `T` is transitive.
proof fn lemma_lt_trans<T: Ord>(a: T, b: T, c: T)
    requires
        lawful_order::<T>(),
        lt(a, b),
        lt(b, c),
    ensures
        lt(a, c),
{
    reveal(obeys_partial_cmp_spec_properties);
    assert(a.partial_cmp_spec(&b) == Some(Ordering::Less) && b.partial_cmp_spec(&c) == Some(
        Ordering::Less,
    ));
}

/// The facts of a total order that the heap relies on, for a lawful `T`.
pub proof fn lemma_total_order<T: Ord>()
    requires
        lawful_order::<T>(),
    ensures
        T::obeys_partial_cmp_spec(),
        forall|a: T| #[trigger] le(a, a),
        forall|a: T, b: T| #[trigger] lt(a, b) ==> le(a, b),
        forall|a: T, b: T| !(#[trigger] lt(a, b)) ==> le(b, a),
        forall|a: T, b: T| #[trigger] lt(a, b) ==> !le(b, a),
        forall|a: T, b: T, c: T| #[trigger] le(a, b) && #[trigger] le(b, c) ==> le(a, c),
        forall|a: T, b: T, c: T| #[trigger] lt(a, b) && #[trigger] le(b, c) ==> lt(a, c),
{
    reveal(obeys_cmp_partial_ord);
    reveal(obeys_eq_spec_properties);
    assert forall|a: T| #[trigger] le(a, a) by {
        lemma_trichotomy(a, a);
    }
    assert forall|a: T, b: T| !(#[trigger] lt(a, b)) implies le(b, a) by {
        lemma_trichotomy(a, b);
        lemma_trichotomy(b, a);
    }
    assert forall|a: T, b: T| #[trigger] lt(a, b) implies !le(b, a) by {
        lemma_trichotomy(a, b);
    }
    assert forall|a: T, b: T, c: T| #[trigger] lt(a, b) && #[trigger] le(b, c) implies lt(a, c) by {
        lemma_trichotomy(a, b);
        lemma_trichotomy(b, c);
        lemma_trichotomy(a, c);
        if lt(b, c) {
            lemma_lt_trans(a, b, c);
        } else if !lt(a, c) {
            assert(b.eq_spec(&c));
            if a.eq_spec(&c) {
                assert(c.eq_spec(&b));
                assert(a.eq_spec(&b));
            } else {
                assert(lt(c, a));
                lemma_lt_trans(c, a, b);
                lemma_trichotomy(c, b);
                assert(c.eq_spec(&b));
            }
        }
    }
    assert forall|a: T, b: T, c: T| #[trigger] le(a, b) && #[trigger] le(b, c) implies le(a, c) by {
        lemma_trichotomy(a, b);
        lemma_trichotomy(b, c);
        lemma_trichotomy(a, c);
        if lt(a, b) {
            if lt(b, c) {
                lemma_lt_trans(a, b, c);
            } else if !lt(a, c) {
                assert(b.eq_spec(&c));
                if a.eq_spec(&c) {
                    assert(c.eq_spec(&b));
                    assert(a.eq_spec(&b));
                } else {
                    assert(lt(c, a));
                    lemma_lt_trans(c, a, b);
                    lemma_trichotomy(c, b);
                    assert(c.eq_spec(&b));
                }
            }
        } else {
            assert(a.eq_spec(&b));
            if lt(b, c) {
                if a.eq_spec(&c) {
                    assert(b.eq_spec(&a));
                    assert(b.eq_spec(&c));
                } else if !lt(a, c) {
                    assert(lt(c, a));
                    lemma_lt_trans(b, c, a);
                    lemma_trichotomy(b, a);
                    assert(b.eq_spec(&a));
                }
            } else {
                assert(b.eq_spec(&c));
                assert(a.eq_spec(&c));
            }
        }
    }
}

/// Index of the parent of heap slot `i`.
pub open spec fn parent(i: int) -> int {
    (i - 1) / 2
}

/// Every slot but the root holds an item no earlier than its parent's.
pub open spec fn heap_ordered<T: PartialOrd>(s: Seq<T>) -> bool {
    forall|i: int| #![trigger s[i]] 1 <= i < s.len() ==> le(s[parent(i)], s[i])
}

/// The heap order holds everywhere except between slot `h` and its parent; and the parent of
/// `h`, if any, is no later than the children of `h`. This is the state while an item climbs.
pub open spec fn heap_ordered_above<T: PartialOrd>(s: Seq<T>, h: int) -> bool {
    &&& forall|i: int| #![trigger s[i]] 1 <= i < s.len() && i != h ==> le(s[parent(i)], s[i])
    &&& forall|i: int|
        #![trigger s[i]]
        1 <= i < s.len() && parent(i) == h && h > 0 ==> le(s[parent(h)], s[i])
}

/// The heap order holds everywhere except between slot `h` and its children; and the parent
/// of `h`, if any, is no later than the children of `h`. This is the state while an item sinks.
pub open spec fn heap_ordered_below<T: PartialOrd>(s: Seq<T>, h: int) -> bool {
    &&& forall|i: int| #![trigger s[i]] 1 <= i < s.len() && parent(i) != h ==> le(s[parent(i)], s[i])
    &&& forall|i: int|
        #![trigger s[i]]
        1 <= i < s.len() && parent(i) == h && h > 0 ==> le(s[parent(h)], s[i])
}

/// In a heap-ordered sequence the first item is no later than any other.
pub proof fn lemma_root_is_least<T: Ord>(s: Seq<T>, j: int)
    requires
        lawful_order::<T>(),
        heap_ordered(s),
        0 <= j < s.len(),
    ensures
        le(s[0], s[j]),
    decreases j,
{
    lemma_total_order::<T>();
    if j > 0 {
        lemma_root_is_least(s, parent(j));
        assert(le(s[parent(j)], s[j]));
    }
}

/// `s` with the items at `i` and `j` exchanged.
pub open spec fn swapped<T>(s: Seq<T>, i: int, j: int) -> Seq<T> {
    s.update(i, s[j]).update(j, s[i])
}

pub(crate) proof fn lemma_swap_keeps_items<T>(s: Seq<T>, i: int, j: int)
    requires
        0 <= i < s.len(),
        0 <= j < s.len(),
    ensures
        swapped(s, i, j).to_multiset() == s.to_multiset(),
{
    broadcast use vstd::multiset::group_multiset_axioms;
    let t = s.update(i, s[j]);
    assert(t.to_multiset() == s.to_multiset().insert(s[j]).remove(s[i]));
    assert(swapped(s, i, j).to_multiset() == t.to_multiset().insert(s[i]).remove(t[j]));
    assert(swapped(s, i, j).to_multiset() =~= s.to_multiset());
}

/// Exchanges the items at `a` and `b` (`<[T]>::swap`).
#[verifier::external_body]
pub(crate) fn swap_items<T>(v: &mut Vec<T>, a: usize, b: usize)
    requires
        a < old(v).len(),
        b < old(v).len(),
    ensures
        final(v)@ == swapped(old(v)@, a as int, b as int),
{
    v.swap(a, b);
}

/// Moves the item at `start` up towards the root until its parent is no later than it.
fn sift_up<T: Ord>(v: &mut Vec<T>, start: usize)
    requires
        start < old(v).len(),
        lawful_order::<T>() ==> heap_ordered_above(old(v)@, start as int),
    ensures
        final(v)@.to_multiset() == old(v)@.to_multiset(),
        final(v)@.len() == old(v)@.len(),
        lawful_order::<T>() ==> heap_ordered(final(v)@),
{
    let mut h = start;
    while h > 0
        invariant
            h < v.len(),
            v@.len() == old(v)@.len(),
            v@.to_multiset() == old(v)@.to_multiset(),
            lawful_order::<T>() ==> heap_ordered_above(v@, h as int),
        ensures
            v@.len() == old(v)@.len(),
            v@.to_multiset() == old(v)@.to_multiset(),
            lawful_order::<T>() ==> heap_ordered(v@),
        decreases h,
    {
        let p = (h - 1) / 2;
        if v[h] < v[p] {
            proof {
                lemma_swap_keeps_items(v@, h as int, p as int);
                if lawful_order::<T>() {
                    lemma_total_order::<T>();
                    assert(lt(v@[h as int], v@[p as int]));
                }
            }
            let ghost s = v@;
            swap_items(v, h, p);
            proof {
                if lawful_order::<T>() {
                    lemma_total_order::<T>();
                    let t = v@;
                    assert forall|i: int| #![trigger t[i]]
                        1 <= i < t.len() && i != p ==> le(t[parent(i)], t[i]) by {
                        if 1 <= i < t.len() && i != p {
                            if i == h {
                            } else if parent(i) == h {
                                assert(s[i] == t[i]);
                            } else if parent(i) == p as int {
                                assert(s[i] == t[i]);
                                assert(le(s[p as int], s[i]));
                            } else if i == p {
                            } else {
                                assert(s[i] == t[i]);
                                assert(s[parent(i)] == t[parent(i)]);
                            }
                        }
                    }
                    assert forall|i: int| #![trigger t[i]]
                        1 <= i < t.len() && parent(i) == p && p > 0 ==> le(t[parent(p as int)], t[i]) by {
                        if 1 <= i < t.len() && parent(i) == p && p > 0 {
                            assert(le(s[parent(p as int)], s[p as int]));
                            if i != h {
                                assert(s[i] == t[i]);
                                assert(le(s[p as int], s[i]));
                            }
                        }
                    }
                }
            }
            h = p;
        } else {
            proof {
                if lawful_order::<T>() {
                    lemma_total_order::<T>();
                    assert(!lt(v@[h as int], v@[p as int]));
                    assert(le(v@[p as int], v@[h as int]));
                }
            }
            break;
        }
    }
}

/// Moves the item at `start` down, swapping it with its earlier child, until no child comes
/// before it.
fn sift_down<T: Ord>(v: &mut Vec<T>, start: usize)
    requires
        start < old(v).len(),
        lawful_order::<T>() ==> heap_ordered_below(old(v)@, start as int),
    ensures
        final(v)@.to_multiset() == old(v)@.to_multiset(),
        final(v)@.len() == old(v)@.len(),
        lawful_order::<T>() ==> heap_ordered(final(v)@),
{
    let n = v.len();
    let mut h = start;
    loop
        invariant
            h < n,
            n == v.len(),
            v@.len() == old(v)@.len(),
            v@.to_multiset() == old(v)@.to_multiset(),
            lawful_order::<T>() ==> heap_ordered_below(v@, h as int),
        ensures
            v@.len() == old(v)@.len(),
            v@.to_multiset() == old(v)@.to_multiset(),
            lawful_order::<T>() ==> heap_ordered(v@),
        decreases n - h,
    {
        if h >= n / 2 {
            proof {
                if lawful_order::<T>() {
                    let s = v@;
                    assert forall|i: int| #![trigger s[i]] 1 <= i < s.len() implies le(s[parent(i)], s[i]) by {
                        assert(parent(i) != h);
                    }
                }
            }
            break;
        }
        let l = 2 * h + 1;
        let r = l + 1;
        let m = if r < n && v[r] < v[l] {
            r
        } else {
            l
        };
        let ghost s = v@;
        proof {
            if lawful_order::<T>() {
                lemma_total_order::<T>();
                assert(parent(l as int) == h);
                assert(r < n ==> parent(r as int) == h);
                if m == r {
                    assert(le(s[r as int], s[r as int]));
                    assert(lt(s[r as int], s[l as int]));
                } else if r < n {
                    assert(!lt(s[r as int], s[l as int]));
                    assert(le(s[l as int], s[r as int]));
                }
                assert(le(s[m as int], s[m as int]));
                assert(r < n ==> le(s[m as int], s[r as int]));
                assert(le(s[m as int], s[l as int]));
            }
        }
        if v[m] < v[h] {
            proof {
                lemma_swap_keeps_items(v@, h as int, m as int);
            }
            swap_items(v, h, m);
            proof {
                if lawful_order::<T>() {
                    lemma_total_order::<T>();
                    let t = v@;
                    assert(lt(s[m as int], s[h as int]));
                    assert forall|i: int| #![trigger t[i]]
                        1 <= i < t.len() && parent(i) != m ==> le(t[parent(i)], t[i]) by {
                        if 1 <= i < t.len() && parent(i) != m {
                            if i == m {
                            } else if i == l || i == r {
                                assert(t[i] == s[i]);
                            } else if i == h {
                                assert(parent(m as int) == h);
                            } else {
                                assert(t[i] == s[i]);
                                assert(parent(i) != h);
                                assert(t[parent(i)] == s[parent(i)]);
                            }
                        }
                    }
                    assert forall|i: int| #![trigger t[i]]
                        1 <= i < t.len() && parent(i) == m && m > 0 ==> le(t[parent(m as int)], t[i]) by {
                        if 1 <= i < t.len() && parent(i) == m && m > 0 {
                            assert(t[i] == s[i]);
                            assert(parent(i) != h);
                        }
                    }
                }
            }
            h = m;
        } else {
            proof {
                if lawful_order::<T>() {
                    lemma_total_order::<T>();
                    assert(!lt(s[m as int], s[h as int]));
                    assert(le(s[h as int], s[m as int]));
                    assert forall|i: int| #![trigger s[i]] 1 <= i < s.len() implies le(s[parent(i)], s[i]) by {
                        if parent(i) == h {
                            assert(i == l || i == r);
                        }
                    }
                }
            }
            break;
        }
    }
}

/// `x` is in `m` and no item of `m` comes before it.
pub open spec fn least_of<T: PartialOrd>(m: Multiset<T>, x: T) -> bool {
    &&& m.count(x) > 0
    &&& forall|y: T| m.count(y) > 0 ==> le(x, y)
}

/// A queue holds one least item only, up to `T`'s equality: two least items are equal by `==`,
/// and where `==` is identity they are the same value.
pub proof fn law_least_is_unique<T: Ord>(m: Multiset<T>, x: T, y: T)
    requires
        lawful_order::<T>(),
        least_of(m, x),
        least_of(m, y),
    ensures
        x.eq_spec(&y),
        obeys_concrete_eq::<T>() ==> x == y,
{
    lemma_total_order::<T>();
    lemma_trichotomy(x, y);
    reveal(obeys_concrete_eq);
    assert(le(x, y) && le(y, x));
    if lt(x, y) {
        assert(!le(y, x));
    }
}

/// Items come out of the queue in order: the item popped after another is no earlier.
pub proof fn law_pops_come_in_order<T: Ord>(m: Multiset<T>, x: T, y: T)
    requires
        lawful_order::<T>(),
        least_of(m, x),
        least_of(m.remove(x), y),
    ensures
        le(x, y),
{
    broadcast use vstd::multiset::group_multiset_axioms;
    assert(m.remove(x).count(y) > 0);
    if y == x {
        lemma_total_order::<T>();
    } else {
        assert(m.count(y) > 0);
    }
}

/// A queue that was given a single item hands that item back.
pub proof fn law_single_item_comes_back<T: Ord>(x: T, y: T)
    requires
        least_of(Multiset::<T>::empty().insert(x), y),
    ensures
        y == x,
{
    broadcast use vstd::multiset::group_multiset_axioms;
}

/// A priority queue that hands out its least item first.
pub struct MinHeap<T: Ord> {
    heap: Vec<T>,
}

impl<T: Ord> View for MinHeap<T> {
    type V = Multiset<T>;

    /// The items in the queue, each as often as it was pushed and not popped.
    closed spec fn view(&self) -> Multiset<T> {
        self.heap@.to_multiset()
    }
}

impl<T: Ord> MinHeap<T> {
    /// For a lawful order the items are kept as a binary heap: no item comes before its parent.
    #[verifier::type_invariant]
    closed spec fn inv(self) -> bool {
        lawful_order::<T>() ==> heap_ordered(self.heap@)
    }

    /// `x` is an item of the queue that no other item of it comes before.
    pub open spec fn is_least(self, x: T) -> bool {
        least_of(self@, x)
    }

    /// The item at the head of a non-empty queue: the one `peek` shows and `pop` takes out.
    pub closed spec fn front(self) -> T {
        self.heap@[0]
    }

    pub fn new() -> (r: Self)
        ensures
            r@ == Multiset::<T>::empty(),
    {
        let r = MinHeap { heap: Vec::new() };
        proof {
            assert(r.heap@.to_multiset() =~= Multiset::<T>::empty());
        }
        r
    }

    pub fn push(&mut self, item: T)
        ensures
            final(self)@ == old(self)@.insert(item),
    {
        proof {
            use_type_invariant(&*self);
        }
        let mut h: Vec<T> = Vec::new();
        std::mem::swap(&mut h, &mut self.heap);
        let ghost before = h@;
        h.push(item);
        proof {
            if lawful_order::<T>() {
                let s = h@;
                assert forall|i: int| #![trigger s[i]]
                    1 <= i < s.len() && i != s.len() - 1 ==> le(s[parent(i)], s[i]) by {
                    if 1 <= i < s.len() && i != s.len() - 1 {
                        assert(s[i] == before[i]);
                        assert(s[parent(i)] == before[parent(i)]);
                    }
                }
            }
        }
        let last = h.len() - 1;
        sift_up(&mut h, last);
        self.heap = h;
    }

    pub fn pop(&mut self) -> (r: Option<T>)
        ensures
            old(self)@.len() == 0 ==> r is None && final(self)@ == old(self)@,
            old(self)@.len() > 0 ==> r == Some(old(self).front()) && old(self)@.count(r->0) > 0
                && final(self)@ == old(self)@.remove(r->0),
            lawful_order::<T>() && r is Some ==> old(self).is_least(r->0),
    {
        proof {
            use_type_invariant(&*self);
        }
        if self.heap.len() == 0 {
            return None;
        }
        let mut h: Vec<T> = Vec::new();
        std::mem::swap(&mut h, &mut self.heap);
        let ghost s = h@;
        let last = h.len() - 1;
        proof {
            lemma_swap_keeps_items(s, 0, last as int);
            if lawful_order::<T>() {
                assert forall|y: T| s.to_multiset().count(y) > 0 implies le(s[0], y) by {
                    let j = choose|j: int| 0 <= j < s.len() && s[j] == y;
                    lemma_root_is_least(s, j);
                }
            }
        }
        swap_items(&mut h, 0, last);
        let ghost t = h@;
        let x = h.pop().unwrap();
        proof {
            assert(t.drop_last() =~= t.remove(last as int));
            assert(x == s[0]);
            if lawful_order::<T>() && h.len() > 0 {
                let u = h@;
                assert forall|i: int| #![trigger u[i]]
                    1 <= i < u.len() && parent(i) != 0 ==> le(u[parent(i)], u[i]) by {
                    if 1 <= i < u.len() && parent(i) != 0 {
                        assert(u[i] == s[i]);
                        assert(u[parent(i)] == s[parent(i)]);
                    }
                }
            }
        }
        if h.len() > 0 {
            sift_down(&mut h, 0);
        }
        self.heap = h;
        Some(x)
    }

    pub fn peek(&self) -> (r: Option<&T>)
        ensures
            self@.len() == 0 ==> r is None,
            self@.len() > 0 ==> r is Some && *r->0 == self.front() && self@.count(*r->0) > 0,
            lawful_order::<T>() && r is Some ==> self.is_least(*r->0),
    {
        proof {
            use_type_invariant(self);
            let s = self.heap@;
            if lawful_order::<T>() && s.len() > 0 {
                assert forall|y: T| s.to_multiset().count(y) > 0 implies le(s[0], y) by {
                    let j = choose|j: int| 0 <= j < s.len() && s[j] == y;
                    lemma_root_is_least(s, j);
                }
            }
        }
        self.heap.as_slice().first()
    }

    pub fn len(&self) -> (r: usize)
        ensures
            r == self@.len(),
    {
        self.heap.len()
    }

    pub fn is_empty(&self) -> (r: bool)
        ensures
            r == (self@.len() == 0),
    {
        self.heap.is_empty()
    }
}

} // verus!
