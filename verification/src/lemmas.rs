//! Facts about the order of identifiers and about well-formed sinks.
use vstd::prelude::*;

use crate::state::{leading_zeros, live, nonzero, withdrawn, SinkState};
use crate::table::{lemma_inserted, lemma_removed, lemma_touched};

verus! {

/// What is left of the order after the zeros in front does not start with zero.
pub proof fn lemma_leading_zeros(order: Seq<usize>)
    ensures
        leading_zeros(order) <= order.len(),
        forall|i: int| 0 <= i < leading_zeros(order) ==> order[i] == 0,
        leading_zeros(order) < order.len() ==> order[leading_zeros(order) as int] != 0,
    decreases order.len(),
{
    if order.len() != 0 && order[0] == 0 {
        let rest = order.skip(1);
        lemma_leading_zeros(rest);
        assert forall|i: int| 0 <= i < leading_zeros(order) implies order[i] == 0 by {
            if i > 0 {
                assert(rest[i - 1] == order[i]);
            }
        }
        if leading_zeros(order) < order.len() {
            assert(rest[leading_zeros(rest) as int] == order[leading_zeros(order) as int]);
        }
    }
}

/// A sink stays well formed when identifiers leave the front of the order.
pub proof fn lemma_skip_wf(s: SinkState, n: int)
    requires
        s.wf(),
        0 <= n <= s.order.len(),
    ensures
        (SinkState { order: s.order.skip(n), ..s }).wf(),
{
    let t = SinkState { order: s.order.skip(n), ..s };
    assert forall|i: int| 0 <= i < t.order.len() && (#[trigger] t.order[i]) != 0 implies t.is_in_flight(
        t.order[i],
    ) by {
        assert(t.order[i] == s.order[i + n]);
    }
}

/// A sink stays well formed when a packet leaves that is not in the order.
pub proof fn lemma_remove_wf(s: SinkState, id: usize, t: SinkState)
    requires
        s.wf(),
        id != 0,
        s.is_in_flight(id),
        !s.order.contains(id),
        t == (SinkState { queue: s.queue.removed(id - 1), ..s }),
    ensures
        t.wf(),
{
    lemma_removed(s.queue, id - 1);
    assert forall|i: int| 0 <= i < t.order.len() && (#[trigger] t.order[i]) != 0 implies t.is_in_flight(
        t.order[i],
    ) by {
        assert(s.is_in_flight(s.order[i]));
        assert(s.order.contains(s.order[i]));
    }
}

/// A sink stays well formed when neither its order nor what is in flight
/// changes.
pub proof fn lemma_same_queue_wf(s: SinkState, t: SinkState)
    requires
        s.wf(),
        t.cap == s.cap,
        t.info.wf(),
        t.queue == s.queue,
        t.order == s.order,
    ensures
        t.wf(),
{
    assert forall|i: int| 0 <= i < t.order.len() && (#[trigger] t.order[i]) != 0 implies t.is_in_flight(
        t.order[i],
    ) by {
        assert(s.is_in_flight(s.order[i]));
    }
}

/// A sink stays well formed when a request finds no identifier.
pub proof fn lemma_touched_wf(s: SinkState, t: SinkState)
    requires
        s.wf(),
        s.next_id() > u16::MAX,
        t == (SinkState { queue: s.queue.touched(), ..s }),
    ensures
        t.wf(),
{
    lemma_next_key(s);
    lemma_touched(s.queue);
    assert forall|i: int| 0 <= i < t.order.len() && (#[trigger] t.order[i]) != 0 implies t.is_in_flight(
        t.order[i],
    ) by {
        assert(s.is_in_flight(s.order[i]));
    }
}

/// There is no identifier for the next request exactly where each of them is
/// that of a packet in flight.
pub proof fn lemma_next_key(s: SinkState)
    requires
        s.queue.wf(),
        s.has_slots_for_identifiers(),
    ensures
        s.next_id() <= u16::MAX + 1,
        s.next_id() > u16::MAX <==> s.in_flight() == u16::MAX,
        s.in_flight() <= u16::MAX,
{
    let vacant = s.queue.vacant;
    if vacant.len() > 0 {
        assert(vacant[vacant.len() - 1] < s.queue.opened());
        if s.next_id() > u16::MAX {
            assert(vacant[0] == vacant[vacant.len() - 1]);
        }
    }
}

/// A sink stays well formed when a new packet is in flight.
pub proof fn lemma_push_wf(s: SinkState, t: SinkState)
    requires
        s.wf(),
        s.in_flight() < s.cap,
        t.cap == s.cap,
        t.info.wf(),
        s.next_id() <= u16::MAX,
        exists|item| t.queue == #[trigger] s.queue.inserted(item),
        t.order == s.order.push(s.next_id() as usize),
    ensures
        t.wf(),
{
    let item = choose|item| t.queue == #[trigger] s.queue.inserted(item);
    lemma_inserted(s.queue, item);
    assert forall|i: int| 0 <= i < t.order.len() && (#[trigger] t.order[i]) != 0 implies t.is_in_flight(
        t.order[i],
    ) by {
        if i < s.order.len() {
            assert(s.is_in_flight(s.order[i]));
        }
    }
    assert forall|i: int, j: int|
        0 <= i < j < t.order.len() && (#[trigger] t.order[i]) != 0 implies t.order[i] != (
    #[trigger] t.order[j]) by {
        if j == s.order.len() {
            assert(s.is_in_flight(s.order[i]));
        }
    }
}

/// A sink stays well formed when a packet in the order leaves it.
pub proof fn lemma_withdrawn_wf(s: SinkState, id: usize, t: SinkState)
    requires
        s.wf(),
        id != 0,
        s.order.contains(id),
        t.cap == s.cap,
        t.info.wf(),
        t.queue == s.queue.removed(id - 1),
        t.order == withdrawn(s.order, id),
    ensures
        t.wf(),
{
    let at = s.order.index_of(id);
    let marked = s.order.update(at, 0);
    let n: int = if marked[0] == 0 {
        1
    } else {
        0
    };
    assert(t.order =~= marked.skip(n));
    assert(s.is_in_flight(s.order[at]));
    lemma_removed(s.queue, id - 1);
    assert forall|i: int| 0 <= i < t.order.len() && (#[trigger] t.order[i]) != 0 implies t.is_in_flight(
        t.order[i],
    ) by {
        assert(t.order[i] == s.order[i + n]);
        assert(s.is_in_flight(s.order[i + n]));
        if i + n < at {
            assert(s.order[i + n] != s.order[at]);
        } else {
            assert(s.order[at] != s.order[i + n]);
        }
    }
    assert forall|i: int, j: int|
        0 <= i < j < t.order.len() && (#[trigger] t.order[i]) != 0 implies t.order[i] != (
    #[trigger] t.order[j]) by {
        assert(t.order[i] == s.order[i + n]);
        assert(marked[j + n] == t.order[j]);
        assert(s.order[i + n] != s.order[j + n]);
    }
}

/// An identifier that is sent joins at the end.
pub proof fn lemma_live_push(order: Seq<usize>, id: usize)
    ensures
        live(order.push(id)) == if id != 0 {
            live(order).push(id)
        } else {
            live(order)
        },
{
    order.lemma_filter_push(id, nonzero());
}

/// The identifiers of two orders, one after the other.
pub proof fn lemma_live_add(a: Seq<usize>, b: Seq<usize>)
    ensures
        live(a + b) == live(a) + live(b),
{
    Seq::filter_distributes_over_add(a, b, nonzero());
}

/// A single identifier.
pub proof fn lemma_live_one(id: usize)
    ensures
        live(seq![id]) == if id != 0 {
            seq![id]
        } else {
            Seq::<usize>::empty()
        },
{
    lemma_live_none();
    lemma_live_push(Seq::empty(), id);
    assert(Seq::<usize>::empty().push(id) =~= seq![id]);
}

/// No identifier.
pub proof fn lemma_live_none()
    ensures
        live(Seq::<usize>::empty()) == Seq::<usize>::empty(),
{
    reveal(Seq::filter);
}

/// The order, taken apart at the place `at`.
pub proof fn lemma_live_split(order: Seq<usize>, at: int)
    requires
        0 <= at < order.len(),
    ensures
        live(order) == live(order.take(at)) + live(seq![order[at]]) + live(order.skip(at + 1)),
{
    let a = order.take(at);
    let b = seq![order[at]];
    let c = order.skip(at + 1);
    lemma_live_add(a, b);
    lemma_live_add(a + b, c);
    assert(order =~= a + b + c);
}

/// Zeros are no identifiers.
pub proof fn lemma_live_zeros(order: Seq<usize>)
    requires
        forall|i: int| 0 <= i < order.len() ==> order[i] == 0,
    ensures
        live(order) == Seq::<usize>::empty(),
    decreases order.len(),
{
    if order.len() == 0 {
        assert(order =~= Seq::<usize>::empty());
        lemma_live_none();
    } else {
        lemma_live_zeros(order.drop_last());
        lemma_live_push(order.drop_last(), 0);
        assert(order.drop_last().push(0) =~= order);
    }
}

/// The oldest identifier is the first after the zeros in front.
pub proof fn lemma_live_first(order: Seq<usize>)
    ensures
        ({
            let n = leading_zeros(order) as int;
            if n == order.len() {
                live(order) == Seq::<usize>::empty()
            } else {
                &&& live(order).len() > 0
                &&& live(order)[0] == order[n]
                &&& live(order).skip(1) == live(order.skip(n + 1))
            }
        }),
{
    let n = leading_zeros(order) as int;
    lemma_leading_zeros(order);
    if n == order.len() {
        lemma_live_zeros(order);
    } else {
        lemma_live_split(order, n);
        lemma_live_zeros(order.take(n));
        lemma_live_one(order[n]);
        assert(live(order).skip(1) =~= live(order.skip(n + 1)));
    }
}

/// An identifier waits exactly where it is in the order.
pub proof fn lemma_live_contains(order: Seq<usize>, id: usize)
    ensures
        live(order).contains(id) <==> id != 0 && order.contains(id),
{
    if live(order).contains(id) {
        let i = live(order).index_of(id);
        order.lemma_filter_pred(nonzero(), i);
        order.lemma_filter_contains_rev(nonzero(), id);
    }
    if id != 0 && order.contains(id) {
        order.lemma_filter_contains(nonzero(), order.index_of(id));
    }
}

/// No two of the identifiers that wait are the same.
pub proof fn lemma_live_no_duplicates(order: Seq<usize>)
    requires
        forall|i: int, j: int|
            0 <= i < j < order.len() && (#[trigger] order[i]) != 0 ==> order[i] != (
            #[trigger] order[j]),
    ensures
        live(order).no_duplicates(),
    decreases order.len(),
{
    if order.len() == 0 {
        assert(order =~= Seq::<usize>::empty());
        lemma_live_none();
    } else {
        let rest = order.drop_last();
        let id = order.last();
        lemma_live_no_duplicates(rest);
        lemma_live_push(rest, id);
        lemma_live_contains(rest, id);
        assert(rest.push(id) =~= order);
        assert(!rest.contains(id) || id == 0) by {
            if rest.contains(id) {
                assert(order[rest.index_of(id)] == id);
            }
        }
    }
}

/// An identifier that is withdrawn leaves, and the others stay as they are.
pub proof fn lemma_live_withdrawn(order: Seq<usize>, id: usize)
    requires
        id != 0,
        order.contains(id),
        forall|i: int, j: int|
            0 <= i < j < order.len() && (#[trigger] order[i]) != 0 ==> order[i] != (
            #[trigger] order[j]),
    ensures
        live(order).contains(id),
        live(withdrawn(order, id)) == live(order).remove(live(order).index_of(id)),
{
    let at = order.index_of(id);
    let marked = order.update(at, 0);
    let a = live(order.take(at));
    let c = live(order.skip(at + 1));
    lemma_live_split(order, at);
    lemma_live_one(id);
    lemma_live_split(marked, at);
    lemma_live_one(0);
    assert(marked.take(at) =~= order.take(at));
    assert(marked.skip(at + 1) =~= order.skip(at + 1));
    assert(live(order) =~= a + seq![id] + c);
    assert(live(marked) =~= a + c);
    if marked[0] == 0 {
        lemma_live_add(seq![0usize], marked.skip(1));
        assert(seq![0usize] + marked.skip(1) =~= marked);
        assert(Seq::<usize>::empty() + live(marked.skip(1)) =~= live(marked.skip(1)));
    }
    lemma_live_contains(order, id);
    lemma_live_no_duplicates(order);
    assert(live(order)[a.len() as int] == id);
    assert(live(order).index_of(id) == a.len());
    assert(live(order).remove(a.len() as int) =~= a + c);
}

} // verus!
