//! What holds of images sent in chunks.

use crate::blit::{
    are_chunks, at_most, chunk_of, chunk_total, is_chunk, joined, push_has_gap, push_result, pushed,
    AssemblerView, PartialView, BLIT_CHUNK_BYTES,
};
use crate::protocol::{HostMessage, WindowId};
use vstd::prelude::*;

verus! {

/// The state after some of the messages, in the order of `order`.
pub open spec fn pushed_in(a: AssemblerView, msgs: Seq<HostMessage>, order: Seq<int>) -> AssemblerView
    decreases order.len(),
{
    if order.len() == 0 {
        a
    } else {
        pushed(pushed_in(a, msgs, order.drop_last()), msgs[order.last()])
    }
}

/// Each of the `n` chunks occurs.
pub open spec fn covers(order: Seq<int>, n: nat) -> bool {
    forall|i: int| 0 <= i < n ==> #[trigger] order.contains(i)
}

spec fn below(n: nat) -> Set<u16> {
    Set::new(|i: u16| i < n)
}

proof fn below_len(n: nat)
    requires
        n <= 65535,
    ensures
        below(n).finite(),
        below(n).len() == n,
    decreases n,
{
    if n == 0 {
        assert(below(n) =~= Set::<u16>::empty());
    } else {
        let m = (n - 1) as nat;
        below_len(m);
        assert(below(n) =~= below(m).insert(m as u16));
    }
}

/// The chunks that came.
spec fn got(png: Seq<u8>, order: Seq<int>) -> Map<u16, Seq<u8>> {
    Map::new(|i: u16| order.contains(i as int), |i: u16| chunk_of(png, i as int))
}

proof fn got_len(png: Seq<u8>, order: Seq<int>, n: nat)
    requires
        n <= 65535,
        forall|k: int| 0 <= k < order.len() ==> 0 <= #[trigger] order[k] < n,
    ensures
        got(png, order).dom().finite(),
        got(png, order).len() <= n,
        got(png, order).len() == n <==> covers(order, n),
{
    let g = got(png, order);
    below_len(n);
    assert(g.dom().subset_of(below(n)));
    vstd::set_lib::lemma_len_subset(g.dom(), below(n));
    if covers(order, n) {
        assert forall|i: u16| below(n).contains(i) implies g.dom().contains(i) by {
            assert(order.contains(i as int));
        }
        assert(g.dom() =~= below(n));
    } else {
        let i = choose|i: int| 0 <= i < n && !(#[trigger] order.contains(i));
        let more = g.dom().insert(i as u16);
        assert(!g.dom().contains(i as u16));
        assert(more.subset_of(below(n)));
        vstd::set_lib::lemma_len_subset(more, below(n));
    }
}

proof fn got_extends(png: Seq<u8>, order: Seq<int>)
    requires
        order.len() > 0,
        0 <= order.last() <= 65535,
    ensures
        got(png, order) == got(png, order.drop_last()).insert(
            order.last() as u16,
            chunk_of(png, order.last()),
        ),
{
    let rest = order.drop_last();
    let last = order.last();
    assert forall|i: int| order.contains(i) <==> rest.contains(i) || i == last by {
        if order.contains(i) {
            let k = choose|k: int| 0 <= k < order.len() && order[k] == i;
            if k < rest.len() {
                assert(rest[k] == i);
            }
        }
        if rest.contains(i) {
            let k = choose|k: int| 0 <= k < rest.len() && rest[k] == i;
            assert(order[k] == i);
        }
        if i == last {
            assert(order[order.len() - 1] == i);
        }
    }
    assert(got(png, order) =~= got(png, rest).insert(last as u16, chunk_of(png, last)));
}

proof fn joined_is_prefix(png: Seq<u8>, received: Map<u16, Seq<u8>>, k: nat)
    requires
        k <= 65535,
        forall|i: u16| i < k ==> #[trigger] received[i] == chunk_of(png, i as int),
    ensures
        joined(received, k) == png.take(at_most(k * BLIT_CHUNK_BYTES, png.len() as int)),
    decreases k,
{
    if k == 0 {
        assert(png.take(0) =~= Seq::<u8>::empty());
    } else {
        let m = (k - 1) as nat;
        joined_is_prefix(png, received, m);
        assert(received[m as u16] == chunk_of(png, m as int));
        assert(joined(received, k) =~= png.take(at_most(k * BLIT_CHUNK_BYTES, png.len() as int)));
    }
}

/// The state while chunks are missing.
spec fn under_way(
    a: AssemblerView,
    window_id: WindowId,
    seq: u32,
    png: Seq<u8>,
    order: Seq<int>,
) -> AssemblerView {
    if order.len() == 0 {
        a
    } else {
        AssemblerView {
            partials: a.partials.insert(
                window_id,
                PartialView {
                    seq,
                    chunk_count: chunk_total(png.len()) as u16,
                    received: got(png, order),
                },
            ),
            ..a
        }
    }
}

/// Window and number are new to the assembler: nothing of that number or a
/// newer one was completed or is under way.
pub open spec fn is_new(a: AssemblerView, window_id: WindowId, seq: u32) -> bool {
    &&& !a.is_stale(window_id, seq)
    &&& a.partials.contains_key(window_id) ==> a.partials[window_id].seq < seq
}

proof fn step(
    a: AssemblerView,
    window_id: WindowId,
    seq: u32,
    png: Seq<u8>,
    msgs: Seq<HostMessage>,
    order: Seq<int>,
)
    requires
        are_chunks(msgs, window_id, seq, png),
        chunk_total(png.len()) <= 65535,
        is_new(a, window_id, seq),
        order.len() > 0,
        forall|k: int| 0 <= k < order.len() ==> 0 <= #[trigger] order[k] < msgs.len(),
        !covers(order.drop_last(), chunk_total(png.len())),
    ensures
        ({
            let before = under_way(a, window_id, seq, png, order.drop_last());
            let msg = msgs[order.last()];
            &&& !push_has_gap(before, msg)
            &&& !covers(order, chunk_total(png.len())) ==> push_result(before, msg) is None
                && pushed(before, msg) == under_way(a, window_id, seq, png, order)
            &&& covers(order, chunk_total(png.len())) ==> push_result(before, msg) == Some(
                (window_id, png),
            ) && pushed(before, msg) == (AssemblerView {
                partials: a.partials.remove(window_id),
                completed: a.completed.insert(window_id, seq),
            })
        }),
{
    let n = chunk_total(png.len());
    let rest = order.drop_last();
    let last = order.last();
    assert(last == order[order.len() - 1]);
    assert forall|k: int| 0 <= k < rest.len() implies 0 <= #[trigger] rest[k] < n by {
        assert(rest[k] == order[k]);
    }
    let before = under_way(a, window_id, seq, png, rest);
    let msg = msgs[last];
    assert(is_chunk(msg, window_id, seq, png, last));
    let index = last as u16;
    let count = n as u16;
    let data = chunk_of(png, last);
    let image = before.image(window_id, seq, count);
    if rest.len() == 0 {
        assert(got(png, rest) =~= Map::<u16, Seq<u8>>::empty());
    }
    assert(image.received == got(png, rest));
    got_extends(png, order);
    got_len(png, order, n);
    assert(image.received.insert(index, data) == got(png, order));
    if covers(order, n) {
        assert forall|i: u16| i < n implies #[trigger] got(png, order).contains_key(i) by {
            assert(order.contains(i as int));
        }
        joined_is_prefix(png, got(png, order), n);
        assert(n * 16384 >= png.len());
        assert(png.take(png.len() as int) =~= png);
        assert(before.partials.remove(window_id) =~= a.partials.remove(window_id));
    } else {
        assert(before.partials.insert(
            window_id,
            (PartialView { received: got(png, order), ..image }),
        ) =~= under_way(a, window_id, seq, png, order).partials);
    }
}

proof fn prefix_state(
    a: AssemblerView,
    window_id: WindowId,
    seq: u32,
    png: Seq<u8>,
    msgs: Seq<HostMessage>,
    order: Seq<int>,
)
    requires
        are_chunks(msgs, window_id, seq, png),
        chunk_total(png.len()) <= 65535,
        is_new(a, window_id, seq),
        forall|k: int| 0 <= k < order.len() ==> 0 <= #[trigger] order[k] < msgs.len(),
        !covers(order, chunk_total(png.len())),
    ensures
        pushed_in(a, msgs, order) == under_way(a, window_id, seq, png, order),
        forall|k: int|
            0 <= k < order.len() ==> {
                let before = #[trigger] pushed_in(a, msgs, order.take(k));
                &&& push_result(before, msgs[order[k]]) is None
                &&& !push_has_gap(before, msgs[order[k]])
            },
    decreases order.len(),
{
    if order.len() > 0 {
        let rest = order.drop_last();
        let n = chunk_total(png.len());
        assert forall|k: int| 0 <= k < rest.len() implies 0 <= #[trigger] rest[k] < msgs.len() by {
            assert(rest[k] == order[k]);
        }
        let i = choose|i: int| 0 <= i < n && !(#[trigger] order.contains(i));
        if rest.contains(i) {
            let k = choose|k: int| 0 <= k < rest.len() && rest[k] == i;
            assert(order[k] == i);
        }
        assert(!covers(rest, n));
        prefix_state(a, window_id, seq, png, msgs, rest);
        step(a, window_id, seq, png, msgs, order);
        assert forall|k: int| 0 <= k < order.len() implies {
            let before = #[trigger] pushed_in(a, msgs, order.take(k));
            &&& push_result(before, msgs[order[k]]) is None
            &&& !push_has_gap(before, msgs[order[k]])
        } by {
            if k < rest.len() {
                assert(order.take(k) =~= rest.take(k));
                assert(rest[k] == order[k]);
                assert(push_result(pushed_in(a, msgs, rest.take(k)), msgs[rest[k]]) is None);
            } else {
                assert(order.take(k) =~= rest);
            }
        }
    }
}

/// What was cut is put together again: the messages of an image, in whatever
/// order they come and however often each, hand the image over with the one
/// that completes it and nothing before, and no chunk is found missing. The
/// image is new to the assembler, and its chunks can be counted in 16 bits.
pub proof fn chunks_reassemble(
    a: AssemblerView,
    window_id: WindowId,
    seq: u32,
    png: Seq<u8>,
    msgs: Seq<HostMessage>,
    order: Seq<int>,
)
    requires
        are_chunks(msgs, window_id, seq, png),
        chunk_total(png.len()) <= 65535,
        is_new(a, window_id, seq),
        order.len() > 0,
        forall|k: int| 0 <= k < order.len() ==> 0 <= #[trigger] order[k] < msgs.len(),
        covers(order, chunk_total(png.len())),
        !covers(order.drop_last(), chunk_total(png.len())),
    ensures
        forall|k: int|
            0 <= k < order.len() - 1 ==> {
                let before = #[trigger] pushed_in(a, msgs, order.take(k));
                &&& push_result(before, msgs[order[k]]) is None
                &&& !push_has_gap(before, msgs[order[k]])
            },
        push_result(pushed_in(a, msgs, order.drop_last()), msgs[order.last()]) == Some(
            (window_id, png),
        ),
        !push_has_gap(pushed_in(a, msgs, order.drop_last()), msgs[order.last()]),
        pushed_in(a, msgs, order) == (AssemblerView {
            partials: a.partials.remove(window_id),
            completed: a.completed.insert(window_id, seq),
        }),
{
    let rest = order.drop_last();
    assert forall|k: int| 0 <= k < rest.len() implies 0 <= #[trigger] rest[k] < msgs.len() by {
        assert(rest[k] == order[k]);
    }
    prefix_state(a, window_id, seq, png, msgs, rest);
    step(a, window_id, seq, png, msgs, order);
    assert forall|k: int| 0 <= k < order.len() - 1 implies {
        let before = #[trigger] pushed_in(a, msgs, order.take(k));
        &&& push_result(before, msgs[order[k]]) is None
        &&& !push_has_gap(before, msgs[order[k]])
    } by {
        assert(order.take(k) =~= rest.take(k));
        assert(rest[k] == order[k]);
        assert(push_result(pushed_in(a, msgs, rest.take(k)), msgs[rest[k]]) is None);
    }
}

/// A completed image is never put together a second time: a chunk of its
/// number or an older one changes nothing.
pub proof fn completed_image_stays_completed(a: AssemblerView, msg: HostMessage)
    requires
        msg is TransientBlit,
        a.completed.contains_key(msg->TransientBlit_window_id),
        msg->seq <= a.completed[msg->TransientBlit_window_id],
    ensures
        push_result(a, msg) is None,
        pushed(a, msg) == a,
        !push_has_gap(a, msg),
{
}

/// A chunk of an older image than the one under way changes nothing.
pub proof fn superseded_image_is_ignored(a: AssemblerView, msg: HostMessage)
    requires
        msg is TransientBlit,
        a.partials.contains_key(msg->TransientBlit_window_id),
        msg->seq < a.partials[msg->TransientBlit_window_id].seq,
    ensures
        push_result(a, msg) is None,
        pushed(a, msg) == a,
        !push_has_gap(a, msg),
{
}

/// A forgotten window starts afresh: every image is new to it, and no other
/// window is touched.
pub proof fn forgotten_window_starts_fresh(a: AssemblerView, window_id: WindowId)
    ensures
        forall|seq: u32| is_new(a.forgotten(window_id), window_id, seq),
        forall|other: WindowId|
            other != window_id ==> {
                &&& a.forgotten(window_id).partials.contains_key(other) == (
                #[trigger] a.partials.contains_key(other))
                &&& a.forgotten(window_id).partials[other] == a.partials[other]
                &&& a.forgotten(window_id).completed.contains_key(other)
                    == a.completed.contains_key(other)
                &&& a.forgotten(window_id).completed[other] == a.completed[other]
            },
{
}

/// A message concerns its own window alone.
pub proof fn windows_are_independent(a: AssemblerView, msg: HostMessage, other: WindowId)
    requires
        msg is TransientBlit ==> msg->TransientBlit_window_id != other,
    ensures
        pushed(a, msg).partials.contains_key(other) == a.partials.contains_key(other),
        pushed(a, msg).partials[other] == a.partials[other],
        pushed(a, msg).completed.contains_key(other) == a.completed.contains_key(other),
        pushed(a, msg).completed[other] == a.completed[other],
{
}

} // verus!
