//! The two ends of a connection: who answers which offer, and what a message
//! on the control channel is for.

use crate::protocol::{ClientMessage, HostMessage};
use crate::signalling::{description_in, description_of, Description};
use vstd::prelude::*;

verus! {

/// How long the host waits for an answer, in seconds.
pub const ANSWER_TIMEOUT_SECS: u64 = 10;

/// The renegotiations that wait for an answer, oldest first, each with what
/// takes its answer.
///
/// The control channel is ordered and the client answers exactly once per
/// offer it receives, in receipt order, so the next answer is for the oldest
/// renegotiation that still waits. A single slot would let a late answer for
/// one that timed out reach a later one.
pub struct PendingAnswers<T> {
    queue: Vec<(u64, T)>,
    generation: u64,
}

/// What is waiting.
pub ghost struct PendingView<T> {
    pub queue: Seq<(u64, T)>,
    pub generation: u64,
}

impl<T> View for PendingAnswers<T> {
    type V = PendingView<T>;

    closed spec fn view(&self) -> PendingView<T> {
        PendingView { queue: self.queue@, generation: self.generation }
    }
}

impl<T> PendingView<T> {
    /// Generations are handed out in ascending order and queue up so.
    pub open spec fn wf(self) -> bool {
        &&& forall|i: int, j: int|
            0 <= i < j < self.queue.len() ==> (#[trigger] self.queue[i]).0 < (
            #[trigger] self.queue[j]).0
        &&& forall|i: int|
            0 <= i < self.queue.len() ==> (#[trigger] self.queue[i]).0 <= self.generation
    }

    /// With one more renegotiation.
    pub open spec fn pushed(self, tx: T) -> PendingView<T> {
        let g = (self.generation + 1) as u64;
        PendingView { queue: self.queue.push((g, tx)), generation: g }
    }

    /// After an answer's text came: a session description takes the oldest
    /// renegotiation with it, all else changes nothing.
    pub open spec fn answered(self, sdp: Seq<char>) -> PendingView<T> {
        if description_in(sdp) is Some && self.queue.len() > 0 {
            PendingView { queue: self.queue.drop_first(), ..self }
        } else {
            self
        }
    }

    /// Without a renegotiation.
    pub open spec fn discarded(self, generation: u64) -> PendingView<T> {
        PendingView { queue: without(self.queue, generation), ..self }
    }
}

/// The entries of other generations.
pub open spec fn without<T>(queue: Seq<(u64, T)>, generation: u64) -> Seq<(u64, T)>
    decreases queue.len(),
{
    if queue.len() == 0 {
        Seq::empty()
    } else {
        let rest = without(queue.drop_last(), generation);
        if queue.last().0 == generation {
            rest
        } else {
            rest.push(queue.last())
        }
    }
}

/// What becomes of an answer's text.
pub enum AnswerStep<T> {
    /// The oldest renegotiation gets the answer.
    Deliver { to: T, answer: Description },
    /// No renegotiation waits: the answer is dropped.
    NoneWaiting,
    /// The text is no session description.
    Malformed,
}

impl<T> PendingAnswers<T> {
    pub fn new() -> (p: PendingAnswers<T>)
        ensures
            p@ == (PendingView::<T> { queue: Seq::empty(), generation: 0 }),
            p@.wf(),
    {
        PendingAnswers { queue: Vec::new(), generation: 0 }
    }

    /// Whether no further generation can be handed out.
    pub fn is_full(&self) -> (b: bool)
        ensures
            b == (self@.generation == u64::MAX),
    {
        self.generation == u64::MAX
    }

    /// Registers what takes the next renegotiation's answer and returns its
    /// generation, used to remove this exact entry if the renegotiation fails
    /// or times out.
    pub fn push_pending_answer(&mut self, tx: T) -> (generation: u64)
        requires
            old(self)@.generation < u64::MAX,
        ensures
            final(self)@ == old(self)@.pushed(tx),
            generation == old(self)@.generation + 1,
    {
        self.generation += 1;
        self.queue.push((self.generation, tx));
        self.generation
    }

    /// Removes this generation's entry if it still waits, so that a dead
    /// entry never swallows a later renegotiation's answer.
    pub fn discard_pending_answer(&mut self, generation: u64)
        ensures
            final(self)@ == old(self)@.discarded(generation),
    {
        let mut kept: Vec<(u64, T)> = Vec::new();
        let mut all: Vec<(u64, T)> = Vec::new();
        all.append(&mut self.queue);
        let ghost start = all@;
        assert(start =~= old(self)@.queue);
        assert(start.take(0) =~= Seq::<(u64, T)>::empty());
        for entry in it: all
            invariant
                it.seq() == start,
                kept@ == without(start.take(it.index() as int), generation),
        {
            assert(start.take(it.index() + 1).drop_last() =~= start.take(it.index() as int));
            assert(start.take(it.index() + 1).last() == entry);
            if entry.0 != generation {
                kept.push(entry);
            }
        }
        assert(start.take(start.len() as int) =~= start);
        self.queue = kept;
    }

    /// Takes the oldest renegotiation that still waits.
    pub fn take_pending_answer(&mut self) -> (r: Option<(u64, T)>)
        ensures
            old(self)@.queue.len() == 0 ==> r == None::<(u64, T)> && final(self)@ == old(self)@,
            old(self)@.queue.len() > 0 ==> r == Some(old(self)@.queue[0]) && final(self)@ == (
            PendingView::<T> { queue: old(self)@.queue.drop_first(), ..old(self)@ }),
    {
        if self.queue.len() == 0 {
            return None;
        }
        let first: (u64, T) = self.queue.remove(0);
        assert(self@.queue =~= old(self)@.queue.drop_first());
        Some(first)
    }

    /// The text of an answer came: it goes to the oldest renegotiation that
    /// still waits. A malformed one leaves them all waiting.
    pub fn on_answer(&mut self, sdp: &str) -> (r: AnswerStep<T>)
        ensures
            final(self)@ == old(self)@.answered(sdp@),
            match r {
                AnswerStep::Deliver { to, answer } => old(self)@.queue.len() > 0 && to == old(
                    self,
                )@.queue[0].1 && description_in(sdp@) == Some(answer@),
                AnswerStep::NoneWaiting => description_in(sdp@) is Some && old(self)@.queue.len()
                    == 0,
                AnswerStep::Malformed => description_in(sdp@) is None,
            },
    {
        match description_of(sdp) {
            Some(answer) => match self.take_pending_answer() {
                Some((_, to)) => AnswerStep::Deliver { to, answer },
                None => AnswerStep::NoneWaiting,
            },
            None => AnswerStep::Malformed,
        }
    }
}

proof fn without_facts<T>(queue: Seq<(u64, T)>, generation: u64)
    ensures
        forall|i: int|
            0 <= i < without(queue, generation).len() ==> {
                let e = #[trigger] without(queue, generation)[i];
                &&& e.0 != generation
                &&& queue.contains(e)
            },
        forall|i: int|
            0 <= i < queue.len() && (#[trigger] queue[i]).0 != generation ==> without(
                queue,
                generation,
            ).contains(queue[i]),
    decreases queue.len(),
{
    if queue.len() > 0 {
        let rest = queue.drop_last();
        without_facts(rest, generation);
        let w = without(queue, generation);
        let r = without(rest, generation);
        assert forall|i: int| 0 <= i < w.len() implies {
            let e = #[trigger] w[i];
            &&& e.0 != generation
            &&& queue.contains(e)
        } by {
            if i < r.len() {
                assert(w[i] == r[i]);
                let k = choose|k: int| 0 <= k < rest.len() && rest[k] == r[i];
                assert(queue[k] == r[i]);
            } else {
                assert(queue[queue.len() - 1] == w[i]);
            }
        }
        assert forall|i: int| 0 <= i < queue.len() && (#[trigger] queue[i]).0 != generation implies w.contains(
            queue[i],
        ) by {
            if i < rest.len() {
                assert(rest[i] == queue[i]);
                assert(r.contains(rest[i]));
                let k = choose|k: int| 0 <= k < r.len() && r[k] == rest[i];
                assert(w[k] == rest[i]);
            } else {
                assert(w[w.len() - 1] == queue[i]);
            }
        }
    }
}

proof fn without_ascends<T>(queue: Seq<(u64, T)>, generation: u64, top: u64)
    requires
        forall|i: int, j: int|
            0 <= i < j < queue.len() ==> (#[trigger] queue[i]).0 < (#[trigger] queue[j]).0,
        forall|i: int| 0 <= i < queue.len() ==> (#[trigger] queue[i]).0 <= top,
    ensures
        forall|i: int, j: int|
            0 <= i < j < without(queue, generation).len() ==> (#[trigger] without(
                queue,
                generation,
            )[i]).0 < (#[trigger] without(queue, generation)[j]).0,
        forall|i: int|
            0 <= i < without(queue, generation).len() ==> (#[trigger] without(
                queue,
                generation,
            )[i]).0 <= top,
    decreases queue.len(),
{
    if queue.len() > 0 {
        let rest = queue.drop_last();
        let last = queue.last();
        assert forall|i: int, j: int| 0 <= i < j < rest.len() implies (#[trigger] rest[i]).0 < (
        #[trigger] rest[j]).0 by {
            assert(rest[i] == queue[i] && rest[j] == queue[j]);
        }
        assert forall|i: int| 0 <= i < rest.len() implies (#[trigger] rest[i]).0 <= top by {
            assert(rest[i] == queue[i]);
        }
        without_ascends(rest, generation, top);
        without_facts(rest, generation);
        let w = without(queue, generation);
        let r = without(rest, generation);
        assert forall|i: int, j: int| 0 <= i < j < w.len() implies (#[trigger] w[i]).0 < (
        #[trigger] w[j]).0 by {
            assert(w[i] == r[i]);
            if j < r.len() {
                assert(w[j] == r[j]);
            } else {
                let k = choose|k: int| 0 <= k < rest.len() && rest[k] == r[i];
                assert(queue[k] == r[i]);
                assert(queue[queue.len() - 1] == w[j]);
            }
        }
        assert forall|i: int| 0 <= i < w.len() implies (#[trigger] w[i]).0 <= top by {
            if i < r.len() {
                assert(w[i] == r[i]);
            } else {
                assert(queue[queue.len() - 1] == w[i]);
            }
        }
    }
}

/// Registering and discarding renegotiations keeps them in the order of their
/// generations.
pub proof fn pending_answers_stay_ordered<T>(p: PendingView<T>, tx: T, generation: u64)
    requires
        p.wf(),
    ensures
        p.generation < u64::MAX ==> p.pushed(tx).wf(),
        p.discarded(generation).wf(),
{
    without_ascends(p.queue, generation, p.generation);
}

/// A discarded renegotiation never gets an answer: it is not among those that
/// wait, and every other one still is.
pub proof fn discarded_generation_gets_no_answer<T>(p: PendingView<T>, generation: u64, i: int)
    ensures
        0 <= i < p.discarded(generation).queue.len() ==> p.discarded(generation).queue[i].0
            != generation,
        0 <= i < p.queue.len() && p.queue[i].0 != generation ==> p.discarded(
            generation,
        ).queue.contains(p.queue[i]),
{
    without_facts(p.queue, generation);
}

/// An answer goes to the oldest renegotiation that waits.
pub proof fn oldest_renegotiation_is_answered<T>(p: PendingView<T>, i: int)
    requires
        p.wf(),
        0 < i < p.queue.len(),
    ensures
        p.queue[0].0 < p.queue[i].0,
{
}

/// What happens to a host's renegotiations.
pub ghost enum Negotiation<T> {
    /// An offer was made, and `tx` takes its answer.
    Offered { tx: T },
    /// The text of an answer came.
    Answered { sdp: Seq<char> },
}

/// The renegotiations that wait after some events, none of them having been
/// discarded.
pub open spec fn negotiated<T>(events: Seq<Negotiation<T>>) -> PendingView<T>
    decreases events.len(),
{
    if events.len() == 0 {
        PendingView { queue: Seq::empty(), generation: 0 }
    } else {
        match events.last() {
            Negotiation::Offered { tx } => negotiated(events.drop_last()).pushed(tx),
            Negotiation::Answered { sdp } => negotiated(events.drop_last()).answered(sdp),
        }
    }
}

/// What takes the answers, in the order of the offers.
pub open spec fn offers<T>(events: Seq<Negotiation<T>>) -> Seq<T>
    decreases events.len(),
{
    if events.len() == 0 {
        Seq::empty()
    } else {
        match events.last() {
            Negotiation::Offered { tx } => offers(events.drop_last()).push(tx),
            Negotiation::Answered { .. } => offers(events.drop_last()),
        }
    }
}

/// How many answers came; malformed ones do not count.
pub open spec fn answers<T>(events: Seq<Negotiation<T>>) -> nat
    decreases events.len(),
{
    if events.len() == 0 {
        0
    } else {
        match events.last() {
            Negotiation::Answered { sdp } if description_in(sdp) is Some => answers(
                events.drop_last(),
            ) + 1,
            _ => answers(events.drop_last()),
        }
    }
}

/// The client answers no offer that was not made.
pub open spec fn answers_follow_offers<T>(events: Seq<Negotiation<T>>) -> bool
    decreases events.len(),
{
    &&& answers(events) <= offers(events).len()
    &&& events.len() > 0 ==> answers_follow_offers(events.drop_last())
}

proof fn unanswered_wait<T>(events: Seq<Negotiation<T>>)
    requires
        answers_follow_offers(events),
    ensures
        negotiated(events).queue.len() == offers(events).len() - answers(events),
        forall|i: int|
            0 <= i < negotiated(events).queue.len() ==> (#[trigger] negotiated(events).queue[i]).1
                == offers(events)[answers(events) + i],
    decreases events.len(),
{
    if events.len() > 0 {
        unanswered_wait(events.drop_last());
    }
}

/// The Nth answer ever received goes to the Nth offer ever made.
pub proof fn nth_answer_goes_to_nth_offer<T>(events: Seq<Negotiation<T>>)
    requires
        answers_follow_offers(events),
        answers(events) < offers(events).len(),
    ensures
        negotiated(events).queue.len() > 0,
        negotiated(events).queue[0].1 == offers(events)[answers(events) as int],
{
    unanswered_wait(events);
}

/// What the host does with a message of the client.
pub enum HostDispatch {
    /// The answer to the oldest pending offer.
    Answer { sdp: String },
    Deliver { msg: ClientMessage },
}

/// An answer to an offer is the connection's own business; all else is
/// delivered.
pub fn host_dispatch(msg: ClientMessage) -> (d: HostDispatch)
    ensures
        d == (match msg {
            ClientMessage::SdpAnswer { sdp } => HostDispatch::Answer { sdp },
            _ => HostDispatch::Deliver { msg },
        }),
{
    match msg {
        ClientMessage::SdpAnswer { sdp } => HostDispatch::Answer { sdp },
        _ => HostDispatch::Deliver { msg },
    }
}

/// What the client does with a message of the host.
pub enum ClientDispatch {
    /// An offer, which is answered at once.
    Offer { sdp: String },
    Deliver { msg: HostMessage },
}

/// An offer is the connection's own business; all else is delivered.
pub fn client_dispatch(msg: HostMessage) -> (d: ClientDispatch)
    ensures
        d == (match msg {
            HostMessage::SdpOffer { sdp } => ClientDispatch::Offer { sdp },
            _ => ClientDispatch::Deliver { msg },
        }),
{
    match msg {
        HostMessage::SdpOffer { sdp } => ClientDispatch::Offer { sdp },
        _ => ClientDispatch::Deliver { msg },
    }
}

/// The key that binds a track to its window: its id, or its stream's id where
/// it has none. The host sets both to the same.
pub fn track_key(id: String, stream_id: String) -> (key: String)
    ensures
        key == (if id@.len() == 0 {
            stream_id
        } else {
            id
        }),
{
    if id.as_str().is_empty() {
        stream_id
    } else {
        id
    }
}

/// The state of a connection.
#[derive(Debug, Clone, Copy, PartialEq, Eq, Structural)]
pub enum PeerState {
    Unspecified,
    New,
    Connecting,
    Connected,
    Disconnected,
    Failed,
    Closed,
}

/// Whether a state means that the other side is gone.
pub fn is_disconnect(state: PeerState) -> (b: bool)
    ensures
        b <==> state == PeerState::Disconnected || state == PeerState::Failed || state
            == PeerState::Closed,
{
    match state {
        PeerState::Disconnected => true,
        PeerState::Failed => true,
        PeerState::Closed => true,
        _ => false,
    }
}

} // verus!
