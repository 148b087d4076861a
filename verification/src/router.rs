//! The routes between the network tasks and the duty controller.
//!
//! Two bounded lanes carry messages: one from the stream reader to the duty
//! controller, one from the duty controller to the stream writer. Each has
//! one producer and one consumer. A producer first tries to send without
//! waiting. Where the lane is full it keeps the message, reports the
//! congestion and waits until the lane has room: nothing is dropped, nothing
//! overtakes, and the producer is held up for as long as the consumer lags.

use vstd::prelude::*;
use embassy_sync::blocking_mutex::raw::NoopRawMutex;
use embassy_sync::channel::{Channel, TryReceiveError, TrySendError};
use crate::message::Message;

verus! {

/// The number of messages a lane holds.
pub const HANDLER_CHANNEL_SIZE: usize = 2;

/// One lane: a bounded channel of `embassy_sync` that this value alone owns.
/// Its inside is not visible here: what waits in it is spoken of through
/// [`queued`].
#[verifier::external_body]
pub struct Lane {
    channel: Channel<NoopRawMutex, Message, HANDLER_CHANNEL_SIZE>,
}

/// The messages that wait in a lane, oldest first.
pub uninterp spec fn queued(lane: Lane) -> Seq<Message>;

/// `Channel::new` makes a channel in which nothing waits.
#[verifier::external_body]
fn lane_new() -> (lane: Lane)
    ensures
        queued(lane) == Seq::<Message>::empty(),
{
    Lane { channel: Channel::new() }
}

/// `Channel::try_send` puts the message behind those that wait, unless as
/// many wait as the channel holds: then it hands the message back and
/// changes nothing.
#[verifier::external_body]
fn lane_try_send(lane: &mut Lane, message: Message) -> (refused: Option<Message>)
    ensures
        refused == if queued(*old(lane)).len() < HANDLER_CHANNEL_SIZE {
            None
        } else {
            Some(message)
        },
        queued(*final(lane)) == lane_after_send(
            queued(*old(lane)),
            HANDLER_CHANNEL_SIZE as nat,
            message,
        ),
{
    match lane.channel.try_send(message) {
        Ok(()) => None,
        Err(TrySendError::Full(message)) => Some(message),
    }
}

/// `Channel::try_receive` takes the oldest message that waits, if any does.
#[verifier::external_body]
fn lane_try_receive(lane: &mut Lane) -> (received: Option<Message>)
    ensures
        received == if queued(*old(lane)).len() > 0 {
            Some(queued(*old(lane))[0])
        } else {
            None
        },
        queued(*final(lane)) == lane_after_receive(queued(*old(lane))),
{
    match lane.channel.try_receive() {
        Ok(message) => Some(message),
        Err(TryReceiveError::Empty) => None,
    }
}

/// `Channel::len` counts the messages that wait.
#[verifier::external_body]
fn lane_len(lane: &Lane) -> (len: usize)
    ensures
        len == queued(*lane).len(),
{
    lane.channel.len()
}

/// What waits in a lane after a send: the message joins at the back where
/// fewer than `capacity` wait, and is kept out otherwise.
pub open spec fn lane_after_send(queue: Seq<Message>, capacity: nat, message: Message) -> Seq<
    Message,
> {
    if queue.len() < capacity {
        queue.push(message)
    } else {
        queue
    }
}

/// What waits in a lane after a receive: the oldest message has left.
pub open spec fn lane_after_receive(queue: Seq<Message>) -> Seq<Message> {
    if queue.len() > 0 {
        queue.drop_first()
    } else {
        queue
    }
}

/// What became of a message handed to [`Lane::send`].
#[derive(Debug, Clone, Copy, PartialEq, Eq, Structural)]
pub enum Delivery {
    /// The message waits in the lane.
    Delivered,
    /// The lane is full. The producer keeps the message, reports the
    /// congestion and waits for room before it does anything else.
    Deferred(Message),
}

impl View for Lane {
    type V = Seq<Message>;

    open spec fn view(&self) -> Seq<Message> {
        queued(*self)
    }
}

impl Lane {
    /// No more messages wait than the lane holds.
    pub open spec fn wf(&self) -> bool {
        self@.len() <= HANDLER_CHANNEL_SIZE
    }

    /// An empty lane.
    pub fn new() -> (lane: Lane)
        ensures
            lane.wf(),
            lane@ == Seq::<Message>::empty(),
    {
        lane_new()
    }

    /// The number of messages that wait.
    pub fn len(&self) -> (len: usize)
        ensures
            len == self@.len(),
    {
        lane_len(self)
    }

    /// Whether nothing waits.
    pub fn is_empty(&self) -> (empty: bool)
        ensures
            empty <==> self@.len() == 0,
    {
        lane_len(self) == 0
    }

    /// Whether a send would be refused.
    pub fn is_full(&self) -> (full: bool)
        ensures
            full <==> self@.len() >= HANDLER_CHANNEL_SIZE,
    {
        lane_len(self) >= HANDLER_CHANNEL_SIZE
    }

    /// Sends without waiting. A full lane hands the message back and stays
    /// as it is.
    pub fn try_send(&mut self, message: Message) -> (refused: Option<Message>)
        ensures
            old(self).wf() ==> final(self).wf(),
            refused == if old(self)@.len() < HANDLER_CHANNEL_SIZE {
                None
            } else {
                Some(message)
            },
            final(self)@ == lane_after_send(old(self)@, HANDLER_CHANNEL_SIZE as nat, message),
    {
        lane_try_send(self, message)
    }

    /// Takes the oldest message that waits, if any does.
    pub fn try_receive(&mut self) -> (received: Option<Message>)
        ensures
            old(self).wf() ==> final(self).wf(),
            received == if old(self)@.len() > 0 {
                Some(old(self)@[0])
            } else {
                None
            },
            final(self)@ == lane_after_receive(old(self)@),
    {
        lane_try_receive(self)
    }

    /// The send policy of a producer: try without waiting, and where the
    /// lane is full, keep the message for a send that waits.
    pub fn send(&mut self, message: Message) -> (delivery: Delivery)
        ensures
            old(self).wf() ==> final(self).wf(),
            delivery == if old(self)@.len() < HANDLER_CHANNEL_SIZE {
                Delivery::Delivered
            } else {
                Delivery::Deferred(message)
            },
            final(self)@ == lane_after_send(old(self)@, HANDLER_CHANNEL_SIZE as nat, message),
    {
        match lane_try_send(self, message) {
            None => Delivery::Delivered,
            Some(kept) => Delivery::Deferred(kept),
        }
    }
}

/// The two lanes of the system.
pub struct Router {
    /// From the stream reader to the duty controller.
    pub inbound: Lane,
    /// From the duty controller to the stream writer.
    pub outbound: Lane,
}

impl Router {
    /// Both lanes are well formed.
    pub open spec fn wf(&self) -> bool {
        self.inbound.wf() && self.outbound.wf()
    }

    /// A router with two empty lanes.
    pub fn new() -> (router: Router)
        ensures
            router.wf(),
            router.inbound@ == Seq::<Message>::empty(),
            router.outbound@ == Seq::<Message>::empty(),
    {
        Router { inbound: Lane::new(), outbound: Lane::new() }
    }
}

/// A producer, a lane and a consumer: what the producer has yet to send, what
/// waits in the lane, and what the consumer has received.
pub struct Flow {
    /// The messages the producer has yet to send, next first.
    pub unsent: Seq<Message>,
    /// The messages that wait in the lane, oldest first.
    pub queued: Seq<Message>,
    /// The messages the consumer has received, first to last.
    pub received: Seq<Message>,
}

impl Flow {
    /// Every message of the flow, in the order of sending.
    pub open spec fn all(self) -> Seq<Message> {
        self.received + self.queued + self.unsent
    }

    /// How far the flow is from having delivered everything.
    pub open spec fn distance(self) -> nat {
        2 * self.unsent.len() + self.queued.len()
    }
}

/// Whose turn it is.
pub enum Turn {
    /// The producer sends its next message, or waits where the lane is full.
    Producer,
    /// The consumer receives the oldest message, or waits where none is there.
    Consumer,
}

/// The flow after one turn.
pub open spec fn turn(flow: Flow, capacity: nat, who: Turn) -> Flow {
    match who {
        Turn::Producer => if flow.unsent.len() > 0 && flow.queued.len() < capacity {
            Flow {
                unsent: flow.unsent.drop_first(),
                queued: lane_after_send(flow.queued, capacity, flow.unsent[0]),
                received: flow.received,
            }
        } else {
            flow
        },
        Turn::Consumer => if flow.queued.len() > 0 {
            Flow {
                unsent: flow.unsent,
                queued: lane_after_receive(flow.queued),
                received: flow.received.push(flow.queued[0]),
            }
        } else {
            flow
        },
    }
}

/// The flow after the turns of `schedule`, first to last.
pub open spec fn run(flow: Flow, capacity: nat, schedule: Seq<Turn>) -> Flow
    decreases schedule.len(),
{
    if schedule.len() == 0 {
        flow
    } else {
        run(turn(flow, capacity, schedule[0]), capacity, schedule.drop_first())
    }
}

/// The flow after the producer took `times` turns in a row.
pub open spec fn burst(flow: Flow, capacity: nat, times: nat) -> Flow
    decreases times,
{
    if times == 0 {
        flow
    } else {
        burst(turn(flow, capacity, Turn::Producer), capacity, (times - 1) as nat)
    }
}

/// The flow after `rounds` rounds, each a burst of `pace` producer turns and
/// one consumer turn: a producer that is `pace` times as fast as the consumer.
pub open spec fn rounds(flow: Flow, capacity: nat, pace: nat, rounds: nat) -> Flow
    decreases rounds,
{
    if rounds == 0 {
        flow
    } else {
        self::rounds(
            turn(burst(flow, capacity, pace), capacity, Turn::Consumer),
            capacity,
            pace,
            (rounds - 1) as nat,
        )
    }
}

/// A turn neither drops nor reorders a message, and brings the flow no
/// further from its end.
pub proof fn law_turn_keeps_order(flow: Flow, capacity: nat, who: Turn)
    ensures
        turn(flow, capacity, who).all() == flow.all(),
        turn(flow, capacity, who).distance() <= flow.distance(),
        turn(flow, capacity, who).queued.len() <= if flow.queued.len() <= capacity {
            capacity
        } else {
            flow.queued.len()
        },
{
    assert(turn(flow, capacity, who).all() =~= flow.all());
}

/// Whatever the interleaving of producer and consumer, the messages received,
/// those that wait and those yet to be sent are, in this order, the messages
/// in the order of sending: the consumer sees them in the exact order sent,
/// and none is lost.
pub proof fn law_order_kept(flow: Flow, capacity: nat, schedule: Seq<Turn>)
    ensures
        run(flow, capacity, schedule).all() == flow.all(),
        run(flow, capacity, schedule).received == flow.all().take(
            run(flow, capacity, schedule).received.len() as int,
        ),
    decreases schedule.len(),
{
    if schedule.len() > 0 {
        law_turn_keeps_order(flow, capacity, schedule[0]);
        law_order_kept(turn(flow, capacity, schedule[0]), capacity, schedule.drop_first());
    }
    let end = run(flow, capacity, schedule);
    assert(end.received =~= end.all().take(end.received.len() as int));
}

/// A burst of producer turns neither drops nor reorders a message. Where
/// its first turn changes nothing, the whole burst changes nothing.
pub proof fn lemma_burst(flow: Flow, capacity: nat, times: nat)
    ensures
        burst(flow, capacity, times).all() == flow.all(),
        burst(flow, capacity, times).distance() <= flow.distance(),
        turn(flow, capacity, Turn::Producer) == flow ==> burst(flow, capacity, times) == flow,
        times > 0 && turn(flow, capacity, Turn::Producer) != flow ==> burst(
            flow,
            capacity,
            times,
        ).distance() < flow.distance(),
    decreases times,
{
    if times > 0 {
        law_turn_keeps_order(flow, capacity, Turn::Producer);
        lemma_burst(turn(flow, capacity, Turn::Producer), capacity, (times - 1) as nat);
    }
}

/// One round brings a flow that has not ended nearer to its end.
pub proof fn lemma_round(flow: Flow, capacity: nat, pace: nat)
    requires
        capacity >= 1,
        pace >= 1,
    ensures
        turn(burst(flow, capacity, pace), capacity, Turn::Consumer).all() == flow.all(),
        flow.distance() > 0 ==> turn(burst(flow, capacity, pace), capacity, Turn::Consumer).distance()
            < flow.distance(),
        flow.distance() == 0 ==> turn(burst(flow, capacity, pace), capacity, Turn::Consumer)
            == flow,
{
    lemma_burst(flow, capacity, pace);
    law_turn_keeps_order(burst(flow, capacity, pace), capacity, Turn::Consumer);
}

/// However much faster than the consumer the producer is, every message is
/// delivered in the end: after as many rounds as the flow is far from its
/// end, the consumer has received every message, in the order of sending, and
/// as many as were sent.
pub proof fn law_all_delivered(flow: Flow, capacity: nat, pace: nat, count: nat)
    requires
        capacity >= 1,
        pace >= 1,
        count >= flow.distance(),
    ensures
        rounds(flow, capacity, pace, count).received == flow.all(),
        rounds(flow, capacity, pace, count).queued.len() == 0,
        rounds(flow, capacity, pace, count).unsent.len() == 0,
    decreases count,
{
    if count == 0 {
        assert(flow.all() =~= flow.received);
    } else {
        lemma_round(flow, capacity, pace);
        let next = turn(burst(flow, capacity, pace), capacity, Turn::Consumer);
        law_all_delivered(next, capacity, pace, (count - 1) as nat);
    }
}

} // verus!
