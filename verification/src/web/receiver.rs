//! One stream of server messages for several readers, each with a queue of its own.
use crate::shared::server_datagram::{ServerDatagram, ServerMessage};
use std::collections::VecDeque;
use vstd::prelude::*;

verus! {

/// The queues of all subscribers, by their numbers.
pub struct Receiver {
    queues: Vec<VecDeque<ServerDatagram>>,
}

/// A reader of the stream.
pub struct Subscriber {
    id: usize,
}

/// What the messages of a queue say.
pub open spec fn queue_view(q: Seq<ServerDatagram>) -> Seq<ServerMessage> {
    q.map_values(|d: ServerDatagram| d@)
}

impl View for Receiver {
    type V = Seq<Seq<ServerMessage>>;

    closed spec fn view(&self) -> Seq<Seq<ServerMessage>> {
        self.queues@.map_values(|q: VecDeque<ServerDatagram>| queue_view(q@))
    }
}

impl View for Subscriber {
    type V = nat;

    closed spec fn view(&self) -> nat {
        self.id as nat
    }
}

/// The queues after a message arrived: it is appended to each.
pub open spec fn pushed(queues: Seq<Seq<ServerMessage>>, m: ServerMessage) -> Seq<
    Seq<ServerMessage>,
> {
    queues.map_values(|q: Seq<ServerMessage>| q.push(m))
}

/// The queues after one reader asked for its next message.
pub open spec fn read(queues: Seq<Seq<ServerMessage>>, id: nat) -> Seq<Seq<ServerMessage>> {
    if id < queues.len() && queues[id as int].len() > 0 {
        queues.update(id as int, queues[id as int].drop_first())
    } else {
        queues
    }
}

/// A copy of a message.
fn copy_datagram(d: &ServerDatagram) -> (r: ServerDatagram)
    ensures
        r@ == d@,
{
    match d {
        ServerDatagram::VideoFrame {
            frame_id,
            frag_idx,
            num_frags,
            is_keyframe,
            codec,
            payload,
        } => {
            let copied = vstd::slice::slice_to_vec(payload.as_slice());
            assert(copied@ =~= payload@);
            ServerDatagram::VideoFrame {
                frame_id: *frame_id,
                frag_idx: *frag_idx,
                num_frags: *num_frags,
                is_keyframe: *is_keyframe,
                codec: *codec,
                payload: copied,
            }
        },
        ServerDatagram::ReleaseMouse => ServerDatagram::ReleaseMouse,
        ServerDatagram::ToggleFullscreen => ServerDatagram::ToggleFullscreen,
        ServerDatagram::AudioFrame {
            frame_id,
            frag_idx,
            num_frags,
            channels,
            rate,
            format,
            payload,
        } => {
            let copied = vstd::slice::slice_to_vec(payload.as_slice());
            assert(copied@ =~= payload@);
            ServerDatagram::AudioFrame {
                frame_id: *frame_id,
                frag_idx: *frag_idx,
                num_frags: *num_frags,
                channels: *channels,
                rate: *rate,
                format: *format,
                payload: copied,
            }
        },
    }
}

impl Receiver {
    /// A stream with its first reader.
    pub fn new() -> (r: (Receiver, Subscriber))
        ensures
            r.0@ == seq![Seq::<ServerMessage>::empty()],
            r.1@ == 0,
    {
        let mut queues: Vec<VecDeque<ServerDatagram>> = Vec::new();
        queues.push(VecDeque::new());
        let receiver = Receiver { queues };
        assert(queue_view(queues@[0]@) =~= Seq::<ServerMessage>::empty());
        assert(receiver@ =~= seq![Seq::<ServerMessage>::empty()]);
        (receiver, Subscriber { id: 0 })
    }

    /// A message arrives.
    pub fn push(&mut self, datagram: ServerDatagram)
        ensures
            final(self)@ == pushed(old(self)@, datagram@),
    {
        let ghost before = self@;
        let n = self.queues.len();
        let mut filled: Vec<VecDeque<ServerDatagram>> = Vec::new();
        let ghost old_queues = self.queues@;
        let mut i: usize = n;
        while i > 0
            invariant
                i <= n,
                n == old_queues.len(),
                self.queues@ == old_queues.take(i as int),
                filled@.len() == n - i,
                forall|j: int|
                    0 <= j < n - i ==> queue_view((#[trigger] filled@[j])@) == queue_view(
                        old_queues[n - 1 - j]@,
                    ).push(datagram@),
            decreases i,
        {
            let ghost last = old_queues[i - 1];
            if let Some(mut queue) = self.queues.pop() {
                assert(queue == last);
                queue.push_back(copy_datagram(&datagram));
                assert(queue_view(queue@) =~= queue_view(last@).push(datagram@));
                filled.push(queue);
            }
            i -= 1;
            assert(self.queues@ =~= old_queues.take(i as int));
        }
        assert(self.queues@.len() == 0);
        let mut k: usize = 0;
        while k < n
            invariant
                k <= n,
                n == old_queues.len(),
                filled@.len() == n - k,
                self.queues@.len() == k,
                forall|j: int|
                    0 <= j < n - k ==> queue_view((#[trigger] filled@[j])@) == queue_view(
                        old_queues[n - 1 - j]@,
                    ).push(datagram@),
                forall|j: int|
                    0 <= j < k ==> queue_view((#[trigger] self.queues@[j])@) == queue_view(
                        old_queues[j]@,
                    ).push(datagram@),
            decreases n - k,
        {
            if let Some(queue) = filled.pop() {
                assert(queue_view(queue@) == queue_view(old_queues[k as int]@).push(datagram@));
                self.queues.push(queue);
            }
            k += 1;
        }
        assert(self@ =~= pushed(before, datagram@));
    }
}

impl Subscriber {
    /// The next message of this reader.
    pub fn recv(&self, receiver: &mut Receiver) -> (r: Option<ServerDatagram>)
        ensures
            final(receiver)@ == read(old(receiver)@, self@),
            match r {
                Some(d) => self@ < old(receiver)@.len() && old(receiver)@[self@ as int].len() > 0
                    && d@ == old(receiver)@[self@ as int][0],
                None => self@ >= old(receiver)@.len() || old(receiver)@[self@ as int].len() == 0,
            },
    {
        if self.id >= receiver.queues.len() {
            return None;
        }
        let ghost before = receiver@;
        let ghost queue = receiver.queues@[self.id as int]@;
        assert(before[self.id as int] == queue_view(queue));
        let r = receiver.queues[self.id].pop_front();
        proof {
            if queue.len() > 0 {
                assert(queue_view(queue.drop_first()) =~= queue_view(queue).drop_first());
                assert(receiver@ =~= before.update(self.id as int, queue_view(queue).drop_first()));
            } else {
                assert(receiver@ =~= before);
            }
        }
        r
    }

    /// Another reader, for which the stream begins now.
    pub fn subscribe(&self, receiver: &mut Receiver) -> (s: Subscriber)
        ensures
            s@ == old(receiver)@.len(),
            final(receiver)@ == old(receiver)@.push(Seq::<ServerMessage>::empty()),
    {
        let id = receiver.queues.len();
        let ghost before = receiver@;
        let queue: VecDeque<ServerDatagram> = VecDeque::new();
        assert(queue_view(queue@) =~= Seq::<ServerMessage>::empty());
        receiver.queues.push(queue);
        assert(receiver@ =~= before.push(Seq::<ServerMessage>::empty()));
        Subscriber { id }
    }
}

/// Something that happens to the stream.
pub ghost enum StreamEvent {
    /// A message arrives.
    Arrives(ServerMessage),
    /// The reader of this number asks for its next message.
    Read(nat),
    /// Another reader subscribes.
    Subscribes,
}

/// The queues after a row of events.
pub open spec fn after_events(queues: Seq<Seq<ServerMessage>>, events: Seq<StreamEvent>) -> Seq<
    Seq<ServerMessage>,
>
    decreases events.len(),
{
    if events.len() == 0 {
        queues
    } else {
        let before = after_events(queues, events.drop_last());
        match events.last() {
            StreamEvent::Arrives(m) => pushed(before, m),
            StreamEvent::Read(id) => read(before, id),
            StreamEvent::Subscribes => before.push(Seq::empty()),
        }
    }
}

/// The messages that arrive in a row of events.
pub open spec fn arrivals(events: Seq<StreamEvent>) -> Seq<ServerMessage>
    decreases events.len(),
{
    if events.len() == 0 {
        Seq::empty()
    } else {
        match events.last() {
            StreamEvent::Arrives(m) => arrivals(events.drop_last()).push(m),
            _ => arrivals(events.drop_last()),
        }
    }
}

/// The messages that one reader is given in a row of events.
pub open spec fn given(queues: Seq<Seq<ServerMessage>>, events: Seq<StreamEvent>, id: nat) -> Seq<
    ServerMessage,
>
    decreases events.len(),
{
    if events.len() == 0 {
        Seq::empty()
    } else {
        let before = after_events(queues, events.drop_last());
        let so_far = given(queues, events.drop_last(), id);
        if events.last() == StreamEvent::Read(id) && id < before.len() && before[id as int].len()
            > 0 {
            so_far.push(before[id as int][0])
        } else {
            so_far
        }
    }
}

/// Every reader gets every message that arrives after it subscribed, once and in the order of
/// arrival, whatever the other readers do: what it was given and what still waits for it are,
/// together, what waited for it at first and what arrived since.
pub proof fn readers_get_everything(
    queues: Seq<Seq<ServerMessage>>,
    events: Seq<StreamEvent>,
    id: nat,
)
    requires
        id < queues.len(),
    ensures
        after_events(queues, events).len() >= queues.len(),
        given(queues, events, id) + after_events(queues, events)[id as int] == queues[id as int]
            + arrivals(events),
    decreases events.len(),
{
    let k = id as int;
    if events.len() > 0 {
        readers_get_everything(queues, events.drop_last(), id);
        let before = after_events(queues, events.drop_last());
        let now = after_events(queues, events);
        let so_far = given(queues, events.drop_last(), id);
        match events.last() {
            StreamEvent::Arrives(m) => {
                assert(so_far + before[k].push(m) =~= (so_far + before[k]).push(m));
                assert(queues[k] + arrivals(events.drop_last()).push(m) =~= (queues[k] + arrivals(
                    events.drop_last(),
                )).push(m));
            },
            StreamEvent::Read(other) => {
                if other == id && before[k].len() > 0 {
                    assert(so_far.push(before[k][0]) + before[k].drop_first() =~= so_far
                        + before[k]);
                }
            },
            StreamEvent::Subscribes => {},
        }
    } else {
        assert(given(queues, events, id) + queues[k] =~= queues[k] + arrivals(events));
    }
}

/// What came of a read of the datagram stream.
pub enum ReadOutcome {
    Data(Vec<u8>),
    /// The stream has no more data, or reading failed.
    Ended,
}

/// Handles one read: a datagram goes to all readers, bytes that are none are dropped. Says
/// whether to go on reading.
pub fn on_read(receiver: &mut Receiver, outcome: ReadOutcome) -> (go_on: bool)
    ensures
        go_on == (outcome is Data),
        final(receiver)@ == (match outcome {
            ReadOutcome::Data(bytes) => match crate::shared::server_datagram::server_message(
                bytes@,
            ) {
                Ok(m) => pushed(old(receiver)@, m),
                Err(_) => old(receiver)@,
            },
            ReadOutcome::Ended => old(receiver)@,
        }),
{
    match outcome {
        ReadOutcome::Data(bytes) => {
            if let Ok(datagram) = ServerDatagram::from_bytes(bytes.as_slice()) {
                receiver.push(datagram);
            }
            true
        },
        ReadOutcome::Ended => false,
    }
}

/// A message that arrives is the last in every queue, and a read takes the first of one queue and
/// leaves all others as they are.
pub proof fn messages_are_queued_in_order(
    queues: Seq<Seq<ServerMessage>>,
    m: ServerMessage,
    id: nat,
    i: int,
)
    requires
        0 <= i < queues.len(),
    ensures
        pushed(queues, m).len() == queues.len(),
        pushed(queues, m)[i].len() == queues[i].len() + 1,
        pushed(queues, m)[i].last() == m,
        pushed(queues, m)[i].take(queues[i].len() as int) == queues[i],
        read(queues, id).len() == queues.len(),
        i != id ==> read(queues, id)[i] == queues[i],
        i == id && queues[i].len() > 0 ==> read(queues, id)[i] == queues[i].skip(1),
        i == id && queues[i].len() == 0 ==> read(queues, id)[i] == queues[i],
{
    assert(pushed(queues, m)[i].take(queues[i].len() as int) =~= queues[i]);
    if queues[i].len() > 0 {
        assert(queues[i].drop_first() =~= queues[i].skip(1));
    }
}

} // verus!
