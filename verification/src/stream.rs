//! The client's websocket as a stream of bytes: what of its messages is handed to a reader, and
//! what waits in a buffer.

use crate::byte_buffer::{
    buffer_len, buffer_put_slice, buffer_split_to, buffer_with_capacity, buffered,
};
use crate::config::Config;
use bytes::BytesMut;
use vstd::prelude::*;

verus! {

/// The longest message that a client may send.
pub const MAX_WEBSOCKET_SIZE: usize = 64 * 1024;

/// The longest message that is put aside.
pub const MAX_BUFFER_SIZE: usize = 512 * 1024;

/// What the websocket has to say.
pub enum StreamEvent {
    /// A message of bytes.
    Message(Vec<u8>),
    /// A message that is no bytes.
    Text,
    /// Nothing yet.
    Pending,
    /// It was closed, or it failed.
    End,
}

/// What a [`StreamEvent`] says.
#[verifier::ext_equal]
pub enum StreamEventView {
    Message(Seq<u8>),
    Text,
    Pending,
    End,
}

impl View for StreamEvent {
    type V = StreamEventView;

    open spec fn view(&self) -> StreamEventView {
        match *self {
            StreamEvent::Message(data) => StreamEventView::Message(data@),
            StreamEvent::Text => StreamEventView::Text,
            StreamEvent::Pending => StreamEventView::Pending,
            StreamEvent::End => StreamEventView::End,
        }
    }
}

/// What a read does next.
pub enum ReadAction {
    /// It returns these bytes; none at all where the stream has ended.
    Ready(Vec<u8>),
    /// It asks the websocket.
    Poll,
    /// It starts over.
    Again,
    /// It waits.
    Pending,
    /// It fails: the message is too long.
    TooLong,
}

/// What a [`ReadAction`] says.
#[verifier::ext_equal]
pub enum ReadActionView {
    Ready(Seq<u8>),
    Poll,
    Again,
    Pending,
    TooLong,
}

impl View for ReadAction {
    type V = ReadActionView;

    open spec fn view(&self) -> ReadActionView {
        match *self {
            ReadAction::Ready(data) => ReadActionView::Ready(data@),
            ReadAction::Poll => ReadActionView::Poll,
            ReadAction::Again => ReadActionView::Again,
            ReadAction::Pending => ReadActionView::Pending,
            ReadAction::TooLong => ReadActionView::TooLong,
        }
    }
}

/// The lesser of two lengths.
pub open spec fn lesser(a: int, b: int) -> int {
    if a <= b {
        a
    } else {
        b
    }
}

/// A read with room for `room` bytes begins while `waiting` is put aside: what then waits, and
/// what the read does. What waits goes first.
pub open spec fn read_begins(waiting: Seq<u8>, room: nat) -> (Seq<u8>, ReadActionView) {
    if waiting.len() > 0 {
        let n = lesser(waiting.len() as int, room as int);
        (waiting.skip(n), ReadActionView::Ready(waiting.take(n)))
    } else {
        (waiting, ReadActionView::Poll)
    }
}

/// A read with room for `room` bytes gets a message while `waiting` is put aside. What the read
/// has no room for is put aside as a whole.
pub open spec fn read_gets_message(waiting: Seq<u8>, data: Seq<u8>, room: nat) -> (
    Seq<u8>,
    ReadActionView,
) {
    if data.len() > MAX_WEBSOCKET_SIZE {
        (waiting, ReadActionView::TooLong)
    } else if data.len() <= room {
        (waiting, ReadActionView::Ready(data))
    } else if data.len() > MAX_BUFFER_SIZE {
        (waiting, ReadActionView::Pending)
    } else {
        (waiting + data, ReadActionView::Again)
    }
}

/// A read with room for `room` bytes is told what the websocket says.
pub open spec fn read_goes_on(waiting: Seq<u8>, event: StreamEventView, room: nat) -> (
    Seq<u8>,
    ReadActionView,
) {
    match event {
        StreamEventView::Message(data) => read_gets_message(waiting, data, room),
        StreamEventView::Text => (waiting, ReadActionView::Again),
        StreamEventView::Pending => (waiting, ReadActionView::Pending),
        StreamEventView::End => (waiting, ReadActionView::Ready(Seq::empty())),
    }
}

/// A client's stream.
pub struct ProxyStream {
    pub config: Config,
    pub buffer: BytesMut,
}

impl ProxyStream {
    /// What is put aside.
    pub open spec fn waiting(self) -> Seq<u8> {
        buffered(self.buffer)
    }

    /// A stream with nothing put aside.
    pub fn new(config: Config) -> (s: Self)
        ensures
            s.config == config,
            s.waiting() == Seq::<u8>::empty(),
    {
        ProxyStream { config, buffer: buffer_with_capacity(MAX_BUFFER_SIZE) }
    }

    /// Begins a read with room for `room` bytes.
    pub fn begin_read(&mut self, room: usize) -> (a: ReadAction)
        ensures
            final(self).config == old(self).config,
            (final(self).waiting(), a@) == read_begins(old(self).waiting(), room as nat),
    {
        let len: usize = buffer_len(&self.buffer);
        if len > 0 {
            let size: usize = if len <= room {
                len
            } else {
                room
            };
            ReadAction::Ready(buffer_split_to(&mut self.buffer, size))
        } else {
            ReadAction::Poll
        }
    }

    /// Goes on with a read that asked the websocket.
    pub fn continue_read(&mut self, event: StreamEvent, room: usize) -> (a: ReadAction)
        requires
            old(self).waiting().len() <= MAX_WEBSOCKET_SIZE,
        ensures
            final(self).config == old(self).config,
            (final(self).waiting(), a@) == read_goes_on(old(self).waiting(), event@, room as nat),
    {
        match event {
            StreamEvent::Message(data) => {
                if data.len() > MAX_WEBSOCKET_SIZE {
                    return ReadAction::TooLong;
                }
                if data.len() <= room {
                    return ReadAction::Ready(data);
                }
                if data.len() > MAX_BUFFER_SIZE {
                    return ReadAction::Pending;
                }
                buffer_put_slice(&mut self.buffer, data.as_slice());
                ReadAction::Again
            },
            StreamEvent::Text => ReadAction::Again,
            StreamEvent::Pending => ReadAction::Pending,
            StreamEvent::End => ReadAction::Ready(Vec::new()),
        }
    }
}

/// A step of some reads, with the room that the read has.
pub enum ReadStep {
    Begin { room: nat },
    Event { event: StreamEventView, room: nat },
}

/// What waits after a step, and what the read does.
pub open spec fn after_step(waiting: Seq<u8>, step: ReadStep) -> (Seq<u8>, ReadActionView) {
    match step {
        ReadStep::Begin { room } => read_begins(waiting, room),
        ReadStep::Event { event, room } => read_goes_on(waiting, event, room),
    }
}

/// What waits after some steps.
pub open spec fn waiting_after(steps: Seq<ReadStep>) -> Seq<u8>
    decreases steps.len(),
{
    if steps.len() == 0 {
        Seq::empty()
    } else {
        after_step(waiting_after(steps.drop_last()), steps.last()).0
    }
}

/// What the last of some steps does.
pub open spec fn last_action(steps: Seq<ReadStep>) -> ReadActionView {
    after_step(waiting_after(steps.drop_last()), steps.last()).1
}

/// All bytes that some steps hand out, in order.
pub open spec fn handed_out(steps: Seq<ReadStep>) -> Seq<u8>
    decreases steps.len(),
{
    if steps.len() == 0 {
        Seq::empty()
    } else {
        let before = handed_out(steps.drop_last());
        match last_action(steps) {
            ReadActionView::Ready(data) => before + data,
            _ => before,
        }
    }
}

/// All bytes that the websocket brings in some steps, in order.
pub open spec fn brought_in(steps: Seq<ReadStep>) -> Seq<u8>
    decreases steps.len(),
{
    if steps.len() == 0 {
        Seq::empty()
    } else {
        let before = brought_in(steps.drop_last());
        match steps.last() {
            ReadStep::Event { event: StreamEventView::Message(data), .. } => before + data,
            _ => before,
        }
    }
}

/// The steps of reads in which no message is too long: the websocket is asked only when nothing
/// waits.
pub open spec fn orderly(steps: Seq<ReadStep>) -> bool
    decreases steps.len(),
{
    steps.len() > 0 ==> {
        &&& orderly(steps.drop_last())
        &&& steps.last() is Event ==> waiting_after(steps.drop_last()).len() == 0
        &&& !(last_action(steps) is TooLong)
    }
}

/// Nothing is lost, doubled or put out of order: what the websocket brought is what was handed
/// out, and behind it what still waits.
pub proof fn law_bytes_come_through_in_order(steps: Seq<ReadStep>)
    requires
        orderly(steps),
    ensures
        handed_out(steps) + waiting_after(steps) == brought_in(steps),
    decreases steps.len(),
{
    if steps.len() > 0 {
        let before = steps.drop_last();
        law_bytes_come_through_in_order(before);
        let w = waiting_after(before);
        match steps.last() {
            ReadStep::Begin { room } => {
                let n = lesser(w.len() as int, room as int);
                assert(w.take(n) + w.skip(n) == w);
                assert(handed_out(before) + w.take(n) + w.skip(n) == handed_out(before) + w);
            },
            ReadStep::Event { event, room } => {
                assert(w == Seq::<u8>::empty());
                assert(handed_out(before) == brought_in(before));
                assert(handed_out(before) + Seq::<u8>::empty() == handed_out(before));
                if let StreamEventView::Message(data) = event {
                    assert(w + data == data);
                    assert(handed_out(before) + data + w == handed_out(before) + data);
                }
            },
        }
    }
}

/// A read never returns more than it has room for.
pub proof fn law_read_fits(waiting: Seq<u8>, step: ReadStep)
    ensures
        after_step(waiting, step).1 matches ReadActionView::Ready(data) ==> data.len() <= match step {
            ReadStep::Begin { room } => room,
            ReadStep::Event { room, .. } => room,
        },
{
}

/// What waits is never longer than one message may be, and no message is ever held back for
/// want of space.
pub proof fn law_buffer_is_bounded(steps: Seq<ReadStep>)
    requires
        orderly(steps),
    ensures
        waiting_after(steps).len() <= MAX_WEBSOCKET_SIZE,
        steps.len() > 0 && last_action(steps) is Pending ==> steps.last() matches ReadStep::Event {
            event: StreamEventView::Pending,
            ..
        },
    decreases steps.len(),
{
    if steps.len() > 0 {
        law_buffer_is_bounded(steps.drop_last());
    }
}

/// A read fails as too long if and only if it is told of a message of more than 65536 bytes; any
/// other message that it has room for it hands out whole, in that very step.
pub proof fn law_too_long_is_over_the_limit(waiting: Seq<u8>, event: StreamEventView, room: nat)
    ensures
        !(read_begins(waiting, room).1 is TooLong),
        read_goes_on(waiting, event, room).1 is TooLong <==> (event matches
            StreamEventView::Message(data) && data.len() > 65536),
        event matches StreamEventView::Message(data) ==> (data.len() <= 65536 && data.len() <= room
            ==> read_goes_on(waiting, event, room).1 == ReadActionView::Ready(data)),
{
}

/// A read that begins while bytes wait returns as many of them as it has room for, the first
/// ones, and the rest still waits; where none wait it asks the websocket.
pub proof fn law_waiting_bytes_go_first(waiting: Seq<u8>, room: nat)
    ensures
        ({
            let (rest, action) = read_begins(waiting, room);
            if waiting.len() > 0 {
                action matches ReadActionView::Ready(data) && data + rest == waiting && (rest.len()
                    == 0 || data.len() == room) && data.len() <= room
            } else {
                action is Poll && rest.len() == 0
            }
        }),
{
    let n = lesser(waiting.len() as int, room as int);
    assert(waiting.take(n) + waiting.skip(n) == waiting);
}

/// A message is handed out or put aside, each time whole, or it is too long: what waited still
/// waits, in front, and the read starts over where the message was put aside.
pub proof fn law_message_is_kept_whole(waiting: Seq<u8>, data: Seq<u8>, room: nat)
    requires
        data.len() <= 65536,
    ensures
        ({
            let event = StreamEventView::Message(data);
            let (rest, action) = read_goes_on(waiting, event, room);
            if data.len() <= room {
                rest == waiting && action == ReadActionView::Ready(data)
            } else {
                rest == waiting + data && action is Again
            }
        }),
{
}

/// What brings no bytes changes nothing that waits: a text is passed over, a silent websocket
/// makes the read wait, and the end of the websocket is the end of the stream.
pub proof fn law_other_events_keep_what_waits(waiting: Seq<u8>, event: StreamEventView, room: nat)
    requires
        !(event is Message),
    ensures
        ({
            let (rest, action) = read_goes_on(waiting, event, room);
            &&& rest == waiting
            &&& event is Text ==> action is Again
            &&& event is Pending ==> action is Pending
            &&& event is End ==> action == ReadActionView::Ready(Seq::empty())
        }),
{
}

/// What a read's steps are: those of the stream's two operations.
pub proof fn law_steps_are_the_operations(waiting: Seq<u8>, event: StreamEventView, room: nat)
    ensures
        after_step(waiting, ReadStep::Begin { room }) == read_begins(waiting, room),
        after_step(waiting, ReadStep::Event { event, room }) == read_goes_on(waiting, event, room),
{
}

/// Events and actions are seen as what they hold.
pub proof fn law_reads_are_seen_whole(event: StreamEvent, action: ReadAction)
    ensures
        event matches StreamEvent::Message(data) ==> event@ == StreamEventView::Message(data@),
        event is Text ==> event@ is Text,
        event is Pending ==> event@ is Pending,
        event is End ==> event@ is End,
        action matches ReadAction::Ready(data) ==> action@ == ReadActionView::Ready(data@),
        action is Poll ==> action@ is Poll,
        action is Again ==> action@ is Again,
        action is Pending ==> action@ is Pending,
        action is TooLong ==> action@ is TooLong,
{
}

/// What waits in a stream is what its buffer holds, and the limits are 64 and 512 times 1024
/// bytes.
pub proof fn law_buffer_is_what_waits(s: ProxyStream)
    ensures
        s.waiting() == buffered(s.buffer),
        MAX_WEBSOCKET_SIZE == 65536,
        MAX_BUFFER_SIZE == 524288,
{
}

} // verus!
