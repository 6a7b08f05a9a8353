//! The client's side of the upstream channel: stream identifiers, the
//! table of live streams, what each inbound frame asks for, and the relay
//! of one stream between a local socket and the channel.
//!
//! The client decides; whoever owns the channel and the sockets acts.

use bytes::Bytes;
use vstd::prelude::*;
use crate::message::{bytes_as_slice, bytes_contents, StreamId, TunnelMessage};
use crate::stream_manager::{StreamManager, StreamStatus, Streams};
use crate::wire::{decode_frame, Frame};

verus! {

/// Frames that the upstream send queue holds at most.
pub const SEND_QUEUE_CAPACITY: usize = 256;

/// Payloads that the inbox of one stream holds at most.
pub const INBOX_CAPACITY: usize = 256;

/// Bytes that the relay reads from the local socket at most at a time.
pub const RELAY_CHUNK_SIZE: usize = 16384;

/// Seconds between two keepalives, at least.
pub const KEEPALIVE_INTERVAL_SECS: u64 = 15;

/// How far `k` lies behind `start` when the identifiers are walked upwards
/// from `start`, wrapping after the largest.
pub open spec fn distance(start: StreamId, k: StreamId) -> int {
    (k - start) % 0x1_0000_0000
}

/// The identifier that follows `id`, wrapping after the largest.
pub open spec fn successor(id: StreamId) -> StreamId {
    if id == u32::MAX {
        0
    } else {
        (id + 1) as u32
    }
}

/// The stream that a frame is about; 0 for a frame that is about none.
pub open spec fn subject_of(f: Frame) -> StreamId {
    match f {
        Frame::Connect { stream_id, .. } => stream_id,
        Frame::Data { stream_id, .. } => stream_id,
        Frame::Close { stream_id } => stream_id,
        Frame::ErrorReply { stream_id, .. } => stream_id,
        Frame::Ping => 0,
        Frame::Pong => 0,
    }
}

/// The error that releases a stream when the channel is gone.
pub open spec fn transport_error(stream_id: StreamId) -> Frame {
    Frame::ErrorReply { stream_id, code: 0, message: "Transport closed"@ }
}

/// What an inbound frame asks of whoever owns the inboxes, as a
/// mathematical value.
pub enum Delivery {
    Nothing,
    Deliver { stream_id: StreamId, payload: Seq<u8> },
    CloseInbox { stream_id: StreamId },
    Reply(Frame),
}

/// What an inbound frame asks of whoever owns the inboxes.
#[derive(Debug, Clone)]
pub enum Dispatch {
    /// Nothing to do.
    Nothing,
    /// Put the payload into the stream's inbox, waiting while it is full.
    Deliver { stream_id: StreamId, payload: Bytes },
    /// Drop the sending end of the stream's inbox.
    CloseInbox { stream_id: StreamId },
    /// Send this frame upstream.
    Reply(TunnelMessage),
}

impl View for Dispatch {
    type V = Delivery;

    open spec fn view(&self) -> Delivery {
        match *self {
            Dispatch::Nothing => Delivery::Nothing,
            Dispatch::Deliver { stream_id, payload } => Delivery::Deliver {
                stream_id,
                payload: bytes_contents(payload),
            },
            Dispatch::CloseInbox { stream_id } => Delivery::CloseInbox { stream_id },
            Dispatch::Reply(m) => Delivery::Reply(m@),
        }
    }
}

/// What a frame from the relay asks for: payload for a live stream is
/// delivered, CLOSE and ERROR close a live stream's inbox, PING is answered
/// with PONG, and nothing else asks for anything.
pub open spec fn dispatch_step(table: Streams, f: Frame) -> Delivery {
    match f {
        Frame::Data { stream_id, payload } => if table.contains_key(stream_id) {
            Delivery::Deliver { stream_id, payload }
        } else {
            Delivery::Nothing
        },
        Frame::Close { stream_id } => if table.contains_key(stream_id) {
            Delivery::CloseInbox { stream_id }
        } else {
            Delivery::Nothing
        },
        Frame::ErrorReply { stream_id, .. } => if table.contains_key(stream_id) {
            Delivery::CloseInbox { stream_id }
        } else {
            Delivery::Nothing
        },
        Frame::Ping => Delivery::Reply(Frame::Pong),
        Frame::Pong => Delivery::Nothing,
        Frame::Connect { .. } => Delivery::Nothing,
    }
}

/// The stream table after a frame from the relay: payload opens a live
/// stream, CLOSE and ERROR remove one, and nothing else touches the table.
pub open spec fn dispatch_table(table: Streams, f: Frame) -> Streams {
    match f {
        Frame::Data { stream_id, .. } => if table.contains_key(stream_id) {
            table.insert(stream_id, StreamStatus::Open)
        } else {
            table
        },
        Frame::Close { stream_id } => table.remove(stream_id),
        Frame::ErrorReply { stream_id, .. } => table.remove(stream_id),
        _ => table,
    }
}

/// What a message from the relay asks for. One that does not decode is
/// dropped.
pub open spec fn message_delivery(table: Streams, data: Seq<u8>) -> Delivery {
    match decode_frame(data) {
        Ok(f) => dispatch_step(table, f),
        Err(_) => Delivery::Nothing,
    }
}

/// The stream table after a message from the relay.
pub open spec fn message_dispatched(table: Streams, data: Seq<u8>) -> Streams {
    match decode_frame(data) {
        Ok(f) => dispatch_table(table, f),
        Err(_) => table,
    }
}

/// What happened to one of the two directions of a relay.
#[derive(Debug)]
pub enum RelayEvent {
    /// The local socket was read: bytes, nothing (its end), or a failure.
    LocalRead(Result<Bytes, String>),
    /// A frame could not be put into the upstream send queue.
    UpstreamClosed,
    /// The inbox yielded a payload, or is closed.
    Inbox(Option<Bytes>),
    /// A payload could not be written to the local socket.
    LocalWriteFailed,
}

/// What a relay asks of whoever owns the sockets, as a mathematical value.
pub enum RelayStep {
    Idle,
    Send(Frame),
    WriteLocal(Seq<u8>),
    Finish(Frame),
}

/// What a relay asks of whoever owns the sockets.
#[derive(Debug, Clone)]
pub enum RelayAction {
    /// Nothing to do: the relay has ended before.
    Idle,
    /// Put this frame into the upstream send queue and go on.
    Send(TunnelMessage),
    /// Write the payload to the local socket and go on.
    WriteLocal(Bytes),
    /// The relay ends: stop both directions and send this frame upstream.
    Finish(TunnelMessage),
}

impl View for RelayAction {
    type V = RelayStep;

    open spec fn view(&self) -> RelayStep {
        match *self {
            RelayAction::Idle => RelayStep::Idle,
            RelayAction::Send(m) => RelayStep::Send(m@),
            RelayAction::WriteLocal(payload) => RelayStep::WriteLocal(bytes_contents(payload)),
            RelayAction::Finish(m) => RelayStep::Finish(m@),
        }
    }
}

/// What an event means to a relay that has not ended, as a mathematical
/// value: payload to carry on, or the end.
pub enum RelayInput {
    FromLocal(Seq<u8>),
    FromInbox(Seq<u8>),
    End,
}

/// Bytes read locally and payloads from the inbox are carried on; the end
/// of the local socket, a closed inbox and every failure end the relay.
pub open spec fn relay_input(event: RelayEvent) -> RelayInput {
    match event {
        RelayEvent::LocalRead(Ok(chunk)) => if bytes_contents(chunk).len() == 0 {
            RelayInput::End
        } else {
            RelayInput::FromLocal(bytes_contents(chunk))
        },
        RelayEvent::LocalRead(Err(_)) => RelayInput::End,
        RelayEvent::UpstreamClosed => RelayInput::End,
        RelayEvent::Inbox(Some(payload)) => RelayInput::FromInbox(bytes_contents(payload)),
        RelayEvent::Inbox(None) => RelayInput::End,
        RelayEvent::LocalWriteFailed => RelayInput::End,
    }
}

/// What a relay of `stream_id` does about an input: local bytes become one
/// DATA frame, a payload from the inbox is written locally, and the end is
/// answered with CLOSE, once.
pub open spec fn relay_step(stream_id: StreamId, finished: bool, input: RelayInput) -> RelayStep {
    if finished {
        RelayStep::Idle
    } else {
        match input {
            RelayInput::FromLocal(chunk) => RelayStep::Send(
                Frame::Data { stream_id, payload: chunk },
            ),
            RelayInput::FromInbox(payload) => RelayStep::WriteLocal(payload),
            RelayInput::End => RelayStep::Finish(Frame::Close { stream_id }),
        }
    }
}

/// The stream table after an input to a relay of `stream_id`: local bytes
/// open the stream if it is live, the end removes it.
pub open spec fn relay_table(
    table: Streams,
    stream_id: StreamId,
    finished: bool,
    input: RelayInput,
) -> Streams {
    if finished {
        table
    } else {
        match input {
            RelayInput::FromLocal(_) => if table.contains_key(stream_id) {
                table.insert(stream_id, StreamStatus::Open)
            } else {
                table
            },
            RelayInput::FromInbox(_) => table,
            RelayInput::End => table.remove(stream_id),
        }
    }
}

/// The relay of one stream between a local socket and the channel.
#[derive(Debug)]
pub struct RelayTask {
    stream_id: StreamId,
    finished: bool,
}

impl RelayTask {
    /// The stream that the task relays.
    pub closed spec fn stream_id(&self) -> StreamId {
        self.stream_id
    }

    /// Whether the relay has ended.
    pub closed spec fn finished(&self) -> bool {
        self.finished
    }

    /// A relay of `stream_id` that has not ended.
    pub fn new(stream_id: StreamId) -> (t: Self)
        ensures
            t.stream_id() == stream_id,
            !t.finished(),
    {
        RelayTask { stream_id, finished: false }
    }

    /// The stream that the task relays.
    pub fn id(&self) -> (id: StreamId)
        ensures
            id == self.stream_id(),
    {
        self.stream_id
    }

    /// Whether the relay has ended.
    pub fn is_finished(&self) -> (b: bool)
        ensures
            b == self.finished(),
    {
        self.finished
    }
}

/// Tunnel client with connection multiplexing.
pub struct TunnelClient {
    /// Next stream identifier to try.
    next_stream_id: StreamId,
    /// Active streams.
    streams: StreamManager,
}

impl View for TunnelClient {
    type V = Streams;

    closed spec fn view(&self) -> Streams {
        self.streams@
    }
}

impl TunnelClient {
    /// The identifiers of the live streams.
    pub open spec fn live(&self) -> Set<StreamId> {
        self@.dom()
    }

    /// The identifier that the next stream gets, if it is free.
    pub closed spec fn next_id(&self) -> StreamId {
        self.next_stream_id
    }

    /// A client with no streams, whose first stream gets the identifier 1.
    pub fn new() -> (c: Self)
        ensures
            c@ == Streams::empty(),
            c.next_id() == 1,
    {
        TunnelClient { next_stream_id: 1, streams: StreamManager::new() }
    }

    /// Open a new connection through the tunnel: the stream gets the first
    /// free identifier from `next_id` upwards, wrapping after the largest,
    /// and is registered as opening. Returns the identifier and the CONNECT
    /// frame to send; `None` where every identifier is live.
    pub fn open_stream(&mut self, host: &str, port: u16) -> (r: Option<(StreamId, TunnelMessage)>)
        ensures
            match r {
                Some((id, msg)) => {
                    &&& !old(self)@.contains_key(id)
                    &&& forall|k: StreamId|
                        distance(old(self).next_id(), k) < distance(old(self).next_id(), id)
                            ==> old(self)@.contains_key(k)
                    &&& final(self)@ == old(self)@.insert(id, StreamStatus::Opening)
                    &&& final(self).next_id() == successor(id)
                    &&& msg@ == Frame::Connect { stream_id: id, host: host@, port }
                },
                None => {
                    &&& forall|k: StreamId| old(self)@.contains_key(k)
                    &&& final(self)@ == old(self)@
                    &&& final(self).next_id() == old(self).next_id()
                },
            },
            !old(self)@.contains_key(old(self).next_id()) ==> r is Some && (r->0).0 == old(
                self,
            ).next_id(),
    {
        let start = self.next_stream_id;
        let mut candidate = start;
        let mut tried: u64 = 0;
        while tried < 0x1_0000_0000
            invariant
                tried <= 0x1_0000_0000,
                candidate == (start + tried) % 0x1_0000_0000,
                forall|k: StreamId| distance(start, k) < tried ==> self@.contains_key(k),
                *self == *old(self),
                start == self.next_stream_id,
            decreases 0x1_0000_0000 - tried,
        {
            if !self.streams.contains(candidate) {
                assert(distance(start, candidate) == tried);
                self.streams.create_stream(candidate);
                self.next_stream_id = if candidate == u32::MAX {
                    0
                } else {
                    candidate + 1
                };
                let msg = TunnelMessage::Connect {
                    stream_id: candidate,
                    host: host.to_owned(),
                    port,
                };
                return Some((candidate, msg));
            }
            assert forall|k: StreamId| distance(start, k) < tried + 1 implies self@.contains_key(
                k,
            ) by {
                if distance(start, k) == tried {
                    assert(k == candidate);
                }
            }
            candidate = if candidate == u32::MAX {
                0
            } else {
                candidate + 1
            };
            tried = tried + 1;
        }
        None
    }

    /// Handles one binary message from the relay. A message that does not
    /// decode is dropped.
    pub fn dispatch(&mut self, data: &[u8]) -> (action: Dispatch)
        ensures
            action@ == message_delivery(old(self)@, data@),
            final(self)@ == message_dispatched(old(self)@, data@),
            final(self).next_id() == old(self).next_id(),
    {
        match TunnelMessage::decode(data) {
            Ok(msg) => self.dispatch_frame(msg),
            Err(_) => Dispatch::Nothing,
        }
    }

    /// Handles one frame from the relay.
    pub fn dispatch_frame(&mut self, msg: TunnelMessage) -> (action: Dispatch)
        ensures
            action@ == dispatch_step(old(self)@, msg@),
            final(self)@ == dispatch_table(old(self)@, msg@),
            final(self).next_id() == old(self).next_id(),
    {
        match msg {
            TunnelMessage::Data { stream_id, payload } => {
                if self.streams.send_to_stream(stream_id) {
                    Dispatch::Deliver { stream_id, payload }
                } else {
                    Dispatch::Nothing
                }
            },
            TunnelMessage::Close { stream_id } => {
                if self.streams.remove_stream(stream_id) {
                    Dispatch::CloseInbox { stream_id }
                } else {
                    Dispatch::Nothing
                }
            },
            TunnelMessage::ErrorReply { stream_id, code: _, message: _ } => {
                if self.streams.remove_stream(stream_id) {
                    Dispatch::CloseInbox { stream_id }
                } else {
                    Dispatch::Nothing
                }
            },
            TunnelMessage::Ping => Dispatch::Reply(TunnelMessage::Pong),
            TunnelMessage::Pong => Dispatch::Nothing,
            TunnelMessage::Connect { .. } => Dispatch::Nothing,
        }
    }

    /// Closes a stream from this side: the stream is removed, and the CLOSE
    /// frame to send is returned. Closing a stream twice removes nothing
    /// the second time.
    pub fn close_local(&mut self, stream_id: StreamId) -> (msg: TunnelMessage)
        ensures
            msg@ == (Frame::Close { stream_id }),
            final(self)@ == old(self)@.remove(stream_id),
            final(self).next_id() == old(self).next_id(),
    {
        self.streams.remove_stream(stream_id);
        TunnelMessage::Close { stream_id }
    }

    /// One step of the relay between a local socket and a tunnel stream:
    /// what to do about what happened to one of its two directions. The
    /// first end of either direction ends the relay, removes the stream and
    /// asks for its one CLOSE; whatever happens after that asks for nothing.
    pub fn relay(&mut self, task: &mut RelayTask, event: RelayEvent) -> (action: RelayAction)
        ensures
            action@ == relay_step(old(task).stream_id(), old(task).finished(), relay_input(event)),
            final(self)@ == relay_table(
                old(self)@,
                old(task).stream_id(),
                old(task).finished(),
                relay_input(event),
            ),
            final(task).stream_id() == old(task).stream_id(),
            final(task).finished() == (old(task).finished() || relay_input(event) is End),
            final(self).next_id() == old(self).next_id(),
    {
        if task.finished {
            return RelayAction::Idle;
        }
        let stream_id = task.stream_id;
        match event {
            RelayEvent::LocalRead(Ok(chunk)) => {
                if bytes_as_slice(&chunk).len() == 0 {
                    task.finished = true;
                    RelayAction::Finish(self.close_local(stream_id))
                } else {
                    self.streams.send_to_stream(stream_id);
                    RelayAction::Send(TunnelMessage::Data { stream_id, payload: chunk })
                }
            },
            RelayEvent::Inbox(Some(payload)) => RelayAction::WriteLocal(payload),
            RelayEvent::LocalRead(Err(_)) => {
                task.finished = true;
                RelayAction::Finish(self.close_local(stream_id))
            },
            RelayEvent::UpstreamClosed => {
                task.finished = true;
                RelayAction::Finish(self.close_local(stream_id))
            },
            RelayEvent::Inbox(None) => {
                task.finished = true;
                RelayAction::Finish(self.close_local(stream_id))
            },
            RelayEvent::LocalWriteFailed => {
                task.finished = true;
                RelayAction::Finish(self.close_local(stream_id))
            },
        }
    }

    /// The channel is gone, closed by the relay or broken: every stream
    /// goes with it. Returns, for each stream that was live, the error of
    /// code 0 that releases it, each stream once.
    pub fn transport_closed(&mut self) -> (released: Vec<TunnelMessage>)
        ensures
            final(self)@ == Streams::empty(),
            final(self).next_id() == old(self).next_id(),
            released@.len() == old(self).live().len(),
            forall|i: int|
                0 <= i < released@.len() ==> (#[trigger] released@[i]@) == transport_error(
                    subject_of(released@[i]@),
                ),
            forall|i: int, j: int|
                0 <= i < j < released@.len() ==> subject_of(released@[i]@) != subject_of(
                    released@[j]@,
                ),
            forall|id: StreamId|
                old(self)@.contains_key(id) <==> exists|i: int|
                    0 <= i < released@.len() && subject_of(#[trigger] released@[i]@) == id,
    {
        let ids = self.streams.ids();
        let mut released: Vec<TunnelMessage> = Vec::new();
        let mut i: usize = 0;
        while i < ids.len()
            invariant
                i <= ids@.len(),
                released@.len() == i,
                forall|k: int|
                    0 <= k < i ==> (#[trigger] released@[k]@) == transport_error(ids@[k]),
            decreases ids@.len() - i,
        {
            released.push(
                TunnelMessage::ErrorReply {
                    stream_id: ids[i],
                    code: 0,
                    message: "Transport closed".to_owned(),
                },
            );
            i += 1;
        }
        proof {
            ids@.unique_seq_to_set();
            assert forall|id: StreamId| old(self)@.contains_key(id) implies exists|i: int|
                0 <= i < released@.len() && subject_of(#[trigger] released@[i]@) == id by {
                assert(ids@.to_set().contains(id));
                let k = choose|k: int| 0 <= k < ids@.len() && ids@[k] == id;
                assert(subject_of(released@[k]@) == id);
            }
            assert forall|id: StreamId|
                (exists|i: int|
                    0 <= i < released@.len() && subject_of(#[trigger] released@[i]@)
                        == id) implies old(self)@.contains_key(id) by {
                let k = choose|k: int|
                    0 <= k < released@.len() && subject_of(#[trigger] released@[k]@) == id;
                assert(ids@[k] == id);
                assert(ids@.to_set().contains(id));
            }
        }
        self.streams.clear();
        released
    }

    /// The frame that keeps the connection alive.
    pub fn ping(&self) -> (msg: TunnelMessage)
        ensures
            msg@ == Frame::Ping,
    {
        TunnelMessage::Ping
    }

    /// Get the number of active streams.
    pub fn active_stream_count(&self) -> (n: usize)
        ensures
            n == self.live().len(),
    {
        self.streams.len()
    }

    /// How far `stream_id` has come: as the table says, and closed where
    /// the table does not hold it.
    pub fn stream_status(&self, stream_id: StreamId) -> (s: StreamStatus)
        ensures
            s == (if self@.contains_key(stream_id) {
                self@[stream_id]
            } else {
                StreamStatus::Closed
            }),
    {
        match self.streams.status(stream_id) {
            Some(s) => s,
            None => StreamStatus::Closed,
        }
    }
}

} // verus!
