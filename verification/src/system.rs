//! The two endpoints joined by the channel, as mathematics: what can
//! happen, and what holds whatever happens.
//!
//! Messages are taken to arrive whole and in the order in which they were
//! sent; stream identifiers are taken not to wrap.

use vstd::prelude::*;
use crate::message::StreamId;
use crate::stream_manager::{StreamStatus, Streams};
use crate::tunnel::{
    dispatch_step, dispatch_table, message_delivery, message_dispatched, relay_step, relay_table,
    Delivery, RelayInput, RelayStep,
};
use crate::tunnel_session::{
    connect_finished_readers, connect_finished_step, connect_finished_table, frame_step,
    frame_table, message_step, message_table, origin_read_readers, origin_read_step,
    origin_read_table, write_finished_step, write_finished_table, Step,
};
use crate::wire::{
    encodable, encode_frame, lemma_decode_encode, lemma_frame_length, Frame, MAX_FRAME_SIZE,
};

verus! {

/// The stream that a frame is about, if it is about one.
pub open spec fn subject(f: Frame) -> Option<StreamId> {
    match f {
        Frame::Connect { stream_id, .. } => Some(stream_id),
        Frame::Data { stream_id, .. } => Some(stream_id),
        Frame::Close { stream_id } => Some(stream_id),
        Frame::ErrorReply { stream_id, .. } => Some(stream_id),
        Frame::Ping => None,
        Frame::Pong => None,
    }
}

/// A frame that ends its stream for whoever receives it.
pub open spec fn ending(f: Frame) -> bool {
    f is Close || f is ErrorReply
}

/* No payload after the end */

/// The client's table after a run of frames from the relay.
pub open spec fn dispatch_run(table: Streams, frames: Seq<Frame>) -> Streams
    decreases frames.len(),
{
    if frames.len() == 0 {
        table
    } else {
        dispatch_run(dispatch_table(table, frames[0]), frames.drop_first())
    }
}

/// The relay's table after a run of frames from the client.
pub open spec fn frame_run(table: Streams, frames: Seq<Frame>) -> Streams
    decreases frames.len(),
{
    if frames.len() == 0 {
        table
    } else {
        frame_run(frame_table(table, frames[0]), frames.drop_first())
    }
}

/// Frames from the relay never make a stream live on the client.
pub proof fn lemma_dispatch_opens_nothing(
    table: Streams,
    frames: Seq<Frame>,
    s: StreamId,
)
    requires
        !table.contains_key(s),
    ensures
        !dispatch_run(table, frames).contains_key(s),
    decreases frames.len(),
{
    if frames.len() > 0 {
        lemma_dispatch_opens_nothing(dispatch_table(table, frames[0]), frames.drop_first(), s);
    }
}

/// Frames from the client never make a stream live on the relay: only the
/// end of a dial does.
pub proof fn lemma_frames_open_nothing(
    table: Streams,
    frames: Seq<Frame>,
    s: StreamId,
)
    requires
        !table.contains_key(s),
    ensures
        !frame_run(table, frames).contains_key(s),
    decreases frames.len(),
{
    if frames.len() > 0 {
        lemma_frames_open_nothing(frame_table(table, frames[0]), frames.drop_first(), s);
    }
}

/// On the client, after a CLOSE or an ERROR for a stream, no payload for
/// that stream is delivered to an inbox, whatever frames follow.
pub proof fn lemma_client_delivers_nothing_after_end(
    table: Streams,
    end: Frame,
    later: Seq<Frame>,
    i: int,
)
    requires
        ending(end),
        0 <= i < later.len(),
    ensures
        !(dispatch_step(dispatch_run(dispatch_table(table, end), later.take(i)), later[i])
            matches Delivery::Deliver { stream_id, .. } && Some(stream_id) == subject(end)),
{
    let s = subject(end)->0;
    lemma_dispatch_opens_nothing(dispatch_table(table, end), later.take(i), s);
}

/// On the relay, after a CLOSE for a stream, no payload for that stream is
/// written to an origin, whatever frames follow, until a dial for that
/// identifier ends.
pub proof fn lemma_relay_writes_nothing_after_close(
    table: Streams,
    s: StreamId,
    later: Seq<Frame>,
    i: int,
)
    requires
        0 <= i < later.len(),
    ensures
        !(frame_step(
            frame_run(frame_table(table, Frame::Close { stream_id: s }), later.take(i)),
            later[i],
        ) matches Step::Write { stream_id, .. } && stream_id == s),
{
    lemma_frames_open_nothing(frame_table(table, Frame::Close { stream_id: s }), later.take(i), s);
}

/// On the relay, once a stream is gone, by the end of its origin, by a
/// failure or by a CLOSE, no payload for it is written to an origin,
/// whatever frames follow, until a dial for that identifier ends.
pub proof fn lemma_relay_writes_nothing_to_a_stream_that_is_gone(
    table: Streams,
    s: StreamId,
    later: Seq<Frame>,
    i: int,
)
    requires
        !table.contains_key(s),
        0 <= i < later.len(),
    ensures
        !(frame_step(frame_run(table, later.take(i)), later[i]) matches Step::Write {
            stream_id,
            ..
        } && stream_id == s),
{
    lemma_frames_open_nothing(table, later.take(i), s);
}

/* The bytes of a stream */

/// The messages that the relay of stream `s` sends upstream for the chunks
/// that it reads locally: one DATA frame for each, in order.
pub open spec fn upstream_messages(s: StreamId, chunks: Seq<Seq<u8>>) -> Seq<Seq<u8>> {
    Seq::new(
        chunks.len(),
        |i: int| encode_frame(relay_step(s, false, RelayInput::FromLocal(chunks[i]))->Send_0),
    )
}

/// The bytes that the relay's session asks to write to the origin of
/// stream `s` over a run of messages from the client, in order.
pub open spec fn written(table: Streams, messages: Seq<Seq<u8>>, s: StreamId) -> Seq<
    u8,
>
    decreases messages.len(),
{
    if messages.len() == 0 {
        Seq::empty()
    } else {
        let rest = written(message_table(table, messages[0]), messages.drop_first(), s);
        match message_step(table, messages[0]) {
            Step::Write { stream_id, payload } => if stream_id == s {
                payload + rest
            } else {
                rest
            },
            _ => rest,
        }
    }
}

/// What chunks of at most `limit` bytes hold, one after the other.
pub open spec fn chunks_within(chunks: Seq<Seq<u8>>, limit: int) -> bool {
    forall|i: int| 0 <= i < chunks.len() ==> (#[trigger] chunks[i]).len() <= limit
}

/// For a stream that is live on the relay, the bytes that the client reads
/// locally are the bytes that the relay writes to the origin, in order:
/// each chunk travels in one DATA frame, and the frames are handled in the
/// order in which they were sent.
pub proof fn lemma_stream_bytes_arrive_in_order(
    table: Streams,
    s: StreamId,
    chunks: Seq<Seq<u8>>,
)
    requires
        table.contains_key(s),
        chunks_within(chunks, MAX_FRAME_SIZE - 9),
    ensures
        written(table, upstream_messages(s, chunks), s) == chunks.flatten(),
    decreases chunks.len(),
{
    let messages = upstream_messages(s, chunks);
    if chunks.len() > 0 {
        let frame = Frame::Data { stream_id: s, payload: chunks[0] };
        assert(messages[0] == encode_frame(frame));
        crate::wire::lemma_data_frame_length(s, chunks[0]);
        lemma_decode_encode(frame);
        assert(chunks_within(chunks.drop_first(), MAX_FRAME_SIZE - 9)) by {
            assert forall|i: int| 0 <= i < chunks.drop_first().len() implies (
            #[trigger] chunks.drop_first()[i]).len() <= MAX_FRAME_SIZE - 9 by {
                assert(chunks.drop_first()[i] == chunks[i + 1]);
            }
        }
        assert(messages.drop_first() =~= upstream_messages(s, chunks.drop_first()));
        lemma_stream_bytes_arrive_in_order(
            message_table(table, messages[0]),
            s,
            chunks.drop_first(),
        );
    } else {
        assert(chunks.flatten() =~= Seq::<u8>::empty());
    }
}

/* The live streams of both ends */

/// The two endpoints and what is in flight between them.
pub struct Channel {
    /// The client's stream table.
    pub client: Streams,
    /// The identifier that the client's next stream gets.
    pub next_id: StreamId,
    /// The relay's stream table.
    pub relay: Streams,
    /// The streams whose origin the relay reads.
    pub readers: Set<StreamId>,
    /// Frames from the client whose messages the relay has not handled,
    /// oldest first.
    pub upstream: Seq<Frame>,
    /// Frames from the relay whose messages the client has not handled,
    /// oldest first.
    pub downstream: Seq<Frame>,
}

/// What can happen on a channel.
pub enum Happening {
    /// The client opens a stream.
    Open { host: Seq<char>, port: u16 },
    /// Something happens to the relay of a stream that the client has
    /// opened.
    Relay { stream_id: StreamId, input: RelayInput },
    /// The client sends a keepalive.
    Ping,
    /// The relay handles the oldest message from the client; a dial or a
    /// write that the message asks for ends as given.
    RelayReceives { dial: Result<(), Seq<char>>, write: Result<(), Seq<char>> },
    /// The client handles the oldest message from the relay.
    ClientReceives,
    /// The origin of a stream that the relay reads yields bytes, its end or
    /// a failure.
    OriginRead { stream_id: StreamId, outcome: Result<Seq<u8>, Seq<char>> },
}

/// A channel on which nothing has happened.
pub open spec fn fresh_channel() -> Channel {
    Channel {
        client: Map::empty(),
        next_id: 1,
        relay: Map::empty(),
        readers: Set::empty(),
        upstream: Seq::empty(),
        downstream: Seq::empty(),
    }
}

/// Nothing is in flight in either direction.
pub open spec fn quiescent(c: Channel) -> bool {
    c.upstream.len() == 0 && c.downstream.len() == 0
}

/// The queue with the frame that a relay asks to send, if it asks for one.
pub open spec fn with_sent(queue: Seq<Frame>, step: RelayStep) -> Seq<Frame> {
    match step {
        RelayStep::Send(f) => queue.push(f),
        RelayStep::Finish(f) => queue.push(f),
        _ => queue,
    }
}

/// The queue with the frame that a session asks to send, if it asks for
/// one.
pub open spec fn with_reply(queue: Seq<Frame>, step: Step) -> Seq<Frame> {
    match step {
        Step::Reply(f) => queue.push(f),
        _ => queue,
    }
}

/// The channel after the relay has handled the oldest message from the
/// client: the bytes of the oldest frame.
pub open spec fn relay_receives(
    c: Channel,
    dial: Result<(), Seq<char>>,
    write: Result<(), Seq<char>>,
) -> Channel {
    let message = encode_frame(c.upstream[0]);
    let table = message_table(c.relay, message);
    let rest = c.upstream.drop_first();
    match message_step(c.relay, message) {
        Step::Dial { stream_id, .. } => {
            let step = connect_finished_step(table, stream_id, dial);
            Channel {
                relay: connect_finished_table(table, stream_id, dial),
                readers: connect_finished_readers(c.readers, table, stream_id, dial),
                upstream: rest,
                downstream: with_reply(c.downstream, step),
                ..c
            }
        },
        Step::Write { stream_id, .. } => Channel {
            relay: write_finished_table(table, stream_id, write),
            upstream: rest,
            downstream: with_reply(c.downstream, write_finished_step(stream_id, write)),
            ..c
        },
        step => Channel {
            relay: table,
            upstream: rest,
            downstream: with_reply(c.downstream, step),
            ..c
        },
    }
}

/// The channel after the client has handled the oldest message from the
/// relay: the bytes of the oldest frame.
pub open spec fn client_receives(c: Channel) -> Channel {
    let message = encode_frame(c.downstream[0]);
    Channel {
        client: message_dispatched(c.client, message),
        upstream: match message_delivery(c.client, message) {
            Delivery::Reply(r) => c.upstream.push(r),
            _ => c.upstream,
        },
        downstream: c.downstream.drop_first(),
        ..c
    }
}

/// A text that fits the length field of a frame.
pub open spec fn short(text: Seq<char>) -> bool {
    vstd::utf8::encode_utf8(text).len() < 0x1_0000
}

/// A payload that fits one frame.
pub open spec fn fits_frame(payload: Seq<u8>) -> bool {
    payload.len() <= MAX_FRAME_SIZE - 9
}

/// What happens fits the wire: hosts and the causes of failures are short
/// enough for their length fields, and what is read at a time fits one
/// frame.
pub open spec fn fitting(h: Happening) -> bool {
    match h {
        Happening::Open { host, .. } => short(host),
        Happening::Relay { input, .. } => input matches RelayInput::FromLocal(chunk)
            ==> fits_frame(chunk),
        Happening::RelayReceives { dial, write } => {
            &&& dial matches Err(cause) ==> short("Connection failed: "@ + cause)
            &&& write matches Err(cause) ==> short("Write error: "@ + cause)
        },
        Happening::OriginRead { outcome, .. } => outcome matches Ok(chunk) ==> fits_frame(chunk),
        _ => true,
    }
}

/// The channel after something has happened. What cannot happen changes
/// nothing: a stream is not opened where the identifiers would wrap, a
/// relay runs only for a stream that was opened, a message is handled only
/// where one is in flight, and an origin is read only where the relay reads
/// it.
pub open spec fn after(c: Channel, h: Happening) -> Channel {
    match h {
        Happening::Open { host, port } => if c.next_id == u32::MAX {
            c
        } else {
            Channel {
                client: c.client.insert(c.next_id, StreamStatus::Opening),
                next_id: (c.next_id + 1) as u32,
                upstream: c.upstream.push(Frame::Connect { stream_id: c.next_id, host, port }),
                ..c
            }
        },
        Happening::Relay { stream_id, input } => if stream_id >= c.next_id {
            c
        } else {
            Channel {
                client: relay_table(c.client, stream_id, false, input),
                upstream: with_sent(c.upstream, relay_step(stream_id, false, input)),
                ..c
            }
        },
        Happening::Ping => Channel { upstream: c.upstream.push(Frame::Ping), ..c },
        Happening::RelayReceives { dial, write } => if c.upstream.len() == 0 {
            c
        } else {
            relay_receives(c, dial, write)
        },
        Happening::ClientReceives => if c.downstream.len() == 0 {
            c
        } else {
            client_receives(c)
        },
        Happening::OriginRead { stream_id, outcome } => if !c.readers.contains(stream_id) {
            c
        } else {
            Channel {
                relay: origin_read_table(c.relay, stream_id, outcome),
                readers: origin_read_readers(c.readers, stream_id, outcome),
                downstream: with_reply(c.downstream, origin_read_step(stream_id, outcome)),
                ..c
            }
        },
    }
}

/// Everything that happens in a run fits the wire.
pub open spec fn all_fitting(happenings: Seq<Happening>) -> bool {
    forall|i: int| 0 <= i < happenings.len() ==> fitting(#[trigger] happenings[i])
}

/// The channel after a run of happenings on a fresh channel.
pub open spec fn after_all(happenings: Seq<Happening>) -> Channel
    decreases happenings.len(),
{
    if happenings.len() == 0 {
        fresh_channel()
    } else {
        after(after_all(happenings.drop_last()), happenings.last())
    }
}

/// A CONNECT for the stream.
pub open spec fn connects(f: Frame, id: StreamId) -> bool {
    f is Connect && subject(f) == Some(id)
}

/// A CLOSE for the stream.
pub open spec fn closes(f: Frame, id: StreamId) -> bool {
    f is Close && subject(f) == Some(id)
}

/// A CLOSE or an ERROR for the stream.
pub open spec fn ends(f: Frame, id: StreamId) -> bool {
    ending(f) && subject(f) == Some(id)
}

/// Whether a queue holds a CONNECT for the stream.
pub open spec fn carries_connect(queue: Seq<Frame>, id: StreamId) -> bool {
    exists|i: int| 0 <= i < queue.len() && connects(#[trigger] queue[i], id)
}

/// Whether a queue holds a CLOSE for the stream.
pub open spec fn carries_close(queue: Seq<Frame>, id: StreamId) -> bool {
    exists|i: int| 0 <= i < queue.len() && closes(#[trigger] queue[i], id)
}

/// Whether a queue holds a frame that ends the stream.
pub open spec fn carries_end(queue: Seq<Frame>, id: StreamId) -> bool {
    exists|i: int| 0 <= i < queue.len() && ends(#[trigger] queue[i], id)
}

/// Every frame in the queue is about a stream that was opened.
pub open spec fn about_opened(queue: Seq<Frame>, next_id: StreamId) -> bool {
    forall|i: int|
        0 <= i < queue.len() && subject(#[trigger] queue[i]) is Some ==> subject(queue[i])->0
            < next_id
}

/// Identifiers in use are identifiers that were given out.
pub open spec fn only_opened(c: Channel) -> bool {
    &&& forall|id: StreamId| c.client.contains_key(id) ==> id < c.next_id
    &&& forall|id: StreamId| c.relay.contains_key(id) ==> id < c.next_id
    &&& forall|id: StreamId| c.readers.contains(id) ==> id < c.next_id
    &&& about_opened(c.upstream, c.next_id)
    &&& about_opened(c.downstream, c.next_id)
}

/// A CONNECT in flight is the first that the relay hears of its stream:
/// the relay does not know the stream, and no frame about it is ahead of
/// the CONNECT or on the way back.
pub open spec fn connect_comes_first(c: Channel) -> bool {
    &&& forall|j: int|
        0 <= j < c.upstream.len() && (#[trigger] c.upstream[j]) is Connect
            ==> !c.relay.contains_key(subject(c.upstream[j])->0) && !c.readers.contains(
            subject(c.upstream[j])->0,
        )
    &&& forall|i: int, j: int|
        0 <= i < j < c.upstream.len() && (#[trigger] c.upstream[j]) is Connect ==> subject(
            #[trigger] c.upstream[i],
        ) != subject(c.upstream[j])
    &&& forall|j: int, k: int|
        0 <= j < c.upstream.len() && 0 <= k < c.downstream.len() && (
        #[trigger] c.upstream[j]) is Connect ==> subject(#[trigger] c.downstream[k]) != subject(
            c.upstream[j],
        )
}

/// The relay does not know a stream whose end is on the way to the client,
/// and the client does not know a stream whose CLOSE is on the way to the
/// relay.
pub open spec fn ends_are_final(c: Channel) -> bool {
    &&& forall|k: int|
        0 <= k < c.downstream.len() && ending(#[trigger] c.downstream[k])
            ==> !c.relay.contains_key(subject(c.downstream[k])->0)
    &&& forall|j: int|
        0 <= j < c.upstream.len() && (#[trigger] c.upstream[j]) is Close
            ==> !c.client.contains_key(subject(c.upstream[j])->0)
}

/// Where the two ends differ on a stream, the frame that will settle it is
/// in flight.
pub open spec fn differences_are_in_flight(c: Channel) -> bool {
    &&& forall|id: StreamId|
        c.client.contains_key(id) && !c.relay.contains_key(id) ==> carries_connect(c.upstream, id)
            || carries_end(c.downstream, id)
    &&& forall|id: StreamId|
        c.relay.contains_key(id) && !c.client.contains_key(id) ==> carries_close(c.upstream, id)
    &&& forall|id: StreamId|
        !c.client.contains_key(id) && carries_connect(c.upstream, id) ==> carries_close(
            c.upstream,
            id,
        )
}

/// Every frame in the queue fits the wire.
pub open spec fn all_encodable(queue: Seq<Frame>) -> bool {
    forall|i: int| 0 <= i < queue.len() ==> encodable(#[trigger] queue[i])
}

/// What holds of a channel whatever happens on it.
pub open spec fn consistent(c: Channel) -> bool {
    &&& all_encodable(c.upstream)
    &&& all_encodable(c.downstream)
    &&& only_opened(c)
    &&& connect_comes_first(c)
    &&& ends_are_final(c)
    &&& differences_are_in_flight(c)
}

/// What a queue carries once a frame has joined it.
proof fn lemma_carries_push(q: Seq<Frame>, f: Frame, id: StreamId)
    ensures
        carries_connect(q.push(f), id) <==> carries_connect(q, id) || connects(f, id),
        carries_close(q.push(f), id) <==> carries_close(q, id) || closes(f, id),
        carries_end(q.push(f), id) <==> carries_end(q, id) || ends(f, id),
{
    let p = q.push(f);
    let n = q.len() as int;
    assert(p[n] == f);
    assert forall|i: int| 0 <= i < n implies #[trigger] p[i] == q[i] by {}
    if carries_connect(q, id) {
        let i = choose|i: int| 0 <= i < q.len() && connects(#[trigger] q[i], id);
        assert(connects(p[i], id));
    }
    if carries_close(q, id) {
        let i = choose|i: int| 0 <= i < q.len() && closes(#[trigger] q[i], id);
        assert(closes(p[i], id));
    }
    if carries_end(q, id) {
        let i = choose|i: int| 0 <= i < q.len() && ends(#[trigger] q[i], id);
        assert(ends(p[i], id));
    }
    if carries_connect(p, id) {
        let i = choose|i: int| 0 <= i < p.len() && connects(#[trigger] p[i], id);
        if i < n {
            assert(connects(q[i], id));
        }
    }
    if carries_close(p, id) {
        let i = choose|i: int| 0 <= i < p.len() && closes(#[trigger] p[i], id);
        if i < n {
            assert(closes(q[i], id));
        }
    }
    if carries_end(p, id) {
        let i = choose|i: int| 0 <= i < p.len() && ends(#[trigger] p[i], id);
        if i < n {
            assert(ends(q[i], id));
        }
    }
}

/// What a queue carries once its oldest frame has left it.
proof fn lemma_carries_drop_first(q: Seq<Frame>, id: StreamId)
    requires
        q.len() > 0,
    ensures
        carries_connect(q, id) <==> carries_connect(q.drop_first(), id) || connects(q[0], id),
        carries_close(q, id) <==> carries_close(q.drop_first(), id) || closes(q[0], id),
        carries_end(q, id) <==> carries_end(q.drop_first(), id) || ends(q[0], id),
{
    let r = q.drop_first();
    assert forall|i: int| 0 <= i < r.len() implies #[trigger] r[i] == q[i + 1] by {}
    if carries_connect(q, id) {
        let i = choose|i: int| 0 <= i < q.len() && connects(#[trigger] q[i], id);
        if i > 0 {
            assert(connects(r[i - 1], id));
        }
    }
    if carries_close(q, id) {
        let i = choose|i: int| 0 <= i < q.len() && closes(#[trigger] q[i], id);
        if i > 0 {
            assert(closes(r[i - 1], id));
        }
    }
    if carries_end(q, id) {
        let i = choose|i: int| 0 <= i < q.len() && ends(#[trigger] q[i], id);
        if i > 0 {
            assert(ends(r[i - 1], id));
        }
    }
    if carries_connect(r, id) {
        let i = choose|i: int| 0 <= i < r.len() && connects(#[trigger] r[i], id);
        assert(connects(q[i + 1], id));
    }
    if carries_close(r, id) {
        let i = choose|i: int| 0 <= i < r.len() && closes(#[trigger] r[i], id);
        assert(closes(q[i + 1], id));
    }
    if carries_end(r, id) {
        let i = choose|i: int| 0 <= i < r.len() && ends(#[trigger] r[i], id);
        assert(ends(q[i + 1], id));
    }
}

/// A fresh channel is consistent.
pub proof fn lemma_fresh_channel_is_consistent()
    ensures
        consistent(fresh_channel()),
        quiescent(fresh_channel()),
{
}

/// On a consistent channel on which nothing is in flight, both ends have
/// the same live streams.
pub proof fn lemma_quiescent_ends_agree(c: Channel)
    requires
        consistent(c),
        quiescent(c),
    ensures
        c.client.dom() == c.relay.dom(),
{
    assert forall|id: StreamId| c.client.contains_key(id) <==> c.relay.contains_key(id) by {
        assert(!carries_connect(c.upstream, id));
        assert(!carries_close(c.upstream, id));
        assert(!carries_end(c.downstream, id));
    }
    assert(c.client.dom() =~= c.relay.dom());
}

/// The fixed texts of the relay's errors are short.
proof fn lemma_error_texts_are_short()
    ensures
        short("Stream ID already in use"@),
        short("Invalid host"@),
        short("Stream not found"@),
        short("Socket read error"@),
{
    reveal_strlit("Stream ID already in use");
    reveal_strlit("Invalid host");
    reveal_strlit("Stream not found");
    reveal_strlit("Socket read error");
    assert(vstd::utf8::is_ascii_chars("Stream ID already in use"@));
    assert(vstd::utf8::is_ascii_chars("Invalid host"@));
    assert(vstd::utf8::is_ascii_chars("Stream not found"@));
    assert(vstd::utf8::is_ascii_chars("Socket read error"@));
    vstd::utf8::is_ascii_chars_encode_utf8("Stream ID already in use"@);
    vstd::utf8::is_ascii_chars_encode_utf8("Invalid host"@);
    vstd::utf8::is_ascii_chars_encode_utf8("Stream not found"@);
    vstd::utf8::is_ascii_chars_encode_utf8("Socket read error"@);
}

/// A frame with a short text or a payload that fits, and every frame
/// without either, fits the wire.
proof fn lemma_fits_the_wire(f: Frame)
    requires
        f matches Frame::Connect { host, .. } ==> short(host),
        f matches Frame::ErrorReply { message, .. } ==> short(message),
        f matches Frame::Data { payload, .. } ==> fits_frame(payload),
    ensures
        encodable(f),
{
    lemma_frame_length(f);
}

/// What a session asks to send in answer to a frame fits the wire.
proof fn lemma_answer_fits(table: Streams, f: Frame)
    ensures
        frame_step(table, f) matches Step::Reply(r) ==> encodable(r),
{
    lemma_error_texts_are_short();
    if let Step::Reply(r) = frame_step(table, f) {
        lemma_fits_the_wire(r);
    }
}

/// The queue with a frame that fits the wire holds only such frames, if it
/// did before.
proof fn lemma_push_encodable(q: Seq<Frame>, f: Frame)
    requires
        all_encodable(q),
        encodable(f),
    ensures
        all_encodable(q.push(f)),
{
    assert forall|i: int| 0 <= i < q.push(f).len() implies encodable(#[trigger] q.push(f)[i]) by {
        if i < q.len() {
            assert(q.push(f)[i] == q[i]);
        }
    }
}

/// The queue without its oldest frame holds only frames that fit the wire,
/// if it did before.
proof fn lemma_drop_first_encodable(q: Seq<Frame>)
    requires
        all_encodable(q),
        q.len() > 0,
    ensures
        all_encodable(q.drop_first()),
        encodable(q[0]),
{
    assert forall|i: int| 0 <= i < q.drop_first().len() implies encodable(
        #[trigger] q.drop_first()[i],
    ) by {
        assert(q.drop_first()[i] == q[i + 1]);
    }
}

/// The frames of a queue once a frame has joined it.
proof fn lemma_push_frames(q: Seq<Frame>, f: Frame)
    ensures
        q.push(f).len() == q.len() + 1,
        q.push(f)[q.len() as int] == f,
        forall|i: int| 0 <= i < q.len() ==> #[trigger] q.push(f)[i] == q[i],
{
}

/// The frames of a queue once its oldest frame has left it.
proof fn lemma_drop_first_frames(q: Seq<Frame>)
    requires
        q.len() > 0,
    ensures
        q.drop_first().len() == q.len() - 1,
        forall|i: int| 0 <= i < q.len() - 1 ==> #[trigger] q.drop_first()[i] == q[i + 1],
{
}

/// Opening a stream keeps the channel consistent.
proof fn lemma_open_keeps_consistent(c: Channel, host: Seq<char>, port: u16)
    requires
        consistent(c),
        short(host),
    ensures
        consistent(after(c, Happening::Open { host, port })),
{
    if c.next_id != u32::MAX {
        let d = after(c, Happening::Open { host, port });
        let f = Frame::Connect { stream_id: c.next_id, host, port };
        lemma_fits_the_wire(f);
        lemma_push_encodable(c.upstream, f);
        lemma_push_frames(c.upstream, f);
        assert forall|id: StreamId| true implies (carries_connect(d.upstream, id)
            <==> carries_connect(c.upstream, id) || id == c.next_id) && (carries_close(
            d.upstream,
            id,
        ) <==> carries_close(c.upstream, id)) by {
            lemma_carries_push(c.upstream, f, id);
        }
        assert(!carries_connect(c.upstream, c.next_id));
        assert(only_opened(d));
        assert(connect_comes_first(d));
        assert(ends_are_final(d));
        assert(differences_are_in_flight(d));
    }
}

/// What happens to the relay of a stream keeps the channel consistent.
proof fn lemma_relay_keeps_consistent(c: Channel, stream_id: StreamId, input: RelayInput)
    requires
        consistent(c),
        fitting(Happening::Relay { stream_id, input }),
    ensures
        consistent(after(c, Happening::Relay { stream_id, input })),
{
    if stream_id < c.next_id {
        let d = after(c, Happening::Relay { stream_id, input });
        match relay_step(stream_id, false, input) {
            RelayStep::Send(f) => {
                lemma_fits_the_wire(f);
                lemma_push_encodable(c.upstream, f);
                lemma_push_frames(c.upstream, f);
                assert forall|id: StreamId| true implies (carries_connect(d.upstream, id)
                    <==> carries_connect(c.upstream, id)) && (carries_close(d.upstream, id)
                    <==> carries_close(c.upstream, id)) by {
                    lemma_carries_push(c.upstream, f, id);
                }
            },
            RelayStep::Finish(f) => {
                lemma_fits_the_wire(f);
                lemma_push_encodable(c.upstream, f);
                lemma_push_frames(c.upstream, f);
                assert forall|id: StreamId| true implies (carries_connect(d.upstream, id)
                    <==> carries_connect(c.upstream, id)) && (carries_close(d.upstream, id)
                    <==> carries_close(c.upstream, id) || id == stream_id) by {
                    lemma_carries_push(c.upstream, f, id);
                }
            },
            _ => {},
        }
        assert(only_opened(d));
        assert(connect_comes_first(d));
        assert(ends_are_final(d));
        assert(differences_are_in_flight(d));
    }
}

/// A keepalive keeps the channel consistent.
proof fn lemma_ping_keeps_consistent(c: Channel)
    requires
        consistent(c),
    ensures
        consistent(after(c, Happening::Ping)),
{
    let d = after(c, Happening::Ping);
    lemma_fits_the_wire(Frame::Ping);
    lemma_push_encodable(c.upstream, Frame::Ping);
    lemma_push_frames(c.upstream, Frame::Ping);
    assert forall|id: StreamId| true implies (carries_connect(d.upstream, id) <==> carries_connect(
        c.upstream,
        id,
    )) && (carries_close(d.upstream, id) <==> carries_close(c.upstream, id)) by {
        lemma_carries_push(c.upstream, Frame::Ping, id);
    }
    assert(only_opened(d));
    assert(connect_comes_first(d));
    assert(ends_are_final(d));
    assert(differences_are_in_flight(d));
}

/// The client handling a message keeps the channel consistent.
proof fn lemma_client_receives_keeps_consistent(c: Channel)
    requires
        consistent(c),
    ensures
        consistent(after(c, Happening::ClientReceives)),
{
    if c.downstream.len() > 0 {
        let d = after(c, Happening::ClientReceives);
        let f = c.downstream[0];
        lemma_drop_first_encodable(c.downstream);
        lemma_decode_encode(f);
        lemma_drop_first_frames(c.downstream);
        assert forall|id: StreamId| true implies (carries_end(c.downstream, id) <==> carries_end(
            d.downstream,
            id,
        ) || (ending(f) && subject(f) == Some(id))) by {
            lemma_carries_drop_first(c.downstream, id);
        }
        match dispatch_step(c.client, f) {
            Delivery::Reply(r) => {
                lemma_fits_the_wire(r);
                lemma_push_encodable(c.upstream, r);
                lemma_push_frames(c.upstream, r);
                assert forall|id: StreamId| true implies (carries_connect(d.upstream, id)
                    <==> carries_connect(c.upstream, id)) && (carries_close(d.upstream, id)
                    <==> carries_close(c.upstream, id)) by {
                    lemma_carries_push(c.upstream, r, id);
                }
            },
            _ => {},
        }
        assert(only_opened(d));
        assert(connect_comes_first(d));
        assert(ends_are_final(d));
        assert(differences_are_in_flight(d)) by {
            assert forall|id: StreamId|
                d.relay.contains_key(id) && !d.client.contains_key(id) implies carries_close(
                d.upstream,
                id,
            ) by {
                if c.client.contains_key(id) {
                    assert(ending(c.downstream[0]));
                }
            }
            assert forall|id: StreamId|
                !d.client.contains_key(id) && carries_connect(
                    d.upstream,
                    id,
                ) implies carries_close(d.upstream, id) by {
                if c.client.contains_key(id) {
                    let j = choose|j: int|
                        0 <= j < c.upstream.len() && (#[trigger] c.upstream[j]) is Connect
                            && subject(c.upstream[j]) == Some(id);
                    assert(subject(c.downstream[0]) != subject(c.upstream[j]));
                }
            }
        }
    }
}

/// A read at an origin keeps the channel consistent.
proof fn lemma_origin_read_keeps_consistent(
    c: Channel,
    stream_id: StreamId,
    outcome: Result<Seq<u8>, Seq<char>>,
)
    requires
        consistent(c),
        fitting(Happening::OriginRead { stream_id, outcome }),
    ensures
        consistent(after(c, Happening::OriginRead { stream_id, outcome })),
{
    if c.readers.contains(stream_id) {
        let d = after(c, Happening::OriginRead { stream_id, outcome });
        let f = origin_read_step(stream_id, outcome)->Reply_0;
        lemma_error_texts_are_short();
        lemma_fits_the_wire(f);
        lemma_push_encodable(c.downstream, f);
        lemma_push_frames(c.downstream, f);
        assert forall|id: StreamId| true implies (carries_end(d.downstream, id) <==> carries_end(
            c.downstream,
            id,
        ) || (ending(f) && id == stream_id)) by {
            lemma_carries_push(c.downstream, f, id);
        }
        assert(only_opened(d));
        assert(connect_comes_first(d));
        assert(ends_are_final(d));
        assert(differences_are_in_flight(d));
    }
}

/// What the relay puts on the way back when it handles a message is about
/// the stream of that message, or about none; and it ends a stream only
/// where the relay does not know that stream afterwards.
proof fn lemma_relay_receives_facts(
    c: Channel,
    dial: Result<(), Seq<char>>,
    write: Result<(), Seq<char>>,
)
    requires
        consistent(c),
        c.upstream.len() > 0,
        fitting(Happening::RelayReceives { dial, write }),
    ensures
        ({
            let d = relay_receives(c, dial, write);
            let f = c.upstream[0];
            &&& all_encodable(d.upstream)
            &&& all_encodable(d.downstream)
            &&& d.client == c.client
            &&& d.next_id == c.next_id
            &&& d.upstream == c.upstream.drop_first()
            &&& d.downstream == c.downstream || (exists|r: Frame|
                #![auto]
                d.downstream == c.downstream.push(r) && (subject(r) is None || subject(r)
                    == subject(f)) && (ending(r) ==> !d.relay.contains_key(subject(r)->0)))
            &&& forall|id: StreamId|
                subject(f) != Some(id) ==> (d.relay.contains_key(id) <==> c.relay.contains_key(id))
                    && (d.readers.contains(id) <==> c.readers.contains(id))
            &&& forall|id: StreamId|
                subject(f) == Some(id) && d.relay.contains_key(id) && !c.relay.contains_key(id)
                    ==> f is Connect
            &&& forall|id: StreamId|
                subject(f) == Some(id) && d.readers.contains(id) && !c.readers.contains(id)
                    ==> f is Connect
            &&& forall|id: StreamId|
                subject(f) == Some(id) && !d.relay.contains_key(id) && c.relay.contains_key(id)
                    ==> f is Close || carries_end(d.downstream, id)
            &&& forall|id: StreamId|
                subject(f) == Some(id) && f is Connect && !d.relay.contains_key(id)
                    ==> carries_end(d.downstream, id)
        }),
{
    let d = relay_receives(c, dial, write);
    let f = c.upstream[0];
    lemma_drop_first_encodable(c.upstream);
    lemma_decode_encode(f);
    lemma_answer_fits(c.relay, f);
    assert(f is Connect ==> !c.relay.contains_key(subject(f)->0));
    match frame_step(c.relay, f) {
        Step::Dial { stream_id, .. } => {
            match connect_finished_step(frame_table(c.relay, f), stream_id, dial) {
                Step::Reply(r) => {
                    lemma_fits_the_wire(r);
                    lemma_push_encodable(c.downstream, r);
                    lemma_push_frames(c.downstream, r);
                    lemma_carries_push(c.downstream, r, stream_id);
                    assert(d.downstream == c.downstream.push(r));
                },
                _ => {},
            }
        },
        Step::Write { stream_id, .. } => {
            match write_finished_step(stream_id, write) {
                Step::Reply(r) => {
                    lemma_fits_the_wire(r);
                    lemma_push_encodable(c.downstream, r);
                    lemma_push_frames(c.downstream, r);
                    lemma_carries_push(c.downstream, r, stream_id);
                    assert(d.downstream == c.downstream.push(r));
                },
                _ => {},
            }
        },
        Step::Reply(r) => {
            lemma_push_encodable(c.downstream, r);
            lemma_push_frames(c.downstream, r);
            if subject(f) is Some {
                lemma_carries_push(c.downstream, r, subject(f)->0);
            }
            assert(d.downstream == c.downstream.push(r));
        },
        _ => {},
    }
}

/// The relay handling a message keeps the channel consistent.
proof fn lemma_relay_receives_keeps_consistent(
    c: Channel,
    dial: Result<(), Seq<char>>,
    write: Result<(), Seq<char>>,
)
    requires
        consistent(c),
        fitting(Happening::RelayReceives { dial, write }),
    ensures
        consistent(after(c, Happening::RelayReceives { dial, write })),
{
    if c.upstream.len() > 0 {
        let d = relay_receives(c, dial, write);
        let f = c.upstream[0];
        lemma_drop_first_encodable(c.upstream);
        lemma_decode_encode(f);
        lemma_relay_receives_facts(c, dial, write);
        lemma_drop_first_frames(c.upstream);
        assert forall|id: StreamId| true implies (carries_connect(c.upstream, id)
            <==> carries_connect(d.upstream, id) || (f is Connect && subject(f) == Some(id)))
            && (carries_close(c.upstream, id) <==> carries_close(d.upstream, id) || (f is Close
            && subject(f) == Some(id))) by {
            lemma_carries_drop_first(c.upstream, id);
        }
        if d.downstream != c.downstream {
            let r = choose|r: Frame|
                #![auto]
                d.downstream == c.downstream.push(r) && (subject(r) is None || subject(r)
                    == subject(f)) && (ending(r) ==> !d.relay.contains_key(subject(r)->0));
            lemma_push_frames(c.downstream, r);
            assert forall|id: StreamId| carries_end(c.downstream, id) implies carries_end(
                d.downstream,
                id,
            ) by {
                lemma_carries_push(c.downstream, r, id);
            }
        }
        assert(only_opened(d));
        assert(connect_comes_first(d)) by {
            assert forall|j: int|
                0 <= j < d.upstream.len() && (#[trigger] d.upstream[j]) is Connect implies subject(
                c.upstream[0],
            ) != subject(d.upstream[j]) by {
                assert(d.upstream[j] == c.upstream[j + 1]);
            }
        }
        assert(ends_are_final(d)) by {
            assert forall|k: int|
                0 <= k < d.downstream.len() && ending(
                    #[trigger] d.downstream[k],
                ) implies !d.relay.contains_key(subject(d.downstream[k])->0) by {
                if k < c.downstream.len() {
                    assert(d.downstream[k] == c.downstream[k]);
                    let id = subject(c.downstream[k])->0;
                    if d.relay.contains_key(id) {
                        assert(subject(f) == Some(id) && f is Connect);
                        assert(subject(c.downstream[k]) != subject(c.upstream[0]));
                    }
                }
            }
        }
        assert(differences_are_in_flight(d)) by {
            assert forall|id: StreamId|
                d.client.contains_key(id) && !d.relay.contains_key(id) implies carries_connect(
                d.upstream,
                id,
            ) || carries_end(d.downstream, id) by {
                if c.relay.contains_key(id) {
                    assert(subject(f) == Some(id));
                    if f is Close {
                        assert(!c.client.contains_key(subject(c.upstream[0])->0));
                    }
                }
            }
            assert forall|id: StreamId|
                d.relay.contains_key(id) && !d.client.contains_key(id) implies carries_close(
                d.upstream,
                id,
            ) by {
                if c.relay.contains_key(id) {
                    assert(carries_close(c.upstream, id));
                    if subject(f) == Some(id) && f is Close {
                        assert(frame_table(c.relay, f) == c.relay.remove(id));
                    }
                } else {
                    assert(subject(f) == Some(id) && f is Connect);
                    assert(carries_connect(c.upstream, id));
                }
            }
            assert forall|id: StreamId|
                !d.client.contains_key(id) && carries_connect(
                    d.upstream,
                    id,
                ) implies carries_close(d.upstream, id) by {
                assert(carries_connect(c.upstream, id));
                assert(carries_close(c.upstream, id));
                if f is Close && subject(f) == Some(id) {
                    let j = choose|j: int|
                        0 <= j < d.upstream.len() && (#[trigger] d.upstream[j]) is Connect
                            && subject(d.upstream[j]) == Some(id);
                    assert(d.upstream[j] == c.upstream[j + 1]);
                    assert(subject(c.upstream[0]) != subject(c.upstream[j + 1]));
                }
            }
        }
    }
}

/// Whatever happens, if it fits the wire, keeps the channel consistent.
pub proof fn lemma_happening_keeps_consistent(c: Channel, h: Happening)
    requires
        consistent(c),
        fitting(h),
    ensures
        consistent(after(c, h)),
{
    match h {
        Happening::Open { host, port } => lemma_open_keeps_consistent(c, host, port),
        Happening::Relay { stream_id, input } => lemma_relay_keeps_consistent(c, stream_id, input),
        Happening::Ping => lemma_ping_keeps_consistent(c),
        Happening::RelayReceives { dial, write } => lemma_relay_receives_keeps_consistent(
            c,
            dial,
            write,
        ),
        Happening::ClientReceives => lemma_client_receives_keeps_consistent(c),
        Happening::OriginRead { stream_id, outcome } => lemma_origin_read_keeps_consistent(
            c,
            stream_id,
            outcome,
        ),
    }
}

/// The channel is consistent after every run of happenings that fit the
/// wire.
pub proof fn lemma_every_run_is_consistent(happenings: Seq<Happening>)
    requires
        all_fitting(happenings),
    ensures
        consistent(after_all(happenings)),
    decreases happenings.len(),
{
    if happenings.len() > 0 {
        assert(fitting(happenings[happenings.len() - 1]));
        assert forall|i: int| 0 <= i < happenings.drop_last().len() implies fitting(
            #[trigger] happenings.drop_last()[i],
        ) by {
            assert(happenings.drop_last()[i] == happenings[i]);
        }
        lemma_every_run_is_consistent(happenings.drop_last());
        lemma_happening_keeps_consistent(after_all(happenings.drop_last()), happenings.last());
    } else {
        lemma_fresh_channel_is_consistent();
    }
}

/// For every run of client operations, deliveries and outcomes at the
/// origins: whenever nothing is in flight, the streams that are live on
/// the client are the streams that are live on the relay. Each end handles
/// the bytes of what the other sent, and all that is sent fits the wire.
pub proof fn lemma_ends_agree_when_quiescent(happenings: Seq<Happening>)
    requires
        all_fitting(happenings),
        quiescent(after_all(happenings)),
    ensures
        after_all(happenings).client.dom() == after_all(happenings).relay.dom(),
{
    lemma_every_run_is_consistent(happenings);
    lemma_quiescent_ends_agree(after_all(happenings));
}

} // verus!
