//! The relay's side of one upstream channel: which targets it may dial,
//! which streams are live, and what each frame and each outcome at the
//! origin asks of it.
//!
//! The session decides; whoever owns the sockets acts. Every entry point
//! takes what happened and returns what to do about it.

use bytes::Bytes;
use std::collections::HashSet;
use vstd::prelude::*;
use vstd::string::StringExecFns;
use vstd::string::StrSliceExecFns;
use vstd::utf8::encode_utf8;
use crate::message::{bytes_as_slice, bytes_contents, StreamId, TunnelMessage};
use crate::stream_manager::{StreamManager, StreamStatus, Streams};
use crate::wire::{decode_frame, Frame};

verus! {

broadcast use vstd::std_specs::hash::group_hash_axioms;

/// What `str::to_lowercase` makes of a text: its Unicode lower-case form.
pub uninterp spec fn lowercase(s: Seq<char>) -> Seq<char>;

/// `str::to_lowercase`: the text's Unicode lower-case form, which depends on
/// the text alone. Believed, not proved.
#[verifier::external_body]
pub(crate) fn to_lowercase(s: &str) -> (r: String)
    ensures
        r@ == lowercase(s@),
{
    s.to_lowercase()
}

/// A lower-cased host that starts like a loopback, private, link-local or
/// unspecified address, or like `localhost`.
pub open spec fn has_blocked_prefix(lowered: Seq<char>) -> bool {
    ||| "127."@.is_prefix_of(lowered)
    ||| "10."@.is_prefix_of(lowered)
    ||| "192.168."@.is_prefix_of(lowered)
    ||| "172.16."@.is_prefix_of(lowered)
    ||| "172.17."@.is_prefix_of(lowered)
    ||| "172.18."@.is_prefix_of(lowered)
    ||| "172.19."@.is_prefix_of(lowered)
    ||| "172.20."@.is_prefix_of(lowered)
    ||| "172.21."@.is_prefix_of(lowered)
    ||| "172.22."@.is_prefix_of(lowered)
    ||| "172.23."@.is_prefix_of(lowered)
    ||| "172.24."@.is_prefix_of(lowered)
    ||| "172.25."@.is_prefix_of(lowered)
    ||| "172.26."@.is_prefix_of(lowered)
    ||| "172.27."@.is_prefix_of(lowered)
    ||| "172.28."@.is_prefix_of(lowered)
    ||| "172.29."@.is_prefix_of(lowered)
    ||| "172.30."@.is_prefix_of(lowered)
    ||| "172.31."@.is_prefix_of(lowered)
    ||| "169.254."@.is_prefix_of(lowered)
    ||| "0."@.is_prefix_of(lowered)
    ||| "localhost"@.is_prefix_of(lowered)
    ||| "::1"@.is_prefix_of(lowered)
    ||| "fc"@.is_prefix_of(lowered)
    ||| "fd"@.is_prefix_of(lowered)
    ||| "fe80"@.is_prefix_of(lowered)
}

/// The egress rule: a host that the relay may dial, given its lower-case
/// form. It is not empty, takes at most 253 bytes, and its lower-case form
/// has no blocked prefix.
pub open spec fn host_permitted(host: Seq<char>, lowered: Seq<char>) -> bool {
    &&& !has_blocked_prefix(lowered)
    &&& host.len() > 0
    &&& encode_utf8(host).len() <= 253
}

/// Whether `text`, which has `length` characters, starts with `prefix`,
/// character by character.
fn has_prefix(text: &str, length: usize, prefix: &str) -> (r: bool)
    requires
        length == text@.len(),
    ensures
        r == prefix@.is_prefix_of(text@),
{
    let n = prefix.unicode_len();
    if length < n {
        return false;
    }
    let mut i: usize = 0;
    while i < n
        invariant
            n == prefix@.len(),
            n <= text@.len(),
            i <= n,
            forall|j: int| 0 <= j < i ==> text@[j] == prefix@[j],
        decreases n - i,
    {
        if text.get_char(i) != prefix.get_char(i) {
            return false;
        }
        i += 1;
    }
    assert(prefix@ =~= text@.subrange(0, n as int));
    true
}

/// Whether a lower-cased host has a blocked prefix.
fn blocked(lowered: &str) -> (r: bool)
    ensures
        r == has_blocked_prefix(lowered@),
{
    let length = lowered.unicode_len();
    if has_prefix(lowered, length, "127.") {
        return true;
    }
    if has_prefix(lowered, length, "10.") {
        return true;
    }
    if has_prefix(lowered, length, "192.168.") {
        return true;
    }
    if has_prefix(lowered, length, "172.16.") {
        return true;
    }
    if has_prefix(lowered, length, "172.17.") {
        return true;
    }
    if has_prefix(lowered, length, "172.18.") {
        return true;
    }
    if has_prefix(lowered, length, "172.19.") {
        return true;
    }
    if has_prefix(lowered, length, "172.20.") {
        return true;
    }
    if has_prefix(lowered, length, "172.21.") {
        return true;
    }
    if has_prefix(lowered, length, "172.22.") {
        return true;
    }
    if has_prefix(lowered, length, "172.23.") {
        return true;
    }
    if has_prefix(lowered, length, "172.24.") {
        return true;
    }
    if has_prefix(lowered, length, "172.25.") {
        return true;
    }
    if has_prefix(lowered, length, "172.26.") {
        return true;
    }
    if has_prefix(lowered, length, "172.27.") {
        return true;
    }
    if has_prefix(lowered, length, "172.28.") {
        return true;
    }
    if has_prefix(lowered, length, "172.29.") {
        return true;
    }
    if has_prefix(lowered, length, "172.30.") {
        return true;
    }
    if has_prefix(lowered, length, "172.31.") {
        return true;
    }
    if has_prefix(lowered, length, "169.254.") {
        return true;
    }
    if has_prefix(lowered, length, "0.") {
        return true;
    }
    if has_prefix(lowered, length, "localhost") {
        return true;
    }
    if has_prefix(lowered, length, "::1") {
        return true;
    }
    if has_prefix(lowered, length, "fc") {
        return true;
    }
    if has_prefix(lowered, length, "fd") {
        return true;
    }
    has_prefix(lowered, length, "fe80")
}

/// What the session asks of whoever owns the sockets, as a mathematical
/// value.
pub enum Step {
    Ignore,
    Reply(Frame),
    Dial { stream_id: StreamId, host: Seq<char>, port: u16 },
    StartReader { stream_id: StreamId },
    DropOrigin { stream_id: StreamId },
    Write { stream_id: StreamId, payload: Seq<u8> },
    CloseOrigin { stream_id: StreamId },
}

/// What the session asks of whoever owns the sockets.
#[derive(Debug, Clone)]
pub enum SessionAction {
    /// Nothing to do.
    Ignore,
    /// Send this frame to the client.
    Reply(TunnelMessage),
    /// Dial the target, then report with `connect_finished`, before the
    /// next frame is handled.
    Dial { stream_id: StreamId, host: String, port: u16 },
    /// The stream is registered: keep the connection's write half under the
    /// stream's identifier, and report what its read half yields with
    /// `origin_read`.
    StartReader { stream_id: StreamId },
    /// The connection that was dialled has no stream to serve: drop it.
    DropOrigin { stream_id: StreamId },
    /// Write the payload to the stream's origin, then report with
    /// `write_finished`.
    Write { stream_id: StreamId, payload: Bytes },
    /// Drop the write half of the stream's origin connection.
    CloseOrigin { stream_id: StreamId },
}

impl View for SessionAction {
    type V = Step;

    open spec fn view(&self) -> Step {
        match *self {
            SessionAction::Ignore => Step::Ignore,
            SessionAction::Reply(m) => Step::Reply(m@),
            SessionAction::Dial { stream_id, host, port } => Step::Dial {
                stream_id,
                host: host@,
                port,
            },
            SessionAction::StartReader { stream_id } => Step::StartReader { stream_id },
            SessionAction::DropOrigin { stream_id } => Step::DropOrigin { stream_id },
            SessionAction::Write { stream_id, payload } => Step::Write {
                stream_id,
                payload: bytes_contents(payload),
            },
            SessionAction::CloseOrigin { stream_id } => Step::CloseOrigin { stream_id },
        }
    }
}

/// The error that the relay reports on a stream.
pub open spec fn error_frame(stream_id: StreamId, code: u16, message: Seq<char>) -> Frame {
    Frame::ErrorReply { stream_id, code, message }
}

/// What a CONNECT asks for: a duplicate is refused with 409, a host that
/// the egress rule denies with 400, and any other target is dialled.
pub open spec fn connect_step(
    table: Streams,
    stream_id: StreamId,
    host: Seq<char>,
    port: u16,
) -> Step {
    if table.contains_key(stream_id) {
        Step::Reply(error_frame(stream_id, 409, "Stream ID already in use"@))
    } else if !host_permitted(host, lowercase(host)) {
        Step::Reply(error_frame(stream_id, 400, "Invalid host"@))
    } else {
        Step::Dial { stream_id, host, port }
    }
}

/// What a frame from the client asks for.
pub open spec fn frame_step(table: Streams, f: Frame) -> Step {
    match f {
        Frame::Connect { stream_id, host, port } => connect_step(table, stream_id, host, port),
        Frame::Data { stream_id, payload } => if table.contains_key(stream_id) {
            Step::Write { stream_id, payload }
        } else {
            Step::Reply(error_frame(stream_id, 404, "Stream not found"@))
        },
        Frame::Close { stream_id } => if table.contains_key(stream_id) {
            Step::CloseOrigin { stream_id }
        } else {
            Step::Ignore
        },
        Frame::Ping => Step::Reply(Frame::Pong),
        Frame::Pong => Step::Ignore,
        Frame::ErrorReply { .. } => Step::Ignore,
    }
}

/// The stream table after a frame from the client: payload opens a live
/// stream, CLOSE removes one, and nothing else touches the table.
pub open spec fn frame_table(table: Streams, f: Frame) -> Streams {
    match f {
        Frame::Data { stream_id, .. } => if table.contains_key(stream_id) {
            table.insert(stream_id, StreamStatus::Open)
        } else {
            table
        },
        Frame::Close { stream_id } => table.remove(stream_id),
        _ => table,
    }
}

/// What a message from the client asks for. One that does not decode is
/// dropped.
pub open spec fn message_step(table: Streams, data: Seq<u8>) -> Step {
    match decode_frame(data) {
        Ok(f) => frame_step(table, f),
        Err(_) => Step::Ignore,
    }
}

/// The stream table after a message from the client.
pub open spec fn message_table(table: Streams, data: Seq<u8>) -> Streams {
    match decode_frame(data) {
        Ok(f) => frame_table(table, f),
        Err(_) => table,
    }
}

/// What the end of a dial asks for.
pub open spec fn connect_finished_step(
    table: Streams,
    stream_id: StreamId,
    outcome: Result<(), Seq<char>>,
) -> Step {
    match outcome {
        Ok(_) => if table.contains_key(stream_id) {
            Step::DropOrigin { stream_id }
        } else {
            Step::StartReader { stream_id }
        },
        Err(cause) => Step::Reply(error_frame(stream_id, 502, "Connection failed: "@ + cause)),
    }
}

/// The stream table after the end of a dial: a dial that succeeded
/// registers its stream as opening, unless the identifier is taken.
pub open spec fn connect_finished_table(
    table: Streams,
    stream_id: StreamId,
    outcome: Result<(), Seq<char>>,
) -> Streams {
    if outcome is Ok && !table.contains_key(stream_id) {
        table.insert(stream_id, StreamStatus::Opening)
    } else {
        table
    }
}

/// The origins that are read after the end of a dial: a stream that is
/// registered is read from then on.
pub open spec fn connect_finished_readers(
    readers: Set<StreamId>,
    table: Streams,
    stream_id: StreamId,
    outcome: Result<(), Seq<char>>,
) -> Set<StreamId> {
    if outcome is Ok && !table.contains_key(stream_id) {
        readers.insert(stream_id)
    } else {
        readers
    }
}

/// The origins that are read after a read: the end of the stream and a
/// failure end the reading.
pub open spec fn origin_read_readers(
    readers: Set<StreamId>,
    stream_id: StreamId,
    outcome: Result<Seq<u8>, Seq<char>>,
) -> Set<StreamId> {
    if origin_read_ends(outcome) {
        readers.remove(stream_id)
    } else {
        readers
    }
}

/// How far a stream has come on the relay: as the table says; half-closed
/// where the table does not hold it and its origin is still read; closed
/// otherwise.
pub open spec fn status_of(
    table: Streams,
    readers: Set<StreamId>,
    stream_id: StreamId,
) -> StreamStatus {
    if table.contains_key(stream_id) {
        table[stream_id]
    } else if readers.contains(stream_id) {
        StreamStatus::HalfClosed
    } else {
        StreamStatus::Closed
    }
}

/// What the end of a write to the origin asks for: a failure is reported
/// as error 500 with the cause.
pub open spec fn write_finished_step(stream_id: StreamId, outcome: Result<(), Seq<char>>) -> Step {
    match outcome {
        Ok(_) => Step::Ignore,
        Err(cause) => Step::Reply(error_frame(stream_id, 500, "Write error: "@ + cause)),
    }
}

/// The stream table after the end of a write to the origin: a failure
/// removes the stream.
pub open spec fn write_finished_table(
    table: Streams,
    stream_id: StreamId,
    outcome: Result<(), Seq<char>>,
) -> Streams {
    if outcome is Ok {
        table
    } else {
        table.remove(stream_id)
    }
}

/// The stream table after a read at the origin: the end of the stream and
/// a failure remove the stream.
pub open spec fn origin_read_table(
    table: Streams,
    stream_id: StreamId,
    outcome: Result<Seq<u8>, Seq<char>>,
) -> Streams {
    if origin_read_ends(outcome) {
        table.remove(stream_id)
    } else {
        table
    }
}

/// What the read half of an origin connection yields asks for: bytes go to
/// the client as DATA, the end of the stream as CLOSE, a failure as error
/// 500.
pub open spec fn origin_read_step(
    stream_id: StreamId,
    outcome: Result<Seq<u8>, Seq<char>>,
) -> Step {
    match outcome {
        Ok(chunk) => if chunk.len() == 0 {
            Step::Reply(Frame::Close { stream_id })
        } else {
            Step::Reply(Frame::Data { stream_id, payload: chunk })
        },
        Err(_) => Step::Reply(error_frame(stream_id, 500, "Socket read error"@)),
    }
}

/// Whether the read half of an origin connection has come to its end.
pub open spec fn origin_read_ends(outcome: Result<Seq<u8>, Seq<char>>) -> bool {
    match outcome {
        Ok(chunk) => chunk.len() == 0,
        Err(_) => true,
    }
}

/// The view of what a read or a write at the origin came to.
pub open spec fn outcome_view<T: View>(outcome: Result<T, String>) -> Result<T::V, Seq<char>> {
    match outcome {
        Ok(v) => Ok(v@),
        Err(cause) => Err(cause@),
    }
}

/// What the session answers to a request to open the channel.
#[derive(Debug, Clone, Copy, PartialEq, Eq, Structural)]
pub enum FetchDecision {
    /// Accept the channel; this is the session's n-th connection.
    Accept(u32),
    /// Refuse with this HTTP status.
    Refuse(u16),
}

/// What a datagram asks for, where the channel carries datagrams.
#[derive(Debug, Clone)]
pub enum UdpAction {
    /// Resolve the query over DNS-over-HTTPS, then report with
    /// `dns_resolved`.
    Resolve,
    /// Send this frame to the client.
    Reply(TunnelMessage),
}

/// The relay's side of one upstream channel.
pub struct TunnelSession {
    /// Active stream tracking.
    active_streams: StreamManager,
    /// The streams whose origin is read.
    readers: HashSet<StreamId>,
    /// Connection counter for metrics.
    connection_count: u32,
}

impl View for TunnelSession {
    type V = Streams;

    closed spec fn view(&self) -> Streams {
        self.active_streams@
    }
}

impl TunnelSession {
    /// The identifiers of the live streams.
    pub open spec fn live(&self) -> Set<StreamId> {
        self@.dom()
    }

    /// The streams whose origin is read. A stream leaves the table when the
    /// client closes it, and is read until its origin ends.
    pub closed spec fn readers(&self) -> Set<StreamId> {
        self.readers@
    }

    /// How many channels the session has accepted, up to `u32::MAX`.
    pub closed spec fn connections(&self) -> u32 {
        self.connection_count
    }

    /// A session without streams.
    pub fn new() -> (s: Self)
        ensures
            s@ == Streams::empty(),
            s.readers() == Set::<StreamId>::empty(),
            s.connections() == 0,
    {
        TunnelSession {
            active_streams: StreamManager::new(),
            readers: HashSet::new(),
            connection_count: 0,
        }
    }

    /// Answers a request to open the channel, given the request's `Upgrade`
    /// header: anything but a WebSocket upgrade is refused with 426.
    pub fn fetch(&mut self, upgrade: Option<&str>) -> (d: FetchDecision)
        ensures
            final(self)@ == old(self)@,
            final(self).readers() == old(self).readers(),
            d == (if upgrade matches Some(u) && u@ == "websocket"@ {
                FetchDecision::Accept(final(self).connections())
            } else {
                FetchDecision::Refuse(426)
            }),
            final(self).connections() == (if upgrade matches Some(u) && u@ == "websocket"@
                && old(self).connections() < u32::MAX {
                (old(self).connections() + 1) as u32
            } else {
                old(self).connections()
            }),
    {
        match upgrade {
            Some(u) => {
                if same_text(u, "websocket") {
                    if self.connection_count < u32::MAX {
                        self.connection_count = self.connection_count + 1;
                    }
                    FetchDecision::Accept(self.connection_count)
                } else {
                    FetchDecision::Refuse(426)
                }
            },
            None => FetchDecision::Refuse(426),
        }
    }

    /// The channel is gone: every stream goes with it. Returns how many
    /// there were.
    pub fn websocket_close(&mut self) -> (n: usize)
        ensures
            final(self)@ == Streams::empty(),
            final(self).readers() == Set::<StreamId>::empty(),
            n == old(self).live().len(),
            final(self).connections() == old(self).connections(),
    {
        self.readers.clear();
        self.active_streams.clear()
    }

    /// Number of live streams.
    pub fn active_stream_count(&self) -> (n: usize)
        ensures
            n == self.live().len(),
    {
        self.active_streams.len()
    }

    /// Whether `stream_id` is live.
    pub fn is_active(&self, stream_id: StreamId) -> (b: bool)
        ensures
            b == self.live().contains(stream_id),
    {
        self.active_streams.contains(stream_id)
    }

    /// How far `stream_id` has come.
    pub fn stream_status(&self, stream_id: StreamId) -> (s: StreamStatus)
        ensures
            s == status_of(self@, self.readers(), stream_id),
    {
        match self.active_streams.status(stream_id) {
            Some(s) => s,
            None => if self.readers.contains(&stream_id) {
                StreamStatus::HalfClosed
            } else {
                StreamStatus::Closed
            },
        }
    }

    /// Handles one binary message from the client. A message that does not
    /// decode is dropped.
    pub fn handle_binary_message(&mut self, data: &[u8]) -> (action: SessionAction)
        ensures
            action@ == message_step(old(self)@, data@),
            final(self)@ == message_table(old(self)@, data@),
            final(self).readers() == old(self).readers(),
            final(self).connections() == old(self).connections(),
    {
        let msg = match TunnelMessage::decode(data) {
            Ok(m) => m,
            Err(_) => { return SessionAction::Ignore; },
        };
        match msg {
            TunnelMessage::Connect { stream_id, host, port } => self.handle_connect(
                stream_id,
                host,
                port,
            ),
            TunnelMessage::Data { stream_id, payload } => self.handle_data(stream_id, payload),
            TunnelMessage::Close { stream_id } => self.handle_close(stream_id),
            TunnelMessage::Ping => SessionAction::Reply(TunnelMessage::Pong),
            TunnelMessage::Pong => SessionAction::Ignore,
            TunnelMessage::ErrorReply { .. } => SessionAction::Ignore,
        }
    }

    /// Validate hostname to prevent SSRF attacks.
    pub fn is_valid_host(host: &str) -> (ok: bool)
        ensures
            ok == host_permitted(host@, lowercase(host@)),
    {
        let lowered = to_lowercase(host);
        Self::is_valid_host_lowered(host, lowered.as_str())
    }

    /// The egress rule on a host and its lower-case form.
    pub fn is_valid_host_lowered(host: &str, lowered: &str) -> (ok: bool)
        ensures
            ok == host_permitted(host@, lowered@),
    {
        if blocked(lowered) {
            return false;
        }
        if host.is_empty() || host.as_bytes().len() > 253 {
            return false;
        }
        true
    }

    /// The error frame for a stream.
    pub fn send_error(stream_id: StreamId, code: u16, message: &str) -> (m: TunnelMessage)
        ensures
            m@ == error_frame(stream_id, code, message@),
    {
        TunnelMessage::ErrorReply { stream_id, code, message: message.to_owned() }
    }

    /// Handle CONNECT: refuse a duplicate identifier and a denied host,
    /// else ask for the dial.
    pub fn handle_connect(&self, stream_id: StreamId, host: String, port: u16) -> (action:
        SessionAction)
        ensures
            action@ == connect_step(self@, stream_id, host@, port),
    {
        if self.active_streams.contains(stream_id) {
            return SessionAction::Reply(
                Self::send_error(stream_id, 409, "Stream ID already in use"),
            );
        }
        if !Self::is_valid_host(host.as_str()) {
            return SessionAction::Reply(Self::send_error(stream_id, 400, "Invalid host"));
        }
        SessionAction::Dial { stream_id, host, port }
    }

    /// The dial that `handle_connect` asked for has ended. On success the
    /// stream is registered, unless its identifier was taken meanwhile; on
    /// failure the client gets error 502 with the cause.
    pub fn connect_finished(&mut self, stream_id: StreamId, outcome: Result<(), String>) -> (action:
        SessionAction)
        ensures
            action@ == connect_finished_step(old(self)@, stream_id, outcome_view(outcome)),
            final(self)@ == connect_finished_table(old(self)@, stream_id, outcome_view(outcome)),
            final(self).readers() == connect_finished_readers(
                old(self).readers(),
                old(self)@,
                stream_id,
                outcome_view(outcome),
            ),
            final(self).connections() == old(self).connections(),
    {
        match outcome {
            Ok(_) => {
                if self.active_streams.contains(stream_id) {
                    SessionAction::DropOrigin { stream_id }
                } else {
                    self.active_streams.create_stream(stream_id);
                    self.readers.insert(stream_id);
                    SessionAction::StartReader { stream_id }
                }
            },
            Err(cause) => {
                let mut message = "Connection failed: ".to_owned();
                message.append(cause.as_str());
                SessionAction::Reply(TunnelMessage::ErrorReply { stream_id, code: 502, message })
            },
        }
    }

    /// Handle DATA: forward the payload to the stream's origin, or answer
    /// 404 where the stream is not live.
    pub fn handle_data(&mut self, stream_id: StreamId, payload: Bytes) -> (action: SessionAction)
        ensures
            action@ == frame_step(
                old(self)@,
                Frame::Data { stream_id, payload: bytes_contents(payload) },
            ),
            final(self)@ == frame_table(
                old(self)@,
                Frame::Data { stream_id, payload: bytes_contents(payload) },
            ),
            final(self).readers() == old(self).readers(),
            final(self).connections() == old(self).connections(),
    {
        if self.active_streams.send_to_stream(stream_id) {
            SessionAction::Write { stream_id, payload }
        } else {
            SessionAction::Reply(Self::send_error(stream_id, 404, "Stream not found"))
        }
    }

    /// The write that `handle_data` asked for has ended. A failure ends the
    /// stream, and the client gets error 500 with the cause.
    pub fn write_finished(&mut self, stream_id: StreamId, outcome: Result<(), String>) -> (action:
        SessionAction)
        ensures
            action@ == write_finished_step(stream_id, outcome_view(outcome)),
            final(self)@ == write_finished_table(old(self)@, stream_id, outcome_view(outcome)),
            final(self).readers() == old(self).readers(),
            final(self).connections() == old(self).connections(),
    {
        match outcome {
            Ok(_) => SessionAction::Ignore,
            Err(cause) => {
                self.active_streams.remove_stream(stream_id);
                let mut message = "Write error: ".to_owned();
                message.append(cause.as_str());
                SessionAction::Reply(TunnelMessage::ErrorReply { stream_id, code: 500, message })
            },
        }
    }

    /// Handle CLOSE: the stream is removed; closing a stream that is not
    /// live does nothing.
    pub fn handle_close(&mut self, stream_id: StreamId) -> (action: SessionAction)
        ensures
            action@ == frame_step(old(self)@, Frame::Close { stream_id }),
            final(self)@ == old(self)@.remove(stream_id),
            final(self).readers() == old(self).readers(),
            final(self).connections() == old(self).connections(),
    {
        if self.active_streams.remove_stream(stream_id) {
            SessionAction::CloseOrigin { stream_id }
        } else {
            SessionAction::Ignore
        }
    }

    /// The read half of a stream's origin connection has yielded `outcome`:
    /// bytes, nothing (the end of the stream), or a failure. The end and a
    /// failure remove the stream.
    pub fn origin_read(&mut self, stream_id: StreamId, outcome: Result<Bytes, String>) -> (action:
        SessionAction)
        ensures
            action@ == origin_read_step(stream_id, origin_view(outcome)),
            final(self)@ == origin_read_table(old(self)@, stream_id, origin_view(outcome)),
            final(self).readers() == origin_read_readers(
                old(self).readers(),
                stream_id,
                origin_view(outcome),
            ),
            final(self).connections() == old(self).connections(),
    {
        match outcome {
            Ok(chunk) => {
                if bytes_as_slice(&chunk).len() == 0 {
                    self.active_streams.remove_stream(stream_id);
                    self.readers.remove(&stream_id);
                    SessionAction::Reply(TunnelMessage::Close { stream_id })
                } else {
                    SessionAction::Reply(TunnelMessage::Data { stream_id, payload: chunk })
                }
            },
            Err(_) => {
                self.active_streams.remove_stream(stream_id);
                self.readers.remove(&stream_id);
                SessionAction::Reply(Self::send_error(stream_id, 500, "Socket read error"))
            },
        }
    }

    /// A datagram: a DNS query (port 53) is resolved over DNS-over-HTTPS,
    /// any other is refused with error 501.
    pub fn handle_udp_datagram(request_id: u32, port: u16) -> (action: UdpAction)
        ensures
            match action {
                UdpAction::Resolve => port == 53,
                UdpAction::Reply(m) => port != 53 && m@ == error_frame(
                    request_id,
                    501,
                    "UDP not supported (except DNS via DoH)"@,
                ),
            },
    {
        if port == 53 {
            UdpAction::Resolve
        } else {
            UdpAction::Reply(
                Self::send_error(request_id, 501, "UDP not supported (except DNS via DoH)"),
            )
        }
    }

    /// The resolver has answered, or failed: the answer goes back as it
    /// came, a failure as error 503 with the cause.
    pub fn handle_dns_query(request_id: u32, outcome: Result<Vec<u8>, String>) -> (r: Result<
        Vec<u8>,
        TunnelMessage,
    >)
        ensures
            match outcome {
                Ok(response) => r == Ok::<Vec<u8>, TunnelMessage>(response),
                Err(cause) => r matches Err(m) && m@ == error_frame(
                    request_id,
                    503,
                    "DNS resolution failed: "@ + cause@,
                ),
            },
    {
        match outcome {
            Ok(response) => Ok(response),
            Err(cause) => {
                let mut message = "DNS resolution failed: ".to_owned();
                message.append(cause.as_str());
                Err(TunnelMessage::ErrorReply { stream_id: request_id, code: 503, message })
            },
        }
    }
}

/// What a read at the origin came to, as a mathematical value.
pub open spec fn origin_view(outcome: Result<Bytes, String>) -> Result<Seq<u8>, Seq<char>> {
    match outcome {
        Ok(chunk) => Ok(bytes_contents(chunk)),
        Err(cause) => Err(cause@),
    }
}

/// Whether two texts are the same, character by character.
fn same_text(a: &str, b: &str) -> (r: bool)
    ensures
        r == (a@ == b@),
{
    let length = a.unicode_len();
    let r = length == b.unicode_len() && has_prefix(a, length, b);
    assert(r ==> a@ =~= b@);
    r
}

} // verus!
