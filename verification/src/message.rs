//! The tunnel protocol's messages and their binary codec.

use bytes::Bytes;
use vstd::prelude::*;
use vstd::slice::{slice_subrange, slice_to_vec};
use vstd::utf8::{decode_utf8, encode_utf8, valid_utf8};
use crate::error::ProtoError;
pub use crate::wire::MAX_FRAME_SIZE;
use crate::wire::{
    be16, be32, decode_frame, encodable, encode_frame, first_message, lemma_frame_length,
    prefixed, read_be16, read_be32, text_field, Frame,
};

verus! {

/// Stream identifier for multiplexing connections.
pub type StreamId = u32;

/// Command types for the tunnel protocol.
#[derive(Debug, Clone, Copy, PartialEq, Eq, Structural)]
pub enum CommandType {
    /// Request to connect to a target address.
    Connect,
    /// Data frame (bidirectional).
    Data,
    /// Close a stream.
    Close,
    /// Error response.
    ErrorReply,
    /// Ping/keepalive.
    Ping,
    /// Pong response.
    Pong,
}

impl CommandType {
    /// The tag byte that opens a frame of this kind.
    pub open spec fn tag(self) -> u8 {
        match self {
            CommandType::Connect => 0x01,
            CommandType::Data => 0x02,
            CommandType::Close => 0x03,
            CommandType::ErrorReply => 0x04,
            CommandType::Ping => 0x05,
            CommandType::Pong => 0x06,
        }
    }

    /// The kind that a tag byte announces; any byte but the six tags is an
    /// invalid command.
    pub open spec fn of_tag(value: u8) -> Result<CommandType, ProtoError> {
        match value {
            0x01 => Ok(CommandType::Connect),
            0x02 => Ok(CommandType::Data),
            0x03 => Ok(CommandType::Close),
            0x04 => Ok(CommandType::ErrorReply),
            0x05 => Ok(CommandType::Ping),
            0x06 => Ok(CommandType::Pong),
            _ => Err(ProtoError::InvalidCommand(value)),
        }
    }

    /// The tag byte that opens a frame of this kind.
    pub fn to_byte(self) -> (b: u8)
        ensures
            b == self.tag(),
    {
        match self {
            CommandType::Connect => 0x01,
            CommandType::Data => 0x02,
            CommandType::Close => 0x03,
            CommandType::ErrorReply => 0x04,
            CommandType::Ping => 0x05,
            CommandType::Pong => 0x06,
        }
    }
}

impl TryFrom<u8> for CommandType {
    type Error = ProtoError;

    fn try_from(value: u8) -> (r: Result<Self, ProtoError>) {
        match value {
            0x01 => Ok(CommandType::Connect),
            0x02 => Ok(CommandType::Data),
            0x03 => Ok(CommandType::Close),
            0x04 => Ok(CommandType::ErrorReply),
            0x05 => Ok(CommandType::Ping),
            0x06 => Ok(CommandType::Pong),
            _ => Err(ProtoError::InvalidCommand(value)),
        }
    }
}

impl vstd::std_specs::convert::TryFromSpecImpl<u8> for CommandType {
    open spec fn obeys_try_from_spec() -> bool {
        true
    }

    open spec fn try_from_spec(value: u8) -> Result<Self, ProtoError> {
        CommandType::of_tag(value)
    }
}

/// What `bytes::Bytes` is to the verifier: an opaque value. What it holds
/// is spoken of through `bytes_contents`.
#[verifier::external_type_specification]
#[verifier::external_body]
pub struct ExBytes(bytes::Bytes);

/// The bytes that a `Bytes` value holds, in order.
pub uninterp spec fn bytes_contents(b: Bytes) -> Seq<u8>;

/// `Bytes::from(Vec<u8>)`: the buffer takes the vector over, so it holds the
/// vector's bytes. Believed, not proved.
#[verifier::external_body]
pub(crate) fn bytes_from_vec(v: Vec<u8>) -> (b: Bytes)
    ensures
        bytes_contents(b) == v@,
{
    Bytes::from(v)
}

/// `Bytes::copy_from_slice`: a buffer that holds a copy of the slice.
/// Believed, not proved.
#[verifier::external_body]
pub(crate) fn bytes_copy_from_slice(data: &[u8]) -> (b: Bytes)
    ensures
        bytes_contents(b) == data@,
{
    Bytes::copy_from_slice(data)
}

/// `Bytes::as_ref`: the buffer's bytes as a slice. Believed, not proved.
#[verifier::external_body]
pub(crate) fn bytes_as_slice(b: &Bytes) -> (s: &[u8])
    ensures
        s@ == bytes_contents(*b),
{
    b.as_ref()
}

/// `Bytes::clone`: a second handle on the same memory, so it holds the same
/// bytes. Believed, not proved.
pub assume_specification[ <bytes::Bytes as Clone>::clone ](b: &bytes::Bytes) -> (r: bytes::Bytes)
    ensures
        bytes_contents(r) == bytes_contents(*b),
;

/// `String::from_utf8`: succeeds exactly on well-formed UTF-8, and the string
/// then holds the characters that the bytes spell; the cause of a failure is
/// dropped. Believed, not proved.
#[verifier::external_body]
pub(crate) fn string_from_utf8(bytes: Vec<u8>) -> (r: Option<String>)
    ensures
        r is Some <==> valid_utf8(bytes@),
        r matches Some(s) ==> s@ == decode_utf8(bytes@),
{
    String::from_utf8(bytes).ok()
}

/// Protocol message types.
#[derive(Debug, Clone)]
pub enum TunnelMessage {
    /// Connect to target: hostname:port.
    Connect { stream_id: StreamId, host: String, port: u16 },
    /// Data payload for a stream.
    Data { stream_id: StreamId, payload: Bytes },
    /// Close a stream.
    Close { stream_id: StreamId },
    /// Error on a stream.
    ErrorReply { stream_id: StreamId, code: u16, message: String },
    /// Ping.
    Ping,
    /// Pong.
    Pong,
}

impl View for TunnelMessage {
    type V = Frame;

    open spec fn view(&self) -> Frame {
        match *self {
            TunnelMessage::Connect { stream_id, host, port } => Frame::Connect {
                stream_id,
                host: host@,
                port,
            },
            TunnelMessage::Data { stream_id, payload } => Frame::Data {
                stream_id,
                payload: bytes_contents(payload),
            },
            TunnelMessage::Close { stream_id } => Frame::Close { stream_id },
            TunnelMessage::ErrorReply { stream_id, code, message } => Frame::ErrorReply {
                stream_id,
                code,
                message: message@,
            },
            TunnelMessage::Ping => Frame::Ping,
            TunnelMessage::Pong => Frame::Pong,
        }
    }
}

/// Appends `n` in big-endian order.
pub(crate) fn put_u16(buf: &mut Vec<u8>, n: u16)
    ensures
        final(buf)@ == old(buf)@ + be16(n),
{
    reveal(be16);
    buf.push((n / 256) as u8);
    buf.push((n % 256) as u8);
    assert(buf@ =~= old(buf)@ + be16(n));
}

/// Appends `n` in big-endian order.
fn put_u32(buf: &mut Vec<u8>, n: u32)
    ensures
        final(buf)@ == old(buf)@ + be32(n),
{
    reveal(be32);
    buf.push((n / 0x100_0000) as u8);
    buf.push(((n / 0x1_0000) % 256) as u8);
    buf.push(((n / 0x100) % 256) as u8);
    buf.push((n % 256) as u8);
    assert(buf@ =~= old(buf)@ + be32(n));
}

/// Appends the bytes of `src`.
fn put_slice(buf: &mut Vec<u8>, src: &[u8])
    ensures
        final(buf)@ == old(buf)@ + src@,
{
    buf.extend_from_slice(src);
    assert(buf@ =~= old(buf)@ + src@);
}

/// A text field: the length of the text in bytes, modulo the field's range,
/// then the text.
fn put_text(buf: &mut Vec<u8>, text: &str)
    ensures
        final(buf)@ == old(buf)@ + be16((encode_utf8(text@).len() % 0x1_0000) as u16)
            + encode_utf8(text@),
{
    let src = text.as_bytes();
    put_u16(buf, (src.len() % 0x1_0000) as u16);
    put_slice(buf, src);
}

/// The number that the two bytes at `at` spell in big-endian order.
pub(crate) fn get_u16(data: &[u8], at: usize) -> (n: u16)
    requires
        at + 2 <= data@.len(),
    ensures
        n == read_be16(data@.subrange(at as int, at + 2)),
{
    reveal(read_be16);
    let hi: u16 = data[at] as u16;
    let lo: u16 = data[at + 1] as u16;
    hi * 256 + lo
}

/// The number that the four bytes at `at` spell in big-endian order.
fn get_u32(data: &[u8], at: usize) -> (n: u32)
    requires
        at + 4 <= data@.len(),
    ensures
        n == read_be32(data@.subrange(at as int, at + 4)),
{
    reveal(read_be32);
    let b0: u32 = data[at] as u32;
    let b1: u32 = data[at + 1] as u32;
    let b2: u32 = data[at + 2] as u32;
    let b3: u32 = data[at + 3] as u32;
    b0 * 0x100_0000 + b1 * 0x1_0000 + b2 * 0x100 + b3
}

/// Reads the text field at `at`: two length bytes, then that many bytes of
/// UTF-8.
fn get_text(data: &[u8], at: usize) -> (r: Result<String, ProtoError>)
    requires
        at + 2 <= data@.len(),
    ensures
        match (r, text_field(data@, at as int)) {
            (Ok(s), Ok(t)) => s@ == t,
            (Err(e), Err(x)) => e == x,
            _ => false,
        },
{
    let len: usize = get_u16(data, at) as usize;
    if data.len() - (at + 2) < len {
        return Err(ProtoError::InsufficientData);
    }
    let raw = slice_to_vec(slice_subrange(data, at + 2, at + 2 + len));
    match string_from_utf8(raw) {
        Some(s) => Ok(s),
        None => Err(ProtoError::InvalidUtf8),
    }
}

impl TunnelMessage {
    /// Encode message to binary format.
    ///
    /// - CONNECT: `[cmd:1][stream_id:4][port:2][host_len:2][host:N]`
    /// - DATA:    `[cmd:1][stream_id:4][payload_len:4][payload:N]`
    /// - CLOSE:   `[cmd:1][stream_id:4]`
    /// - ERROR:   `[cmd:1][stream_id:4][code:2][msg_len:2][msg:N]`
    /// - PING:    `[cmd:1]`
    /// - PONG:    `[cmd:1]`
    pub fn encode(&self) -> (out: Bytes)
        ensures
            bytes_contents(out) == encode_frame(self@),
    {
        let mut buf: Vec<u8> = Vec::with_capacity(256);
        match self {
            TunnelMessage::Connect { stream_id, host, port } => {
                buf.push(CommandType::Connect.to_byte());
                put_u32(&mut buf, *stream_id);
                put_u16(&mut buf, *port);
                put_text(&mut buf, host.as_str());
            },
            TunnelMessage::Data { stream_id, payload } => {
                let src = bytes_as_slice(payload);
                buf.push(CommandType::Data.to_byte());
                put_u32(&mut buf, *stream_id);
                put_u32(&mut buf, (src.len() as u64 % 0x1_0000_0000) as u32);
                put_slice(&mut buf, src);
            },
            TunnelMessage::Close { stream_id } => {
                buf.push(CommandType::Close.to_byte());
                put_u32(&mut buf, *stream_id);
            },
            TunnelMessage::ErrorReply { stream_id, code, message } => {
                buf.push(CommandType::ErrorReply.to_byte());
                put_u32(&mut buf, *stream_id);
                put_u16(&mut buf, *code);
                put_text(&mut buf, message.as_str());
            },
            TunnelMessage::Ping => {
                buf.push(CommandType::Ping.to_byte());
            },
            TunnelMessage::Pong => {
                buf.push(CommandType::Pong.to_byte());
            },
        }
        assert(buf@ =~= encode_frame(self@));
        bytes_from_vec(buf)
    }

    /// Whether the frame fits the wire: its text takes less than 65536
    /// bytes and its encoding no more than `MAX_FRAME_SIZE`. Such a frame
    /// decodes to itself.
    pub fn is_encodable(&self) -> (ok: bool)
        ensures
            ok == encodable(self@),
    {
        proof {
            lemma_frame_length(self@);
        }
        match self {
            TunnelMessage::Connect { stream_id: _, host, port: _ } => {
                host.as_str().as_bytes().len() < 0x1_0000
            },
            TunnelMessage::Data { stream_id: _, payload } => {
                bytes_as_slice(payload).len() <= MAX_FRAME_SIZE - 9
            },
            TunnelMessage::Close { stream_id: _ } => true,
            TunnelMessage::ErrorReply { stream_id: _, code: _, message } => {
                message.as_str().as_bytes().len() < 0x1_0000
            },
            TunnelMessage::Ping => true,
            TunnelMessage::Pong => true,
        }
    }

    /// Decode message from binary format: the frame that `data` starts with.
    /// Bytes behind the frame are ignored; a message longer than
    /// `MAX_FRAME_SIZE` is refused whole.
    pub fn decode(data: &[u8]) -> (r: Result<TunnelMessage, ProtoError>)
        ensures
            match (r, decode_frame(data@)) {
                (Ok(m), Ok(f)) => m@ == f,
                (Err(e), Err(x)) => e == x,
                _ => false,
            },
    {
        if data.len() == 0 {
            return Err(ProtoError::EmptyMessage);
        }
        if data.len() > MAX_FRAME_SIZE {
            return Err(ProtoError::FrameTooLarge(data.len(), MAX_FRAME_SIZE));
        }
        let cmd = match CommandType::try_from(data[0]) {
            Ok(c) => c,
            Err(e) => { return Err(e); },
        };
        match cmd {
            CommandType::Connect => {
                if data.len() - 1 < 8 {
                    return Err(ProtoError::InsufficientData);
                }
                let stream_id = get_u32(data, 1);
                let port = get_u16(data, 5);
                match get_text(data, 7) {
                    Ok(host) => Ok(TunnelMessage::Connect { stream_id, host, port }),
                    Err(e) => Err(e),
                }
            },
            CommandType::Data => {
                if data.len() - 1 < 8 {
                    return Err(ProtoError::InsufficientData);
                }
                let stream_id = get_u32(data, 1);
                let payload_len = get_u32(data, 5) as usize;
                if data.len() - 9 < payload_len {
                    return Err(ProtoError::InsufficientData);
                }
                let payload = bytes_copy_from_slice(slice_subrange(data, 9, 9 + payload_len));
                Ok(TunnelMessage::Data { stream_id, payload })
            },
            CommandType::Close => {
                if data.len() - 1 < 4 {
                    return Err(ProtoError::InsufficientData);
                }
                let stream_id = get_u32(data, 1);
                Ok(TunnelMessage::Close { stream_id })
            },
            CommandType::ErrorReply => {
                if data.len() - 1 < 8 {
                    return Err(ProtoError::InsufficientData);
                }
                let stream_id = get_u32(data, 1);
                let code = get_u16(data, 5);
                match get_text(data, 7) {
                    Ok(message) => Ok(TunnelMessage::ErrorReply { stream_id, code, message }),
                    Err(e) => Err(e),
                }
            },
            CommandType::Ping => Ok(TunnelMessage::Ping),
            CommandType::Pong => Ok(TunnelMessage::Pong),
        }
    }
}

/// For a transport that keeps no message boundaries: the message behind
/// its length. A message longer than `MAX_FRAME_SIZE` is refused.
pub fn prefix_length(message: &[u8]) -> (r: Result<Vec<u8>, ProtoError>)
    ensures
        match r {
            Ok(out) => message@.len() <= MAX_FRAME_SIZE && out@ == prefixed(message@),
            Err(e) => message@.len() > MAX_FRAME_SIZE && e == ProtoError::FrameTooLarge(
                message@.len() as usize,
                MAX_FRAME_SIZE,
            ),
        },
{
    if message.len() > MAX_FRAME_SIZE {
        return Err(ProtoError::FrameTooLarge(message.len(), MAX_FRAME_SIZE));
    }
    let mut out: Vec<u8> = Vec::with_capacity(4 + message.len());
    put_u32(&mut out, message.len() as u32);
    put_slice(&mut out, message);
    Ok(out)
}

/// For a transport that keeps no message boundaries: where the first
/// message of the stream ends. The message is what lies between the four
/// bytes of its length and that end; there is none yet while the stream
/// holds less.
pub fn split_first_message(stream: &[u8]) -> (r: Result<Option<usize>, ProtoError>)
    ensures
        match first_message(stream@) {
            Ok(Some(message)) => r == Ok::<Option<usize>, ProtoError>(
                Some((4 + message.len()) as usize),
            ) && message == stream@.subrange(4, 4 + message.len() as int),
            Ok(None) => r == Ok::<Option<usize>, ProtoError>(None),
            Err(e) => r == Err::<Option<usize>, ProtoError>(e),
        },
{
    if stream.len() < 4 {
        return Ok(None);
    }
    let len = get_u32(stream, 0) as usize;
    if len > MAX_FRAME_SIZE {
        return Err(ProtoError::FrameTooLarge(len, MAX_FRAME_SIZE));
    }
    if stream.len() - 4 < len {
        return Ok(None);
    }
    Ok(Some(4 + len))
}

} // verus!
