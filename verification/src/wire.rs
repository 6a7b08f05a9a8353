//! The wire format as mathematics: what a frame is, which bytes stand for
//! it, and which frame a byte string stands for.

use vstd::prelude::*;
use vstd::utf8::{
    decode_utf8, decode_utf8_encode_utf8, encode_utf8, encode_utf8_decode_utf8,
    encode_utf8_valid_utf8, valid_utf8,
};
use crate::error::ProtoError;

verus! {

/// Largest message, in bytes, that the codec accepts.
pub const MAX_FRAME_SIZE: usize = 1048576;

/// A frame of the tunnel protocol, as a mathematical value.
pub enum Frame {
    Connect { stream_id: u32, host: Seq<char>, port: u16 },
    Data { stream_id: u32, payload: Seq<u8> },
    Close { stream_id: u32 },
    ErrorReply { stream_id: u32, code: u16, message: Seq<char> },
    Ping,
    Pong,
}

/// The two bytes that spell `n` in big-endian order.
#[verifier::opaque]
pub open spec fn be16(n: u16) -> Seq<u8> {
    seq![(n / 256) as u8, (n % 256) as u8]
}

/// The four bytes that spell `n` in big-endian order.
#[verifier::opaque]
pub open spec fn be32(n: u32) -> Seq<u8> {
    seq![
        (n / 0x100_0000) as u8,
        ((n / 0x1_0000) % 256) as u8,
        ((n / 0x100) % 256) as u8,
        (n % 256) as u8,
    ]
}

/// The number that two bytes spell in big-endian order.
#[verifier::opaque]
pub open spec fn read_be16(b: Seq<u8>) -> u16
    recommends
        b.len() == 2,
{
    (b[0] * 256 + b[1]) as u16
}

/// The number that four bytes spell in big-endian order.
#[verifier::opaque]
pub open spec fn read_be32(b: Seq<u8>) -> u32
    recommends
        b.len() == 4,
{
    (b[0] * 0x100_0000 + b[1] * 0x1_0000 + b[2] * 0x100 + b[3]) as u32
}

/// The bytes of a frame. A length field holds the length modulo the field's
/// range, so only a frame that `encodable` accepts is spelled faithfully.
pub open spec fn encode_frame(f: Frame) -> Seq<u8> {
    match f {
        Frame::Connect { stream_id, host, port } => seq![0x01u8] + be32(stream_id) + be16(port)
            + be16((encode_utf8(host).len() % 0x1_0000) as u16) + encode_utf8(host),
        Frame::Data { stream_id, payload } => seq![0x02u8] + be32(stream_id) + be32(
            (payload.len() % 0x1_0000_0000) as u32,
        ) + payload,
        Frame::Close { stream_id } => seq![0x03u8] + be32(stream_id),
        Frame::ErrorReply { stream_id, code, message } => seq![0x04u8] + be32(stream_id) + be16(
            code,
        ) + be16((encode_utf8(message).len() % 0x1_0000) as u16) + encode_utf8(message),
        Frame::Ping => seq![0x05u8],
        Frame::Pong => seq![0x06u8],
    }
}

/// A frame whose lengths fit their fields and whose bytes fit one message.
pub open spec fn encodable(f: Frame) -> bool {
    &&& encode_frame(f).len() <= MAX_FRAME_SIZE
    &&& f matches Frame::Connect { host, .. } ==> encode_utf8(host).len() < 0x1_0000
    &&& f matches Frame::ErrorReply { message, .. } ==> encode_utf8(message).len() < 0x1_0000
}

/// A text field: two length bytes at `at`, then that many bytes of UTF-8.
pub open spec fn text_field(b: Seq<u8>, at: int) -> Result<Seq<char>, ProtoError> {
    let len = read_be16(b.subrange(at, at + 2)) as int;
    if b.len() - (at + 2) < len {
        Err(ProtoError::InsufficientData)
    } else if !valid_utf8(b.subrange(at + 2, at + 2 + len)) {
        Err(ProtoError::InvalidUtf8)
    } else {
        Ok(decode_utf8(b.subrange(at + 2, at + 2 + len)))
    }
}

/// The frame that a message starts with, or why it starts with none.
/// Bytes behind the frame are ignored.
pub open spec fn decode_frame(b: Seq<u8>) -> Result<Frame, ProtoError> {
    if b.len() == 0 {
        Err(ProtoError::EmptyMessage)
    } else if b.len() > MAX_FRAME_SIZE {
        Err(ProtoError::FrameTooLarge(b.len() as usize, MAX_FRAME_SIZE))
    } else if b[0] == 0x01 {
        if b.len() < 9 {
            Err(ProtoError::InsufficientData)
        } else {
            match text_field(b, 7) {
                Ok(host) => Ok(
                    Frame::Connect {
                        stream_id: read_be32(b.subrange(1, 5)),
                        host,
                        port: read_be16(b.subrange(5, 7)),
                    },
                ),
                Err(e) => Err(e),
            }
        }
    } else if b[0] == 0x02 {
        if b.len() < 9 {
            Err(ProtoError::InsufficientData)
        } else {
            let len = read_be32(b.subrange(5, 9)) as int;
            if b.len() - 9 < len {
                Err(ProtoError::InsufficientData)
            } else {
                Ok(
                    Frame::Data {
                        stream_id: read_be32(b.subrange(1, 5)),
                        payload: b.subrange(9, 9 + len),
                    },
                )
            }
        }
    } else if b[0] == 0x03 {
        if b.len() < 5 {
            Err(ProtoError::InsufficientData)
        } else {
            Ok(Frame::Close { stream_id: read_be32(b.subrange(1, 5)) })
        }
    } else if b[0] == 0x04 {
        if b.len() < 9 {
            Err(ProtoError::InsufficientData)
        } else {
            match text_field(b, 7) {
                Ok(message) => Ok(
                    Frame::ErrorReply {
                        stream_id: read_be32(b.subrange(1, 5)),
                        code: read_be16(b.subrange(5, 7)),
                        message,
                    },
                ),
                Err(e) => Err(e),
            }
        }
    } else if b[0] == 0x05 {
        Ok(Frame::Ping)
    } else if b[0] == 0x06 {
        Ok(Frame::Pong)
    } else {
        Err(ProtoError::InvalidCommand(b[0]))
    }
}

/// Two bytes written in big-endian order read back as the number written.
pub proof fn lemma_be16_reads_back(n: u16)
    ensures
        be16(n).len() == 2,
        read_be16(be16(n)) == n,
{
    reveal(be16);
    reveal(read_be16);
}

/// Two bytes are the bytes that spell the number read from them.
pub proof fn lemma_be16_spells_back(b: Seq<u8>)
    requires
        b.len() == 2,
    ensures
        be16(read_be16(b)) == b,
{
    reveal(be16);
    reveal(read_be16);
    assert(be16(read_be16(b)) =~= b);
}

/// Four bytes written in big-endian order read back as the number written.
pub proof fn lemma_be32_reads_back(n: u32)
    ensures
        be32(n).len() == 4,
        read_be32(be32(n)) == n,
{
    reveal(be32);
    reveal(read_be32);
    let x1 = n / 0x100;
    let x2 = n / 0x1_0000;
    let x3 = n / 0x100_0000;
    assert((n / 0x100) / 0x100 == n / 0x1_0000) by (bit_vector);
    assert((n / 0x1_0000) / 0x100 == n / 0x100_0000) by (bit_vector);
    assert(n / 0x100_0000 < 0x100) by (bit_vector);
    assert(n == x1 * 0x100 + n % 0x100);
    assert(x1 == x2 * 0x100 + x1 % 0x100);
    assert(x2 == x3 * 0x100 + x2 % 0x100);
}

/// Four bytes are the bytes that spell the number read from them.
pub proof fn lemma_be32_spells_back(b: Seq<u8>)
    requires
        b.len() == 4,
    ensures
        be32(read_be32(b)) == b,
{
    reveal(be32);
    reveal(read_be32);
    let n: int = b[0] * 0x100_0000 + b[1] * 0x1_0000 + b[2] * 0x100 + b[3];
    let x1: int = b[0] * 0x1_0000 + b[1] * 0x100 + b[2];
    let x2: int = b[0] * 0x100 + b[1];
    assert(n == x1 * 0x100 + b[3]);
    assert(n / 0x100 == x1 && n % 0x100 == b[3]);
    assert(x1 == x2 * 0x100 + b[2]);
    assert(x1 / 0x100 == x2 && x1 % 0x100 == b[2]);
    assert(x2 / 0x100 == b[0] && x2 % 0x100 == b[1]);
    let m = n as u32;
    assert((m / 0x100) / 0x100 == m / 0x1_0000) by (bit_vector);
    assert((m / 0x1_0000) / 0x100 == m / 0x100_0000) by (bit_vector);
    assert(read_be32(b) == m);
    assert(be32(m) =~= b);
}

/// The bytes that a frame takes besides its text or payload.
pub open spec fn frame_overhead(f: Frame) -> nat {
    match f {
        Frame::Connect { .. } => 9,
        Frame::Data { .. } => 9,
        Frame::Close { .. } => 5,
        Frame::ErrorReply { .. } => 9,
        Frame::Ping => 1,
        Frame::Pong => 1,
    }
}

/// The text or payload that a frame carries, in bytes.
pub open spec fn frame_body(f: Frame) -> Seq<u8> {
    match f {
        Frame::Connect { host, .. } => encode_utf8(host),
        Frame::Data { payload, .. } => payload,
        Frame::ErrorReply { message, .. } => encode_utf8(message),
        _ => Seq::empty(),
    }
}

/// A frame takes its overhead and its body.
pub proof fn lemma_frame_length(f: Frame)
    ensures
        encode_frame(f).len() == frame_overhead(f) + frame_body(f).len(),
{
    match f {
        Frame::Connect { stream_id, host, port } => {
            lemma_be32_reads_back(stream_id);
            lemma_be16_reads_back(port);
            lemma_be16_reads_back((encode_utf8(host).len() % 0x1_0000) as u16);
        },
        Frame::Data { stream_id, payload } => {
            lemma_be32_reads_back(stream_id);
            lemma_be32_reads_back((payload.len() % 0x1_0000_0000) as u32);
        },
        Frame::Close { stream_id } => {
            lemma_be32_reads_back(stream_id);
        },
        Frame::ErrorReply { stream_id, code, message } => {
            lemma_be32_reads_back(stream_id);
            lemma_be16_reads_back(code);
            lemma_be16_reads_back((encode_utf8(message).len() % 0x1_0000) as u16);
        },
        _ => {},
    }
}

/// A DATA frame takes nine bytes more than its payload.
pub proof fn lemma_data_frame_length(stream_id: u32, payload: Seq<u8>)
    ensures
        encode_frame(Frame::Data { stream_id, payload }).len() == 9 + payload.len(),
        payload.len() <= MAX_FRAME_SIZE - 9 ==> encodable(Frame::Data { stream_id, payload }),
{
    lemma_frame_length(Frame::Data { stream_id, payload });
}

/// Round trip: the bytes of an encodable frame decode to that frame.
pub proof fn lemma_decode_encode(f: Frame)
    requires
        encodable(f),
    ensures
        decode_frame(encode_frame(f)) == Ok::<Frame, ProtoError>(f),
{
    broadcast use {encode_utf8_valid_utf8, encode_utf8_decode_utf8};

    let b = encode_frame(f);
    match f {
        Frame::Connect { stream_id, host, port } => {
            let text = encode_utf8(host);
            let len = text.len() as u16;
            lemma_be32_reads_back(stream_id);
            lemma_be16_reads_back(port);
            lemma_be16_reads_back(len);
            assert(b.subrange(1, 5) =~= be32(stream_id));
            assert(b.subrange(5, 7) =~= be16(port));
            assert(b.subrange(7, 9) =~= be16(len));
            assert(b.subrange(9, 9 + len) =~= text);
        },
        Frame::Data { stream_id, payload } => {
            let len = payload.len() as u32;
            lemma_be32_reads_back(stream_id);
            lemma_be32_reads_back(len);
            assert(b.subrange(1, 5) =~= be32(stream_id));
            assert(b.subrange(5, 9) =~= be32(len));
            assert(b.subrange(9, 9 + len) =~= payload);
        },
        Frame::Close { stream_id } => {
            lemma_be32_reads_back(stream_id);
            assert(b.subrange(1, 5) =~= be32(stream_id));
        },
        Frame::ErrorReply { stream_id, code, message } => {
            let text = encode_utf8(message);
            let len = text.len() as u16;
            lemma_be32_reads_back(stream_id);
            lemma_be16_reads_back(code);
            lemma_be16_reads_back(len);
            assert(b.subrange(1, 5) =~= be32(stream_id));
            assert(b.subrange(5, 7) =~= be16(code));
            assert(b.subrange(7, 9) =~= be16(len));
            assert(b.subrange(9, 9 + len) =~= text);
        },
        Frame::Ping => {},
        Frame::Pong => {},
    }
}

/// Whatever decodes, decodes to an encodable frame whose bytes are the
/// message's first bytes: decoding reads nothing that is not there.
pub proof fn lemma_decode_is_prefix(b: Seq<u8>)
    ensures
        decode_frame(b) matches Ok(f) ==> encodable(f) && encode_frame(f).is_prefix_of(b),
{
    broadcast use decode_utf8_encode_utf8;

    if let Ok(f) = decode_frame(b) {
        let e = encode_frame(f);
        match f {
            Frame::Connect { stream_id, host, port } => {
                let len = read_be16(b.subrange(7, 9)) as int;
                lemma_be32_spells_back(b.subrange(1, 5));
                lemma_be16_spells_back(b.subrange(5, 7));
                lemma_be16_spells_back(b.subrange(7, 9));
                assert(encode_utf8(host) == b.subrange(9, 9 + len));
                assert(e =~= b.subrange(0, 9 + len));
            },
            Frame::Data { stream_id, payload } => {
                let len = read_be32(b.subrange(5, 9)) as int;
                lemma_be32_spells_back(b.subrange(1, 5));
                lemma_be32_spells_back(b.subrange(5, 9));
                assert(e =~= b.subrange(0, 9 + len));
            },
            Frame::Close { stream_id } => {
                lemma_be32_spells_back(b.subrange(1, 5));
                assert(e =~= b.subrange(0, 5));
            },
            Frame::ErrorReply { stream_id, code, message } => {
                let len = read_be16(b.subrange(7, 9)) as int;
                lemma_be32_spells_back(b.subrange(1, 5));
                lemma_be16_spells_back(b.subrange(5, 7));
                lemma_be16_spells_back(b.subrange(7, 9));
                assert(encode_utf8(message) == b.subrange(9, 9 + len));
                assert(e =~= b.subrange(0, 9 + len));
            },
            Frame::Ping => {
                assert(e =~= b.subrange(0, 1));
            },
            Frame::Pong => {
                assert(e =~= b.subrange(0, 1));
            },
        }
    }
}

/* Messages on a byte stream */

/// A message as it travels on a transport that keeps no message
/// boundaries: its length in four bytes, in big-endian order, then the
/// message.
pub open spec fn prefixed(message: Seq<u8>) -> Seq<u8> {
    be32(message.len() as u32) + message
}

/// The first message of a byte stream: none while the stream holds less
/// than the length and the message that it announces, and no message
/// longer than `MAX_FRAME_SIZE`.
pub open spec fn first_message(stream: Seq<u8>) -> Result<Option<Seq<u8>>, ProtoError> {
    if stream.len() < 4 {
        Ok(None)
    } else {
        let len = read_be32(stream.subrange(0, 4));
        if len > MAX_FRAME_SIZE {
            Err(ProtoError::FrameTooLarge(len as usize, MAX_FRAME_SIZE))
        } else if stream.len() - 4 < len {
            Ok(None)
        } else {
            Ok(Some(stream.subrange(4, 4 + len)))
        }
    }
}

/// A message behind its length is the first message of every stream that
/// starts with it.
pub proof fn lemma_first_message_of_prefixed(message: Seq<u8>, rest: Seq<u8>)
    requires
        message.len() <= MAX_FRAME_SIZE,
    ensures
        first_message(prefixed(message) + rest) == Ok::<Option<Seq<u8>>, ProtoError>(
            Some(message),
        ),
{
    let stream = prefixed(message) + rest;
    lemma_be32_reads_back(message.len() as u32);
    assert(stream.subrange(0, 4) =~= be32(message.len() as u32));
    assert(stream.subrange(4, 4 + message.len() as int) =~= message);
}

} // verus!
