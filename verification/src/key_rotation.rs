//! Key rotation.
//!
//! Session keys rotate for forward secrecy, by time elapsed or by packet
//! count. The next key is a one-way function of the current one.

use sha2::{Digest, Sha256};
use std::time::Duration;
use vstd::prelude::*;
use vstd::utf8::encode_utf8;
use crate::clock::{duration_as_nanos, elapsed_since, since, span_nanos, Clock, Nanos};

verus! {

/// Default rotation interval (5 minutes).
pub const DEFAULT_ROTATION_INTERVAL: Nanos = 300_000_000_000;

/// Default packet limit before rotation (100,000 packets).
pub const DEFAULT_PACKET_LIMIT: u64 = 100_000;

/// The SHA-256 digest of a message.
pub uninterp spec fn sha256(data: Seq<u8>) -> Seq<u8>;

/// `Sha256::digest`: the SHA-256 digest of the message, which depends on
/// the message alone. Believed, not proved.
#[verifier::external_body]
fn sha256_digest(data: &[u8]) -> (digest: [u8; 32])
    ensures
        digest@ == sha256(data@),
{
    Sha256::digest(data).into()
}

/// The eight bytes that spell `n` in big-endian order.
pub open spec fn be64(n: u64) -> Seq<u8> {
    seq![
        (n / 0x100_0000_0000_0000) as u8,
        ((n / 0x1_0000_0000_0000) % 256) as u8,
        ((n / 0x100_0000_0000) % 256) as u8,
        ((n / 0x1_0000_0000) % 256) as u8,
        ((n / 0x100_0000) % 256) as u8,
        ((n / 0x1_0000) % 256) as u8,
        ((n / 0x100) % 256) as u8,
        (n % 256) as u8,
    ]
}

/// What is hashed to derive the key of a generation: the current key, the
/// generation in big-endian order, and a label.
pub open spec fn ratchet_input(current_key: Seq<u8>, generation: u64) -> Seq<u8> {
    current_key + be64(generation) + encode_utf8("zks-key-rotation-v1"@)
}

/// The generation that follows `generation`, wrapping after the largest.
pub open spec fn next_generation(generation: u64) -> u64 {
    if generation == u64::MAX {
        0
    } else {
        (generation + 1) as u64
    }
}

/// What a key rotation manager knows, as a mathematical value.
pub struct RotationState {
    pub rotation_interval: Nanos,
    pub packet_limit: u64,
    pub generation: u64,
    pub packet_count: u64,
    pub last_rotation: Nanos,
}

/// Rotation is due when the packet limit is reached or the interval has
/// passed since the last rotation.
pub open spec fn rotation_due(s: RotationState, now: Nanos) -> bool {
    s.packet_count >= s.packet_limit || since(now, s.last_rotation) >= s.rotation_interval
}

/// Key rotation manager.
pub struct KeyRotationManager {
    /// Time-based rotation interval.
    rotation_interval: Nanos,
    /// Packet-based rotation limit.
    packet_limit: u64,
    /// Current key generation number.
    current_generation: u64,
    /// Packet counter.
    packet_count: u64,
    /// Last rotation time.
    last_rotation: Nanos,
    /// Where the time comes from.
    clock: Clock,
}

impl View for KeyRotationManager {
    type V = RotationState;

    closed spec fn view(&self) -> RotationState {
        RotationState {
            rotation_interval: self.rotation_interval,
            packet_limit: self.packet_limit,
            generation: self.current_generation,
            packet_count: self.packet_count,
            last_rotation: self.last_rotation,
        }
    }
}

impl KeyRotationManager {
    /// Create new key rotation manager with defaults.
    pub fn new() -> (m: Self)
        ensures
            m@ == (RotationState {
                rotation_interval: DEFAULT_ROTATION_INTERVAL,
                packet_limit: DEFAULT_PACKET_LIMIT,
                generation: 0,
                packet_count: 0,
                last_rotation: 0,
            }),
    {
        Self::with_params_nanos(DEFAULT_ROTATION_INTERVAL, DEFAULT_PACKET_LIMIT)
    }

    /// Create with custom parameters: the interval is the nanoseconds that
    /// `rotation_interval` holds.
    pub fn with_params(rotation_interval: Duration, packet_limit: u64) -> (m: Self)
        ensures
            m@ == (RotationState {
                rotation_interval: span_nanos(rotation_interval),
                packet_limit,
                generation: 0,
                packet_count: 0,
                last_rotation: 0,
            }),
    {
        Self::with_params_nanos(duration_as_nanos(rotation_interval), packet_limit)
    }

    /// Create with custom parameters, the interval in nanoseconds.
    pub fn with_params_nanos(rotation_interval: Nanos, packet_limit: u64) -> (m: Self)
        ensures
            m@ == (RotationState {
                rotation_interval,
                packet_limit,
                generation: 0,
                packet_count: 0,
                last_rotation: 0,
            }),
    {
        KeyRotationManager {
            rotation_interval,
            packet_limit,
            current_generation: 0,
            packet_count: 0,
            last_rotation: 0,
            clock: Clock::new(),
        }
    }

    /// Check if rotation is needed, by the clock.
    pub fn should_rotate(&self) -> (due: bool)
        ensures
            exists|now: Nanos| due == #[trigger] rotation_due(self@, now),
    {
        let now = self.clock.now();
        self.should_rotate_at(now)
    }

    /// Check if rotation is needed at `now`.
    pub fn should_rotate_at(&self, now: Nanos) -> (due: bool)
        ensures
            due == rotation_due(self@, now),
    {
        if self.packet_count >= self.packet_limit {
            return true;
        }
        elapsed_since(now, self.last_rotation) >= self.rotation_interval
    }

    /// Increment packet counter, wrapping after the largest count.
    pub fn increment_packet_count(&mut self)
        ensures
            final(self)@ == (RotationState {
                packet_count: next_generation(old(self)@.packet_count),
                ..old(self)@
            }),
    {
        self.packet_count = if self.packet_count == u64::MAX {
            0
        } else {
            self.packet_count + 1
        };
    }

    /// What is hashed to derive the key of `generation` from `current_key`.
    pub fn ratchet_message(current_key: &[u8; 32], generation: u64) -> (message: Vec<u8>)
        ensures
            message@ == ratchet_input(current_key@, generation),
    {
        let mut message: Vec<u8> = Vec::with_capacity(59);
        message.extend_from_slice(current_key.as_slice());
        message.push((generation / 0x100_0000_0000_0000) as u8);
        message.push(((generation / 0x1_0000_0000_0000) % 256) as u8);
        message.push(((generation / 0x100_0000_0000) % 256) as u8);
        message.push(((generation / 0x1_0000_0000) % 256) as u8);
        message.push(((generation / 0x100_0000) % 256) as u8);
        message.push(((generation / 0x1_0000) % 256) as u8);
        message.push(((generation / 0x100) % 256) as u8);
        message.push((generation % 256) as u8);
        assert(message@ =~= current_key@ + be64(generation));
        message.extend_from_slice("zks-key-rotation-v1".as_bytes());
        assert(message@ =~= ratchet_input(current_key@, generation));
        message
    }

    /// Perform key rotation (derive next generation key), by the clock.
    /// Returns the new generation number and the new key.
    pub fn rotate(&mut self, current_key: &[u8; 32]) -> (r: (u64, [u8; 32]))
        ensures
            r.0 == next_generation(old(self)@.generation),
            r.1@ == sha256(ratchet_input(current_key@, r.0)),
            final(self)@.generation == r.0,
            final(self)@.packet_count == 0,
            final(self)@.rotation_interval == old(self)@.rotation_interval,
            final(self)@.packet_limit == old(self)@.packet_limit,
    {
        let now = self.clock.now();
        self.rotate_at(current_key, now)
    }

    /// Perform key rotation at `now`: the generation advances, the new key
    /// is the digest of the current key, the new generation and the label,
    /// the packet counter starts again and the interval starts at `now`.
    pub fn rotate_at(&mut self, current_key: &[u8; 32], now: Nanos) -> (r: (u64, [u8; 32]))
        ensures
            r.0 == next_generation(old(self)@.generation),
            r.1@ == sha256(ratchet_input(current_key@, r.0)),
            final(self)@ == (RotationState {
                generation: r.0,
                packet_count: 0,
                last_rotation: now,
                ..old(self)@
            }),
    {
        let new_generation = if self.current_generation == u64::MAX {
            0
        } else {
            self.current_generation + 1
        };
        let message = Self::ratchet_message(current_key, new_generation);
        let new_key = sha256_digest(message.as_slice());
        self.finish_rotation(new_generation, now);
        (new_generation, new_key)
    }

    /// A key for `generation` was derived at `now`: the manager counts from
    /// there.
    pub fn finish_rotation(&mut self, generation: u64, now: Nanos)
        ensures
            final(self)@ == (RotationState {
                generation,
                packet_count: 0,
                last_rotation: now,
                ..old(self)@
            }),
    {
        self.current_generation = generation;
        self.packet_count = 0;
        self.last_rotation = now;
    }

    /// Get current generation.
    pub fn current_generation(&self) -> (g: u64)
        ensures
            g == self@.generation,
    {
        self.current_generation
    }

    /// Get packet count.
    pub fn packet_count(&self) -> (n: u64)
        ensures
            n == self@.packet_count,
    {
        self.packet_count
    }
}

impl Drop for KeyRotationManager {
    /// Zeroes the counters.
    fn drop(&mut self)
        ensures
            final(self)@ == (RotationState { generation: 0, packet_count: 0, ..old(self)@ }),
        opens_invariants none
        no_unwind
    {
        self.current_generation = 0;
        self.packet_count = 0;
    }
}

impl Default for KeyRotationManager {
    fn default() -> (m: Self)
        ensures
            m@ == (RotationState {
                rotation_interval: DEFAULT_ROTATION_INTERVAL,
                packet_limit: DEFAULT_PACKET_LIMIT,
                generation: 0,
                packet_count: 0,
                last_rotation: 0,
            }),
    {
        Self::new()
    }
}

} // verus!
