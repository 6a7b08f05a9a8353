//! Traffic shaping.
//!
//! - Packet size normalization (pad to standard sizes)
//! - Timing obfuscation (batching)
//! - Buffer pooling
//! - Configurable modes (fast, balanced, stealth)
//!
//! The shapers decide what to send and how long to wait; whoever owns the
//! writer and the clock sends and waits.

use vstd::prelude::*;
use vstd::slice::slice_subrange;
use crate::packet_pool::vec_capacity;

verus! {

/// Standard packet sizes for normalization (mimics HTTPS traffic): the TCP
/// MSS of many networks, a typical QUIC packet, Ethernet MTU minus headers.
pub const PACKET_SIZES: [usize; 3] = [536, 1200, 1460];

/// Buffers of each size that a new pool holds.
pub const POOL_PREALLOCATED: usize = 10;

/// Buffers of each size that a pool holds at most.
pub const POOL_LIMIT: usize = 20;

/// `getrandom::getrandom`: fills the buffer with random bytes, or leaves
/// bytes of which nothing is known where the system's source fails; the
/// length stays. Believed, not proved.
#[verifier::external_body]
fn fill_random(buf: &mut Vec<u8>)
    ensures
        final(buf)@.len() == old(buf)@.len(),
{
    getrandom::getrandom(buf).ok();
}

/// Traffic shaping configuration.
#[derive(Debug, Clone, Copy, PartialEq, Eq, Structural)]
pub struct TrafficShapingConfig {
    /// Enable packet padding.
    pub packet_padding: bool,
    /// Enable timing obfuscation.
    pub timing_obfuscation: bool,
    /// Enable burst shaping.
    pub burst_shaping: bool,
    /// Target inter-packet delay (microseconds).
    pub target_delay_us: u64,
    /// Batch size for timing obfuscation.
    pub batch_size: usize,
}

impl TrafficShapingConfig {
    /// Fast mode: no shaping (maximum performance).
    pub fn fast() -> (c: Self)
        ensures
            c == (TrafficShapingConfig {
                packet_padding: false,
                timing_obfuscation: false,
                burst_shaping: false,
                target_delay_us: 0,
                batch_size: 1,
            }),
    {
        TrafficShapingConfig {
            packet_padding: false,
            timing_obfuscation: false,
            burst_shaping: false,
            target_delay_us: 0,
            batch_size: 1,
        }
    }

    /// Balanced mode: minimal shaping (recommended).
    pub fn balanced() -> (c: Self)
        ensures
            c == (TrafficShapingConfig {
                packet_padding: true,
                timing_obfuscation: false,
                burst_shaping: false,
                target_delay_us: 100,
                batch_size: 4,
            }),
    {
        TrafficShapingConfig {
            packet_padding: true,
            timing_obfuscation: false,
            burst_shaping: false,
            target_delay_us: 100,
            batch_size: 4,
        }
    }

    /// Stealth mode: full shaping (maximum censorship resistance).
    pub fn stealth() -> (c: Self)
        ensures
            c == (TrafficShapingConfig {
                packet_padding: true,
                timing_obfuscation: true,
                burst_shaping: true,
                target_delay_us: 500,
                batch_size: 8,
            }),
    {
        TrafficShapingConfig {
            packet_padding: true,
            timing_obfuscation: true,
            burst_shaping: true,
            target_delay_us: 500,
            batch_size: 8,
        }
    }
}

/// The pool that serves a size: the pool of that size, and the pool of the
/// largest size for any other.
pub open spec fn pool_index(size: usize) -> int {
    if size == 536 {
        0
    } else if size == 1200 {
        1
    } else {
        2
    }
}

/// Whether a pool keeps buffers of this capacity.
pub open spec fn is_packet_size(capacity: usize) -> bool {
    capacity == 536 || capacity == 1200 || capacity == 1460
}

/// The buffers of a pool, one sequence for each packet size.
pub struct Pools {
    pub small: Seq<Seq<u8>>,
    pub medium: Seq<Seq<u8>>,
    pub large: Seq<Seq<u8>>,
}

impl Pools {
    /// The buffers kept for the packet size of this index.
    pub open spec fn at(self, index: int) -> Seq<Seq<u8>> {
        if index == 0 {
            self.small
        } else if index == 1 {
            self.medium
        } else {
            self.large
        }
    }

    /// The pools with the buffers for one packet size replaced.
    pub open spec fn with(self, index: int, buffers: Seq<Seq<u8>>) -> Pools {
        if index == 0 {
            Pools { small: buffers, ..self }
        } else if index == 1 {
            Pools { medium: buffers, ..self }
        } else {
            Pools { large: buffers, ..self }
        }
    }

    /// The pools as they are made: for each packet size, the buffers that
    /// are allocated beforehand, each of that size.
    pub open spec fn preallocated(self) -> bool {
        forall|k: int|
            0 <= k < 3 ==> {
                &&& (#[trigger] self.at(k)).len() == POOL_PREALLOCATED
                &&& forall|i: int| 0 <= i < self.at(k).len() ==> (#[trigger] self.at(k)[i]).len()
                        == PACKET_SIZES[k]
            }
    }

    /// The pools after a buffer of the given capacity came back: it is
    /// kept, emptied, where the capacity is a packet size whose pool is
    /// below its limit.
    pub open spec fn returned(self, capacity: usize) -> Pools {
        if is_packet_size(capacity) && self.at(pool_index(capacity)).len() < POOL_LIMIT {
            self.with(pool_index(capacity), self.at(pool_index(capacity)).push(Seq::empty()))
        } else {
            self
        }
    }

    /// The pools after a buffer of the given size was taken: the newest
    /// buffer of its pool is gone, if there was one.
    pub open spec fn taken(self, size: usize) -> Pools {
        if self.at(pool_index(size)).len() > 0 {
            self.with(pool_index(size), self.at(pool_index(size)).drop_last())
        } else {
            self
        }
    }
}

/// Buffer pool for packet padding.
pub struct BufferPool {
    /// Padding buffers of 536 bytes.
    small: Vec<Vec<u8>>,
    /// Padding buffers of 1200 bytes.
    medium: Vec<Vec<u8>>,
    /// Padding buffers of 1460 bytes.
    large: Vec<Vec<u8>>,
}

impl View for BufferPool {
    type V = Pools;

    closed spec fn view(&self) -> Pools {
        Pools {
            small: Seq::new(self.small@.len(), |i: int| self.small@[i]@),
            medium: Seq::new(self.medium@.len(), |i: int| self.medium@[i]@),
            large: Seq::new(self.large@.len(), |i: int| self.large@[i]@),
        }
    }
}

/// Buffers of `size` random bytes, `POOL_PREALLOCATED` of them.
fn preallocate(size: usize) -> (pool: Vec<Vec<u8>>)
    ensures
        pool@.len() == POOL_PREALLOCATED,
        forall|i: int| 0 <= i < pool@.len() ==> (#[trigger] pool@[i])@.len() == size,
{
    let mut pool: Vec<Vec<u8>> = Vec::new();
    let mut n: usize = 0;
    while n < POOL_PREALLOCATED
        invariant
            n <= POOL_PREALLOCATED,
            pool@.len() == n,
            forall|i: int| 0 <= i < pool@.len() ==> (#[trigger] pool@[i])@.len() == size,
        decreases POOL_PREALLOCATED - n,
    {
        let mut buf: Vec<u8> = Vec::new();
        buf.resize(size, 0);
        fill_random(&mut buf);
        pool.push(buf);
        n += 1;
    }
    pool
}

impl BufferPool {
    /// No pool holds more buffers than the limit.
    pub open spec fn wf(&self) -> bool {
        &&& self@.small.len() <= POOL_LIMIT
        &&& self@.medium.len() <= POOL_LIMIT
        &&& self@.large.len() <= POOL_LIMIT
    }

    /// Create new buffer pool with pre-allocated padding: ten buffers of
    /// random bytes for each packet size.
    pub fn new() -> (p: Self)
        ensures
            p.wf(),
            p@.preallocated(),
    {
        BufferPool {
            small: preallocate(PACKET_SIZES[0]),
            medium: preallocate(PACKET_SIZES[1]),
            large: preallocate(PACKET_SIZES[2]),
        }
    }

    /// Get a buffer of the specified size (reuse if available), filled with
    /// random bytes.
    pub fn get(&mut self, size: usize) -> (buf: Vec<u8>)
        requires
            old(self).wf(),
        ensures
            final(self).wf(),
            buf@.len() == size,
            final(self)@ == old(self)@.taken(size),
    {
        let pooled = if size == PACKET_SIZES[0] {
            self.small.pop()
        } else if size == PACKET_SIZES[1] {
            self.medium.pop()
        } else {
            self.large.pop()
        };
        assert(self@.small =~= old(self)@.taken(size).small);
        assert(self@.medium =~= old(self)@.taken(size).medium);
        assert(self@.large =~= old(self)@.taken(size).large);
        let mut buf = match pooled {
            Some(buf) => buf,
            None => Vec::with_capacity(size),
        };
        buf.resize(size, 0);
        fill_random(&mut buf);
        buf
    }

    /// Return a buffer to the pool for reuse, given the capacity that it
    /// was allocated with.
    pub fn return_buf_of_capacity(&mut self, buf: Vec<u8>, capacity: usize)
        requires
            old(self).wf(),
        ensures
            final(self).wf(),
            final(self)@ == old(self)@.returned(capacity),
    {
        let mut buf = buf;
        if capacity == PACKET_SIZES[0] {
            if self.small.len() < POOL_LIMIT {
                buf.clear();
                self.small.push(buf);
            }
        } else if capacity == PACKET_SIZES[1] {
            if self.medium.len() < POOL_LIMIT {
                buf.clear();
                self.medium.push(buf);
            }
        } else if capacity == PACKET_SIZES[2] {
            if self.large.len() < POOL_LIMIT {
                buf.clear();
                self.large.push(buf);
            }
        }
        assert(self@.small =~= old(self)@.returned(capacity).small);
        assert(self@.medium =~= old(self)@.returned(capacity).medium);
        assert(self@.large =~= old(self)@.returned(capacity).large);
    }

    /// Return a buffer to the pool for reuse: what becomes of it goes by
    /// the capacity that it was allocated with, which is at least its
    /// length.
    pub fn return_buf(&mut self, buf: Vec<u8>)
        requires
            old(self).wf(),
        ensures
            final(self).wf(),
            exists|capacity: usize|
                capacity >= buf@.len() && final(self)@ == #[trigger] old(self)@.returned(capacity),
    {
        let capacity = vec_capacity(&buf);
        self.return_buf_of_capacity(buf, capacity);
    }
}

impl Default for BufferPool {
    /// A pool as `new` makes it.
    fn default() -> (p: Self)
        ensures
            p.wf(),
            p@.preallocated(),
    {
        Self::new()
    }
}

/// The size that a packet of `current` bytes is padded to: the smallest
/// standard size that fits it, and the largest where none does.
pub open spec fn target_size(current: usize) -> usize {
    if current <= 536 {
        536
    } else if current <= 1200 {
        1200
    } else {
        1460
    }
}

/// Traffic shaper for packet size normalization.
pub struct TrafficShaper {
    /// Configuration.
    config: TrafficShapingConfig,
    /// Buffer pool for padding.
    buffer_pool: BufferPool,
}

impl TrafficShaper {
    /// The configuration that the shaper was made with.
    pub closed spec fn config(&self) -> TrafficShapingConfig {
        self.config
    }

    /// The shaper's pool holds no more buffers than its limit.
    pub closed spec fn wf(&self) -> bool {
        self.buffer_pool.wf()
    }

    /// Create new traffic shaper with configuration.
    pub fn new(config: TrafficShapingConfig) -> (s: Self)
        ensures
            s.wf(),
            s.config() == config,
    {
        TrafficShaper { config, buffer_pool: BufferPool::new() }
    }

    /// Pad packet to standard size, in place: where padding is enabled and
    /// the packet is shorter than its target size, it keeps its bytes and
    /// grows to that size.
    pub fn pad_packet(&mut self, packet: &mut Vec<u8>)
        requires
            old(self).wf(),
        ensures
            final(self).wf(),
            final(self).config() == old(self).config(),
            final(packet)@.len() == (if old(self).config().packet_padding && target_size(
                old(packet)@.len() as usize,
            ) > old(packet)@.len() {
                target_size(old(packet)@.len() as usize) as nat
            } else {
                old(packet)@.len()
            }),
            final(packet)@.subrange(0, old(packet)@.len() as int) == old(packet)@,
    {
        if !self.config.packet_padding {
            assert(packet@.subrange(0, packet@.len() as int) =~= packet@);
            return ;
        }
        let current_size = packet.len();
        let target = self.select_target_size(current_size);
        if target > current_size {
            let padding_buf = self.buffer_pool.get(target);
            packet.extend_from_slice(slice_subrange(padding_buf.as_slice(), current_size, target));
            self.buffer_pool.return_buf(padding_buf);
        }
        assert(packet@.subrange(0, old(packet)@.len() as int) =~= old(packet)@);
    }

    /// Select target size for packet (smallest size that fits).
    pub fn select_target_size(&self, current: usize) -> (size: usize)
        ensures
            size == target_size(current),
    {
        let mut i: usize = 0;
        while i < 3
            invariant
                i <= 3,
                forall|j: int| 0 <= j < i ==> PACKET_SIZES[j] < current,
            decreases 3 - i,
        {
            if PACKET_SIZES[i] >= current {
                return PACKET_SIZES[i];
            }
            i += 1;
        }
        PACKET_SIZES[2]
    }
}

/// What the timing shaper asks of whoever owns the writer.
#[derive(Debug)]
pub enum ShapedSend {
    /// Write this packet now.
    Write(Vec<u8>),
    /// The packet waits in the batch.
    Batched,
    /// The batch is full: flush it with `flush_batch`.
    Flush,
}

/// Timing shaper for inter-packet delay obfuscation.
pub struct TimingShaper {
    /// Configuration.
    config: TrafficShapingConfig,
    /// Batch buffer (amortize timing overhead).
    batch: Vec<Vec<u8>>,
}

impl TimingShaper {
    /// The configuration that the shaper was made with.
    pub closed spec fn config(&self) -> TrafficShapingConfig {
        self.config
    }

    /// The packets that wait, oldest first.
    pub closed spec fn batch(&self) -> Seq<Vec<u8>> {
        self.batch@
    }

    /// Create new timing shaper with configuration.
    pub fn new(config: TrafficShapingConfig) -> (s: Self)
        ensures
            s.config() == config,
            s.batch().len() == 0,
    {
        TimingShaper { config, batch: Vec::new() }
    }

    /// Send packet with timing obfuscation: without it the packet is
    /// written now; with it the packet joins the batch, which is flushed
    /// when it is full.
    pub fn send_with_shaping(&mut self, packet: Vec<u8>) -> (action: ShapedSend)
        ensures
            final(self).config() == old(self).config(),
            !old(self).config().timing_obfuscation ==> action == ShapedSend::Write(packet)
                && final(self).batch() == old(self).batch(),
            old(self).config().timing_obfuscation ==> final(self).batch() == old(
                self,
            ).batch().push(packet) && action == (if final(self).batch().len() >= old(
                self,
            ).config().batch_size {
                ShapedSend::Flush
            } else {
                ShapedSend::Batched
            }),
    {
        if !self.config.timing_obfuscation {
            return ShapedSend::Write(packet);
        }
        self.batch.push(packet);
        if self.batch.len() >= self.config.batch_size {
            ShapedSend::Flush
        } else {
            ShapedSend::Batched
        }
    }

    /// The delay that a batch of `count` packets is held for when
    /// `elapsed_us` microseconds have passed since the last flush: what is
    /// missing to the target delay of each packet, at most `u64::MAX`.
    pub open spec fn batch_delay(target_delay_us: u64, count: nat, elapsed_us: u64) -> u64 {
        let target = if target_delay_us * count > u64::MAX {
            u64::MAX as int
        } else {
            target_delay_us * count
        };
        if elapsed_us < target {
            (target - elapsed_us) as u64
        } else {
            0
        }
    }

    /// Flush batch with timing delay: returns how many microseconds to
    /// wait, and the packets to write after that, oldest first. An empty
    /// batch asks for no wait.
    pub fn flush_batch(&mut self, elapsed_us: u64) -> (r: (u64, Vec<Vec<u8>>))
        ensures
            final(self).config() == old(self).config(),
            final(self).batch().len() == 0,
            r.1@ == old(self).batch(),
            r.0 == (if old(self).batch().len() == 0 {
                0
            } else {
                Self::batch_delay(
                    old(self).config().target_delay_us,
                    old(self).batch().len(),
                    elapsed_us,
                )
            }),
    {
        let mut packets: Vec<Vec<u8>> = Vec::new();
        if self.batch.len() == 0 {
            return (0, packets);
        }
        let count = self.batch.len() as u64;
        let target = match self.config.target_delay_us.checked_mul(count) {
            Some(t) => t,
            None => u64::MAX,
        };
        let delay = if elapsed_us < target {
            target - elapsed_us
        } else {
            0
        };
        std::mem::swap(&mut self.batch, &mut packets);
        (delay, packets)
    }

    /// Force flush remaining packets in batch.
    pub fn flush(&mut self, elapsed_us: u64) -> (r: (u64, Vec<Vec<u8>>))
        ensures
            final(self).config() == old(self).config(),
            final(self).batch().len() == 0,
            r.1@ == old(self).batch(),
            r.0 == (if old(self).batch().len() == 0 {
                0
            } else {
                Self::batch_delay(
                    old(self).config().target_delay_us,
                    old(self).batch().len(),
                    elapsed_us,
                )
            }),
    {
        self.flush_batch(elapsed_us)
    }
}

} // verus!
