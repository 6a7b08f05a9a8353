//! A bounded pool of reusable packet buffers, to keep allocation off the
//! hot path.

use crossbeam_queue::ArrayQueue;
use vstd::prelude::*;

verus! {

/// What `crossbeam_queue::ArrayQueue` is to the verifier: an opaque value.
/// What it holds is spoken of through `queue_items` and `queue_capacity`.
#[verifier::external_type_specification]
#[verifier::external_body]
#[verifier::reject_recursive_types(T)]
pub struct ExArrayQueue<T>(crossbeam_queue::ArrayQueue<T>);

/// The buffers that a queue holds, oldest first.
pub uninterp spec fn queue_items(q: ArrayQueue<Vec<u8>>) -> Seq<Seq<u8>>;

/// The number of buffers that a queue was made to hold at most.
pub uninterp spec fn queue_capacity(q: ArrayQueue<Vec<u8>>) -> nat;

/// Most buffers that a pool can be made to hold.
pub const MAX_POOL_CAPACITY: usize = 1048576;

/// Buffers that a pool holds at most, unless it is told otherwise.
pub const DEFAULT_POOL_CAPACITY: usize = 256;

/// Length of a buffer for the TUN path.
pub const TUN_BUF_SIZE: usize = 2048;

/// Length of a buffer for the TCP relay path.
pub const RELAY_BUF_SIZE: usize = 16384;

/// `ArrayQueue::new`: an empty queue of the given capacity. It panics on a
/// capacity of zero and on one too large for its index arithmetic or for
/// one allocation; both are kept out. Believed, not proved.
#[verifier::external_body]
fn queue_new(cap: usize) -> (q: ArrayQueue<Vec<u8>>)
    requires
        0 < cap <= MAX_POOL_CAPACITY,
    ensures
        queue_items(q) == Seq::<Seq<u8>>::empty(),
        queue_capacity(q) == cap,
{
    ArrayQueue::new(cap)
}

/// `ArrayQueue::push`: the buffer goes to the tail of a queue that is not
/// full; a full queue hands it back and stays as it is. Believed, not
/// proved.
#[verifier::external_body]
fn queue_push(q: &mut ArrayQueue<Vec<u8>>, buf: Vec<u8>) -> (r: Result<(), Vec<u8>>)
    ensures
        queue_capacity(*final(q)) == queue_capacity(*old(q)),
        match r {
            Ok(_) => queue_items(*old(q)).len() < queue_capacity(*old(q)) && queue_items(*final(q))
                == queue_items(*old(q)).push(buf@),
            Err(back) => queue_items(*old(q)).len() >= queue_capacity(*old(q)) && back == buf
                && queue_items(*final(q)) == queue_items(*old(q)),
        },
{
    q.push(buf)
}

/// `ArrayQueue::pop`: the buffer at the head of the queue leaves it; an
/// empty queue yields nothing. Believed, not proved.
#[verifier::external_body]
fn queue_pop(q: &mut ArrayQueue<Vec<u8>>) -> (r: Option<Vec<u8>>)
    ensures
        queue_capacity(*final(q)) == queue_capacity(*old(q)),
        match r {
            Some(buf) => queue_items(*old(q)).len() > 0 && buf@ == queue_items(*old(q))[0]
                && queue_items(*final(q)) == queue_items(*old(q)).drop_first(),
            None => queue_items(*old(q)).len() == 0 && queue_items(*final(q)) == queue_items(
                *old(q),
            ),
        },
{
    q.pop()
}

/// `ArrayQueue::len`: the number of buffers in the queue. Believed, not
/// proved.
#[verifier::external_body]
fn queue_len(q: &ArrayQueue<Vec<u8>>) -> (n: usize)
    ensures
        n == queue_items(*q).len(),
{
    q.len()
}

/// `Vec::capacity`: the number of bytes that the vector can hold without
/// allocating again, which is at least its length and else up to the
/// allocator. Believed, not proved.
#[verifier::external_body]
pub(crate) fn vec_capacity(v: &Vec<u8>) -> (c: usize)
    ensures
        c >= v@.len(),
{
    v.capacity()
}

/// A pool of reusable packet buffers to minimize allocations.
pub struct PacketBufPool {
    pool: ArrayQueue<Vec<u8>>,
    buf_size: usize,
}

impl PacketBufPool {
    /// The buffers in the pool, oldest first.
    pub closed spec fn buffers(&self) -> Seq<Seq<u8>> {
        queue_items(self.pool)
    }

    /// The number of buffers that the pool holds at most.
    pub closed spec fn capacity(&self) -> nat {
        queue_capacity(self.pool)
    }

    /// The length of the buffers that the pool hands out.
    pub closed spec fn buf_size(&self) -> nat {
        self.buf_size as nat
    }

    /// The pool never holds more buffers than its capacity.
    pub open spec fn wf(&self) -> bool {
        self.buffers().len() <= self.capacity()
    }

    /// Create a new packet buffer pool.
    ///
    /// * `capacity` - Maximum number of buffers to hold in the pool
    /// * `buf_size` - Size of each buffer (typically MTU + overhead, e.g., 2048)
    pub fn new(capacity: usize, buf_size: usize) -> (p: Self)
        requires
            0 < capacity <= MAX_POOL_CAPACITY,
        ensures
            p.wf(),
            p.buffers() == Seq::<Seq<u8>>::empty(),
            p.capacity() == capacity,
            p.buf_size() == buf_size,
    {
        PacketBufPool { pool: queue_new(capacity), buf_size }
    }

    /// Get a buffer from the pool, or allocate a new one if empty. The
    /// buffer has the pool's buffer length and holds zeros.
    pub fn get(&mut self) -> (buf: Vec<u8>)
        requires
            old(self).wf(),
        ensures
            final(self).wf(),
            buf@ == Seq::new(old(self).buf_size(), |i: int| 0u8),
            final(self).buffers() == (if old(self).buffers().len() > 0 {
                old(self).buffers().drop_first()
            } else {
                old(self).buffers()
            }),
            final(self).capacity() == old(self).capacity(),
            final(self).buf_size() == old(self).buf_size(),
    {
        let mut buf = match queue_pop(&mut self.pool) {
            Some(buf) => buf,
            None => Vec::new(),
        };
        buf.clear();
        buf.resize(self.buf_size, 0);
        assert(buf@ =~= Seq::new(self.buf_size as nat, |i: int| 0u8));
        buf
    }

    /// Return a buffer to the pool, given the capacity that it was
    /// allocated with: it is kept where that capacity is at least the
    /// pool's buffer length and the pool is not full, and dropped
    /// otherwise.
    pub fn return_buf_of_capacity(&mut self, buf: Vec<u8>, capacity: usize)
        requires
            old(self).wf(),
        ensures
            final(self).wf(),
            final(self).buffers() == (if capacity >= old(self).buf_size() && old(
                self,
            ).buffers().len() < old(self).capacity() {
                old(self).buffers().push(buf@)
            } else {
                old(self).buffers()
            }),
            final(self).capacity() == old(self).capacity(),
            final(self).buf_size() == old(self).buf_size(),
    {
        if capacity >= self.buf_size {
            let _ = queue_push(&mut self.pool, buf);
        }
    }

    /// Return a buffer to the pool. A buffer that is at least as long as
    /// the pool's buffers is kept unless the pool is full; a full pool
    /// keeps nothing more; a shorter buffer is kept or dropped as its
    /// allocation decides.
    pub fn return_buf(&mut self, buf: Vec<u8>)
        requires
            old(self).wf(),
        ensures
            final(self).wf(),
            final(self).buffers() == old(self).buffers() || final(self).buffers() == old(
                self,
            ).buffers().push(buf@),
            old(self).buffers().len() >= old(self).capacity() ==> final(self).buffers() == old(
                self,
            ).buffers(),
            buf@.len() >= old(self).buf_size() && old(self).buffers().len() < old(self).capacity()
                ==> final(self).buffers() == old(self).buffers().push(buf@),
            final(self).capacity() == old(self).capacity(),
            final(self).buf_size() == old(self).buf_size(),
    {
        let capacity = vec_capacity(&buf);
        self.return_buf_of_capacity(buf, capacity)
    }

    /// Number of buffers in the pool.
    pub fn len(&self) -> (n: usize)
        ensures
            n == self.buffers().len(),
    {
        queue_len(&self.pool)
    }
}

} // verus!
