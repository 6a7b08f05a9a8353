//! Stream manager: the table of multiplexed streams.
//!
//! Each stream corresponds to one TCP connection being proxied. The table
//! holds what the endpoints decide by: which stream identifiers are live and
//! how far each has come. The queues and sockets that carry a stream's bytes
//! belong to whoever drives the table.

use std::collections::HashMap;
use vstd::prelude::*;
use vstd::std_specs::hash::spec_keys_iter;
use vstd::std_specs::iter::IteratorSpec;
use crate::message::StreamId;

verus! {

broadcast use vstd::std_specs::hash::group_hash_axioms;

/// How far a stream has come. A table holds the streams that are opening
/// or open.
#[derive(Debug, Clone, Copy, PartialEq, Eq, Structural)]
pub enum StreamStatus {
    /// Registered; no payload has passed yet.
    Opening,
    /// Payload has passed in at least one direction.
    Open,
    /// One direction has ended; the other may still carry bytes.
    HalfClosed,
    /// Gone, or never there.
    Closed,
}

/// Which streams are live, and how far each has come.
pub type Streams = Map<StreamId, StreamStatus>;

/// The table of multiplexed streams.
pub struct StreamManager {
    streams: HashMap<StreamId, StreamStatus>,
}

impl View for StreamManager {
    type V = Streams;

    closed spec fn view(&self) -> Streams {
        self.streams@
    }
}

impl StreamManager {
    /// The identifiers of the live streams.
    pub open spec fn live(&self) -> Set<StreamId> {
        self@.dom()
    }

    /// A table without streams.
    pub fn new() -> (m: Self)
        ensures
            m@ == Streams::empty(),
    {
        StreamManager { streams: HashMap::new() }
    }

    /// Registers `id` as a stream that is opening. An entry that was there
    /// under `id` is replaced.
    pub fn create_stream(&mut self, id: StreamId)
        ensures
            final(self)@ == old(self)@.insert(id, StreamStatus::Opening),
    {
        self.streams.insert(id, StreamStatus::Opening);
    }

    /// Removes `id`; tells whether it was live. Removing a stream that is
    /// not there changes nothing.
    pub fn remove_stream(&mut self, id: StreamId) -> (was_live: bool)
        ensures
            final(self)@ == old(self)@.remove(id),
            was_live == old(self)@.contains_key(id),
    {
        self.streams.remove(&id).is_some()
    }

    /// Whether payload for `id` has somewhere to go. A live stream is open
    /// from the first payload on; payload for a stream that is not live
    /// registers nothing.
    pub fn send_to_stream(&mut self, id: StreamId) -> (routed: bool)
        ensures
            routed == old(self)@.contains_key(id),
            routed ==> final(self)@ == old(self)@.insert(id, StreamStatus::Open),
            !routed ==> final(self)@ == old(self)@,
    {
        if self.streams.contains_key(&id) {
            self.streams.insert(id, StreamStatus::Open);
            true
        } else {
            false
        }
    }

    /// Whether `id` is live.
    pub fn contains(&self, id: StreamId) -> (b: bool)
        ensures
            b == self@.contains_key(id),
    {
        self.streams.contains_key(&id)
    }

    /// How far `id` has come, if it is live.
    pub fn status(&self, id: StreamId) -> (s: Option<StreamStatus>)
        ensures
            s == (if self@.contains_key(id) {
                Some(self@[id])
            } else {
                None
            }),
    {
        match self.streams.get(&id) {
            Some(s) => Some(*s),
            None => None,
        }
    }

    /// The identifiers of the live streams, each once, in no particular
    /// order.
    pub fn ids(&self) -> (ids: Vec<StreamId>)
        ensures
            ids@.to_set() == self@.dom(),
            ids@.no_duplicates(),
    {
        let mut ids: Vec<StreamId> = Vec::new();
        for id in keys: self.streams.keys()
            invariant
                keys.seq() == spec_keys_iter(&self.streams).remaining(),
                ids@.len() == keys.index(),
                forall|j: int| 0 <= j < ids@.len() ==> ids@[j] == *keys.seq()[j],
        {
            ids.push(*id);
        }
        proof {
            vstd::std_specs::hash::axiom_spec_keys_iter(&self.streams);
            let walked = spec_keys_iter(&self.streams).remaining();
            assert(ids@ =~= walked.unref());
            assert forall|i: int, j: int|
                0 <= i < ids@.len() && 0 <= j < ids@.len() && i != j implies ids@[i] != ids@[j] by {
                assert(walked[i] != walked[j]);
            }
            assert(ids@.to_set() =~= self@.dom());
        }
        ids
    }

    /// Number of live streams.
    pub fn len(&self) -> (n: usize)
        ensures
            n == self@.dom().len(),
    {
        self.streams.len()
    }

    /// Forgets every stream; returns how many there were.
    pub fn clear(&mut self) -> (n: usize)
        ensures
            final(self)@ == Streams::empty(),
            n == old(self)@.dom().len(),
    {
        let n = self.streams.len();
        self.streams.clear();
        n
    }
}

} // verus!
