//! Entropy message types for swarm entropy collection via relay.

use vstd::prelude::*;

verus! {

/// The lower-case hexadecimal digit for a number below sixteen.
pub open spec fn hex_digit(n: int) -> char {
    if n < 10 {
        ((48 + n) as u8) as char
    } else {
        ((87 + n) as u8) as char
    }
}

/// The lower-case hexadecimal form of bytes: two digits for each byte, the
/// high half first.
pub open spec fn hex_lower(data: Seq<u8>) -> Seq<char> {
    Seq::new(
        2 * data.len(),
        |i: int|
            if i % 2 == 0 {
                hex_digit(data[i / 2] as int / 16)
            } else {
                hex_digit(data[i / 2] as int % 16)
            },
    )
}

/// `hex::encode`: the bytes in lower-case hexadecimal, two digits each.
/// Believed, not proved.
#[verifier::external_body]
fn hex_encode(data: &[u8]) -> (text: String)
    ensures
        text@ == hex_lower(data@),
{
    hex::encode(data)
}

/// Entropy-related events sent over the channel.
#[derive(Debug, Clone)]
pub enum EntropyEvent {
    /// Commitment phase: peer sends hash of their entropy, in hexadecimal.
    Commit { peer_id: String, commitment: String },
    /// Reveal phase: peer sends actual entropy after all committed, in
    /// hexadecimal.
    Reveal { peer_id: String, entropy: String },
    /// Server notification: all entropies collected.
    Ready { peer_count: usize },
}

impl EntropyEvent {
    /// Create commitment message.
    pub fn commit(peer_id: String, commitment: [u8; 32]) -> (event: Self)
        ensures
            event matches EntropyEvent::Commit { peer_id: p, commitment: c } && p == peer_id && c@
                == hex_lower(commitment@),
    {
        EntropyEvent::Commit { peer_id, commitment: hex_encode(commitment.as_slice()) }
    }

    /// Create reveal message.
    pub fn reveal_entropy(peer_id: String, entropy: [u8; 32]) -> (event: Self)
        ensures
            event matches EntropyEvent::Reveal { peer_id: p, entropy: e } && p == peer_id && e@
                == hex_lower(entropy@),
    {
        EntropyEvent::Reveal { peer_id, entropy: hex_encode(entropy.as_slice()) }
    }
}

} // verus!
