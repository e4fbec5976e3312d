//! The all-to-all exchange of setup data between the nodes of a network.
//!
//! Each node serves the lower ranks and connects to the greater ones; each
//! message is a rank and its data, framed on the wire by a 4-byte big-endian
//! length. What arrives is kept only for the ranks expected, and the result
//! lists every rank's data in rank order, the node's own data at its rank.
use crate::config::NetworkConfig;
use std::collections::HashMap;
use std::ops::Range;
use vstd::prelude::*;
use vstd::std_specs::hash::{obeys_key_model, builds_valid_hashers};

verus! {

broadcast use vstd::std_specs::hash::group_hash_axioms;

/// An error that can occur during an exchange.
#[derive(Debug)]
pub enum ExchangeError {
    /// A rank referenced during the exchange is not in the network.
    InvalidRank { rank: usize },
    /// A message could not be serialized or deserialized (the serializer's
    /// description).
    SerdeError(String),
    /// An underlying I/O operation failed (its description).
    IoError(String),
    /// The encoded message has more bytes than a 4-byte length can frame.
    MessageTooLarge(usize),
    /// The exchange did not complete in time.
    Timeout,
}

/// What one node sends another: its rank and its data.
pub struct ExchangeMessage<T> {
    pub rank: usize,
    pub data: T,
}

/// The exchange's decisions; the network I/O is its caller's.
pub struct Exchanger {}

/// The big-endian `u32` in the four bytes of `b`.
pub open spec fn be32(b: Seq<u8>) -> int {
    b[0] * 0x100_0000 + b[1] * 0x1_0000 + b[2] * 0x100 + b[3]
}

/// A frame read back yields what was framed: for the bytes that
/// `frame_message` produced from `encoded`, the length read from the first
/// four bytes, as `message_length` reads it, is the message's length, and
/// the bytes that follow, up to that length, are the message.
pub proof fn law_framed_message_reads_back(framed: Seq<u8>, encoded: Seq<u8>)
    requires
        encoded.len() <= u32::MAX,
        framed.len() == 4 + encoded.len(),
        be32(framed) == encoded.len(),
        framed.subrange(4, framed.len() as int) == encoded,
    ensures
        be32(framed.subrange(0, 4)) == encoded.len(),
        framed.subrange(4, 4 + be32(framed.subrange(0, 4))) == encoded,
{
    let prefix = framed.subrange(0, 4);
    assert(prefix[0] == framed[0] && prefix[1] == framed[1] && prefix[2] == framed[2] && prefix[3]
        == framed[3]);
}

impl Exchanger {
    /// The ranks this node exchanges with: those below it, which it serves,
    /// and those above it, to which it connects.
    pub fn exchange_ranks(rank: usize, network: &NetworkConfig) -> (r: Result<
        (Range<usize>, Range<usize>),
        ExchangeError,
    >)
        ensures
            rank >= network.spec_hosts().len() ==> (r matches Err(ExchangeError::InvalidRank { rank: x })
                && x == rank),
            rank < network.spec_hosts().len() ==> (r matches Ok((lower, greater)) && lower.start
                == 0 && lower.end == rank && greater.start == rank + 1 && greater.end
                == network.spec_hosts().len()),
    {
        let world_size = network.world_size();
        match network.get(rank) {
            None => Err(ExchangeError::InvalidRank { rank }),
            Some(node) => Ok((0..node.rankid, (node.rankid + 1)..world_size)),
        }
    }
    /// Keeps an incoming message if its rank is one of those expected: its
    /// data replaces whatever that rank sent before. Answers whether it was
    /// kept.
    pub fn insert_if_valid<T>(
        incoming_data: ExchangeMessage<T>,
        received: &mut HashMap<usize, T>,
        valid_range: Range<usize>,
    ) -> (r: bool)
        ensures
            r == (valid_range.start <= incoming_data.rank < valid_range.end),
            r ==> final(received)@ == old(received)@.insert(incoming_data.rank, incoming_data.data),
            !r ==> final(received)@ == old(received)@,
    {
        if valid_range.start <= incoming_data.rank && incoming_data.rank < valid_range.end {
            let _previous = received.insert(incoming_data.rank, incoming_data.data);
            true
        } else {
            false
        }
    }

    /// The data received from each of the given ranks, in rank order; every
    /// one of them must have been received.
    pub fn collect_received<T>(received: &mut HashMap<usize, T>, ranks: Range<usize>) -> (r: Vec<T>)
        requires
            forall|k: usize| ranks.start <= k < ranks.end ==> old(received)@.contains_key(k),
        ensures
            r@.len() == if ranks.end >= ranks.start {
                ranks.end - ranks.start
            } else {
                0
            },
            forall|i: int| 0 <= i < r@.len() ==> r@[i] == old(received)@[(ranks.start + i) as usize],
    {
        let mut out: Vec<T> = Vec::new();
        let mut k = ranks.start;
        if ranks.end < ranks.start {
            return out;
        }
        while k < ranks.end
            invariant
                ranks.start <= k <= ranks.end,
                out@.len() == k - ranks.start,
                forall|i: int| 0 <= i < out@.len() ==> out@[i] == old(received)@[(ranks.start + i) as usize],
                forall|q: usize|
                    k <= q < ranks.end ==> #[trigger] received@.contains_key(q) && received@[q] == old(
                        received,
                    )@[q],
            decreases ranks.end - k,
        {
            let ghost before = received@;
            let value = received.remove(&k);
            proof {
                assert(obeys_key_model::<usize>());
                assert(builds_valid_hashers::<std::hash::RandomState>());
                assert(before.contains_key(k));
            }
            match value {
                Some(v) => {
                    out.push(v);
                },
                None => {},
            }
            k = k + 1;
            proof {
                assert forall|q: usize| k <= q < ranks.end implies received@.contains_key(q)
                    && received@[q] == old(received)@[q] by {
                    assert(before.contains_key(q));
                }
            }
        }
        out
    }

    /// Every rank's data in rank order: what the lower ranks sent, this
    /// node's own data, what the greater ranks sent.
    pub fn assemble<T>(lower: Vec<T>, data: T, greater: Vec<T>) -> (r: Vec<T>)
        ensures
            r@ == lower@ + seq![data] + greater@,
    {
        let mut out = lower;
        out.push(data);
        let mut rest = greater;
        out.append(&mut rest);
        out
    }

    /// Frames an encoded message for the wire: its length as a big-endian
    /// `u32`, then its bytes. A message too long for the length is refused.
    pub fn frame_message(encoded: &[u8]) -> (r: Result<Vec<u8>, ExchangeError>)
        ensures
            encoded@.len() > u32::MAX ==> (r matches Err(ExchangeError::MessageTooLarge(n)) && n
                == encoded@.len()),
            encoded@.len() <= u32::MAX ==> (r matches Ok(v) && v@.len() == 4 + encoded@.len()
                && be32(v@) == encoded@.len() && v@.subrange(4, v@.len() as int) == encoded@),
    {
        let n = encoded.len();
        if n > 0xFFFF_FFFFusize {
            return Err(ExchangeError::MessageTooLarge(n));
        }
        let len = n as u32;
        let mut out: Vec<u8> = Vec::new();
        out.push((len / 0x100_0000) as u8);
        out.push(((len / 0x1_0000) % 0x100) as u8);
        out.push(((len / 0x100) % 0x100) as u8);
        out.push((len % 0x100) as u8);
        let mut i: usize = 0;
        while i < n
            invariant
                n == encoded@.len(),
                i <= n,
                out@.len() == 4 + i,
                be32(out@) == n,
                forall|j: int| 0 <= j < i ==> out@[4 + j] == encoded@[j],
            decreases n - i,
        {
            out.push(encoded[i]);
            i = i + 1;
        }
        proof {
            assert(out@.subrange(4, out@.len() as int) =~= encoded@);
        }
        Ok(out)
    }

    /// The length a frame's four prefix bytes announce.
    pub fn message_length(prefix: [u8; 4]) -> (r: u32)
        ensures
            r == be32(prefix@),
    {
        (prefix[0] as u32) * 0x100_0000 + (prefix[1] as u32) * 0x1_0000 + (prefix[2] as u32) * 0x100
            + (prefix[3] as u32)
    }
}

} // verus!
