use sha2::Digest;
use vstd::prelude::*;

use crate::path::{ChannelId, PortId};

verus! {

/// The SHA-256 digest of `data`.
pub uninterp spec fn sha256_of(data: Seq<u8>) -> Seq<u8>;

/// Relies on sha2::Sha256::digest: the SHA-256 digest of `data`, 32 bytes long.
#[verifier::external_body]
fn sha256(data: &[u8]) -> (r: Vec<u8>)
    ensures
        r@ == sha256_of(data@),
        r@.len() == 32,
{
    sha2::Sha256::digest(data).to_vec()
}

/// A height on a chain: a revision number and a height within it. The zero
/// height stands for "no height bound".
#[derive(Clone, Copy, PartialEq, Eq, Structural, Debug)]
pub struct Height {
    pub revision_number: u64,
    pub revision_height: u64,
}

impl Height {
    pub open spec fn spec_is_zero(self) -> bool {
        self.revision_number == 0 && self.revision_height == 0
    }

    /// Heights compare by revision number first, then by height.
    pub open spec fn spec_le(self, other: Height) -> bool {
        self.revision_number < other.revision_number || (self.revision_number
            == other.revision_number && self.revision_height <= other.revision_height)
    }

    pub fn is_zero(&self) -> (r: bool)
        ensures
            r == self.spec_is_zero(),
    {
        self.revision_number == 0 && self.revision_height == 0
    }

    pub fn le(&self, other: &Height) -> (r: bool)
        ensures
            r == self.spec_le(*other),
    {
        self.revision_number < other.revision_number || (self.revision_number
            == other.revision_number && self.revision_height <= other.revision_height)
    }
}

/// One application message sent from (`port_on_a`, `chan_on_a`) to
/// (`port_on_b`, `chan_on_b`). A zero `timeout_height` or `timeout_timestamp`
/// leaves that bound unset.
pub struct Packet {
    pub sequence: u64,
    pub port_on_a: PortId,
    pub chan_on_a: ChannelId,
    pub port_on_b: PortId,
    pub chan_on_b: ChannelId,
    pub data: Vec<u8>,
    pub timeout_height: Height,
    pub timeout_timestamp: u64,
}

/// `x` as eight big-endian bytes.
pub open spec fn be_bytes(x: u64) -> Seq<u8> {
    seq![
        (x >> 56u64) as u8,
        (x >> 48u64) as u8,
        (x >> 40u64) as u8,
        (x >> 32u64) as u8,
        (x >> 24u64) as u8,
        (x >> 16u64) as u8,
        (x >> 8u64) as u8,
        x as u8,
    ]
}

/// What a packet commitment hashes: the timeout timestamp, the timeout
/// height's revision number and height, and the digest of the data.
pub open spec fn packet_preimage(p: Packet) -> Seq<u8> {
    be_bytes(p.timeout_timestamp) + be_bytes(p.timeout_height.revision_number) + be_bytes(
        p.timeout_height.revision_height,
    ) + sha256_of(p.data@)
}

/// The commitment to a packet, recomputable by any chain that knows the packet.
pub open spec fn packet_commitment(p: Packet) -> Seq<u8> {
    sha256_of(packet_preimage(p))
}

/// The commitment to an acknowledgement payload.
pub open spec fn ack_commitment(ack: Seq<u8>) -> Seq<u8> {
    sha256_of(ack)
}

fn push_be_bytes(out: &mut Vec<u8>, x: u64)
    ensures
        final(out)@ == old(out)@ + be_bytes(x),
{
    out.push((x >> 56u64) as u8);
    out.push((x >> 48u64) as u8);
    out.push((x >> 40u64) as u8);
    out.push((x >> 32u64) as u8);
    out.push((x >> 24u64) as u8);
    out.push((x >> 16u64) as u8);
    out.push((x >> 8u64) as u8);
    out.push(x as u8);
    assert(out@ =~= old(out)@ + be_bytes(x));
}

pub(crate) fn append_bytes(out: &mut Vec<u8>, src: &[u8])
    ensures
        final(out)@ == old(out)@ + src@,
{
    let mut i: usize = 0;
    while i < src.len()
        invariant
            i <= src@.len(),
            out@ == old(out)@ + src@.subrange(0, i as int),
        decreases src@.len() - i,
    {
        out.push(src[i]);
        i = i + 1;
        assert(out@ =~= old(out)@ + src@.subrange(0, i as int));
    }
    assert(src@.subrange(0, i as int) =~= src@);
}

/// The commitment stored when `packet` is sent.
pub fn commit_packet(packet: &Packet) -> (r: Vec<u8>)
    ensures
        r@ == packet_commitment(*packet),
        r@.len() == 32,
{
    let mut pre: Vec<u8> = Vec::new();
    push_be_bytes(&mut pre, packet.timeout_timestamp);
    push_be_bytes(&mut pre, packet.timeout_height.revision_number);
    push_be_bytes(&mut pre, packet.timeout_height.revision_height);
    let data_hash = sha256(packet.data.as_slice());
    append_bytes(&mut pre, data_hash.as_slice());
    assert(pre@ =~= packet_preimage(*packet));
    sha256(pre.as_slice())
}

/// The commitment stored when an acknowledgement is written.
pub fn commit_acknowledgement(ack: &[u8]) -> (r: Vec<u8>)
    ensures
        r@ == ack_commitment(ack@),
        r@.len() == 32,
{
    sha256(ack)
}

/// A packet commitment depends on the packet's timeouts and data alone: two
/// packets that agree on those commit to the same digest.
pub proof fn lemma_commit_packet_deterministic(p1: Packet, p2: Packet)
    requires
        p1.timeout_height == p2.timeout_height,
        p1.timeout_timestamp == p2.timeout_timestamp,
        p1.data@ == p2.data@,
    ensures
        packet_commitment(p1) == packet_commitment(p2),
{
}

} // verus!
