use vstd::prelude::*;

use crate::channel::{ChannelEnd, ConnectionEnd, IbcError};
use crate::commitment::{
    ack_commitment, append_bytes, commit_acknowledgement, commit_packet, packet_commitment, Packet,
};
use crate::path::{
    ack_path, channel_counter_path, channel_end_path, commitment_path, connection_counter_path,
    connection_path, receipt_path, seq_ack_path, seq_recv_path, seq_send_path, spec_ack_path,
    spec_channel_counter_path, spec_channel_end_path, spec_channel_name, spec_commitment_path,
    spec_connection_counter_path, spec_connection_name, spec_connection_path, spec_receipt_path,
    spec_seq_ack_path, spec_seq_recv_path, spec_seq_send_path, lemma_counter_keys_distinct,
    lemma_prefix_cancel, ChannelId, ConnectionId, PortId,
};
use crate::store::Store;

verus! {

/// The byte stored as a packet receipt: the text "1".
pub const RECEIPT_MARK: u8 = 49;

/// The chain's state as this component sees it: four stores, each keyed by
/// the canonical path of what it holds.
pub struct IbcState {
    /// Channel and connection id counters, and each channel's sequence counters.
    pub counters: Store<u64>,
    /// Packet commitments, receipts and acknowledgement commitments. An empty
    /// commitment or acknowledgement stands for an absent one.
    pub values: Store<Vec<u8>>,
    pub channels: Store<ChannelEnd>,
    pub connections: Store<ConnectionEnd>,
}

impl IbcState {
    /// A counter's value: zero where it was never written.
    pub open spec fn spec_counter(self, path: Seq<char>) -> u64 {
        if self.counters@.contains_key(path) {
            self.counters@[path]
        } else {
            0
        }
    }

    pub open spec fn spec_channel_counter(self) -> u64 {
        self.spec_counter(spec_channel_counter_path())
    }

    pub open spec fn spec_connection_counter(self) -> u64 {
        self.spec_counter(spec_connection_counter_path())
    }

    pub open spec fn spec_send_seq(self, port: Seq<char>, chan: Seq<char>) -> u64 {
        self.spec_counter(spec_seq_send_path(port, chan))
    }

    pub open spec fn spec_recv_seq(self, port: Seq<char>, chan: Seq<char>) -> u64 {
        self.spec_counter(spec_seq_recv_path(port, chan))
    }

    pub open spec fn spec_ack_seq(self, port: Seq<char>, chan: Seq<char>) -> u64 {
        self.spec_counter(spec_seq_ack_path(port, chan))
    }

    /// What `path` holds in `values`, an empty value counting as absent.
    pub open spec fn spec_present(self, path: Seq<char>) -> Option<Seq<u8>> {
        if self.values@.contains_key(path) && self.values@[path].len() > 0 {
            Some(self.values@[path])
        } else {
            None
        }
    }

    pub open spec fn spec_commitment(self, port: Seq<char>, chan: Seq<char>, seq: nat) -> Option<
        Seq<u8>,
    > {
        self.spec_present(spec_commitment_path(port, chan, seq))
    }

    pub open spec fn spec_ack(self, port: Seq<char>, chan: Seq<char>, seq: nat) -> Option<Seq<u8>> {
        self.spec_present(spec_ack_path(port, chan, seq))
    }

    /// Whether a receipt was ever written for this sequence.
    pub open spec fn spec_receipt(self, port: Seq<char>, chan: Seq<char>, seq: nat) -> bool {
        self.values@.contains_key(spec_receipt_path(port, chan, seq))
    }

    pub open spec fn spec_has_channel(self, port: Seq<char>, chan: Seq<char>) -> bool {
        self.channels@.contains_key(spec_channel_end_path(port, chan))
    }

    pub open spec fn spec_channel(self, port: Seq<char>, chan: Seq<char>) -> ChannelEnd {
        self.channels@[spec_channel_end_path(port, chan)]
    }

    /// No channel has acknowledged more packets than it has sent.
    pub open spec fn acks_within_sends(self) -> bool {
        forall|s: Seq<char>| #[trigger]
            self.spec_counter("nextSequenceAck"@ + s) <= self.spec_counter(
                "nextSequenceSend"@ + s,
            )
    }

    /// The state of a chain on which nothing has happened yet.
    pub fn new() -> (r: Self)
        ensures
            r.counters@ == Map::<Seq<char>, u64>::empty(),
            r.values@ == Map::<Seq<char>, Seq<u8>>::empty(),
            r.channels@ == Map::<Seq<char>, ChannelEnd>::empty(),
            r.connections@ == Map::<Seq<char>, ConnectionEnd>::empty(),
            r.acks_within_sends(),
    {
        IbcState {
            counters: Store::new(),
            values: Store::new(),
            channels: Store::new(),
            connections: Store::new(),
        }
    }

    fn counter(&self, path: &String) -> (r: u64)
        ensures
            r == self.spec_counter(path@),
    {
        match self.counters.get(path) {
            Some(v) => *v,
            None => 0,
        }
    }

    fn present(&self, path: &String) -> (r: Option<Vec<u8>>)
        ensures
            match r {
                Some(v) => self.spec_present(path@) == Some(v@),
                None => self.spec_present(path@) is None,
            },
    {
        match self.values.get(path) {
            Some(v) => {
                if v.len() == 0 {
                    None
                } else {
                    let mut out: Vec<u8> = Vec::new();
                    append_bytes(&mut out, v.as_slice());
                    assert(out@ =~= v@);
                    Some(out)
                }
            },
            None => None,
        }
    }

    pub fn put_channel_counter(&mut self, counter: u64)
        ensures
            final(self).counters@ == old(self).counters@.insert(spec_channel_counter_path(), counter),
            final(self).values@ == old(self).values@,
            final(self).channels@ == old(self).channels@,
            final(self).connections@ == old(self).connections@,
    {
        self.counters.put(channel_counter_path(), counter);
    }

    pub fn get_channel_counter(&self) -> (r: u64)
        ensures
            r == self.spec_channel_counter(),
    {
        self.counter(&channel_counter_path())
    }

    /// Takes the next channel id from the channel counter and advances it.
    pub fn next_channel_id(&mut self) -> (r: Result<ChannelId, IbcError>)
        ensures
            old(self).spec_channel_counter() == u64::MAX ==> r == Err::<ChannelId, IbcError>(IbcError::CounterOverflow),
            old(self).spec_channel_counter() == u64::MAX ==> *final(self) == *old(self),
            old(self).spec_channel_counter() < u64::MAX ==> r is Ok,
            r is Ok ==> r->Ok_0.name@ == spec_channel_name(old(self).spec_channel_counter() as nat),
            r is Ok ==> final(self).counters@ == old(self).counters@.insert(
                spec_channel_counter_path(),
                (old(self).spec_channel_counter() + 1) as u64,
            ),
            r is Ok ==> final(self).values@ == old(self).values@,
            r is Ok ==> final(self).channels@ == old(self).channels@,
            r is Ok ==> final(self).connections@ == old(self).connections@,
    {
        let ctr = self.get_channel_counter();
        if ctr == u64::MAX {
            return Err(IbcError::CounterOverflow);
        }
        self.put_channel_counter(ctr + 1);
        Ok(ChannelId::new(ctr))
    }

    pub fn put_connection_counter(&mut self, counter: u64)
        ensures
            final(self).counters@ == old(self).counters@.insert(
                spec_connection_counter_path(),
                counter,
            ),
            final(self).values@ == old(self).values@,
            final(self).channels@ == old(self).channels@,
            final(self).connections@ == old(self).connections@,
    {
        self.counters.put(connection_counter_path(), counter);
    }

    pub fn get_connection_counter(&self) -> (r: u64)
        ensures
            r == self.spec_connection_counter(),
    {
        self.counter(&connection_counter_path())
    }

    /// Takes the next connection id from the connection counter and advances it.
    pub fn next_connection_id(&mut self) -> (r: Result<ConnectionId, IbcError>)
        ensures
            old(self).spec_connection_counter() == u64::MAX ==> r == Err::<ConnectionId, IbcError>(IbcError::CounterOverflow),
            old(self).spec_connection_counter() == u64::MAX ==> *final(self) == *old(self),
            old(self).spec_connection_counter() < u64::MAX ==> r is Ok,
            r is Ok ==> r->Ok_0.name@ == spec_connection_name(old(self).spec_connection_counter() as nat),
            r is Ok ==> final(self).counters@ == old(self).counters@.insert(
                spec_connection_counter_path(),
                (old(self).spec_connection_counter() + 1) as u64,
            ),
            r is Ok ==> final(self).values@ == old(self).values@,
            r is Ok ==> final(self).channels@ == old(self).channels@,
            r is Ok ==> final(self).connections@ == old(self).connections@,
    {
        let ctr = self.get_connection_counter();
        if ctr == u64::MAX {
            return Err(IbcError::CounterOverflow);
        }
        self.put_connection_counter(ctr + 1);
        Ok(ConnectionId::new(ctr))
    }

    pub fn put_channel(&mut self, channel_id: &ChannelId, port_id: &PortId, channel: ChannelEnd)
        ensures
            final(self).channels@ == old(self).channels@.insert(
                spec_channel_end_path(port_id.name@, channel_id.name@),
                channel,
            ),
            final(self).counters@ == old(self).counters@,
            final(self).values@ == old(self).values@,
            final(self).connections@ == old(self).connections@,
    {
        self.channels.put(channel_end_path(port_id, channel_id), channel);
    }

    pub fn get_channel(&self, channel_id: &ChannelId, port_id: &PortId) -> (r: Option<&ChannelEnd>)
        ensures
            match r {
                Some(c) => self.spec_has_channel(port_id.name@, channel_id.name@) && *c
                    == self.spec_channel(port_id.name@, channel_id.name@),
                None => !self.spec_has_channel(port_id.name@, channel_id.name@),
            },
    {
        self.channels.get(&channel_end_path(port_id, channel_id))
    }

    pub fn put_connection(&mut self, connection_id: &ConnectionId, connection: ConnectionEnd)
        ensures
            final(self).connections@ == old(self).connections@.insert(
                spec_connection_path(connection_id.name@),
                connection,
            ),
            final(self).counters@ == old(self).counters@,
            final(self).values@ == old(self).values@,
            final(self).channels@ == old(self).channels@,
    {
        self.connections.put(connection_path(connection_id), connection);
    }

    pub fn get_connection(&self, connection_id: &ConnectionId) -> (r: Option<&ConnectionEnd>)
        ensures
            match r {
                Some(c) => self.connections@.contains_key(spec_connection_path(connection_id.name@))
                    && *c == self.connections@[spec_connection_path(connection_id.name@)],
                None => !self.connections@.contains_key(spec_connection_path(connection_id.name@)),
            },
    {
        self.connections.get(&connection_path(connection_id))
    }

    pub fn put_ack_sequence(&mut self, channel_id: &ChannelId, port_id: &PortId, sequence: u64)
        ensures
            final(self).counters@ == old(self).counters@.insert(
                spec_seq_ack_path(port_id.name@, channel_id.name@),
                sequence,
            ),
            final(self).values@ == old(self).values@,
            final(self).channels@ == old(self).channels@,
            final(self).connections@ == old(self).connections@,
    {
        self.counters.put(seq_ack_path(port_id, channel_id), sequence);
    }

    pub fn put_recv_sequence(&mut self, channel_id: &ChannelId, port_id: &PortId, sequence: u64)
        ensures
            final(self).counters@ == old(self).counters@.insert(
                spec_seq_recv_path(port_id.name@, channel_id.name@),
                sequence,
            ),
            final(self).values@ == old(self).values@,
            final(self).channels@ == old(self).channels@,
            final(self).connections@ == old(self).connections@,
    {
        self.counters.put(seq_recv_path(port_id, channel_id), sequence);
    }

    pub fn put_send_sequence(&mut self, channel_id: &ChannelId, port_id: &PortId, sequence: u64)
        ensures
            final(self).counters@ == old(self).counters@.insert(
                spec_seq_send_path(port_id.name@, channel_id.name@),
                sequence,
            ),
            final(self).values@ == old(self).values@,
            final(self).channels@ == old(self).channels@,
            final(self).connections@ == old(self).connections@,
    {
        self.counters.put(seq_send_path(port_id, channel_id), sequence);
    }

    pub fn get_recv_sequence(&self, channel_id: &ChannelId, port_id: &PortId) -> (r: u64)
        ensures
            r == self.spec_recv_seq(port_id.name@, channel_id.name@),
    {
        self.counter(&seq_recv_path(port_id, channel_id))
    }

    pub fn get_ack_sequence(&self, channel_id: &ChannelId, port_id: &PortId) -> (r: u64)
        ensures
            r == self.spec_ack_seq(port_id.name@, channel_id.name@),
    {
        self.counter(&seq_ack_path(port_id, channel_id))
    }

    pub fn get_send_sequence(&self, channel_id: &ChannelId, port_id: &PortId) -> (r: u64)
        ensures
            r == self.spec_send_seq(port_id.name@, channel_id.name@),
    {
        self.counter(&seq_send_path(port_id, channel_id))
    }

    /// Marks the packet's sequence as delivered on its receiving channel.
    pub fn put_packet_receipt(&mut self, packet: &Packet)
        ensures
            final(self).values@ == old(self).values@.insert(
                spec_receipt_path(
                    packet.port_on_b.name@,
                    packet.chan_on_b.name@,
                    packet.sequence as nat,
                ),
                seq![RECEIPT_MARK],
            ),
            final(self).counters@ == old(self).counters@,
            final(self).channels@ == old(self).channels@,
            final(self).connections@ == old(self).connections@,
    {
        let mark: Vec<u8> = vec![RECEIPT_MARK];
        assert(mark@ =~= seq![RECEIPT_MARK]);
        self.values.put(receipt_path(&packet.port_on_b, &packet.chan_on_b, packet.sequence), mark);
    }

    /// Stores the packet's commitment under its sending channel and sequence.
    pub fn put_packet_commitment(&mut self, packet: &Packet)
        ensures
            final(self).values@ == old(self).values@.insert(
                spec_commitment_path(
                    packet.port_on_a.name@,
                    packet.chan_on_a.name@,
                    packet.sequence as nat,
                ),
                packet_commitment(*packet),
            ),
            final(self).counters@ == old(self).counters@,
            final(self).channels@ == old(self).channels@,
            final(self).connections@ == old(self).connections@,
    {
        let key = commitment_path(&packet.port_on_a, &packet.chan_on_a, packet.sequence);
        self.values.put(key, commit_packet(packet));
    }

    /// Clears a packet commitment by overwriting it with the empty value.
    pub fn delete_packet_commitment(&mut self, channel_id: &ChannelId, port_id: &PortId, sequence: u64)
        ensures
            final(self).values@ == old(self).values@.insert(
                spec_commitment_path(port_id.name@, channel_id.name@, sequence as nat),
                Seq::<u8>::empty(),
            ),
            final(self).counters@ == old(self).counters@,
            final(self).channels@ == old(self).channels@,
            final(self).connections@ == old(self).connections@,
    {
        let empty: Vec<u8> = Vec::new();
        self.values.put(commitment_path(port_id, channel_id, sequence), empty);
    }

    /// Stores the commitment of an acknowledgement payload.
    pub fn put_packet_acknowledgement(
        &mut self,
        port_id: &PortId,
        channel_id: &ChannelId,
        sequence: u64,
        acknowledgement: &[u8],
    )
        ensures
            final(self).values@ == old(self).values@.insert(
                spec_ack_path(port_id.name@, channel_id.name@, sequence as nat),
                ack_commitment(acknowledgement@),
            ),
            final(self).counters@ == old(self).counters@,
            final(self).channels@ == old(self).channels@,
            final(self).connections@ == old(self).connections@,
    {
        self.values.put(
            ack_path(port_id, channel_id, sequence),
            commit_acknowledgement(acknowledgement),
        );
    }

    /// Whether a receipt, of any content, exists for the packet on its receiving channel.
    pub fn seen_packet(&self, packet: &Packet) -> (r: bool)
        ensures
            r == self.spec_receipt(
                packet.port_on_b.name@,
                packet.chan_on_b.name@,
                packet.sequence as nat,
            ),
    {
        self.values.get(&receipt_path(&packet.port_on_b, &packet.chan_on_b, packet.sequence)).is_some()
    }

    /// Whether a non-empty receipt exists for this sequence.
    pub fn seen_packet_by_channel(&self, channel_id: &ChannelId, port_id: &PortId, sequence: u64) -> (r: bool)
        ensures
            r == (self.spec_present(spec_receipt_path(port_id.name@, channel_id.name@, sequence as nat)) is Some),
    {
        self.present(&receipt_path(port_id, channel_id, sequence)).is_some()
    }

    pub fn get_packet_commitment(&self, packet: &Packet) -> (r: Option<Vec<u8>>)
        ensures
            match r {
                Some(v) => self.spec_commitment(packet.port_on_a.name@, packet.chan_on_a.name@, packet.sequence as nat) == Some(v@),
                None => self.spec_commitment(packet.port_on_a.name@, packet.chan_on_a.name@, packet.sequence as nat) is None,
            },
    {
        self.present(&commitment_path(&packet.port_on_a, &packet.chan_on_a, packet.sequence))
    }

    pub fn get_packet_commitment_by_id(&self, channel_id: &ChannelId, port_id: &PortId, sequence: u64) -> (r: Option<Vec<u8>>)
        ensures
            match r {
                Some(v) => self.spec_commitment(port_id.name@, channel_id.name@, sequence as nat) == Some(v@),
                None => self.spec_commitment(port_id.name@, channel_id.name@, sequence as nat) is None,
            },
    {
        self.present(&commitment_path(port_id, channel_id, sequence))
    }

    pub fn get_packet_acknowledgement(&self, port_id: &PortId, channel_id: &ChannelId, sequence: u64) -> (r: Option<Vec<u8>>)
        ensures
            match r {
                Some(v) => self.spec_ack(port_id.name@, channel_id.name@, sequence as nat) == Some(v@),
                None => self.spec_ack(port_id.name@, channel_id.name@, sequence as nat) is None,
            },
    {
        self.present(&ack_path(port_id, channel_id, sequence))
    }
}

/// A counter write under a key that is neither a send nor an ack counter keeps
/// every channel's ack counter within its send counter.
pub proof fn lemma_other_counter_write(before: IbcState, after: IbcState, key: Seq<char>, v: u64)
    requires
        before.acks_within_sends(),
        after.counters@ == before.counters@.insert(key, v),
        forall|t: Seq<char>| key != "nextSequenceAck"@ + t && key != "nextSequenceSend"@ + t,
    ensures
        after.acks_within_sends(),
{
    assert forall|t: Seq<char>| #[trigger]
        after.spec_counter("nextSequenceAck"@ + t) <= after.spec_counter(
            "nextSequenceSend"@ + t,
        ) by {
        assert(before.spec_counter("nextSequenceAck"@ + t) <= before.spec_counter(
            "nextSequenceSend"@ + t,
        ));
    }
}

/// Raising a send counter keeps every channel's ack counter within its send counter.
pub proof fn lemma_send_counter_raise(before: IbcState, after: IbcState, suffix: Seq<char>, v: u64)
    requires
        before.acks_within_sends(),
        after.counters@ == before.counters@.insert("nextSequenceSend"@ + suffix, v),
        v >= before.spec_counter("nextSequenceSend"@ + suffix),
    ensures
        after.acks_within_sends(),
{
    assert forall|t: Seq<char>| #[trigger]
        after.spec_counter("nextSequenceAck"@ + t) <= after.spec_counter(
            "nextSequenceSend"@ + t,
        ) by {
        lemma_counter_keys_distinct(t, suffix);
        assert(before.spec_counter("nextSequenceAck"@ + t) <= before.spec_counter(
            "nextSequenceSend"@ + t,
        ));
        if "nextSequenceSend"@ + t == "nextSequenceSend"@ + suffix {
            lemma_prefix_cancel("nextSequenceSend"@, t, suffix);
        }
    }
}

/// Raising an ack counter up to its send counter keeps every channel's ack
/// counter within its send counter.
pub proof fn lemma_ack_counter_raise(before: IbcState, after: IbcState, suffix: Seq<char>, v: u64)
    requires
        before.acks_within_sends(),
        after.counters@ == before.counters@.insert("nextSequenceAck"@ + suffix, v),
        v <= before.spec_counter("nextSequenceSend"@ + suffix),
    ensures
        after.acks_within_sends(),
{
    assert forall|t: Seq<char>| #[trigger]
        after.spec_counter("nextSequenceAck"@ + t) <= after.spec_counter(
            "nextSequenceSend"@ + t,
        ) by {
        lemma_counter_keys_distinct(suffix, t);
        lemma_counter_keys_distinct(t, suffix);
        assert(before.spec_counter("nextSequenceAck"@ + t) <= before.spec_counter(
            "nextSequenceSend"@ + t,
        ));
        if "nextSequenceAck"@ + t == "nextSequenceAck"@ + suffix {
            lemma_prefix_cancel("nextSequenceAck"@, t, suffix);
        }
    }
}

/// The invariant depends on the counters alone.
pub proof fn lemma_same_counters(before: IbcState, after: IbcState)
    requires
        before.acks_within_sends(),
        after.counters@ == before.counters@,
    ensures
        after.acks_within_sends(),
{
    assert forall|t: Seq<char>| #[trigger]
        after.spec_counter("nextSequenceAck"@ + t) <= after.spec_counter(
            "nextSequenceSend"@ + t,
        ) by {
        assert(before.spec_counter("nextSequenceAck"@ + t) <= before.spec_counter(
            "nextSequenceSend"@ + t,
        ));
    }
}

} // verus!
