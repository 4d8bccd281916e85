use vstd::prelude::*;

use crate::channel::{ChannelState, IbcError, Order};
use crate::commitment::{
    ack_commitment, commit_acknowledgement, commit_packet, packet_commitment, Height, Packet,
};
use crate::path::{
    ack_path, commitment_path, lemma_counter_keys_distinct, lemma_port_channel_path_split,
    receipt_path, spec_ack_path, spec_channel_end_path, spec_channel_suffix, spec_commitment_path,
    spec_receipt_path, spec_seq_ack_path, spec_seq_recv_path, spec_seq_send_path,
};
use crate::state::{
    lemma_ack_counter_raise, lemma_other_counter_write, lemma_same_counters, lemma_send_counter_raise, IbcState,
    RECEIPT_MARK,
};

verus! {

/// `p` and `q` are the same packet but perhaps for the sequence number.
pub open spec fn same_but_sequence(p: Packet, q: Packet) -> bool {
    &&& p.port_on_a == q.port_on_a
    &&& p.chan_on_a == q.chan_on_a
    &&& p.port_on_b == q.port_on_b
    &&& p.chan_on_b == q.chan_on_b
    &&& p.data == q.data
    &&& p.timeout_height == q.timeout_height
    &&& p.timeout_timestamp == q.timeout_timestamp
}

/// Whether one of the packet's timeout bounds is reached at `height` and `timestamp`.
pub open spec fn spec_timed_out(p: Packet, height: Height, timestamp: u64) -> bool {
    (!p.timeout_height.spec_is_zero() && p.timeout_height.spec_le(height)) || (p.timeout_timestamp
        != 0 && p.timeout_timestamp <= timestamp)
}

pub fn timed_out(p: &Packet, height: &Height, timestamp: u64) -> (r: bool)
    ensures
        r == spec_timed_out(*p, *height, timestamp),
{
    (!p.timeout_height.is_zero() && p.timeout_height.le(height)) || (p.timeout_timestamp != 0
        && p.timeout_timestamp <= timestamp)
}

impl IbcState {
    /// What sending `p` yields: the sequence assigned to it, or the error.
    pub open spec fn spec_send_outcome(self, p: Packet) -> Result<u64, IbcError> {
        let port = p.port_on_a.name@;
        let chan = p.chan_on_a.name@;
        if !self.spec_has_channel(port, chan) {
            Err(IbcError::NotFound)
        } else if self.spec_channel(port, chan).state != ChannelState::Open {
            Err(IbcError::InvalidState)
        } else if p.timeout_height.spec_is_zero() && p.timeout_timestamp == 0 {
            Err(IbcError::InvalidPacket)
        } else if self.spec_send_seq(port, chan) == u64::MAX {
            Err(IbcError::CounterOverflow)
        } else {
            Ok((self.spec_send_seq(port, chan) + 1) as u64)
        }
    }

    /// Sends `packet` on (`port_on_a`, `chan_on_a`): assigns it the next
    /// sequence, stores its commitment and advances the send counter. Returns
    /// the packet with its sequence set.
    pub fn send_packet(&mut self, packet: Packet) -> (r: Result<Packet, IbcError>)
        ensures
            match r {
                Ok(q) => old(self).spec_send_outcome(packet) == Ok::<u64, IbcError>(q.sequence),
                Err(e) => old(self).spec_send_outcome(packet) == Err::<u64, IbcError>(e),
            },
            r is Err ==> *final(self) == *old(self),
            r is Ok ==> same_but_sequence(r->Ok_0, packet),
            r is Ok ==> final(self).values@ == old(self).values@.insert(
                spec_commitment_path(
                    packet.port_on_a.name@,
                    packet.chan_on_a.name@,
                    r->Ok_0.sequence as nat,
                ),
                packet_commitment(r->Ok_0),
            ),
            r is Ok ==> final(self).counters@ == old(self).counters@.insert(
                spec_seq_send_path(packet.port_on_a.name@, packet.chan_on_a.name@),
                r->Ok_0.sequence,
            ),
            r is Ok ==> final(self).channels@ == old(self).channels@,
            r is Ok ==> final(self).connections@ == old(self).connections@,
            old(self).acks_within_sends() ==> final(self).acks_within_sends(),
    {
        match self.get_channel(&packet.chan_on_a, &packet.port_on_a) {
            None => {
                return Err(IbcError::NotFound);
            },
            Some(c) => {
                if c.state != ChannelState::Open {
                    return Err(IbcError::InvalidState);
                }
            },
        }
        if packet.timeout_height.is_zero() && packet.timeout_timestamp == 0 {
            return Err(IbcError::InvalidPacket);
        }
        let send = self.get_send_sequence(&packet.chan_on_a, &packet.port_on_a);
        if send == u64::MAX {
            return Err(IbcError::CounterOverflow);
        }
        let mut packet = packet;
        packet.sequence = send + 1;
        let ghost before = *self;
        self.put_packet_commitment(&packet);
        self.put_send_sequence(&packet.chan_on_a, &packet.port_on_a, send + 1);
        proof {
            let suffix = spec_channel_suffix(packet.port_on_a.name@, packet.chan_on_a.name@);
            lemma_port_channel_path_split("nextSequenceSend"@, packet.port_on_a.name@, packet.chan_on_a.name@);
            if before.acks_within_sends() {
                lemma_send_counter_raise(before, *self, suffix, (send + 1) as u64);
            }
        }
        Ok(packet)
    }

    /// What receiving `p` yields, given the verdict on the proof that the
    /// sending chain holds its commitment, and this chain's height and time.
    pub open spec fn spec_recv_outcome(
        self,
        p: Packet,
        proof_verified: bool,
        host_height: Height,
        host_timestamp: u64,
    ) -> Result<(), IbcError> {
        let port = p.port_on_b.name@;
        let chan = p.chan_on_b.name@;
        let ordering = self.spec_channel(port, chan).ordering;
        if !self.spec_has_channel(port, chan) {
            Err(IbcError::NotFound)
        } else if self.spec_channel(port, chan).state != ChannelState::Open {
            Err(IbcError::InvalidState)
        } else if spec_timed_out(p, host_height, host_timestamp) {
            Err(IbcError::AlreadyTimedOut)
        } else if ordering == Order::Unordered && self.spec_receipt(port, chan, p.sequence as nat) {
            Err(IbcError::SequenceViolation)
        } else if ordering == Order::Ordered && p.sequence != self.spec_recv_seq(port, chan) + 1 {
            Err(IbcError::SequenceViolation)
        } else if !proof_verified {
            Err(IbcError::ProofVerificationFailed)
        } else if ordering == Order::Unordered && self.spec_recv_seq(port, chan) == u64::MAX {
            Err(IbcError::CounterOverflow)
        } else {
            Ok(())
        }
    }

    /// Receives `packet` on (`port_on_b`, `chan_on_b`). `proof_verified` is
    /// the verdict on the proof that the sending chain stores the packet's
    /// commitment (see `packet_proof_claim`); `acknowledgement` is what the
    /// application answered. On an unordered channel a receipt is written and
    /// the receive counter advances by one; on an ordered one the receive
    /// counter becomes the packet's sequence. Either way the commitment of the
    /// acknowledgement is stored.
    pub fn recv_packet(
        &mut self,
        packet: &Packet,
        proof_verified: bool,
        host_height: Height,
        host_timestamp: u64,
        acknowledgement: &[u8],
    ) -> (r: Result<(), IbcError>)
        ensures
            r == old(self).spec_recv_outcome(*packet, proof_verified, host_height, host_timestamp),
            r is Err ==> *final(self) == *old(self),
            r is Ok && old(self).spec_channel(packet.port_on_b.name@, packet.chan_on_b.name@).ordering
                == Order::Unordered ==> final(self).values@ == old(self).values@.insert(
                spec_receipt_path(
                    packet.port_on_b.name@,
                    packet.chan_on_b.name@,
                    packet.sequence as nat,
                ),
                seq![RECEIPT_MARK],
            ).insert(
                spec_ack_path(packet.port_on_b.name@, packet.chan_on_b.name@, packet.sequence as nat),
                ack_commitment(acknowledgement@),
            ) && final(self).counters@ == old(self).counters@.insert(
                spec_seq_recv_path(packet.port_on_b.name@, packet.chan_on_b.name@),
                (old(self).spec_recv_seq(packet.port_on_b.name@, packet.chan_on_b.name@) + 1) as u64,
            ),
            r is Ok && old(self).spec_channel(packet.port_on_b.name@, packet.chan_on_b.name@).ordering
                == Order::Ordered ==> final(self).values@ == old(self).values@.insert(
                spec_ack_path(packet.port_on_b.name@, packet.chan_on_b.name@, packet.sequence as nat),
                ack_commitment(acknowledgement@),
            ) && final(self).counters@ == old(self).counters@.insert(
                spec_seq_recv_path(packet.port_on_b.name@, packet.chan_on_b.name@),
                packet.sequence,
            ),
            r is Ok ==> final(self).channels@ == old(self).channels@,
            r is Ok ==> final(self).connections@ == old(self).connections@,
            old(self).acks_within_sends() ==> final(self).acks_within_sends(),
    {
        let ordering;
        match self.get_channel(&packet.chan_on_b, &packet.port_on_b) {
            None => {
                return Err(IbcError::NotFound);
            },
            Some(c) => {
                if c.state != ChannelState::Open {
                    return Err(IbcError::InvalidState);
                }
                ordering = c.ordering;
            },
        }
        if timed_out(packet, &host_height, host_timestamp) {
            return Err(IbcError::AlreadyTimedOut);
        }
        let recv = self.get_recv_sequence(&packet.chan_on_b, &packet.port_on_b);
        match ordering {
            Order::Unordered => {
                if self.seen_packet(packet) {
                    return Err(IbcError::SequenceViolation);
                }
            },
            Order::Ordered => {
                if recv == u64::MAX || packet.sequence != recv + 1 {
                    return Err(IbcError::SequenceViolation);
                }
            },
        }
        if !proof_verified {
            return Err(IbcError::ProofVerificationFailed);
        }
        if ordering == Order::Unordered && recv == u64::MAX {
            return Err(IbcError::CounterOverflow);
        }
        let ghost before = *self;
        match ordering {
            Order::Unordered => {
                self.put_packet_receipt(packet);
                self.put_recv_sequence(&packet.chan_on_b, &packet.port_on_b, recv + 1);
            },
            Order::Ordered => {
                self.put_recv_sequence(&packet.chan_on_b, &packet.port_on_b, packet.sequence);
            },
        }
        let ghost mid = *self;
        self.put_packet_acknowledgement(
            &packet.port_on_b,
            &packet.chan_on_b,
            packet.sequence,
            acknowledgement,
        );
        proof {
            let suffix = spec_channel_suffix(packet.port_on_b.name@, packet.chan_on_b.name@);
            lemma_port_channel_path_split("nextSequenceRecv"@, packet.port_on_b.name@, packet.chan_on_b.name@);
            if before.acks_within_sends() {
                assert forall|t: Seq<char>|
                    spec_seq_recv_path(packet.port_on_b.name@, packet.chan_on_b.name@)
                        != "nextSequenceAck"@ + t && spec_seq_recv_path(
                        packet.port_on_b.name@,
                        packet.chan_on_b.name@,
                    ) != "nextSequenceSend"@ + t by {
                    lemma_counter_keys_distinct(suffix, t);
                }
                lemma_other_counter_write(
                    before,
                    *self,
                    spec_seq_recv_path(packet.port_on_b.name@, packet.chan_on_b.name@),
                    mid.counters@[spec_seq_recv_path(packet.port_on_b.name@, packet.chan_on_b.name@)],
                );
            }
        }
        Ok(())
    }

    /// What acknowledging `p` yields, given the verdict on the proof that the
    /// receiving chain stores the acknowledgement's commitment.
    pub open spec fn spec_ack_outcome(self, p: Packet, proof_verified: bool) -> Result<(), IbcError> {
        let port = p.port_on_a.name@;
        let chan = p.chan_on_a.name@;
        let ordering = self.spec_channel(port, chan).ordering;
        let ack = self.spec_ack_seq(port, chan);
        if !self.spec_has_channel(port, chan) {
            Err(IbcError::NotFound)
        } else if self.spec_channel(port, chan).state != ChannelState::Open {
            Err(IbcError::InvalidState)
        } else if self.spec_commitment(port, chan, p.sequence as nat) is None {
            Err(IbcError::NotFound)
        } else if self.spec_commitment(port, chan, p.sequence as nat) != Some(packet_commitment(p)) {
            Err(IbcError::CommitmentMismatch)
        } else if !proof_verified {
            Err(IbcError::ProofVerificationFailed)
        } else if ack >= self.spec_send_seq(port, chan) {
            Err(IbcError::SequenceViolation)
        } else if ordering == Order::Ordered && p.sequence != ack + 1 {
            Err(IbcError::SequenceViolation)
        } else {
            Ok(())
        }
    }

    /// Acknowledges `packet` on its sending channel (`port_on_a`, `chan_on_a`).
    /// `proof_verified` is the verdict on the proof that the receiving chain
    /// stores the acknowledgement's commitment (see `ack_proof_claim`). Clears
    /// the packet commitment and advances the ack counter by one.
    pub fn acknowledge_packet(&mut self, packet: &Packet, proof_verified: bool) -> (r: Result<
        (),
        IbcError,
    >)
        ensures
            r == old(self).spec_ack_outcome(*packet, proof_verified),
            r is Err ==> *final(self) == *old(self),
            r is Ok ==> final(self).values@ == old(self).values@.insert(
                spec_commitment_path(
                    packet.port_on_a.name@,
                    packet.chan_on_a.name@,
                    packet.sequence as nat,
                ),
                Seq::<u8>::empty(),
            ),
            r is Ok ==> final(self).counters@ == old(self).counters@.insert(
                spec_seq_ack_path(packet.port_on_a.name@, packet.chan_on_a.name@),
                (old(self).spec_ack_seq(packet.port_on_a.name@, packet.chan_on_a.name@) + 1) as u64,
            ),
            r is Ok ==> final(self).channels@ == old(self).channels@,
            r is Ok ==> final(self).connections@ == old(self).connections@,
            old(self).acks_within_sends() ==> final(self).acks_within_sends(),
    {
        let ordering;
        match self.get_channel(&packet.chan_on_a, &packet.port_on_a) {
            None => {
                return Err(IbcError::NotFound);
            },
            Some(c) => {
                if c.state != ChannelState::Open {
                    return Err(IbcError::InvalidState);
                }
                ordering = c.ordering;
            },
        }
        match self.get_packet_commitment(packet) {
            None => {
                return Err(IbcError::NotFound);
            },
            Some(stored) => {
                let expected = commit_packet(packet);
                if !bytes_equal(stored.as_slice(), expected.as_slice()) {
                    return Err(IbcError::CommitmentMismatch);
                }
            },
        }
        if !proof_verified {
            return Err(IbcError::ProofVerificationFailed);
        }
        let ack = self.get_ack_sequence(&packet.chan_on_a, &packet.port_on_a);
        let send = self.get_send_sequence(&packet.chan_on_a, &packet.port_on_a);
        if ack >= send {
            return Err(IbcError::SequenceViolation);
        }
        if ordering == Order::Ordered && packet.sequence != ack + 1 {
            return Err(IbcError::SequenceViolation);
        }
        self.clear_and_count(packet, ack, send);
        Ok(())
    }

    /// Clears the packet's commitment and raises the ack counter of its
    /// sending channel from `ack` to `ack + 1`.
    fn clear_and_count(&mut self, packet: &Packet, ack: u64, send: u64)
        requires
            ack < send,
            ack == old(self).spec_ack_seq(packet.port_on_a.name@, packet.chan_on_a.name@),
            send == old(self).spec_send_seq(packet.port_on_a.name@, packet.chan_on_a.name@),
        ensures
            final(self).values@ == old(self).values@.insert(
                spec_commitment_path(
                    packet.port_on_a.name@,
                    packet.chan_on_a.name@,
                    packet.sequence as nat,
                ),
                Seq::<u8>::empty(),
            ),
            final(self).counters@ == old(self).counters@.insert(
                spec_seq_ack_path(packet.port_on_a.name@, packet.chan_on_a.name@),
                (ack + 1) as u64,
            ),
            final(self).channels@ == old(self).channels@,
            final(self).connections@ == old(self).connections@,
            old(self).acks_within_sends() ==> final(self).acks_within_sends(),
    {
        let ghost before = *self;
        self.delete_packet_commitment(&packet.chan_on_a, &packet.port_on_a, packet.sequence);
        self.put_ack_sequence(&packet.chan_on_a, &packet.port_on_a, ack + 1);
        proof {
            let suffix = spec_channel_suffix(packet.port_on_a.name@, packet.chan_on_a.name@);
            lemma_port_channel_path_split("nextSequenceAck"@, packet.port_on_a.name@, packet.chan_on_a.name@);
            lemma_port_channel_path_split("nextSequenceSend"@, packet.port_on_a.name@, packet.chan_on_a.name@);
            if before.acks_within_sends() {
                lemma_ack_counter_raise(before, *self, suffix, (ack + 1) as u64);
            }
        }
    }
}

impl IbcState {
    /// What timing out `p` yields, given the verdict on the proof that the
    /// receiving chain holds no receipt for it, and the height and time at
    /// which that proof was taken.
    pub open spec fn spec_timeout_outcome(
        self,
        p: Packet,
        proof_verified: bool,
        proof_height: Height,
        proof_timestamp: u64,
    ) -> Result<(), IbcError> {
        let port = p.port_on_a.name@;
        let chan = p.chan_on_a.name@;
        if !self.spec_has_channel(port, chan) {
            Err(IbcError::NotFound)
        } else if self.spec_channel(port, chan).state != ChannelState::Open {
            Err(IbcError::InvalidState)
        } else if self.spec_commitment(port, chan, p.sequence as nat) is None {
            Err(IbcError::NotFound)
        } else if self.spec_commitment(port, chan, p.sequence as nat) != Some(packet_commitment(p)) {
            Err(IbcError::CommitmentMismatch)
        } else if !spec_timed_out(p, proof_height, proof_timestamp) {
            Err(IbcError::TimeoutNotElapsed)
        } else if !proof_verified {
            Err(IbcError::ProofVerificationFailed)
        } else if self.spec_ack_seq(port, chan) >= self.spec_send_seq(port, chan) {
            Err(IbcError::SequenceViolation)
        } else {
            Ok(())
        }
    }

    /// Times out `packet` on its sending channel. `proof_verified` is the
    /// verdict on the proof that the receiving chain holds no receipt for it
    /// (see `timeout_proof_claim`), taken at `proof_height` and
    /// `proof_timestamp`. Clears the commitment, advances the ack counter by
    /// one and, on an ordered channel, closes the channel.
    pub fn timeout_packet(
        &mut self,
        packet: &Packet,
        proof_verified: bool,
        proof_height: Height,
        proof_timestamp: u64,
    ) -> (r: Result<(), IbcError>)
        ensures
            r == old(self).spec_timeout_outcome(*packet, proof_verified, proof_height, proof_timestamp),
            r is Err ==> *final(self) == *old(self),
            r is Ok ==> final(self).values@ == old(self).values@.insert(
                spec_commitment_path(
                    packet.port_on_a.name@,
                    packet.chan_on_a.name@,
                    packet.sequence as nat,
                ),
                Seq::<u8>::empty(),
            ),
            r is Ok ==> final(self).counters@ == old(self).counters@.insert(
                spec_seq_ack_path(packet.port_on_a.name@, packet.chan_on_a.name@),
                (old(self).spec_ack_seq(packet.port_on_a.name@, packet.chan_on_a.name@) + 1) as u64,
            ),
            r is Ok && old(self).spec_channel(packet.port_on_a.name@, packet.chan_on_a.name@).ordering
                == Order::Unordered ==> final(self).channels@ == old(self).channels@,
            r is Ok && old(self).spec_channel(packet.port_on_a.name@, packet.chan_on_a.name@).ordering
                == Order::Ordered ==> final(self).channels@ == old(self).channels@.insert(
                spec_channel_end_path(packet.port_on_a.name@, packet.chan_on_a.name@),
                final(self).spec_channel(packet.port_on_a.name@, packet.chan_on_a.name@),
            ) && final(self).spec_channel(packet.port_on_a.name@, packet.chan_on_a.name@).state
                == ChannelState::Closed && final(self).spec_channel(
                packet.port_on_a.name@,
                packet.chan_on_a.name@,
            ).same_but_state(old(self).spec_channel(packet.port_on_a.name@, packet.chan_on_a.name@)),
            r is Ok ==> final(self).connections@ == old(self).connections@,
            old(self).acks_within_sends() ==> final(self).acks_within_sends(),
    {
        let closed;
        match self.get_channel(&packet.chan_on_a, &packet.port_on_a) {
            None => {
                return Err(IbcError::NotFound);
            },
            Some(c) => {
                if c.state != ChannelState::Open {
                    return Err(IbcError::InvalidState);
                }
                closed = c.with_state(ChannelState::Closed);
            },
        }
        match self.get_packet_commitment(packet) {
            None => {
                return Err(IbcError::NotFound);
            },
            Some(stored) => {
                let expected = commit_packet(packet);
                if !bytes_equal(stored.as_slice(), expected.as_slice()) {
                    return Err(IbcError::CommitmentMismatch);
                }
            },
        }
        if !timed_out(packet, &proof_height, proof_timestamp) {
            return Err(IbcError::TimeoutNotElapsed);
        }
        if !proof_verified {
            return Err(IbcError::ProofVerificationFailed);
        }
        let ack = self.get_ack_sequence(&packet.chan_on_a, &packet.port_on_a);
        let send = self.get_send_sequence(&packet.chan_on_a, &packet.port_on_a);
        if ack >= send {
            return Err(IbcError::SequenceViolation);
        }
        let ordered = closed.ordering == Order::Ordered;
        self.clear_and_count(packet, ack, send);
        if ordered {
            let ghost cleared = *self;
            self.put_channel(&packet.chan_on_a, &packet.port_on_a, closed);
            proof {
                if cleared.acks_within_sends() {
                    lemma_same_counters(cleared, *self);
                }
            }
        }
        Ok(())
    }
}

/// The membership that a proof must show before `packet` is received: its
/// commitment, stored by the sending chain under the sending channel and
/// sequence.
pub fn packet_proof_claim(packet: &Packet) -> (r: (String, Vec<u8>))
    ensures
        r.0@ == spec_commitment_path(
            packet.port_on_a.name@,
            packet.chan_on_a.name@,
            packet.sequence as nat,
        ),
        r.1@ == packet_commitment(*packet),
{
    (commitment_path(&packet.port_on_a, &packet.chan_on_a, packet.sequence), commit_packet(packet))
}

/// The membership that a proof must show before `packet` is acknowledged:
/// the commitment of `acknowledgement`, stored by the receiving chain under
/// the receiving channel and sequence.
pub fn ack_proof_claim(packet: &Packet, acknowledgement: &[u8]) -> (r: (String, Vec<u8>))
    ensures
        r.0@ == spec_ack_path(packet.port_on_b.name@, packet.chan_on_b.name@, packet.sequence as nat),
        r.1@ == ack_commitment(acknowledgement@),
{
    (
        ack_path(&packet.port_on_b, &packet.chan_on_b, packet.sequence),
        commit_acknowledgement(acknowledgement),
    )
}

/// The key that a proof must show absent before `packet` is timed out: its
/// receipt on the receiving chain.
pub fn timeout_proof_claim(packet: &Packet) -> (r: String)
    ensures
        r@ == spec_receipt_path(packet.port_on_b.name@, packet.chan_on_b.name@, packet.sequence as nat),
{
    receipt_path(&packet.port_on_b, &packet.chan_on_b, packet.sequence)
}

/// Under the state invariant that every operation of this module keeps, a
/// channel's ack counter never exceeds its send counter.
pub proof fn lemma_ack_within_send(st: IbcState, port: Seq<char>, chan: Seq<char>)
    requires
        st.acks_within_sends(),
    ensures
        st.spec_ack_seq(port, chan) <= st.spec_send_seq(port, chan),
{
    lemma_port_channel_path_split("nextSequenceAck"@, port, chan);
    lemma_port_channel_path_split("nextSequenceSend"@, port, chan);
    let suffix = spec_channel_suffix(port, chan);
    assert(st.spec_counter("nextSequenceAck"@ + suffix) <= st.spec_counter(
        "nextSequenceSend"@ + suffix,
    ));
}

/// On an unordered channel, once a packet has been received, receiving the
/// same packet again is rejected as a replay.
pub proof fn lemma_unordered_replay_rejected(
    before: IbcState,
    after: IbcState,
    p: Packet,
    proof_verified: bool,
    host_height: Height,
    host_timestamp: u64,
    ack: Seq<u8>,
)
    requires
        before.spec_recv_outcome(p, proof_verified, host_height, host_timestamp) is Ok,
        before.spec_channel(p.port_on_b.name@, p.chan_on_b.name@).ordering == Order::Unordered,
        after.values@ == before.values@.insert(
            spec_receipt_path(p.port_on_b.name@, p.chan_on_b.name@, p.sequence as nat),
            seq![RECEIPT_MARK],
        ).insert(spec_ack_path(p.port_on_b.name@, p.chan_on_b.name@, p.sequence as nat), ack),
        after.channels@ == before.channels@,
    ensures
        after.spec_recv_outcome(p, proof_verified, host_height, host_timestamp) == Err::<
            (),
            IbcError,
        >(IbcError::SequenceViolation),
{
    assert(after.spec_receipt(p.port_on_b.name@, p.chan_on_b.name@, p.sequence as nat));
}

/// On an ordered channel, a packet that skips a sequence is rejected.
pub proof fn lemma_ordered_gap_rejected(
    st: IbcState,
    p: Packet,
    proof_verified: bool,
    host_height: Height,
    host_timestamp: u64,
)
    requires
        st.spec_has_channel(p.port_on_b.name@, p.chan_on_b.name@),
        st.spec_channel(p.port_on_b.name@, p.chan_on_b.name@).state == ChannelState::Open,
        st.spec_channel(p.port_on_b.name@, p.chan_on_b.name@).ordering == Order::Ordered,
        !spec_timed_out(p, host_height, host_timestamp),
        p.sequence == st.spec_recv_seq(p.port_on_b.name@, p.chan_on_b.name@) + 2,
    ensures
        st.spec_recv_outcome(p, proof_verified, host_height, host_timestamp) == Err::<
            (),
            IbcError,
        >(IbcError::SequenceViolation),
{
}

/// Once a packet has been acknowledged, its commitment is gone, and
/// acknowledging it again is rejected as not found.
pub proof fn lemma_double_ack_rejected(
    before: IbcState,
    after: IbcState,
    p: Packet,
    proof_verified: bool,
    second_proof_verified: bool,
)
    requires
        before.spec_ack_outcome(p, proof_verified) is Ok,
        after.values@ == before.values@.insert(
            spec_commitment_path(p.port_on_a.name@, p.chan_on_a.name@, p.sequence as nat),
            Seq::<u8>::empty(),
        ),
        after.channels@ == before.channels@,
    ensures
        after.spec_ack_outcome(p, second_proof_verified) == Err::<(), IbcError>(
            IbcError::NotFound,
        ),
{
    assert(after.spec_commitment(p.port_on_a.name@, p.chan_on_a.name@, p.sequence as nat) is None);
}

/// Whether two byte strings are equal.
pub fn bytes_equal(a: &[u8], b: &[u8]) -> (r: bool)
    ensures
        r == (a@ == b@),
{
    if a.len() != b.len() {
        return false;
    }
    let mut i: usize = 0;
    while i < a.len()
        invariant
            a@.len() == b@.len(),
            i <= a@.len(),
            forall|j: int| 0 <= j < i ==> a@[j] == b@[j],
        decreases a@.len() - i,
    {
        if a[i] != b[i] {
            return false;
        }
        i = i + 1;
    }
    assert(a@ =~= b@);
    true
}

} // verus!
