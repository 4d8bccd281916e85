use ibc_channel::channel::{ChannelState, ConnectionState, IbcError, Order};
use ibc_channel::commitment::{commit_acknowledgement, commit_packet, Height, Packet};
use ibc_channel::packet::{ack_proof_claim, packet_proof_claim, timeout_proof_claim};
use ibc_channel::path::{
    ack_path, channel_end_path, commitment_path, receipt_path, seq_ack_path, seq_recv_path,
    seq_send_path, ChannelId, ClientId, ConnectionId, PortId,
};
use ibc_channel::state::IbcState;
use sha2::{Digest, Sha256};

fn open_connection(st: &mut IbcState) -> ConnectionId {
    let id = st
        .conn_open_init(
            ClientId::from_str("07-tendermint-0"),
            ClientId::from_str("07-tendermint-9"),
            "ibc".to_string(),
            "1".to_string(),
            0,
        )
        .unwrap();
    st.conn_open_ack(&id, ConnectionId::from_str("connection-5"), true)
        .unwrap();
    id
}

/// Opens `channel-N` on `port` with the given ordering and returns its id.
fn open_channel(st: &mut IbcState, port: &str, ordering: Order) -> ChannelId {
    let conn = open_connection(st);
    let port = PortId::from_str(port);
    let id = st
        .chan_open_init(
            &port,
            ordering,
            PortId::from_str("transfer"),
            vec![conn],
            "ics20-1".to_string(),
        )
        .unwrap();
    st.chan_open_ack(&port, &id, ChannelId::from_str("channel-3"), true)
        .unwrap();
    id
}

fn packet(port: &str, chan: &str, seq: u64, data: &[u8], height: u64, ts: u64) -> Packet {
    Packet {
        sequence: seq,
        port_on_a: PortId::from_str(port),
        chan_on_a: ChannelId::from_str(chan),
        port_on_b: PortId::from_str(port),
        chan_on_b: ChannelId::from_str(chan),
        data: data.to_vec(),
        timeout_height: Height {
            revision_number: 0,
            revision_height: height,
        },
        timeout_timestamp: ts,
    }
}

fn h(n: u64) -> Height {
    Height {
        revision_number: 0,
        revision_height: n,
    }
}

#[test]
fn conn_open_init_assigns_sequential_ids() {
    let mut st = IbcState::new();
    let first = st
        .conn_open_init(
            ClientId::from_str("07-tendermint-0"),
            ClientId::from_str("07-tendermint-1"),
            "ibc".to_string(),
            "1".to_string(),
            0,
        )
        .unwrap();
    assert_eq!(first.name, "connection-0");
    let end = st.get_connection(&first).unwrap();
    assert_eq!(end.state, ConnectionState::Init);
    assert_eq!(end.client_id.name, "07-tendermint-0");
    assert_eq!(end.counterparty_client_id.name, "07-tendermint-1");
    assert_eq!(end.counterparty_connection_id.name, "");
    let second = st
        .conn_open_init(
            ClientId::from_str("07-tendermint-0"),
            ClientId::from_str("07-tendermint-1"),
            "ibc".to_string(),
            "1".to_string(),
            0,
        )
        .unwrap();
    assert_eq!(second.name, "connection-1");
    assert_eq!(st.get_connection_counter(), 2);
}

#[test]
fn connection_handshake_reaches_open_on_both_sides() {
    let mut a = IbcState::new();
    let mut b = IbcState::new();
    let id_a = a
        .conn_open_init(
            ClientId::from_str("client-a"),
            ClientId::from_str("client-b"),
            "ibc".to_string(),
            "1".to_string(),
            10,
        )
        .unwrap();
    assert_eq!(
        b.conn_open_try(
            ClientId::from_str("client-b"),
            ClientId::from_str("client-a"),
            ConnectionId::from_str("connection-0"),
            "ibc".to_string(),
            "1".to_string(),
            10,
            false,
        )
        .err(),
        Some(IbcError::ProofVerificationFailed)
    );
    let id_b = b
        .conn_open_try(
            ClientId::from_str("client-b"),
            ClientId::from_str("client-a"),
            id_a.duplicate(),
            "ibc".to_string(),
            "1".to_string(),
            10,
            true,
        )
        .unwrap();
    assert_eq!(b.get_connection(&id_b).unwrap().state, ConnectionState::TryOpen);
    assert_eq!(
        b.conn_open_ack(&id_b, id_a.duplicate(), true),
        Err(IbcError::InvalidState)
    );
    a.conn_open_ack(&id_a, id_b.duplicate(), true).unwrap();
    let end_a = a.get_connection(&id_a).unwrap();
    assert_eq!(end_a.state, ConnectionState::Open);
    assert_eq!(end_a.counterparty_connection_id.name, "connection-0");
    assert_eq!(end_a.delay_period, 10);
    b.conn_open_confirm(&id_b, true).unwrap();
    assert_eq!(b.get_connection(&id_b).unwrap().state, ConnectionState::Open);
    assert_eq!(
        b.conn_open_confirm(&ConnectionId::from_str("connection-9"), true),
        Err(IbcError::NotFound)
    );
}

#[test]
fn channel_needs_an_open_connection() {
    let mut st = IbcState::new();
    let port = PortId::from_str("port-1");
    assert_eq!(
        st.chan_open_init(&port, Order::Unordered, PortId::from_str("x"), vec![], "v".to_string())
            .err(),
        Some(IbcError::NotFound)
    );
    let conn = st
        .conn_open_init(
            ClientId::from_str("c"),
            ClientId::from_str("d"),
            "ibc".to_string(),
            "1".to_string(),
            0,
        )
        .unwrap();
    assert_eq!(
        st.chan_open_init(&port, Order::Unordered, PortId::from_str("x"), vec![conn], "v".to_string())
            .err(),
        Some(IbcError::InvalidState)
    );
    assert_eq!(st.get_channel_counter(), 0);
}

#[test]
fn channel_handshake_and_close() {
    let mut st = IbcState::new();
    let conn = open_connection(&mut st);
    let port = PortId::from_str("port-1");
    let id = st
        .chan_open_try(
            &port,
            Order::Ordered,
            PortId::from_str("transfer"),
            ChannelId::from_str("channel-8"),
            vec![conn],
            "ics20-1".to_string(),
            true,
        )
        .unwrap();
    assert_eq!(id.name, "channel-0");
    assert_eq!(st.get_channel(&id, &port).unwrap().state, ChannelState::TryOpen);
    st.chan_open_confirm(&port, &id, true).unwrap();
    let end = st.get_channel(&id, &port).unwrap();
    assert_eq!(end.state, ChannelState::Open);
    assert_eq!(end.ordering, Order::Ordered);
    assert_eq!(end.counterparty_channel_id.name, "channel-8");
    assert_eq!(
        st.chan_close_confirm(&port, &id, false),
        Err(IbcError::ProofVerificationFailed)
    );
    st.chan_close_init(&port, &id).unwrap();
    assert_eq!(st.get_channel(&id, &port).unwrap().state, ChannelState::Closed);
    assert_eq!(st.chan_close_init(&port, &id), Err(IbcError::InvalidState));
    let p = packet("port-1", "channel-0", 0, b"x", 100, 0);
    assert_eq!(st.send_packet(p).err(), Some(IbcError::InvalidState));
}

#[test]
fn send_writes_commitment_at_first_sequence() {
    let mut st = IbcState::new();
    let chan = open_channel(&mut st, "port-1", Order::Unordered);
    assert_eq!(chan.name, "channel-0");
    let port = PortId::from_str("port-1");
    assert_eq!(st.get_send_sequence(&chan, &port), 0);
    let sent = st
        .send_packet(packet("port-1", "channel-0", 0, b"hello", 100, 0))
        .unwrap();
    assert_eq!(sent.sequence, 1);
    assert_eq!(
        commitment_path(&port, &chan, 1),
        "commitments/ports/port-1/channels/channel-0/sequences/1"
    );
    assert_eq!(
        st.get_packet_commitment_by_id(&chan, &port, 1),
        Some(commit_packet(&sent))
    );
    assert_eq!(st.get_packet_commitment(&sent), Some(commit_packet(&sent)));
    assert_eq!(st.get_send_sequence(&chan, &port), 1);
    let second = st
        .send_packet(packet("port-1", "channel-0", 0, b"again", 0, 5))
        .unwrap();
    assert_eq!(second.sequence, 2);
    assert_eq!(st.get_send_sequence(&chan, &port), 2);
}

#[test]
fn send_needs_a_timeout_bound() {
    let mut st = IbcState::new();
    open_channel(&mut st, "port-1", Order::Unordered);
    assert_eq!(
        st.send_packet(packet("port-1", "channel-0", 0, b"x", 0, 0)).err(),
        Some(IbcError::InvalidPacket)
    );
    assert_eq!(
        st.send_packet(packet("port-1", "channel-9", 0, b"x", 5, 0)).err(),
        Some(IbcError::NotFound)
    );
}

#[test]
fn send_counter_overflow_is_rejected() {
    let mut st = IbcState::new();
    let chan = open_channel(&mut st, "port-1", Order::Unordered);
    let port = PortId::from_str("port-1");
    st.put_send_sequence(&chan, &port, u64::MAX);
    assert_eq!(
        st.send_packet(packet("port-1", "channel-0", 0, b"x", 5, 0)).err(),
        Some(IbcError::CounterOverflow)
    );
    assert_eq!(st.get_send_sequence(&chan, &port), u64::MAX);
}

#[test]
fn unordered_receive_then_replay_fails() {
    let mut st = IbcState::new();
    let chan = open_channel(&mut st, "port-1", Order::Unordered);
    let port = PortId::from_str("port-1");
    assert_eq!(st.get_recv_sequence(&chan, &port), 0);
    let p = packet("port-1", "channel-0", 1, b"data", 100, 0);
    assert!(!st.seen_packet(&p));
    assert_eq!(st.recv_packet(&p, true, h(10), 0, b"ok"), Ok(()));
    assert!(st.seen_packet(&p));
    assert!(st.seen_packet_by_channel(&chan, &port, 1));
    assert_eq!(st.get_recv_sequence(&chan, &port), 1);
    assert_eq!(
        st.get_packet_acknowledgement(&port, &chan, 1),
        Some(commit_acknowledgement(b"ok"))
    );
    assert_eq!(
        st.recv_packet(&p, true, h(10), 0, b"ok"),
        Err(IbcError::SequenceViolation)
    );
    assert_eq!(st.get_recv_sequence(&chan, &port), 1);
}

#[test]
fn receive_rejections_leave_state_unchanged() {
    let mut st = IbcState::new();
    let chan = open_channel(&mut st, "port-1", Order::Unordered);
    let port = PortId::from_str("port-1");
    let p = packet("port-1", "channel-0", 1, b"data", 100, 50);
    assert_eq!(
        st.recv_packet(&p, false, h(10), 0, b"ok"),
        Err(IbcError::ProofVerificationFailed)
    );
    assert_eq!(
        st.recv_packet(&p, true, h(100), 0, b"ok"),
        Err(IbcError::AlreadyTimedOut)
    );
    assert_eq!(
        st.recv_packet(&p, true, h(10), 50, b"ok"),
        Err(IbcError::AlreadyTimedOut)
    );
    assert!(!st.seen_packet(&p));
    assert_eq!(st.get_recv_sequence(&chan, &port), 0);
    assert_eq!(st.get_packet_acknowledgement(&port, &chan, 1), None);
}

#[test]
fn ordered_receive_needs_next_sequence() {
    let mut st = IbcState::new();
    let chan = open_channel(&mut st, "port-1", Order::Ordered);
    let port = PortId::from_str("port-1");
    let gap = packet("port-1", "channel-0", 2, b"b", 100, 0);
    assert_eq!(
        st.recv_packet(&gap, true, h(1), 0, b"ok"),
        Err(IbcError::SequenceViolation)
    );
    let first = packet("port-1", "channel-0", 1, b"a", 100, 0);
    assert_eq!(st.recv_packet(&first, true, h(1), 0, b"ok"), Ok(()));
    assert_eq!(st.get_recv_sequence(&chan, &port), 1);
    assert!(!st.seen_packet(&first));
    let third = packet("port-1", "channel-0", 3, b"c", 100, 0);
    assert_eq!(
        st.recv_packet(&third, true, h(1), 0, b"ok"),
        Err(IbcError::SequenceViolation)
    );
    assert_eq!(st.recv_packet(&gap, true, h(1), 0, b"ok"), Ok(()));
    assert_eq!(st.get_recv_sequence(&chan, &port), 2);
}

#[test]
fn acknowledge_clears_commitment_and_rejects_second_ack() {
    let mut st = IbcState::new();
    let chan = open_channel(&mut st, "port-1", Order::Unordered);
    let port = PortId::from_str("port-1");
    let sent = st
        .send_packet(packet("port-1", "channel-0", 0, b"data", 100, 0))
        .unwrap();
    assert_eq!(
        st.acknowledge_packet(&sent, false),
        Err(IbcError::ProofVerificationFailed)
    );
    let mut forged = packet("port-1", "channel-0", 1, b"other", 100, 0);
    assert_eq!(
        st.acknowledge_packet(&forged, true),
        Err(IbcError::CommitmentMismatch)
    );
    forged.sequence = 2;
    assert_eq!(st.acknowledge_packet(&forged, true), Err(IbcError::NotFound));
    assert_eq!(st.acknowledge_packet(&sent, true), Ok(()));
    assert_eq!(st.get_ack_sequence(&chan, &port), 1);
    assert_eq!(st.get_packet_commitment(&sent), None);
    assert_eq!(st.acknowledge_packet(&sent, true), Err(IbcError::NotFound));
    assert_eq!(st.get_ack_sequence(&chan, &port), 1);
}

#[test]
fn timeout_waits_for_bound_then_closes_ordered_channel() {
    let mut st = IbcState::new();
    let chan = open_channel(&mut st, "port-1", Order::Ordered);
    let port = PortId::from_str("port-1");
    let sent = st
        .send_packet(packet("port-1", "channel-0", 0, b"data", 100, 0))
        .unwrap();
    assert_eq!(
        st.timeout_packet(&sent, true, h(99), 0),
        Err(IbcError::TimeoutNotElapsed)
    );
    assert_eq!(
        st.timeout_packet(&sent, false, h(100), 0),
        Err(IbcError::ProofVerificationFailed)
    );
    assert_eq!(st.get_channel(&chan, &port).unwrap().state, ChannelState::Open);
    assert_eq!(st.timeout_packet(&sent, true, h(100), 0), Ok(()));
    assert_eq!(st.get_packet_commitment(&sent), None);
    assert_eq!(st.get_ack_sequence(&chan, &port), 1);
    assert_eq!(st.get_channel(&chan, &port).unwrap().state, ChannelState::Closed);
}

#[test]
fn timeout_on_unordered_channel_keeps_it_open() {
    let mut st = IbcState::new();
    let chan = open_channel(&mut st, "port-1", Order::Unordered);
    let port = PortId::from_str("port-1");
    let sent = st
        .send_packet(packet("port-1", "channel-0", 0, b"data", 0, 1000))
        .unwrap();
    assert_eq!(
        st.timeout_packet(&sent, true, h(5000), 999),
        Err(IbcError::TimeoutNotElapsed)
    );
    assert_eq!(st.timeout_packet(&sent, true, h(1), 1000), Ok(()));
    assert_eq!(st.get_channel(&chan, &port).unwrap().state, ChannelState::Open);
    assert_eq!(st.timeout_packet(&sent, true, h(1), 1000), Err(IbcError::NotFound));
}

#[test]
fn ack_counter_stays_within_send_counter() {
    let mut st = IbcState::new();
    let chan = open_channel(&mut st, "port-1", Order::Unordered);
    let port = PortId::from_str("port-1");
    let a = st
        .send_packet(packet("port-1", "channel-0", 0, b"a", 100, 0))
        .unwrap();
    let b = st
        .send_packet(packet("port-1", "channel-0", 0, b"b", 100, 0))
        .unwrap();
    st.acknowledge_packet(&b, true).unwrap();
    assert!(st.get_ack_sequence(&chan, &port) <= st.get_send_sequence(&chan, &port));
    st.timeout_packet(&a, true, h(100), 0).unwrap();
    assert_eq!(st.get_ack_sequence(&chan, &port), 2);
    assert_eq!(st.get_send_sequence(&chan, &port), 2);
    // A commitment planted without a send cannot push the ack counter past it.
    let planted = packet("port-1", "channel-0", 7, b"p", 100, 0);
    st.put_packet_commitment(&planted);
    assert_eq!(
        st.acknowledge_packet(&planted, true),
        Err(IbcError::SequenceViolation)
    );
    assert_eq!(st.get_ack_sequence(&chan, &port), 2);
}

#[test]
fn commit_packet_is_deterministic_and_data_sensitive() {
    let p = packet("port-1", "channel-0", 1, b"data", 100, 7);
    let same = packet("other", "channel-9", 4, b"data", 100, 7);
    let changed = packet("port-1", "channel-0", 1, b"datb", 100, 7);
    assert_eq!(commit_packet(&p), commit_packet(&p));
    assert_eq!(commit_packet(&p), commit_packet(&same));
    assert_ne!(commit_packet(&p), commit_packet(&changed));
    let mut pre = Vec::new();
    pre.extend_from_slice(&7u64.to_be_bytes());
    pre.extend_from_slice(&0u64.to_be_bytes());
    pre.extend_from_slice(&100u64.to_be_bytes());
    pre.extend_from_slice(&Sha256::digest(b"data"));
    assert_eq!(commit_packet(&p), Sha256::digest(&pre).to_vec());
    assert_eq!(commit_packet(&p).len(), 32);
}

#[test]
fn commit_acknowledgement_is_sha256() {
    let empty = commit_acknowledgement(b"");
    assert_eq!(
        empty[..4],
        [0xe3, 0xb0, 0xc4, 0x42]
    );
    assert_ne!(commit_acknowledgement(b"ok"), b"ok".to_vec());
}

#[test]
fn store_paths_follow_the_layout() {
    let port = PortId::from_str("transfer");
    let chan = ChannelId::new(12);
    assert_eq!(chan.name, "channel-12");
    assert_eq!(
        channel_end_path(&port, &chan),
        "channelEnds/ports/transfer/channels/channel-12"
    );
    assert_eq!(
        seq_send_path(&port, &chan),
        "nextSequenceSend/ports/transfer/channels/channel-12"
    );
    assert_eq!(
        seq_recv_path(&port, &chan),
        "nextSequenceRecv/ports/transfer/channels/channel-12"
    );
    assert_eq!(
        seq_ack_path(&port, &chan),
        "nextSequenceAck/ports/transfer/channels/channel-12"
    );
    assert_eq!(
        receipt_path(&port, &chan, 1234567890),
        "receipts/ports/transfer/channels/channel-12/sequences/1234567890"
    );
    assert_eq!(
        ack_path(&port, &chan, 0),
        "acks/ports/transfer/channels/channel-12/sequences/0"
    );
    assert_eq!(
        ack_path(&port, &chan, u64::MAX),
        "acks/ports/transfer/channels/channel-12/sequences/18446744073709551615"
    );
    assert_eq!(ConnectionId::new(3).name, "connection-3");
}

#[test]
fn proof_claims_name_the_counterparty_keys() {
    let p = packet("port-1", "channel-0", 3, b"d", 9, 0);
    let (path, value) = packet_proof_claim(&p);
    assert_eq!(path, "commitments/ports/port-1/channels/channel-0/sequences/3");
    assert_eq!(value, commit_packet(&p));
    let (path, value) = ack_proof_claim(&p, b"ok");
    assert_eq!(path, "acks/ports/port-1/channels/channel-0/sequences/3");
    assert_eq!(value, commit_acknowledgement(b"ok"));
    assert_eq!(
        timeout_proof_claim(&p),
        "receipts/ports/port-1/channels/channel-0/sequences/3"
    );
}

#[test]
fn channel_counter_advances_once_per_id() {
    let mut st = IbcState::new();
    assert_eq!(st.get_channel_counter(), 0);
    assert_eq!(st.next_channel_id().unwrap().name, "channel-0");
    assert_eq!(st.next_channel_id().unwrap().name, "channel-1");
    assert_eq!(st.get_channel_counter(), 2);
    st.put_channel_counter(u64::MAX);
    assert_eq!(st.next_channel_id().err(), Some(IbcError::CounterOverflow));
    assert_eq!(st.get_channel_counter(), u64::MAX);
}

#[test]
fn empty_values_count_as_absent() {
    let mut st = IbcState::new();
    let port = PortId::from_str("port-1");
    let chan = ChannelId::from_str("channel-0");
    let p = packet("port-1", "channel-0", 4, b"z", 1, 0);
    st.put_packet_commitment(&p);
    assert_eq!(st.get_packet_commitment_by_id(&chan, &port, 4), Some(commit_packet(&p)));
    st.delete_packet_commitment(&chan, &port, 4);
    assert_eq!(st.get_packet_commitment_by_id(&chan, &port, 4), None);
    st.values.put(receipt_path(&port, &chan, 4), Vec::new());
    assert!(st.seen_packet(&p));
    assert!(!st.seen_packet_by_channel(&chan, &port, 4));
    st.put_packet_receipt(&p);
    assert!(st.seen_packet_by_channel(&chan, &port, 4));
    st.put_packet_acknowledgement(&port, &chan, 4, b"ack");
    assert_eq!(
        st.get_packet_acknowledgement(&port, &chan, 4),
        Some(commit_acknowledgement(b"ack"))
    );
    st.put_recv_sequence(&chan, &port, 9);
    st.put_ack_sequence(&chan, &port, 3);
    assert_eq!(st.get_recv_sequence(&chan, &port), 9);
    assert_eq!(st.get_ack_sequence(&chan, &port), 3);
}
