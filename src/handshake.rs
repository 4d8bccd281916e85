use vstd::prelude::*;

use crate::channel::{
    hop_names, ChannelEnd, ChannelState, ConnectionEnd, ConnectionState, IbcError, Order,
};
use crate::path::{
    lemma_counter_keys_distinct, spec_channel_counter_path, spec_channel_end_path,
    spec_channel_name, spec_connection_counter_path, spec_connection_name, spec_connection_path,
    ChannelId, ClientId, ConnectionId, PortId,
};
use crate::state::{lemma_other_counter_write, lemma_same_counters, IbcState};

verus! {

impl IbcState {
    pub open spec fn spec_has_connection(self, conn: Seq<char>) -> bool {
        self.connections@.contains_key(spec_connection_path(conn))
    }

    pub open spec fn spec_connection(self, conn: Seq<char>) -> ConnectionEnd {
        self.connections@[spec_connection_path(conn)]
    }

    /// Whether the first hop of a channel names a connection, and whether that
    /// connection is open.
    pub open spec fn spec_hops_outcome(self, hops: Seq<Seq<char>>) -> Result<(), IbcError> {
        if hops.len() == 0 || !self.spec_has_connection(hops[0]) {
            Err(IbcError::NotFound)
        } else if self.spec_connection(hops[0]).state != ConnectionState::Open {
            Err(IbcError::InvalidState)
        } else {
            Ok(())
        }
    }

    fn check_hops(&self, hops: &Vec<ConnectionId>) -> (r: Result<(), IbcError>)
        ensures
            r == self.spec_hops_outcome(hop_names(hops@)),
    {
        if hops.len() == 0 {
            return Err(IbcError::NotFound);
        }
        match self.get_connection(&hops[0]) {
            None => Err(IbcError::NotFound),
            Some(c) => {
                if c.state != ConnectionState::Open {
                    Err(IbcError::InvalidState)
                } else {
                    Ok(())
                }
            },
        }
    }

    /// Stores a new connection end under a fresh id.
    fn create_connection(&mut self, end: ConnectionEnd) -> (r: Result<ConnectionId, IbcError>)
        ensures
            old(self).spec_connection_counter() == u64::MAX ==> r == Err::<ConnectionId, IbcError>(
                IbcError::CounterOverflow,
            ),
            old(self).spec_connection_counter() < u64::MAX ==> r is Ok,
            r is Err ==> *final(self) == *old(self),
            r is Ok ==> r->Ok_0.name@ == spec_connection_name(old(self).spec_connection_counter() as nat),
            r is Ok ==> final(self).connections@ == old(self).connections@.insert(
                spec_connection_path(r->Ok_0.name@),
                end,
            ),
            r is Ok ==> final(self).counters@ == old(self).counters@.insert(
                spec_connection_counter_path(),
                (old(self).spec_connection_counter() + 1) as u64,
            ),
            r is Ok ==> final(self).values@ == old(self).values@,
            r is Ok ==> final(self).channels@ == old(self).channels@,
            old(self).acks_within_sends() ==> final(self).acks_within_sends(),
    {
        let id = self.next_connection_id();
        match id {
            Err(e) => Err(e),
            Ok(id) => {
                let ghost counted = *self;
                proof {
                    if old(self).acks_within_sends() {
                        assert forall|t: Seq<char>|
                            spec_connection_counter_path() != "nextSequenceAck"@ + t
                                && spec_connection_counter_path() != "nextSequenceSend"@ + t by {
                            lemma_counter_keys_distinct(t, t);
                        }
                        lemma_other_counter_write(
                            *old(self),
                            counted,
                            spec_connection_counter_path(),
                            (old(self).spec_connection_counter() + 1) as u64,
                        );
                    }
                }
                self.put_connection(&id, end);
                proof {
                    if counted.acks_within_sends() {
                        lemma_same_counters(counted, *self);
                    }
                }
                Ok(id)
            },
        }
    }

    /// Starts a connection handshake on this chain: stores a connection end in
    /// state `Init` under a fresh id and returns that id.
    pub fn conn_open_init(
        &mut self,
        client_id: ClientId,
        counterparty_client_id: ClientId,
        counterparty_prefix: String,
        version: String,
        delay_period: u64,
    ) -> (r: Result<ConnectionId, IbcError>)
        ensures
            old(self).spec_connection_counter() == u64::MAX ==> r == Err::<ConnectionId, IbcError>(
                IbcError::CounterOverflow,
            ),
            old(self).spec_connection_counter() < u64::MAX ==> r is Ok,
            r is Err ==> *final(self) == *old(self),
            r is Ok ==> r->Ok_0.name@ == spec_connection_name(old(self).spec_connection_counter() as nat),
            r is Ok ==> final(self).connections@ == old(self).connections@.insert(
                spec_connection_path(r->Ok_0.name@),
                final(self).spec_connection(r->Ok_0.name@),
            ),
            r is Ok ==> final(self).spec_connection(r->Ok_0.name@).is(
                ConnectionState::Init,
                client_id.name@,
                counterparty_client_id.name@,
                Seq::<char>::empty(),
                counterparty_prefix@,
                version@,
                delay_period,
            ),
            r is Ok ==> final(self).counters@ == old(self).counters@.insert(
                spec_connection_counter_path(),
                (old(self).spec_connection_counter() + 1) as u64,
            ),
            r is Ok ==> final(self).values@ == old(self).values@,
            r is Ok ==> final(self).channels@ == old(self).channels@,
            old(self).acks_within_sends() ==> final(self).acks_within_sends(),
    {
        let end = ConnectionEnd {
            state: ConnectionState::Init,
            client_id,
            counterparty_client_id,
            counterparty_connection_id: ConnectionId { name: String::new() },
            counterparty_prefix,
            version,
            delay_period,
        };
        self.create_connection(end)
    }

    /// Answers a counterparty's `Init`: once the proof that the counterparty
    /// stores its end in state `Init` is verified, stores a connection end in
    /// state `TryOpen` under a fresh id and returns that id.
    pub fn conn_open_try(
        &mut self,
        client_id: ClientId,
        counterparty_client_id: ClientId,
        counterparty_connection_id: ConnectionId,
        counterparty_prefix: String,
        version: String,
        delay_period: u64,
        proof_verified: bool,
    ) -> (r: Result<ConnectionId, IbcError>)
        ensures
            !proof_verified ==> r == Err::<ConnectionId, IbcError>(IbcError::ProofVerificationFailed),
            proof_verified && old(self).spec_connection_counter() == u64::MAX ==> r == Err::<
                ConnectionId,
                IbcError,
            >(IbcError::CounterOverflow),
            proof_verified && old(self).spec_connection_counter() < u64::MAX ==> r is Ok,
            r is Err ==> *final(self) == *old(self),
            r is Ok ==> r->Ok_0.name@ == spec_connection_name(old(self).spec_connection_counter() as nat),
            r is Ok ==> final(self).connections@ == old(self).connections@.insert(
                spec_connection_path(r->Ok_0.name@),
                final(self).spec_connection(r->Ok_0.name@),
            ),
            r is Ok ==> final(self).spec_connection(r->Ok_0.name@).is(
                ConnectionState::TryOpen,
                client_id.name@,
                counterparty_client_id.name@,
                counterparty_connection_id.name@,
                counterparty_prefix@,
                version@,
                delay_period,
            ),
            r is Ok ==> final(self).counters@ == old(self).counters@.insert(
                spec_connection_counter_path(),
                (old(self).spec_connection_counter() + 1) as u64,
            ),
            r is Ok ==> final(self).values@ == old(self).values@,
            r is Ok ==> final(self).channels@ == old(self).channels@,
            old(self).acks_within_sends() ==> final(self).acks_within_sends(),
    {
        if !proof_verified {
            return Err(IbcError::ProofVerificationFailed);
        }
        let end = ConnectionEnd {
            state: ConnectionState::TryOpen,
            client_id,
            counterparty_client_id,
            counterparty_connection_id,
            counterparty_prefix,
            version,
            delay_period,
        };
        self.create_connection(end)
    }

    /// What advancing the connection end `conn` from state `from` yields.
    pub open spec fn spec_conn_step_outcome(
        self,
        conn: Seq<char>,
        from: ConnectionState,
        proof_verified: bool,
    ) -> Result<(), IbcError> {
        if !self.spec_has_connection(conn) {
            Err(IbcError::NotFound)
        } else if self.spec_connection(conn).state != from {
            Err(IbcError::InvalidState)
        } else if !proof_verified {
            Err(IbcError::ProofVerificationFailed)
        } else {
            Ok(())
        }
    }

    /// Opens the connection end `conn`, found in state `from`, and records the
    /// counterparty's connection id.
    fn open_connection(
        &mut self,
        connection_id: &ConnectionId,
        from: ConnectionState,
        counterparty_connection_id: Option<ConnectionId>,
        proof_verified: bool,
    ) -> (r: Result<(), IbcError>)
        ensures
            r == old(self).spec_conn_step_outcome(connection_id.name@, from, proof_verified),
            r is Err ==> *final(self) == *old(self),
            r is Ok ==> final(self).connections@ == old(self).connections@.insert(
                spec_connection_path(connection_id.name@),
                final(self).spec_connection(connection_id.name@),
            ),
            r is Ok ==> final(self).spec_connection(connection_id.name@).is(
                ConnectionState::Open,
                old(self).spec_connection(connection_id.name@).client_id.name@,
                old(self).spec_connection(connection_id.name@).counterparty_client_id.name@,
                match counterparty_connection_id {
                    Some(c) => c.name@,
                    None => old(self).spec_connection(
                        connection_id.name@,
                    ).counterparty_connection_id.name@,
                },
                old(self).spec_connection(connection_id.name@).counterparty_prefix@,
                old(self).spec_connection(connection_id.name@).version@,
                old(self).spec_connection(connection_id.name@).delay_period,
            ),
            r is Ok ==> final(self).counters@ == old(self).counters@,
            r is Ok ==> final(self).values@ == old(self).values@,
            r is Ok ==> final(self).channels@ == old(self).channels@,
            old(self).acks_within_sends() ==> final(self).acks_within_sends(),
    {
        let mut opened;
        match self.get_connection(connection_id) {
            None => {
                return Err(IbcError::NotFound);
            },
            Some(c) => {
                if c.state != from {
                    return Err(IbcError::InvalidState);
                }
                opened = c.with_state(ConnectionState::Open);
            },
        }
        if !proof_verified {
            return Err(IbcError::ProofVerificationFailed);
        }
        match counterparty_connection_id {
            Some(c) => {
                opened.counterparty_connection_id = c;
            },
            None => {},
        }
        self.put_connection(connection_id, opened);
        proof {
            if old(self).acks_within_sends() {
                lemma_same_counters(*old(self), *self);
            }
        }
        Ok(())
    }

    /// Completes the handshake on the initiating chain: once the proof that
    /// the counterparty's end is in state `TryOpen` is verified, the end in
    /// state `Init` becomes `Open` and records the counterparty's id.
    pub fn conn_open_ack(
        &mut self,
        connection_id: &ConnectionId,
        counterparty_connection_id: ConnectionId,
        proof_verified: bool,
    ) -> (r: Result<(), IbcError>)
        ensures
            r == old(self).spec_conn_step_outcome(
                connection_id.name@,
                ConnectionState::Init,
                proof_verified,
            ),
            r is Err ==> *final(self) == *old(self),
            r is Ok ==> final(self).connections@ == old(self).connections@.insert(
                spec_connection_path(connection_id.name@),
                final(self).spec_connection(connection_id.name@),
            ),
            r is Ok ==> final(self).spec_connection(connection_id.name@).is(
                ConnectionState::Open,
                old(self).spec_connection(connection_id.name@).client_id.name@,
                old(self).spec_connection(connection_id.name@).counterparty_client_id.name@,
                counterparty_connection_id.name@,
                old(self).spec_connection(connection_id.name@).counterparty_prefix@,
                old(self).spec_connection(connection_id.name@).version@,
                old(self).spec_connection(connection_id.name@).delay_period,
            ),
            r is Ok ==> final(self).counters@ == old(self).counters@,
            r is Ok ==> final(self).values@ == old(self).values@,
            r is Ok ==> final(self).channels@ == old(self).channels@,
            old(self).acks_within_sends() ==> final(self).acks_within_sends(),
    {
        self.open_connection(
            connection_id,
            ConnectionState::Init,
            Some(counterparty_connection_id),
            proof_verified,
        )
    }

    /// Completes the handshake on the answering chain: once the proof that
    /// the counterparty's end is `Open` is verified, the end in state
    /// `TryOpen` becomes `Open`.
    pub fn conn_open_confirm(&mut self, connection_id: &ConnectionId, proof_verified: bool) -> (r:
        Result<(), IbcError>)
        ensures
            r == old(self).spec_conn_step_outcome(
                connection_id.name@,
                ConnectionState::TryOpen,
                proof_verified,
            ),
            r is Err ==> *final(self) == *old(self),
            r is Ok ==> final(self).connections@ == old(self).connections@.insert(
                spec_connection_path(connection_id.name@),
                final(self).spec_connection(connection_id.name@),
            ),
            r is Ok ==> final(self).spec_connection(connection_id.name@).state
                == ConnectionState::Open,
            r is Ok ==> final(self).spec_connection(connection_id.name@).same_but_state(
                old(self).spec_connection(connection_id.name@),
            ),
            r is Ok ==> final(self).counters@ == old(self).counters@,
            r is Ok ==> final(self).values@ == old(self).values@,
            r is Ok ==> final(self).channels@ == old(self).channels@,
            old(self).acks_within_sends() ==> final(self).acks_within_sends(),
    {
        self.open_connection(connection_id, ConnectionState::TryOpen, None, proof_verified)
    }

    /// Stores a new channel end under `port_id` and a fresh channel id.
    fn create_channel(&mut self, port_id: &PortId, end: ChannelEnd) -> (r: Result<
        ChannelId,
        IbcError,
    >)
        ensures
            old(self).spec_channel_counter() == u64::MAX ==> r == Err::<ChannelId, IbcError>(
                IbcError::CounterOverflow,
            ),
            old(self).spec_channel_counter() < u64::MAX ==> r is Ok,
            r is Err ==> *final(self) == *old(self),
            r is Ok ==> r->Ok_0.name@ == spec_channel_name(old(self).spec_channel_counter() as nat),
            r is Ok ==> final(self).channels@ == old(self).channels@.insert(
                spec_channel_end_path(port_id.name@, r->Ok_0.name@),
                end,
            ),
            r is Ok ==> final(self).counters@ == old(self).counters@.insert(
                spec_channel_counter_path(),
                (old(self).spec_channel_counter() + 1) as u64,
            ),
            r is Ok ==> final(self).values@ == old(self).values@,
            r is Ok ==> final(self).connections@ == old(self).connections@,
            old(self).acks_within_sends() ==> final(self).acks_within_sends(),
    {
        let id = self.next_channel_id();
        match id {
            Err(e) => Err(e),
            Ok(id) => {
                let ghost counted = *self;
                proof {
                    if old(self).acks_within_sends() {
                        assert forall|t: Seq<char>|
                            spec_channel_counter_path() != "nextSequenceAck"@ + t
                                && spec_channel_counter_path() != "nextSequenceSend"@ + t by {
                            lemma_counter_keys_distinct(t, t);
                        }
                        lemma_other_counter_write(
                            *old(self),
                            counted,
                            spec_channel_counter_path(),
                            (old(self).spec_channel_counter() + 1) as u64,
                        );
                    }
                }
                self.put_channel(&id, port_id, end);
                proof {
                    if counted.acks_within_sends() {
                        lemma_same_counters(counted, *self);
                    }
                }
                Ok(id)
            },
        }
    }

    /// What opening a channel over `hops` yields, given the proof verdict
    /// (always true for `Init`, which needs no proof).
    pub open spec fn spec_chan_create_outcome(self, hops: Seq<Seq<char>>, proof_verified: bool) -> Result<
        (),
        IbcError,
    > {
        if self.spec_hops_outcome(hops) is Err {
            self.spec_hops_outcome(hops)
        } else if !proof_verified {
            Err(IbcError::ProofVerificationFailed)
        } else if self.spec_channel_counter() == u64::MAX {
            Err(IbcError::CounterOverflow)
        } else {
            Ok(())
        }
    }

    /// Starts a channel handshake on `port_id` over an open connection: stores
    /// a channel end in state `Init` under a fresh channel id and returns it.
    pub fn chan_open_init(
        &mut self,
        port_id: &PortId,
        ordering: Order,
        counterparty_port_id: PortId,
        connection_hops: Vec<ConnectionId>,
        version: String,
    ) -> (r: Result<ChannelId, IbcError>)
        ensures
            r is Err ==> old(self).spec_chan_create_outcome(hop_names(connection_hops@), true)
                == Err::<(), IbcError>(r->Err_0),
            r is Ok <==> old(self).spec_chan_create_outcome(hop_names(connection_hops@), true) is Ok,
            r is Err ==> *final(self) == *old(self),
            r is Ok ==> r->Ok_0.name@ == spec_channel_name(old(self).spec_channel_counter() as nat),
            r is Ok ==> final(self).channels@ == old(self).channels@.insert(
                spec_channel_end_path(port_id.name@, r->Ok_0.name@),
                final(self).spec_channel(port_id.name@, r->Ok_0.name@),
            ),
            r is Ok ==> final(self).spec_channel(port_id.name@, r->Ok_0.name@).is(
                ChannelState::Init,
                ordering,
                counterparty_port_id.name@,
                Seq::<char>::empty(),
                hop_names(connection_hops@),
                version@,
            ),
            r is Ok ==> final(self).counters@ == old(self).counters@.insert(
                spec_channel_counter_path(),
                (old(self).spec_channel_counter() + 1) as u64,
            ),
            r is Ok ==> final(self).values@ == old(self).values@,
            r is Ok ==> final(self).connections@ == old(self).connections@,
            old(self).acks_within_sends() ==> final(self).acks_within_sends(),
    {
        match self.check_hops(&connection_hops) {
            Err(e) => {
                return Err(e);
            },
            Ok(()) => {},
        }
        let end = ChannelEnd {
            state: ChannelState::Init,
            ordering,
            counterparty_port_id,
            counterparty_channel_id: ChannelId { name: String::new() },
            connection_hops,
            version,
        };
        self.create_channel(port_id, end)
    }

    /// Answers a counterparty's channel `Init`: once the proof that the
    /// counterparty stores its end in state `Init` is verified, stores a
    /// channel end in state `TryOpen` under a fresh channel id and returns it.
    pub fn chan_open_try(
        &mut self,
        port_id: &PortId,
        ordering: Order,
        counterparty_port_id: PortId,
        counterparty_channel_id: ChannelId,
        connection_hops: Vec<ConnectionId>,
        version: String,
        proof_verified: bool,
    ) -> (r: Result<ChannelId, IbcError>)
        ensures
            r is Err ==> old(self).spec_chan_create_outcome(
                hop_names(connection_hops@),
                proof_verified,
            ) == Err::<(), IbcError>(r->Err_0),
            r is Ok <==> old(self).spec_chan_create_outcome(
                hop_names(connection_hops@),
                proof_verified,
            ) is Ok,
            r is Err ==> *final(self) == *old(self),
            r is Ok ==> r->Ok_0.name@ == spec_channel_name(old(self).spec_channel_counter() as nat),
            r is Ok ==> final(self).channels@ == old(self).channels@.insert(
                spec_channel_end_path(port_id.name@, r->Ok_0.name@),
                final(self).spec_channel(port_id.name@, r->Ok_0.name@),
            ),
            r is Ok ==> final(self).spec_channel(port_id.name@, r->Ok_0.name@).is(
                ChannelState::TryOpen,
                ordering,
                counterparty_port_id.name@,
                counterparty_channel_id.name@,
                hop_names(connection_hops@),
                version@,
            ),
            r is Ok ==> final(self).counters@ == old(self).counters@.insert(
                spec_channel_counter_path(),
                (old(self).spec_channel_counter() + 1) as u64,
            ),
            r is Ok ==> final(self).values@ == old(self).values@,
            r is Ok ==> final(self).connections@ == old(self).connections@,
            old(self).acks_within_sends() ==> final(self).acks_within_sends(),
    {
        match self.check_hops(&connection_hops) {
            Err(e) => {
                return Err(e);
            },
            Ok(()) => {},
        }
        if !proof_verified {
            return Err(IbcError::ProofVerificationFailed);
        }
        let end = ChannelEnd {
            state: ChannelState::TryOpen,
            ordering,
            counterparty_port_id,
            counterparty_channel_id,
            connection_hops,
            version,
        };
        self.create_channel(port_id, end)
    }

    /// What moving the channel end (`port`, `chan`) from state `from` to
    /// another state yields; `needs_open_hop` asks in addition for its first
    /// connection to be open.
    pub open spec fn spec_chan_step_outcome(
        self,
        port: Seq<char>,
        chan: Seq<char>,
        from: ChannelState,
        needs_open_hop: bool,
        proof_verified: bool,
    ) -> Result<(), IbcError> {
        if !self.spec_has_channel(port, chan) {
            Err(IbcError::NotFound)
        } else if self.spec_channel(port, chan).state != from {
            Err(IbcError::InvalidState)
        } else if needs_open_hop && self.spec_hops_outcome(
            hop_names(self.spec_channel(port, chan).connection_hops@),
        ) is Err {
            self.spec_hops_outcome(hop_names(self.spec_channel(port, chan).connection_hops@))
        } else if !proof_verified {
            Err(IbcError::ProofVerificationFailed)
        } else {
            Ok(())
        }
    }

    /// Moves the channel end (`port_id`, `channel_id`) from `from` to `to`,
    /// recording the counterparty's channel id where one is given.
    fn step_channel(
        &mut self,
        port_id: &PortId,
        channel_id: &ChannelId,
        from: ChannelState,
        to: ChannelState,
        needs_open_hop: bool,
        counterparty_channel_id: Option<ChannelId>,
        proof_verified: bool,
    ) -> (r: Result<(), IbcError>)
        ensures
            r == old(self).spec_chan_step_outcome(
                port_id.name@,
                channel_id.name@,
                from,
                needs_open_hop,
                proof_verified,
            ),
            r is Err ==> *final(self) == *old(self),
            r is Ok ==> final(self).channels@ == old(self).channels@.insert(
                spec_channel_end_path(port_id.name@, channel_id.name@),
                final(self).spec_channel(port_id.name@, channel_id.name@),
            ),
            r is Ok ==> final(self).spec_channel(port_id.name@, channel_id.name@).is(
                to,
                old(self).spec_channel(port_id.name@, channel_id.name@).ordering,
                old(self).spec_channel(port_id.name@, channel_id.name@).counterparty_port_id.name@,
                match counterparty_channel_id {
                    Some(c) => c.name@,
                    None => old(self).spec_channel(
                        port_id.name@,
                        channel_id.name@,
                    ).counterparty_channel_id.name@,
                },
                hop_names(old(self).spec_channel(port_id.name@, channel_id.name@).connection_hops@),
                old(self).spec_channel(port_id.name@, channel_id.name@).version@,
            ),
            r is Ok ==> final(self).counters@ == old(self).counters@,
            r is Ok ==> final(self).values@ == old(self).values@,
            r is Ok ==> final(self).connections@ == old(self).connections@,
            old(self).acks_within_sends() ==> final(self).acks_within_sends(),
    {
        let mut next;
        match self.get_channel(channel_id, port_id) {
            None => {
                return Err(IbcError::NotFound);
            },
            Some(c) => {
                if c.state != from {
                    return Err(IbcError::InvalidState);
                }
                if needs_open_hop {
                    match self.check_hops(&c.connection_hops) {
                        Err(e) => {
                            return Err(e);
                        },
                        Ok(()) => {},
                    }
                }
                next = c.with_state(to);
            },
        }
        if !proof_verified {
            return Err(IbcError::ProofVerificationFailed);
        }
        match counterparty_channel_id {
            Some(c) => {
                next.counterparty_channel_id = c;
            },
            None => {},
        }
        self.put_channel(channel_id, port_id, next);
        proof {
            if old(self).acks_within_sends() {
                lemma_same_counters(*old(self), *self);
            }
        }
        Ok(())
    }

    /// Opens the channel end in state `Init` once the proof that the
    /// counterparty's end is `TryOpen` is verified, recording the
    /// counterparty's channel id.
    pub fn chan_open_ack(
        &mut self,
        port_id: &PortId,
        channel_id: &ChannelId,
        counterparty_channel_id: ChannelId,
        proof_verified: bool,
    ) -> (r: Result<(), IbcError>)
        ensures
            r == old(self).spec_chan_step_outcome(
                port_id.name@,
                channel_id.name@,
                ChannelState::Init,
                true,
                proof_verified,
            ),
            r is Err ==> *final(self) == *old(self),
            r is Ok ==> final(self).channels@ == old(self).channels@.insert(
                spec_channel_end_path(port_id.name@, channel_id.name@),
                final(self).spec_channel(port_id.name@, channel_id.name@),
            ),
            r is Ok ==> final(self).spec_channel(port_id.name@, channel_id.name@).is(
                ChannelState::Open,
                old(self).spec_channel(port_id.name@, channel_id.name@).ordering,
                old(self).spec_channel(port_id.name@, channel_id.name@).counterparty_port_id.name@,
                counterparty_channel_id.name@,
                hop_names(old(self).spec_channel(port_id.name@, channel_id.name@).connection_hops@),
                old(self).spec_channel(port_id.name@, channel_id.name@).version@,
            ),
            r is Ok ==> final(self).counters@ == old(self).counters@,
            r is Ok ==> final(self).values@ == old(self).values@,
            r is Ok ==> final(self).connections@ == old(self).connections@,
            old(self).acks_within_sends() ==> final(self).acks_within_sends(),
    {
        self.step_channel(
            port_id,
            channel_id,
            ChannelState::Init,
            ChannelState::Open,
            true,
            Some(counterparty_channel_id),
            proof_verified,
        )
    }

    /// Opens the channel end in state `TryOpen` once the proof that the
    /// counterparty's end is `Open` is verified.
    pub fn chan_open_confirm(&mut self, port_id: &PortId, channel_id: &ChannelId, proof_verified: bool) -> (r: Result<(), IbcError>)
        ensures
            r == old(self).spec_chan_step_outcome(
                port_id.name@,
                channel_id.name@,
                ChannelState::TryOpen,
                true,
                proof_verified,
            ),
            r is Err ==> *final(self) == *old(self),
            r is Ok ==> final(self).channels@ == old(self).channels@.insert(
                spec_channel_end_path(port_id.name@, channel_id.name@),
                final(self).spec_channel(port_id.name@, channel_id.name@),
            ),
            r is Ok ==> final(self).spec_channel(port_id.name@, channel_id.name@).state == ChannelState::Open,
            r is Ok ==> final(self).spec_channel(port_id.name@, channel_id.name@).same_but_state(
                old(self).spec_channel(port_id.name@, channel_id.name@),
            ),
            r is Ok ==> final(self).counters@ == old(self).counters@,
            r is Ok ==> final(self).values@ == old(self).values@,
            r is Ok ==> final(self).connections@ == old(self).connections@,
            old(self).acks_within_sends() ==> final(self).acks_within_sends(),
    {
        self.step_channel(
            port_id,
            channel_id,
            ChannelState::TryOpen,
            ChannelState::Open,
            true,
            None,
            proof_verified,
        )
    }

    /// Closes an open channel on this chain's own initiative.
    pub fn chan_close_init(&mut self, port_id: &PortId, channel_id: &ChannelId) -> (r: Result<(), IbcError>)
        ensures
            r == old(self).spec_chan_step_outcome(
                port_id.name@,
                channel_id.name@,
                ChannelState::Open,
                false,
                true,
            ),
            r is Err ==> *final(self) == *old(self),
            r is Ok ==> final(self).channels@ == old(self).channels@.insert(
                spec_channel_end_path(port_id.name@, channel_id.name@),
                final(self).spec_channel(port_id.name@, channel_id.name@),
            ),
            r is Ok ==> final(self).spec_channel(port_id.name@, channel_id.name@).state == ChannelState::Closed,
            r is Ok ==> final(self).spec_channel(port_id.name@, channel_id.name@).same_but_state(
                old(self).spec_channel(port_id.name@, channel_id.name@),
            ),
            r is Ok ==> final(self).counters@ == old(self).counters@,
            r is Ok ==> final(self).values@ == old(self).values@,
            r is Ok ==> final(self).connections@ == old(self).connections@,
            old(self).acks_within_sends() ==> final(self).acks_within_sends(),
    {
        self.step_channel(
            port_id,
            channel_id,
            ChannelState::Open,
            ChannelState::Closed,
            false,
            None,
            true,
        )
    }

    /// Closes an open channel once the proof that the counterparty has closed
    /// its end is verified.
    pub fn chan_close_confirm(&mut self, port_id: &PortId, channel_id: &ChannelId, proof_verified: bool) -> (r: Result<(), IbcError>)
        ensures
            r == old(self).spec_chan_step_outcome(
                port_id.name@,
                channel_id.name@,
                ChannelState::Open,
                false,
                proof_verified,
            ),
            r is Err ==> *final(self) == *old(self),
            r is Ok ==> final(self).channels@ == old(self).channels@.insert(
                spec_channel_end_path(port_id.name@, channel_id.name@),
                final(self).spec_channel(port_id.name@, channel_id.name@),
            ),
            r is Ok ==> final(self).spec_channel(port_id.name@, channel_id.name@).state == ChannelState::Closed,
            r is Ok ==> final(self).spec_channel(port_id.name@, channel_id.name@).same_but_state(
                old(self).spec_channel(port_id.name@, channel_id.name@),
            ),
            r is Ok ==> final(self).counters@ == old(self).counters@,
            r is Ok ==> final(self).values@ == old(self).values@,
            r is Ok ==> final(self).connections@ == old(self).connections@,
            old(self).acks_within_sends() ==> final(self).acks_within_sends(),
    {
        self.step_channel(
            port_id,
            channel_id,
            ChannelState::Open,
            ChannelState::Closed,
            false,
            None,
            proof_verified,
        )
    }
}

} // verus!
