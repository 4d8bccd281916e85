use vstd::prelude::*;
use vstd::string::*;

use crate::path::{ChannelId, ClientId, ConnectionId, PortId};

verus! {

/// Why an action was rejected. A rejected action leaves the state unchanged.
#[derive(Clone, Copy, PartialEq, Eq, Structural, Debug)]
pub enum IbcError {
    /// A connection, channel or packet commitment is missing.
    NotFound,
    /// The entity is in the wrong state for the requested transition.
    InvalidState,
    /// The counterparty chain's state could not be confirmed.
    ProofVerificationFailed,
    /// A packet arrived out of order, twice, or past the last one sent.
    SequenceViolation,
    /// The packet's timeout bound has not been reached yet.
    TimeoutNotElapsed,
    /// The packet's timeout bound has already been reached.
    AlreadyTimedOut,
    /// The packet carries neither a timeout height nor a timeout timestamp.
    InvalidPacket,
    /// The stored commitment is not the commitment of the packet given.
    CommitmentMismatch,
    /// A counter is at its largest value and cannot advance.
    CounterOverflow,
}

#[derive(Clone, Copy, PartialEq, Eq, Structural, Debug)]
pub enum ConnectionState {
    Init,
    TryOpen,
    Open,
}

#[derive(Clone, Copy, PartialEq, Eq, Structural, Debug)]
pub enum ChannelState {
    Init,
    TryOpen,
    Open,
    Closed,
}

#[derive(Clone, Copy, PartialEq, Eq, Structural, Debug)]
pub enum Order {
    Unordered,
    Ordered,
}

/// One chain's end of a connection between two light clients.
pub struct ConnectionEnd {
    pub state: ConnectionState,
    pub client_id: ClientId,
    pub counterparty_client_id: ClientId,
    /// Empty until the counterparty has assigned its id.
    pub counterparty_connection_id: ConnectionId,
    pub counterparty_prefix: String,
    pub version: String,
    pub delay_period: u64,
}

/// One chain's end of a channel, keyed by its port and channel id.
pub struct ChannelEnd {
    pub state: ChannelState,
    pub ordering: Order,
    pub counterparty_port_id: PortId,
    /// Empty until the counterparty has assigned its id.
    pub counterparty_channel_id: ChannelId,
    pub connection_hops: Vec<ConnectionId>,
    pub version: String,
}

impl View for ConnectionEnd {
    type V = ConnectionEnd;

    open spec fn view(&self) -> ConnectionEnd {
        *self
    }
}

impl View for ChannelEnd {
    type V = ChannelEnd;

    open spec fn view(&self) -> ChannelEnd {
        *self
    }
}

pub open spec fn hop_names(hops: Seq<ConnectionId>) -> Seq<Seq<char>> {
    hops.map_values(|h: ConnectionId| h.name@)
}

impl ConnectionEnd {
    /// The connection end holds exactly these fields.
    pub open spec fn is(
        self,
        state: ConnectionState,
        client_id: Seq<char>,
        counterparty_client_id: Seq<char>,
        counterparty_connection_id: Seq<char>,
        counterparty_prefix: Seq<char>,
        version: Seq<char>,
        delay_period: u64,
    ) -> bool {
        &&& self.state == state
        &&& self.client_id.name@ == client_id
        &&& self.counterparty_client_id.name@ == counterparty_client_id
        &&& self.counterparty_connection_id.name@ == counterparty_connection_id
        &&& self.counterparty_prefix@ == counterparty_prefix
        &&& self.version@ == version
        &&& self.delay_period == delay_period
    }

    /// `self` and `other` agree on everything but the state.
    pub open spec fn same_but_state(self, other: ConnectionEnd) -> bool {
        &&& self.client_id.name@ == other.client_id.name@
        &&& self.counterparty_client_id.name@ == other.counterparty_client_id.name@
        &&& self.counterparty_connection_id.name@ == other.counterparty_connection_id.name@
        &&& self.counterparty_prefix@ == other.counterparty_prefix@
        &&& self.version@ == other.version@
        &&& self.delay_period == other.delay_period
    }

    /// A copy of `self` in state `state`.
    pub fn with_state(&self, state: ConnectionState) -> (r: ConnectionEnd)
        ensures
            r.state == state,
            r.same_but_state(*self),
    {
        ConnectionEnd {
            state,
            client_id: self.client_id.duplicate(),
            counterparty_client_id: self.counterparty_client_id.duplicate(),
            counterparty_connection_id: self.counterparty_connection_id.duplicate(),
            counterparty_prefix: self.counterparty_prefix.clone(),
            version: self.version.clone(),
            delay_period: self.delay_period,
        }
    }
}

impl ChannelEnd {
    /// The channel end holds exactly these fields.
    pub open spec fn is(
        self,
        state: ChannelState,
        ordering: Order,
        counterparty_port_id: Seq<char>,
        counterparty_channel_id: Seq<char>,
        hops: Seq<Seq<char>>,
        version: Seq<char>,
    ) -> bool {
        &&& self.state == state
        &&& self.ordering == ordering
        &&& self.counterparty_port_id.name@ == counterparty_port_id
        &&& self.counterparty_channel_id.name@ == counterparty_channel_id
        &&& hop_names(self.connection_hops@) == hops
        &&& self.version@ == version
    }

    /// `self` and `other` agree on everything but the state.
    pub open spec fn same_but_state(self, other: ChannelEnd) -> bool {
        &&& self.ordering == other.ordering
        &&& self.counterparty_port_id.name@ == other.counterparty_port_id.name@
        &&& self.counterparty_channel_id.name@ == other.counterparty_channel_id.name@
        &&& hop_names(self.connection_hops@) == hop_names(other.connection_hops@)
        &&& self.version@ == other.version@
    }

    /// A copy of `self` in state `state`.
    pub fn with_state(&self, state: ChannelState) -> (r: ChannelEnd)
        ensures
            r.state == state,
            r.same_but_state(*self),
    {
        let mut hops: Vec<ConnectionId> = Vec::new();
        let mut i: usize = 0;
        while i < self.connection_hops.len()
            invariant
                i <= self.connection_hops@.len(),
                hops@.len() == i,
                forall|j: int| 0 <= j < i ==> #[trigger] hops@[j].name@ == self.connection_hops@[j].name@,
            decreases self.connection_hops@.len() - i,
        {
            hops.push(self.connection_hops[i].duplicate());
            i = i + 1;
        }
        assert(hop_names(hops@) =~= hop_names(self.connection_hops@));
        ChannelEnd {
            state,
            ordering: self.ordering,
            counterparty_port_id: self.counterparty_port_id.duplicate(),
            counterparty_channel_id: self.counterparty_channel_id.duplicate(),
            connection_hops: hops,
            version: self.version.clone(),
        }
    }
}

} // verus!
