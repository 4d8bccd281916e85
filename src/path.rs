use vstd::prelude::*;
use vstd::string::*;

verus! {

/// The decimal digit `d` as text.
pub open spec fn digit(d: nat) -> Seq<char> {
    if d == 0 {
        "0"@
    } else if d == 1 {
        "1"@
    } else if d == 2 {
        "2"@
    } else if d == 3 {
        "3"@
    } else if d == 4 {
        "4"@
    } else if d == 5 {
        "5"@
    } else if d == 6 {
        "6"@
    } else if d == 7 {
        "7"@
    } else if d == 8 {
        "8"@
    } else {
        "9"@
    }
}

/// `n` written in decimal, without leading zeros.
pub open spec fn decimal(n: nat) -> Seq<char>
    decreases n,
{
    if n < 10 {
        digit(n)
    } else {
        decimal(n / 10) + digit(n % 10)
    }
}

fn digit_str(d: u64) -> (r: &'static str)
    requires
        d < 10,
    ensures
        r@ == digit(d as nat),
{
    if d == 0 {
        "0"
    } else if d == 1 {
        "1"
    } else if d == 2 {
        "2"
    } else if d == 3 {
        "3"
    } else if d == 4 {
        "4"
    } else if d == 5 {
        "5"
    } else if d == 6 {
        "6"
    } else if d == 7 {
        "7"
    } else if d == 8 {
        "8"
    } else {
        "9"
    }
}

/// Appends `n` in decimal to `out`.
pub fn append_decimal(out: &mut String, n: u64)
    ensures
        final(out)@ == old(out)@ + decimal(n as nat),
    decreases n,
{
    if n >= 10 {
        append_decimal(out, n / 10);
        out.append(digit_str(n % 10));
        assert(out@ =~= old(out)@ + decimal(n as nat));
    } else {
        out.append(digit_str(n));
    }
}


/// The name of a port, the application end of a channel.
pub struct PortId {
    pub name: String,
}

/// The name of a channel on one chain, `channel-{n}` when this chain assigned it.
pub struct ChannelId {
    pub name: String,
}

/// The name of a connection on one chain, `connection-{n}` when this chain assigned it.
pub struct ConnectionId {
    pub name: String,
}

/// The name of a light client on one chain.
pub struct ClientId {
    pub name: String,
}

pub open spec fn spec_channel_name(n: nat) -> Seq<char> {
    "channel-"@ + decimal(n)
}

pub open spec fn spec_connection_name(n: nat) -> Seq<char> {
    "connection-"@ + decimal(n)
}

impl PortId {
    pub fn from_str(name: &str) -> (r: Self)
        ensures
            r.name@ == name@,
    {
        PortId { name: String::from_str(name) }
    }

    pub fn duplicate(&self) -> (r: Self)
        ensures
            r.name@ == self.name@,
    {
        PortId { name: self.name.clone() }
    }
}

impl ChannelId {
    /// The identifier that the channel counter value `n` stands for.
    pub fn new(n: u64) -> (r: Self)
        ensures
            r.name@ == spec_channel_name(n as nat),
    {
        let mut name = String::from_str("channel-");
        append_decimal(&mut name, n);
        ChannelId { name }
    }

    pub fn from_str(name: &str) -> (r: Self)
        ensures
            r.name@ == name@,
    {
        ChannelId { name: String::from_str(name) }
    }

    pub fn duplicate(&self) -> (r: Self)
        ensures
            r.name@ == self.name@,
    {
        ChannelId { name: self.name.clone() }
    }
}

impl ConnectionId {
    /// The identifier that the connection counter value `n` stands for.
    pub fn new(n: u64) -> (r: Self)
        ensures
            r.name@ == spec_connection_name(n as nat),
    {
        let mut name = String::from_str("connection-");
        append_decimal(&mut name, n);
        ConnectionId { name }
    }

    pub fn from_str(name: &str) -> (r: Self)
        ensures
            r.name@ == name@,
    {
        ConnectionId { name: String::from_str(name) }
    }

    pub fn duplicate(&self) -> (r: Self)
        ensures
            r.name@ == self.name@,
    {
        ConnectionId { name: self.name.clone() }
    }
}

impl ClientId {
    pub fn from_str(name: &str) -> (r: Self)
        ensures
            r.name@ == name@,
    {
        ClientId { name: String::from_str(name) }
    }

    pub fn duplicate(&self) -> (r: Self)
        ensures
            r.name@ == self.name@,
    {
        ClientId { name: self.name.clone() }
    }
}

pub open spec fn spec_port_channel_path(kind: Seq<char>, port: Seq<char>, chan: Seq<char>) -> Seq<char> {
    kind + "/ports/"@ + port + "/channels/"@ + chan
}

pub open spec fn spec_sequence_path(kind: Seq<char>, port: Seq<char>, chan: Seq<char>, seq: nat) -> Seq<char> {
    spec_port_channel_path(kind, port, chan) + "/sequences/"@ + decimal(seq)
}

/// Where the channel id counter is kept.
pub open spec fn spec_channel_counter_path() -> Seq<char> {
    "ibc_channel_counter"@
}

/// Where the connection id counter is kept.
pub open spec fn spec_connection_counter_path() -> Seq<char> {
    "ibc_connection_counter"@
}

pub open spec fn spec_connection_path(conn: Seq<char>) -> Seq<char> {
    "connections/"@ + conn
}

pub open spec fn spec_channel_end_path(port: Seq<char>, chan: Seq<char>) -> Seq<char> {
    spec_port_channel_path("channelEnds"@, port, chan)
}

pub open spec fn spec_seq_send_path(port: Seq<char>, chan: Seq<char>) -> Seq<char> {
    spec_port_channel_path("nextSequenceSend"@, port, chan)
}

pub open spec fn spec_seq_recv_path(port: Seq<char>, chan: Seq<char>) -> Seq<char> {
    spec_port_channel_path("nextSequenceRecv"@, port, chan)
}

pub open spec fn spec_seq_ack_path(port: Seq<char>, chan: Seq<char>) -> Seq<char> {
    spec_port_channel_path("nextSequenceAck"@, port, chan)
}

pub open spec fn spec_commitment_path(port: Seq<char>, chan: Seq<char>, seq: nat) -> Seq<char> {
    spec_sequence_path("commitments"@, port, chan, seq)
}

pub open spec fn spec_receipt_path(port: Seq<char>, chan: Seq<char>, seq: nat) -> Seq<char> {
    spec_sequence_path("receipts"@, port, chan, seq)
}

pub open spec fn spec_ack_path(port: Seq<char>, chan: Seq<char>, seq: nat) -> Seq<char> {
    spec_sequence_path("acks"@, port, chan, seq)
}

fn port_channel_path(kind: &str, port: &PortId, chan: &ChannelId) -> (r: String)
    ensures
        r@ == spec_port_channel_path(kind@, port.name@, chan.name@),
{
    let mut s = String::from_str(kind);
    s.append("/ports/");
    s.append(port.name.as_str());
    s.append("/channels/");
    s.append(chan.name.as_str());
    s
}

fn sequence_path(kind: &str, port: &PortId, chan: &ChannelId, seq: u64) -> (r: String)
    ensures
        r@ == spec_sequence_path(kind@, port.name@, chan.name@, seq as nat),
{
    let mut s = port_channel_path(kind, port, chan);
    s.append("/sequences/");
    append_decimal(&mut s, seq);
    s
}

pub fn channel_counter_path() -> (r: String)
    ensures
        r@ == spec_channel_counter_path(),
{
    String::from_str("ibc_channel_counter")
}

pub fn connection_counter_path() -> (r: String)
    ensures
        r@ == spec_connection_counter_path(),
{
    String::from_str("ibc_connection_counter")
}

pub fn connection_path(conn: &ConnectionId) -> (r: String)
    ensures
        r@ == spec_connection_path(conn.name@),
{
    let mut s = String::from_str("connections/");
    s.append(conn.name.as_str());
    s
}

pub fn channel_end_path(port: &PortId, chan: &ChannelId) -> (r: String)
    ensures
        r@ == spec_channel_end_path(port.name@, chan.name@),
{
    port_channel_path("channelEnds", port, chan)
}

pub fn seq_send_path(port: &PortId, chan: &ChannelId) -> (r: String)
    ensures
        r@ == spec_seq_send_path(port.name@, chan.name@),
{
    port_channel_path("nextSequenceSend", port, chan)
}

pub fn seq_recv_path(port: &PortId, chan: &ChannelId) -> (r: String)
    ensures
        r@ == spec_seq_recv_path(port.name@, chan.name@),
{
    port_channel_path("nextSequenceRecv", port, chan)
}

pub fn seq_ack_path(port: &PortId, chan: &ChannelId) -> (r: String)
    ensures
        r@ == spec_seq_ack_path(port.name@, chan.name@),
{
    port_channel_path("nextSequenceAck", port, chan)
}

pub fn commitment_path(port: &PortId, chan: &ChannelId, seq: u64) -> (r: String)
    ensures
        r@ == spec_commitment_path(port.name@, chan.name@, seq as nat),
{
    sequence_path("commitments", port, chan, seq)
}

pub fn receipt_path(port: &PortId, chan: &ChannelId, seq: u64) -> (r: String)
    ensures
        r@ == spec_receipt_path(port.name@, chan.name@, seq as nat),
{
    sequence_path("receipts", port, chan, seq)
}

pub fn ack_path(port: &PortId, chan: &ChannelId, seq: u64) -> (r: String)
    ensures
        r@ == spec_ack_path(port.name@, chan.name@, seq as nat),
{
    sequence_path("acks", port, chan, seq)
}

/// What follows the kind in a per-channel path.
pub open spec fn spec_channel_suffix(port: Seq<char>, chan: Seq<char>) -> Seq<char> {
    "/ports/"@ + port + "/channels/"@ + chan
}

pub proof fn lemma_port_channel_path_split(kind: Seq<char>, port: Seq<char>, chan: Seq<char>)
    ensures
        spec_port_channel_path(kind, port, chan) == kind + spec_channel_suffix(port, chan),
{
    assert(spec_port_channel_path(kind, port, chan) =~= kind + spec_channel_suffix(port, chan));
}

pub proof fn lemma_prefix_cancel(a: Seq<char>, s: Seq<char>, t: Seq<char>)
    requires
        a + s == a + t,
    ensures
        s == t,
{
    assert(s =~= (a + s).subrange(a.len() as int, (a + s).len() as int));
    assert(t =~= (a + t).subrange(a.len() as int, (a + t).len() as int));
}

/// The three sequence counters of any channels, and the id counters, are kept
/// under pairwise distinct keys.
pub proof fn lemma_counter_keys_distinct(s: Seq<char>, t: Seq<char>)
    ensures
        "nextSequenceAck"@ + s != "nextSequenceSend"@ + t,
        "nextSequenceRecv"@ + s != "nextSequenceSend"@ + t,
        "nextSequenceRecv"@ + s != "nextSequenceAck"@ + t,
        spec_channel_counter_path() != "nextSequenceSend"@ + t,
        spec_channel_counter_path() != "nextSequenceAck"@ + t,
        spec_connection_counter_path() != "nextSequenceSend"@ + t,
        spec_connection_counter_path() != "nextSequenceAck"@ + t,
{
    reveal_strlit("nextSequenceAck");
    reveal_strlit("nextSequenceSend");
    reveal_strlit("nextSequenceRecv");
    reveal_strlit("ibc_channel_counter");
    reveal_strlit("ibc_connection_counter");
    assert(("nextSequenceAck"@ + s)[12] == 'A');
    assert(("nextSequenceRecv"@ + s)[12] == 'R');
    assert(("nextSequenceSend"@ + t)[12] == 'S');
    assert(("nextSequenceAck"@ + t)[12] == 'A');
    assert(("nextSequenceSend"@ + t)[0] == 'n');
    assert(("nextSequenceAck"@ + t)[0] == 'n');
    assert(spec_channel_counter_path()[0] == 'i');
    assert(spec_connection_counter_path()[0] == 'i');
}

} // verus!
