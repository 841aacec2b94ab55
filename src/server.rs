//! The server state machine: admission of new peers, the handshake and the
//! per-client packet rules, outbound sequencing and the timer sweep.
use vstd::prelude::*;
use crate::connection::{
    ClientId, Connection, ConnectionState, KEY_BYTES, PeerAddr, RetryState, ServerEvent,
    state_within, tick_client, tick_spec,
};
use crate::table::ClientTable;

verus! {

/// Largest datagram the protocol sends or receives.
pub const MAX_PACKET_SIZE: usize = 1200;

/// Length of the user data carried in tokens.
pub const USER_DATA_BYTES: usize = 256;

/// Length of the protocol's version tag.
pub const VERSION_BYTES: usize = 13;

/// The protocol's version tag, `NETCODE 1.01` followed by a zero byte.
pub open spec fn version_tag() -> Seq<u8> {
    seq![78u8, 69u8, 84u8, 67u8, 79u8, 68u8, 69u8, 32u8, 49u8, 46u8, 48u8, 49u8, 0u8]
}

/// Errors from creating a server.
#[derive(Clone, Copy, Debug, PartialEq, Eq, Structural)]
pub enum CreateError {
    /// Address is already in use.
    AddrInUse,
    /// Address is not available.
    AddrNotAvailable,
    /// Another I/O error.
    GenericIo,
}

/// Errors from sending packets.
#[derive(Clone, Copy, Debug, PartialEq, Eq, Structural)]
pub enum SendError {
    /// No connection holds the client id used for sending.
    InvalidClientId,
    /// The packet could not be encoded.
    PacketEncodeError,
    /// The socket refused the datagram.
    SocketError,
}

/// Errors internal to the protocol.
#[derive(Clone, Copy, Debug, PartialEq, Eq, Structural)]
pub enum InternalError {
    ChallengeEncodeError,
}

/// Errors from driving the server.
#[derive(Clone, Copy, Debug, PartialEq, Eq, Structural)]
pub enum UpdateError {
    /// The caller's buffer is smaller than `MAX_PACKET_SIZE`.
    PacketBufferTooSmall,
    SocketError,
    SendError(SendError),
    Internal(InternalError),
}

/// The plaintext of a connect token's private part.
#[derive(Clone, Copy, Debug)]
pub struct PrivateData {
    pub client_id: ClientId,
    pub server_to_client_key: [u8; KEY_BYTES],
    pub client_to_server_key: [u8; KEY_BYTES],
    pub user_data: [u8; USER_DATA_BYTES],
}

/// The plaintext of a challenge token.
#[derive(Clone, Copy, Debug)]
pub struct ChallengeToken {
    pub client_id: ClientId,
    pub user_data: [u8; USER_DATA_BYTES],
}

/// The clear fields of a connection request.
#[derive(Clone, Copy, Debug)]
pub struct ConnectRequest {
    pub version: [u8; VERSION_BYTES],
    pub protocol_id: u64,
    pub token_expire: u64,
    pub sequence: u64,
}

/// A datagram from an unknown peer, as the codec read it without a key.
#[derive(Clone, Copy, Debug)]
pub enum NewPeerPacket {
    /// A connection request, with its private data as unsealed under the
    /// connect key (`None` when unsealing failed).
    ConnectionRequest(ConnectRequest, Option<PrivateData>),
    /// Another packet kind, by its type id.
    Other(u8),
    /// The codec could not read the datagram.
    Malformed,
}

/// A non-empty datagram from a known peer, as the codec read it under the
/// connection's client-to-server key.
#[derive(Clone, Copy, Debug)]
pub enum Inbound {
    DecodeFailed,
    Payload(usize),
    KeepAlive,
    Disconnect,
    /// A challenge response, with its token as unsealed under the challenge
    /// key (`None` when unsealing failed).
    Response(Option<ChallengeToken>),
    /// Another packet kind, by its type id.
    Other(u8),
}

/// Where and how to seal one outbound packet.
#[derive(Clone, Copy, Debug)]
pub struct OutboundFrame {
    pub sequence: u64,
    pub key: [u8; KEY_BYTES],
    pub addr: PeerAddr,
}

/// What admission of a valid connection request asks the host to send.
#[derive(Clone, Copy, Debug)]
pub enum Admission {
    /// Seal a challenge token for `client_id` and `user_data` under the
    /// challenge key with nonce `challenge_sequence`, and send it as a
    /// `Challenge` packet in `frame`.
    Challenge {
        client_id: ClientId,
        user_data: [u8; USER_DATA_BYTES],
        challenge_sequence: u64,
        frame: OutboundFrame,
    },
    /// Send a `ConnectionDenied` packet in the frame.
    Denied(OutboundFrame),
}

impl Admission {
    pub open spec fn event_spec(self) -> ServerEvent {
        match self {
            Admission::Challenge { client_id, .. } => ServerEvent::ClientConnect(client_id),
            Admission::Denied(_) => ServerEvent::ClientSlotFull,
        }
    }

    /// The event to surface once the admission's packet is sent.
    pub fn event(&self) -> (e: ServerEvent)
        ensures
            e == self.event_spec(),
    {
        match self {
            Admission::Challenge { client_id, .. } => ServerEvent::ClientConnect(*client_id),
            Admission::Denied(_) => ServerEvent::ClientSlotFull,
        }
    }
}

/// Whether `v` is the protocol's version tag.
pub fn is_current_version(v: &[u8; VERSION_BYTES]) -> (r: bool)
    ensures
        r == (v@ == version_tag()),
{
    let tag: [u8; VERSION_BYTES] = [78, 69, 84, 67, 79, 68, 69, 32, 49, 46, 48, 49, 0];
    assert(tag@ =~= version_tag());
    let mut i: usize = 0;
    while i < VERSION_BYTES
        invariant
            i <= VERSION_BYTES,
            v@.len() == VERSION_BYTES,
            tag@ == version_tag(),
            forall|j: int| 0 <= j < i ==> v@[j] == tag@[j],
        decreases VERSION_BYTES - i,
    {
        if v[i] != tag[i] {
            return false;
        }
        i += 1;
    }
    assert(v@ =~= version_tag());
    true
}

/// Fails with `PacketBufferTooSmall` when a caller's buffer of `len` bytes
/// cannot hold the largest packet.
pub fn check_out_buffer(len: usize) -> (r: Result<(), UpdateError>)
    ensures
        r == (if len < MAX_PACKET_SIZE {
            Err(UpdateError::PacketBufferTooSmall)
        } else {
            Ok(())
        }),
{
    if len < MAX_PACKET_SIZE {
        Err(UpdateError::PacketBufferTooSmall)
    } else {
        Ok(())
    }
}

/// A buffer whose first `USER_DATA_BYTES` bytes are `user_data` and whose
/// remaining bytes are those of `before`.
pub open spec fn with_user_data(before: Seq<u8>, user_data: Seq<u8>) -> Seq<u8> {
    user_data + before.subrange(USER_DATA_BYTES as int, before.len() as int)
}

/// Copies a challenge token's user data to the front of the caller's buffer.
pub fn copy_user_data(out: &mut [u8; MAX_PACKET_SIZE], user_data: &[u8; USER_DATA_BYTES])
    ensures
        final(out)@ == with_user_data(old(out)@, user_data@),
{
    let mut i: usize = 0;
    while i < USER_DATA_BYTES
        invariant
            i <= USER_DATA_BYTES,
            out@.len() == MAX_PACKET_SIZE,
            forall|j: int| 0 <= j < i ==> out@[j] == user_data@[j],
            forall|j: int| i <= j < MAX_PACKET_SIZE ==> out@[j] == old(out)@[j],
        decreases USER_DATA_BYTES - i,
    {
        out[i] = user_data[i];
        i += 1;
    }
    assert(out@ =~= with_user_data(old(out)@, user_data@));
}

/// The private data that a datagram from a new peer admits, if any: a
/// connection request of the current version, for `protocol_id`, whose token
/// expires after `now` and whose private data unsealed.
pub open spec fn admitted_token(protocol_id: u64, pkt: NewPeerPacket, now: u64) -> Option<
    PrivateData,
> {
    match pkt {
        NewPeerPacket::ConnectionRequest(req, unsealed) => if req.version@ == version_tag()
            && req.protocol_id == protocol_id && req.token_expire > now {
            unsealed
        } else {
            None
        },
        _ => None,
    }
}

/// A fresh retry record at `time`.
pub open spec fn fresh(time: u64) -> RetryState {
    RetryState { last_update: time, last_retry: 0, retry_count: 0 }
}

/// The connection that admission creates.
pub open spec fn new_connection(pd: PrivateData, addr: PeerAddr, time: u64) -> Connection {
    Connection {
        client_id: pd.client_id,
        state: ConnectionState::PendingResponse(fresh(time)),
        server_to_client_key: pd.server_to_client_key,
        client_to_server_key: pd.client_to_server_key,
        addr,
    }
}

/// A pending connection's state after its connection request arrived again:
/// the retransmission timer restarts and the retry count goes up (saturating).
pub open spec fn repeated_request(s: ConnectionState) -> ConnectionState {
    match s {
        ConnectionState::PendingResponse(r) => ConnectionState::PendingResponse(
            RetryState {
                last_retry: 0,
                retry_count: if r.retry_count < u64::MAX {
                    (r.retry_count + 1) as u64
                } else {
                    r.retry_count
                },
                ..r
            },
        ),
        _ => s,
    }
}

/// What a non-empty datagram does to a connection at `time`: the result
/// surfaced and the connection's next state.
pub open spec fn packet_spec(time: u64, c: Connection, d: Inbound) -> (
    Result<Option<ServerEvent>, UpdateError>,
    ConnectionState,
) {
    match d {
        Inbound::DecodeFailed => (
            Ok(Some(ServerEvent::ClientDisconnect(c.client_id))),
            ConnectionState::Disconnected,
        ),
        _ => match c.state {
            ConnectionState::Connected | ConnectionState::Idle(_) => match d {
                Inbound::Payload(len) => (
                    Ok(Some(ServerEvent::Packet(c.client_id, len))),
                    ConnectionState::Idle(fresh(time)),
                ),
                Inbound::KeepAlive => (Ok(None), ConnectionState::Idle(fresh(time))),
                _ => (
                    Ok(Some(ServerEvent::ClientDisconnect(c.client_id))),
                    ConnectionState::Disconnected,
                ),
            },
            ConnectionState::PendingResponse(_) => match d {
                Inbound::Response(Some(tok)) => (
                    Ok(Some(ServerEvent::ClientConnect(tok.client_id))),
                    ConnectionState::Idle(fresh(time)),
                ),
                Inbound::Response(None) => (
                    Err(UpdateError::Internal(InternalError::ChallengeEncodeError)),
                    c.state,
                ),
                _ => (
                    Ok(Some(ServerEvent::ClientDisconnect(c.client_id))),
                    ConnectionState::Disconnected,
                ),
            },
            _ => (Ok(None), c.state),
        },
    }
}

/// A slot after a timer tick.
pub open spec fn slot_after_tick(time: u64, s: Option<Connection>) -> Option<Connection> {
    match s {
        None => None,
        Some(c) => if tick_spec(time, c).0 {
            None
        } else {
            Some(Connection { state: tick_spec(time, c).2, ..c })
        },
    }
}

/// The event a timer tick surfaces for a slot.
pub open spec fn slot_event(time: u64, s: Option<Connection>) -> Option<ServerEvent> {
    match s {
        None => None,
        Some(c) => tick_spec(time, c).1,
    }
}

/// `after` is `before` with the slots in `[from, to)` ticked at `time`.
pub open spec fn swept(
    time: u64,
    before: Seq<Option<Connection>>,
    after: Seq<Option<Connection>>,
    from: int,
    to: int,
) -> bool {
    after.len() == before.len() && forall|j: int|
        0 <= j < before.len() ==> #[trigger] after[j] == if from <= j < to {
            slot_after_tick(time, before[j])
        } else {
            before[j]
        }
}

/// No slot in `[from, to)` surfaces an event when ticked at `time`.
pub open spec fn quiet(time: u64, before: Seq<Option<Connection>>, from: int, to: int) -> bool {
    forall|j: int| from <= j < to ==> #[trigger] slot_event(time, before[j]) is None
}

/// The listening endpoint's state, free of I/O.
pub struct Server {
    pub protocol_id: u64,
    pub connect_key: [u8; KEY_BYTES],
    pub clients: ClientTable,
    /// Milliseconds since construction.
    pub time: u64,
    pub send_sequence: u64,
    pub challenge_sequence: u64,
    pub challenge_key: [u8; KEY_BYTES],
    /// Where the timer sweep resumes.
    pub client_event_idx: usize,
}

impl Server {
    pub open spec fn wf(&self) -> bool {
        &&& self.clients.unique()
        &&& self.clients.within(self.time)
        &&& self.client_event_idx <= self.clients.len()
    }

    /// Everything but the client table and the sweep cursor is as in `o`.
    pub open spec fn same_config(&self, o: &Server) -> bool {
        &&& self.protocol_id == o.protocol_id
        &&& self.connect_key == o.connect_key
        &&& self.challenge_key == o.challenge_key
        &&& self.time == o.time
    }

    /// A server with `max_clients` empty slots, at time zero.
    pub fn new(
        max_clients: usize,
        protocol_id: u64,
        private_key: &[u8; KEY_BYTES],
        challenge_key: [u8; KEY_BYTES],
    ) -> (s: Server)
        ensures
            s.wf(),
            s.clients.len() == max_clients,
            forall|i: int| 0 <= i < max_clients ==> !(#[trigger] s.clients.occupied(i)),
            s.protocol_id == protocol_id,
            s.connect_key == *private_key,
            s.challenge_key == challenge_key,
            s.time == 0,
            s.send_sequence == 0,
            s.challenge_sequence == 0,
            s.client_event_idx == 0,
    {
        let clients = ClientTable::with_capacity(max_clients);
        Server {
            protocol_id,
            connect_key: *private_key,
            clients,
            time: 0,
            send_sequence: 0,
            challenge_sequence: 0,
            challenge_key,
            client_event_idx: 0,
        }
    }

    pub fn get_challenge_key(&self) -> (r: &[u8; KEY_BYTES])
        ensures
            *r == self.challenge_key,
    {
        &self.challenge_key
    }

    /// Advances time by `elapsed` milliseconds.
    pub fn update(&mut self, elapsed: u64)
        requires
            old(self).wf(),
            old(self).time + elapsed <= u64::MAX,
        ensures
            final(self).wf(),
            *final(self) == (Server { time: (old(self).time + elapsed) as u64, ..*old(self) }),
    {
        self.time = self.time + elapsed;
    }

    /// The slot holding client `id`, if any.
    pub fn find_client_by_id(&self, id: ClientId) -> (r: Option<usize>)
        ensures
            match r {
                Some(i) => self.clients.holds_id(i as int, id),
                None => !self.clients.has_id(id),
            },
    {
        self.clients.find_by_id(id)
    }

    /// The slot bound to peer address `addr`, if any.
    pub fn find_client_by_addr(&self, addr: &PeerAddr) -> (r: Option<usize>)
        ensures
            match r {
                Some(i) => self.clients.holds_addr(i as int, *addr),
                None => !self.clients.has_addr(*addr),
            },
    {
        self.clients.find_by_addr(addr)
    }
}

/// One admission of client `pd` from `addr`, taking `before` to `after` and
/// asking the host for `r`.
pub open spec fn admission_step(
    before: Server,
    after: Server,
    addr: PeerAddr,
    pd: PrivateData,
    r: Admission,
) -> bool {
    &&& (after.wf())
    &&& (after.same_config(&before))
    &&& (after.client_event_idx == before.client_event_idx)
    &&& (after.send_sequence == before.send_sequence + 1)
    &&& (after.clients.len() == before.clients.len())
    &&& (before.clients.has_id(pd.client_id) ==> exists|i: int|
        #[trigger] before.clients.holds_id(i, pd.client_id)
        && after.clients.slots@ == before.clients.slots@.update(
            i,
            Some(Connection { state: repeated_request(before.clients.slot(i).state), ..before.clients.slot(i) }),
        ) && after.challenge_sequence == before.challenge_sequence + 1
        && r == (Admission::Challenge {
            client_id: pd.client_id,
            user_data: pd.user_data,
            challenge_sequence: after.challenge_sequence,
            frame: OutboundFrame {
                sequence: after.send_sequence,
                key: before.clients.slot(i).server_to_client_key,
                addr: before.clients.slot(i).addr,
            },
        })
    )
    &&& (!before.clients.has_id(pd.client_id) && !before.clients.is_full() ==> exists|i: int|
        0 <= i < before.clients.len() && !#[trigger] before.clients.occupied(i)
        && (forall|j: int| 0 <= j < i ==> before.clients.occupied(j))
        && after.clients.slots@ == before.clients.slots@.update(
            i,
            Some(new_connection(pd, addr, before.time)),
        ) && after.challenge_sequence == before.challenge_sequence + 1
        && r == (Admission::Challenge {
            client_id: pd.client_id,
            user_data: pd.user_data,
            challenge_sequence: after.challenge_sequence,
            frame: OutboundFrame {
                sequence: after.send_sequence,
                key: pd.server_to_client_key,
                addr: addr,
            },
        })
    )
    &&& (!before.clients.has_id(pd.client_id) && before.clients.is_full() ==> {
        &&& after.clients == before.clients
        &&& after.challenge_sequence == before.challenge_sequence
        &&& r == Admission::Denied(
            OutboundFrame {
                sequence: after.send_sequence,
                key: pd.server_to_client_key,
                addr: addr,
            },
        )
    })
}

impl Server {
    /// Takes the next send sequence and frames a packet for client
    /// `client_id` under its server-to-client key.
    pub fn send_packet(&mut self, client_id: ClientId) -> (r: Result<OutboundFrame, SendError>)
        requires
            old(self).send_sequence < u64::MAX,
        ensures
            *final(self) == (Server { send_sequence: (old(self).send_sequence + 1) as u64, ..*old(self) }),
            match r {
                Ok(f) => exists|i: int|
                    #[trigger] old(self).clients.holds_id(i, client_id) && f == (OutboundFrame {
                        sequence: final(self).send_sequence,
                        key: old(self).clients.slot(i).server_to_client_key,
                        addr: old(self).clients.slot(i).addr,
                    }),
                Err(e) => e == SendError::InvalidClientId && !old(self).clients.has_id(client_id),
            },
    {
        self.send_sequence = self.send_sequence + 1;
        match self.clients.find_by_id(client_id) {
            Some(i) => {
                let c = self.clients.slots[i].unwrap();
                Ok(OutboundFrame { sequence: self.send_sequence, key: c.server_to_client_key, addr: c.addr })
            },
            None => Err(SendError::InvalidClientId),
        }
    }

    /// Takes the next send sequence and frames a `ConnectionDenied` packet to
    /// `addr` under `key`, with no slot.
    pub fn send_denied_packet(&mut self, addr: &PeerAddr, key: &[u8; KEY_BYTES]) -> (f: OutboundFrame)
        requires
            old(self).send_sequence < u64::MAX,
        ensures
            *final(self) == (Server { send_sequence: (old(self).send_sequence + 1) as u64, ..*old(self) }),
            f == (OutboundFrame { sequence: final(self).send_sequence, key: *key, addr: *addr }),
    {
        self.send_sequence = self.send_sequence + 1;
        OutboundFrame { sequence: self.send_sequence, key: *key, addr: *addr }
    }

    /// The private data that a datagram from a new peer at time `now` (wall
    /// clock seconds) admits, if any.
    pub fn validate_client_token(&self, pkt: &NewPeerPacket, now: u64) -> (r: Option<PrivateData>)
        ensures
            r == admitted_token(self.protocol_id, *pkt, now),
    {
        match pkt {
            NewPeerPacket::ConnectionRequest(req, unsealed) => {
                if !is_current_version(&req.version) {
                    return None;
                }
                if req.protocol_id != self.protocol_id {
                    return None;
                }
                if req.token_expire <= now {
                    return None;
                }
                *unsealed
            },
            _ => None,
        }
    }

    /// Admits client `pd` arriving from the unknown address `addr`.
    pub fn accept_client(&mut self, addr: &PeerAddr, pd: &PrivateData) -> (r: Admission)
        requires
            old(self).wf(),
            !old(self).clients.has_addr(*addr),
            old(self).send_sequence < u64::MAX,
            old(self).challenge_sequence < u64::MAX,
        ensures
            admission_step(*old(self), *final(self), *addr, *pd, r),
    {
        let ghost known = old(self).clients.has_id(pd.client_id);
        let slot: usize = match self.clients.find_by_id(pd.client_id) {
            Some(idx) => {
                let mut c = self.clients.slots[idx].unwrap();
                match c.state {
                    ConnectionState::PendingResponse(rs) => {
                        let mut retry = rs;
                        retry.last_retry = 0;
                        retry.retry_count = retry.retry_count.saturating_add(1);
                        c.state = ConnectionState::PendingResponse(retry);
                    },
                    _ => {},
                }
                self.clients.slots.set(idx, Some(c));
                proof {
                    let o = old(self).clients;
                    let n = self.clients;
                    assert forall|i: int, j: int|
                        #![trigger n.slots@[i], n.slots@[j]]
                        n.occupied(i) && n.occupied(j) && i != j implies n.slot(i).client_id
                            != n.slot(j).client_id && n.slot(i).addr != n.slot(j).addr by {
                        assert(o.occupied(i) && o.occupied(j));
                        assert(o.slots@[i] == o.slots@[i] && o.slots@[j] == o.slots@[j]);
                    }
                    assert forall|i: int| #[trigger] n.occupied(i) implies state_within(
                        n.slot(i).state,
                        self.time,
                    ) by {
                        assert(o.occupied(i));
                    }
                }
                idx
            },
            None => {
                match self.clients.first_free() {
                    Some(idx) => {
                        let conn = Connection {
                            client_id: pd.client_id,
                            state: ConnectionState::PendingResponse(RetryState::new(self.time)),
                            server_to_client_key: pd.server_to_client_key,
                            client_to_server_key: pd.client_to_server_key,
                            addr: *addr,
                        };
                        self.clients.slots.set(idx, Some(conn));
                        proof {
                            let o = old(self).clients;
                            let n = self.clients;
                            assert forall|i: int, j: int|
                                #![trigger n.slots@[i], n.slots@[j]]
                                n.occupied(i) && n.occupied(j) && i != j implies n.slot(i).client_id
                                    != n.slot(j).client_id && n.slot(i).addr != n.slot(j).addr by {
                                if i == idx {
                                    assert(!o.holds_id(j, pd.client_id));
                                    assert(!o.holds_addr(j, *addr));
                                } else if j == idx {
                                    assert(!o.holds_id(i, pd.client_id));
                                    assert(!o.holds_addr(i, *addr));
                                } else {
                                    assert(o.occupied(i) && o.occupied(j));
                                    assert(o.slots@[i] == o.slots@[i] && o.slots@[j] == o.slots@[j]);
                                }
                            }
                            assert forall|i: int| #[trigger] n.occupied(i) implies state_within(
                                n.slot(i).state,
                                self.time,
                            ) by {
                                if i != idx {
                                    assert(o.occupied(i));
                                }
                            }
                        }
                        idx
                    },
                    None => {
                        let f = self.send_denied_packet(addr, &pd.server_to_client_key);
                        return Admission::Denied(f);
                    },
                }
            },
        };
        let ghost placed = self.clients;
        proof {
            assert(placed.holds_id(slot as int, pd.client_id));
            assert forall|i: int| #[trigger] placed.holds_id(i, pd.client_id) implies i
                == slot by {
                if i != slot {
                    assert(placed.slots@[i] == placed.slots@[i as int]);
                    assert(placed.slots@[slot as int] == placed.slots@[slot as int]);
                }
            }
        }
        self.challenge_sequence = self.challenge_sequence + 1;
        let frame = match self.send_packet(pd.client_id) {
            Ok(f) => f,
            Err(_) => {
                proof {
                    assert(false);
                }
                OutboundFrame { sequence: 0, key: pd.server_to_client_key, addr: *addr }
            },
        };
        proof {
            assert(placed.slot(slot as int) == self.clients.slot(slot as int));
            if known {
                assert(old(self).clients.holds_id(slot as int, pd.client_id));
            } else {
                assert(!old(self).clients.occupied(slot as int));
            }
        }
        Admission::Challenge {
            client_id: pd.client_id,
            user_data: pd.user_data,
            challenge_sequence: self.challenge_sequence,
            frame,
        }
    }
}

impl Server {
    /// Handles a datagram from the peer at `addr`, not bound to any slot, at
    /// wall-clock time `now` (seconds): a valid connection request is
    /// admitted, anything else is dropped.
    pub fn handle_client_connect(&mut self, addr: &PeerAddr, pkt: &NewPeerPacket, now: u64) -> (r:
        Option<Admission>)
        requires
            old(self).wf(),
            old(self).send_sequence < u64::MAX,
            old(self).challenge_sequence < u64::MAX,
        ensures
            final(self).wf(),
            match admitted_token(old(self).protocol_id, *pkt, now) {
                Some(pd) => if old(self).clients.has_addr(*addr) {
                    r is None && *final(self) == *old(self)
                } else {
                    r matches Some(a) && admission_step(*old(self), *final(self), *addr, pd, a)
                },
                None => r is None && *final(self) == *old(self),
            },
    {
        match self.validate_client_token(pkt, now) {
            Some(pd) => {
                if self.find_client_by_addr(addr).is_some() {
                    return None;
                }
                Some(self.accept_client(addr, &pd))
            },
            None => None,
        }
    }

    /// Handles a datagram of `data_len` bytes from the peer bound to slot
    /// `idx`, which the codec read as `inbound`. Empty datagrams, and slots
    /// that hold no connection, change nothing. A valid challenge response
    /// leaves its token's user data at the front of `out_packet`.
    pub fn handle_packet(
        &mut self,
        idx: usize,
        data_len: usize,
        inbound: &Inbound,
        out_packet: &mut [u8; MAX_PACKET_SIZE],
    ) -> (r: Result<Option<ServerEvent>, UpdateError>)
        requires
            old(self).wf(),
        ensures
            final(self).wf(),
            match *inbound {
                Inbound::Response(Some(tok)) => if old(self).clients.occupied(idx as int)
                    && data_len > 0 && old(self).clients.slot(idx as int).state is PendingResponse {
                    final(out_packet)@ == with_user_data(old(out_packet)@, tok.user_data@)
                } else {
                    *final(out_packet) == *old(out_packet)
                },
                _ => *final(out_packet) == *old(out_packet),
            },
            if !old(self).clients.occupied(idx as int) || data_len == 0 {
                r == Ok::<Option<ServerEvent>, UpdateError>(None) && *final(self) == *old(self)
            } else {
                let c = old(self).clients.slot(idx as int);
                let (res, st) = packet_spec(old(self).time, c, *inbound);
                &&& r == res
                &&& final(self).clients.slots@ == old(self).clients.slots@.update(
                    idx as int,
                    Some(Connection { state: st, ..c }),
                )
                &&& *final(self) == (Server { clients: final(self).clients, ..*old(self) })
            },
    {
        if idx >= self.clients.slots.len() || data_len == 0 {
            return Ok(None);
        }
        let mut c = match self.clients.slots[idx] {
            Some(c) => c,
            None => {
                return Ok(None);
            },
        };
        let time = self.time;
        let id = c.client_id;
        let (res, st): (Result<Option<ServerEvent>, UpdateError>, ConnectionState) = match inbound {
            Inbound::DecodeFailed => (
                Ok(Some(ServerEvent::ClientDisconnect(id))),
                ConnectionState::Disconnected,
            ),
            _ => match c.state {
                ConnectionState::Connected | ConnectionState::Idle(_) => match inbound {
                    Inbound::Payload(len) => (
                        Ok(Some(ServerEvent::Packet(id, *len))),
                        ConnectionState::Idle(RetryState::new(time)),
                    ),
                    Inbound::KeepAlive => (Ok(None), ConnectionState::Idle(RetryState::new(time))),
                    _ => (Ok(Some(ServerEvent::ClientDisconnect(id))), ConnectionState::Disconnected),
                },
                ConnectionState::PendingResponse(_) => match inbound {
                    Inbound::Response(Some(tok)) => {
                        copy_user_data(out_packet, &tok.user_data);
                        (
                            Ok(Some(ServerEvent::ClientConnect(tok.client_id))),
                            ConnectionState::Idle(RetryState::new(time)),
                        )
                    },
                    Inbound::Response(None) => {
                        return Err(UpdateError::Internal(InternalError::ChallengeEncodeError));
                    },
                    _ => (Ok(Some(ServerEvent::ClientDisconnect(id))), ConnectionState::Disconnected),
                },
                _ => (Ok(None), c.state),
            },
        };
        c.state = st;
        self.clients.slots.set(idx, Some(c));
        proof {
            let o = old(self).clients;
            let n = self.clients;
            assert forall|i: int, j: int|
                #![trigger n.slots@[i], n.slots@[j]]
                n.occupied(i) && n.occupied(j) && i != j implies n.slot(i).client_id
                    != n.slot(j).client_id && n.slot(i).addr != n.slot(j).addr by {
                assert(o.occupied(i) && o.occupied(j));
                assert(o.slots@[i] == o.slots@[i] && o.slots@[j] == o.slots@[j]);
            }
            assert forall|i: int| #[trigger] n.occupied(i) implies state_within(
                n.slot(i).state,
                self.time,
            ) by {
                assert(o.occupied(i));
            }
        }
        res
    }

    /// Drains one event: fails with `PacketBufferTooSmall` when the caller's
    /// buffer of `out_len` bytes is too small; otherwise sweeps the slots from
    /// the cursor on, ticking each, and returns the first event a tick
    /// surfaces. A sweep that reaches the end of the table without an event
    /// returns `None` and puts the cursor back at the start.
    pub fn next_event(&mut self, out_len: usize) -> (r: Result<Option<ServerEvent>, UpdateError>)
        requires
            old(self).wf(),
        ensures
            final(self).wf(),
            final(self).same_config(old(self)),
            final(self).send_sequence == old(self).send_sequence,
            final(self).challenge_sequence == old(self).challenge_sequence,
            out_len < MAX_PACKET_SIZE ==> r == Err::<Option<ServerEvent>, UpdateError>(
                UpdateError::PacketBufferTooSmall,
            ) && *final(self) == *old(self),
            out_len >= MAX_PACKET_SIZE ==> match r {
                Ok(Some(e)) => {
                    let k = final(self).client_event_idx - 1;
                    &&& old(self).client_event_idx <= k < old(self).clients.len()
                    &&& slot_event(old(self).time, old(self).clients.slots@[k]) == Some(e)
                    &&& quiet(old(self).time, old(self).clients.slots@, old(self).client_event_idx as int, k)
                    &&& swept(
                        old(self).time,
                        old(self).clients.slots@,
                        final(self).clients.slots@,
                        old(self).client_event_idx as int,
                        k + 1,
                    )
                },
                Ok(None) => {
                    &&& final(self).client_event_idx == 0
                    &&& quiet(
                        old(self).time,
                        old(self).clients.slots@,
                        old(self).client_event_idx as int,
                        old(self).clients.len(),
                    )
                    &&& swept(
                        old(self).time,
                        old(self).clients.slots@,
                        final(self).clients.slots@,
                        old(self).client_event_idx as int,
                        old(self).clients.len(),
                    )
                },
                Err(_) => false,
            },
    {
        match check_out_buffer(out_len) {
            Err(e) => {
                return Err(e);
            },
            Ok(()) => {},
        }
        let time = self.time;
        let start = self.client_event_idx;
        let ghost before = old(self).clients.slots@;
        let mut i: usize = start;
        while i < self.clients.slots.len()
            invariant
                start <= i <= self.clients.slots@.len(),
                out_len >= MAX_PACKET_SIZE,
                self.clients.slots@.len() == before.len(),
                start == old(self).client_event_idx,
                time == old(self).time,
                before == old(self).clients.slots@,
                old(self).wf(),
                *self == (Server { clients: self.clients, ..*old(self) }),
                quiet(time, before, start as int, i as int),
                swept(time, before, self.clients.slots@, start as int, i as int),
            decreases self.clients.slots@.len() - i,
        {
            let slot = self.clients.slots[i];
            match slot {
                Some(c) => {
                    let mut c = c;
                    let (remove, ev) = tick_client(time, &mut c);
                    if remove {
                        self.clients.slots.set(i, None);
                    } else {
                        self.clients.slots.set(i, Some(c));
                    }
                    assert(self.clients.slots@[i as int] == slot_after_tick(time, before[i as int]));
                    assert(ev == slot_event(time, before[i as int]));
                    assert(swept(time, before, self.clients.slots@, start as int, i + 1));
                    if ev.is_some() {
                        self.client_event_idx = i + 1;
                        proof {
                            lemma_sweep_keeps_wf(old(self), self, start as int, i + 1);
                        }
                        return Ok(ev);
                    }
                },
                None => {},
            }
            i += 1;
        }
        self.client_event_idx = 0;
        proof {
            lemma_sweep_keeps_wf(old(self), self, start as int, i as int);
        }
        Ok(None)
    }
}

/// A sweep of timer ticks keeps the table's invariant.
proof fn lemma_sweep_keeps_wf(before: &Server, after: &Server, from: int, to: int)
    requires
        before.wf(),
        after.client_event_idx <= after.clients.len(),
        after.time == before.time,
        swept(before.time, before.clients.slots@, after.clients.slots@, from, to),
    ensures
        after.wf(),
{
    let o = before.clients;
    let n = after.clients;
    assert forall|i: int| #[trigger] n.occupied(i) implies o.occupied(i) && n.slot(i).client_id
        == o.slot(i).client_id && n.slot(i).addr == o.slot(i).addr && state_within(
        n.slot(i).state,
        after.time,
    ) by {
        assert(n.slots@[i] == n.slots@[i]);
        assert(o.occupied(i));
    }
    assert forall|i: int, j: int|
        #![trigger n.slots@[i], n.slots@[j]]
        n.occupied(i) && n.occupied(j) && i != j implies n.slot(i).client_id != n.slot(j).client_id
            && n.slot(i).addr != n.slot(j).addr by {
        assert(n.occupied(i) && n.occupied(j));
        assert(o.slots@[i] == o.slots@[i] && o.slots@[j] == o.slots@[j]);
    }
}

} // verus!
