//! Per-client connection records and the connection automaton's timer rules.
use vstd::prelude::*;

verus! {

/// Length in bytes of every symmetric key.
pub const KEY_BYTES: usize = 32;

/// Inactivity bound, in milliseconds: a connection with no inbound progress for
/// longer than this has timed out.
pub const INACTIVITY_TIMEOUT_MS: u64 = 5000;

/// Retransmission pacing interval, in milliseconds.
pub const RETRY_INTERVAL_MS: u64 = 1000;

pub type ClientId = u64;

/// The address of a peer: an IPv6 address (IPv4 mapped into it) and a port.
#[derive(Clone, Copy, Debug, PartialEq, Eq, Structural)]
pub struct PeerAddr {
    pub ip: u128,
    pub port: u16,
}

/// Retry bookkeeping, in milliseconds of server time.
#[derive(Clone, Copy, Debug, PartialEq, Eq, Structural)]
pub struct RetryState {
    /// Time of the most recent valid inbound packet.
    pub last_update: u64,
    /// Time since the most recent server-initiated retransmission.
    pub last_retry: u64,
    pub retry_count: u64,
}

impl RetryState {
    pub fn new(time: u64) -> (r: RetryState)
        ensures
            r == (RetryState { last_update: time, last_retry: 0, retry_count: 0 }),
    {
        RetryState { last_update: time, last_retry: 0, retry_count: 0 }
    }
}

/// Whether a connection whose retry record is `r` has timed out at `time`.
pub open spec fn timed_out(time: u64, r: RetryState) -> bool {
    time as int - r.last_update as int > INACTIVITY_TIMEOUT_MS as int
}

/// Whether a retransmission is due for `r`: the interval has passed, or this
/// is the first tick of a fresh record.
pub open spec fn retry_due(r: RetryState) -> bool {
    r.last_retry > RETRY_INTERVAL_MS || (r.last_retry == 0 && r.retry_count == 0)
}

#[derive(Clone, Copy, Debug, PartialEq, Eq, Structural)]
pub enum ConnectionState {
    PendingResponse(RetryState),
    Connected,
    Idle(RetryState),
    Disconnected,
    TimedOut,
}

impl ConnectionState {
    /// The retry record, present in `PendingResponse` and `Idle`.
    pub open spec fn retry(self) -> Option<RetryState> {
        match self {
            ConnectionState::PendingResponse(r) => Some(r),
            ConnectionState::Idle(r) => Some(r),
            _ => None,
        }
    }

    pub open spec fn is_pending(self) -> bool {
        self is PendingResponse
    }
}

/// Whether a state's retry record, if any, lies at or before `time`.
pub open spec fn state_within(s: ConnectionState, time: u64) -> bool {
    match s.retry() {
        Some(r) => r.last_update <= time,
        None => true,
    }
}

#[derive(Clone, Copy, Debug)]
pub struct Connection {
    pub client_id: ClientId,
    pub state: ConnectionState,
    pub server_to_client_key: [u8; KEY_BYTES],
    pub client_to_server_key: [u8; KEY_BYTES],
    pub addr: PeerAddr,
}

/// Events surfaced to the host.
#[derive(Clone, Copy, Debug, PartialEq, Eq, Structural)]
pub enum ServerEvent {
    /// A client was admitted or completed its handshake.
    ClientConnect(ClientId),
    /// A client disconnected or timed out.
    ClientDisconnect(ClientId),
    /// A client asked to connect while every slot was taken.
    ClientSlotFull,
    /// A payload of the given length arrived from a client.
    Packet(ClientId, usize),
}

/// The retry record after a live tick: the retransmission timer restarts
/// when a retry is due.
pub open spec fn retried(r: RetryState) -> RetryState {
    if retry_due(r) {
        RetryState { last_retry: 0, ..r }
    } else {
        r
    }
}

/// What a timer tick does to a connection: whether its slot is cleared, the
/// event surfaced, and the connection's next state.
pub open spec fn tick_spec(time: u64, c: Connection) -> (bool, Option<ServerEvent>, ConnectionState) {
    match c.state {
        ConnectionState::PendingResponse(r) => if timed_out(time, r) {
            (true, None, ConnectionState::TimedOut)
        } else {
            (false, None, ConnectionState::PendingResponse(retried(r)))
        },
        ConnectionState::Idle(r) => if timed_out(time, r) {
            (false, Some(ServerEvent::ClientDisconnect(c.client_id)), ConnectionState::TimedOut)
        } else {
            (false, None, ConnectionState::Idle(retried(r)))
        },
        ConnectionState::Connected => (
            false,
            None,
            ConnectionState::Idle(RetryState { last_update: time, last_retry: 0, retry_count: 0 }),
        ),
        _ => (true, None, c.state),
    }
}

/// Runs the timeout rule on a retry record: returns whether the connection is
/// still alive, and resets the retransmission timer when a retry is due.
pub fn process_timeout(time: u64, state: &mut RetryState) -> (alive: bool)
    ensures
        alive == !timed_out(time, *old(state)),
        alive ==> *final(state) == retried(*old(state)),
        !alive ==> *final(state) == *old(state),
{
    if time > state.last_update && time - state.last_update > INACTIVITY_TIMEOUT_MS {
        false
    } else {
        if state.last_retry > RETRY_INTERVAL_MS || (state.last_retry == 0 && state.retry_count
            == 0) {
            state.last_retry = 0;
        }
        true
    }
}

/// Advances one connection by a timer tick. Returns whether the slot must be
/// cleared, and the event to surface, if any.
pub fn tick_client(time: u64, client: &mut Connection) -> (r: (bool, Option<ServerEvent>))
    ensures
        (r.0, r.1, final(client).state) == tick_spec(time, *old(client)),
        *final(client) == (Connection { state: final(client).state, ..*old(client) }),
{
    let client_id = client.client_id;
    match client.state {
        ConnectionState::PendingResponse(rs) => {
            let mut retry = rs;
            if process_timeout(time, &mut retry) {
                client.state = ConnectionState::PendingResponse(retry);
                (false, None)
            } else {
                client.state = ConnectionState::TimedOut;
                (true, None)
            }
        },
        ConnectionState::Idle(rs) => {
            let mut retry = rs;
            if process_timeout(time, &mut retry) {
                client.state = ConnectionState::Idle(retry);
                (false, None)
            } else {
                client.state = ConnectionState::TimedOut;
                (false, Some(ServerEvent::ClientDisconnect(client_id)))
            }
        },
        ConnectionState::Connected => {
            client.state = ConnectionState::Idle(RetryState::new(time));
            (false, None)
        },
        _ => (true, None),
    }
}

} // verus!
