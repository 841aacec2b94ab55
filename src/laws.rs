//! Properties of the server that hold across all inputs and operations.
use vstd::prelude::*;
use crate::connection::{Connection, PeerAddr, ServerEvent, state_within, tick_spec};
use crate::server::{
    Admission, Inbound, NewPeerPacket, OutboundFrame, PrivateData, Server, admission_step,
    admitted_token, packet_spec,
};

verus! {

/// No two occupied slots of a well-formed server share a client id or a peer
/// address.
pub proof fn lemma_slots_unique(s: &Server, i: int, j: int)
    requires
        s.wf(),
        s.clients.occupied(i),
        s.clients.occupied(j),
        i != j,
    ensures
        s.clients.slot(i).client_id != s.clients.slot(j).client_id,
        s.clients.slot(i).addr != s.clients.slot(j).addr,
{
    assert(s.clients.slots@[i] == s.clients.slots@[i]);
    assert(s.clients.slots@[j] == s.clients.slots@[j]);
}

/// A timer tick never moves a connection's last inbound time backwards, nor
/// past the current time.
pub proof fn lemma_tick_keeps_last_update(time: u64, c: Connection)
    requires
        state_within(c.state, time),
    ensures
        state_within(tick_spec(time, c).2, time),
        c.state.retry() matches Some(r) ==> (tick_spec(time, c).2.retry() matches Some(n)
            ==> r.last_update <= n.last_update),
{
}

/// An inbound datagram never moves a connection's last inbound time
/// backwards, nor past the current time.
pub proof fn lemma_packet_keeps_last_update(time: u64, c: Connection, d: Inbound)
    requires
        state_within(c.state, time),
    ensures
        state_within(packet_spec(time, c, d).1, time),
        c.state.retry() matches Some(r) ==> (packet_spec(time, c, d).1.retry() matches Some(n)
            ==> r.last_update <= n.last_update),
{
}

/// A connection request whose token has expired by `now` admits nobody.
pub proof fn lemma_expired_token_rejected(protocol_id: u64, pkt: NewPeerPacket, now: u64)
    requires
        pkt matches NewPeerPacket::ConnectionRequest(req, _) && req.token_expire <= now,
    ensures
        admitted_token(protocol_id, pkt, now) is None,
{
}

/// A connection request for another protocol admits nobody.
pub proof fn lemma_foreign_protocol_rejected(protocol_id: u64, pkt: NewPeerPacket, now: u64)
    requires
        pkt matches NewPeerPacket::ConnectionRequest(req, _) && req.protocol_id != protocol_id,
    ensures
        admitted_token(protocol_id, pkt, now) is None,
{
}

/// A repeated connection request from a client that already holds a slot
/// occupies no new slot, and the client still holds exactly one.
pub proof fn lemma_repeated_request_single_slot(
    before: Server,
    after: Server,
    addr: PeerAddr,
    pd: PrivateData,
    r: Admission,
)
    requires
        before.wf(),
        before.clients.has_id(pd.client_id),
        admission_step(before, after, addr, pd, r),
    ensures
        forall|i: int| #[trigger] after.clients.occupied(i) == before.clients.occupied(i),
        forall|i: int, j: int|
            after.clients.holds_id(i, pd.client_id) && after.clients.holds_id(j, pd.client_id)
                ==> i == j,
        r.event_spec() == ServerEvent::ClientConnect(pd.client_id),
{
    let k = choose|k: int|
        #[trigger] before.clients.holds_id(k, pd.client_id) && after.clients.slots@
            == before.clients.slots@.update(
            k,
            Some(
                Connection {
                    state: crate::server::repeated_request(before.clients.slot(k).state),
                    ..before.clients.slot(k)
                },
            ),
        ) && after.challenge_sequence == before.challenge_sequence + 1 && r == (
        Admission::Challenge {
            client_id: pd.client_id,
            user_data: pd.user_data,
            challenge_sequence: after.challenge_sequence,
            frame: OutboundFrame {
                sequence: after.send_sequence,
                key: before.clients.slot(k).server_to_client_key,
                addr: before.clients.slot(k).addr,
            },
        });
    assert forall|i: int| #[trigger] after.clients.occupied(i) == before.clients.occupied(i) by {}
    assert forall|i: int, j: int|
        after.clients.holds_id(i, pd.client_id) && after.clients.holds_id(j, pd.client_id)
            implies i == j by {
        if i != j {
            lemma_slots_unique(&after, i, j);
        }
    }
}

/// A valid request from a new client while every slot is taken leaves the
/// table as it was, reports the table full, and asks for one denial sealed
/// with the requester's server-to-client key under a fresh send sequence.
pub proof fn lemma_full_table_denies(
    before: Server,
    after: Server,
    addr: PeerAddr,
    pd: PrivateData,
    r: Admission,
)
    requires
        !before.clients.has_id(pd.client_id),
        before.clients.is_full(),
        admission_step(before, after, addr, pd, r),
    ensures
        after.clients == before.clients,
        r == Admission::Denied(
            OutboundFrame { sequence: after.send_sequence, key: pd.server_to_client_key, addr },
        ),
        after.send_sequence > before.send_sequence,
        r.event_spec() == ServerEvent::ClientSlotFull,
{
}

/// A connection leaves `PendingResponse` for a live state only on a valid
/// challenge response.
pub proof fn lemma_handshake_needs_response(time: u64, c: Connection, d: Inbound)
    requires
        c.state is PendingResponse,
        packet_spec(time, c, d).1 is Idle,
    ensures
        d matches Inbound::Response(t) && t is Some,
{
}

/// Every admission takes a fresh send sequence, and the frame it asks for
/// is sealed under exactly that sequence; a challenge also takes a fresh
/// challenge sequence as its nonce.
pub proof fn lemma_admission_sequences_fresh(
    before: Server,
    after: Server,
    addr: PeerAddr,
    pd: PrivateData,
    r: Admission,
)
    requires
        admission_step(before, after, addr, pd, r),
    ensures
        after.send_sequence > before.send_sequence,
        match r {
            Admission::Challenge { challenge_sequence, frame, .. } => {
                &&& frame.sequence == after.send_sequence
                &&& challenge_sequence == after.challenge_sequence
                &&& after.challenge_sequence > before.challenge_sequence
            },
            Admission::Denied(f) => f.sequence == after.send_sequence,
        },
{
}

} // verus!
