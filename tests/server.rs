use netcode_server::connection::{ConnectionState, PeerAddr, ServerEvent, INACTIVITY_TIMEOUT_MS};
use netcode_server::server::{
    check_out_buffer, is_current_version, Admission, ChallengeToken, ConnectRequest, Inbound,
    InternalError, NewPeerPacket, PrivateData, SendError, Server, UpdateError, MAX_PACKET_SIZE,
};

const PROTOCOL_ID: u64 = 0xFFCC;
const MAX_CLIENTS: usize = 256;
const CLIENT_ID: u64 = 0xFFEEDD;
const NOW: u64 = 1_700_000_000;
const VERSION: [u8; 13] = *b"NETCODE 1.01\0";

fn server() -> Server {
    Server::new(MAX_CLIENTS, PROTOCOL_ID, &[7; 32], [9; 32])
}

fn addr(n: u16) -> PeerAddr {
    PeerAddr { ip: 0x7f00_0001, port: 40000 + n }
}

fn private_data(client_id: u64) -> PrivateData {
    PrivateData {
        client_id,
        server_to_client_key: [(client_id % 251) as u8; 32],
        client_to_server_key: [(client_id % 241) as u8 + 1; 32],
        user_data: [3; 256],
    }
}

fn request(client_id: u64, expire: u64) -> NewPeerPacket {
    NewPeerPacket::ConnectionRequest(
        ConnectRequest { version: VERSION, protocol_id: PROTOCOL_ID, token_expire: expire, sequence: 0 },
        Some(private_data(client_id)),
    )
}

fn occupied(s: &Server) -> usize {
    s.clients.slots.iter().filter(|c| c.is_some()).count()
}

/// Runs the handshake for `client_id` from `a` and returns its slot.
fn handshake(s: &mut Server, client_id: u64, a: PeerAddr) -> usize {
    let adm = s.handle_client_connect(&a, &request(client_id, NOW + 30), NOW).unwrap();
    assert_eq!(adm.event(), ServerEvent::ClientConnect(client_id));
    let idx = s.find_client_by_addr(&a).unwrap();
    let tok = ChallengeToken { client_id, user_data: [3; 256] };
    let ev = feed(s, idx, 64, &Inbound::Response(Some(tok)));
    assert_eq!(ev, Ok(Some(ServerEvent::ClientConnect(client_id))));
    idx
}

/// Hands a datagram from the peer at slot `idx` to the server, with a scratch buffer.
fn feed(s: &mut Server, idx: usize, len: usize, inbound: &Inbound) -> Result<Option<ServerEvent>, UpdateError> {
    let mut out = [0u8; MAX_PACKET_SIZE];
    s.handle_packet(idx, len, inbound, &mut out)
}

#[test]
fn test_connect() {
    let mut s = server();
    let a = addr(1);
    s.update(0);
    let adm = s.handle_client_connect(&a, &request(CLIENT_ID, NOW + 30), NOW).unwrap();
    match adm {
        Admission::Challenge { client_id, challenge_sequence, frame, .. } => {
            assert_eq!(client_id, CLIENT_ID);
            assert_eq!(challenge_sequence, 1);
            assert_eq!(frame.addr, a);
            assert_eq!(frame.key, private_data(CLIENT_ID).server_to_client_key);
        }
        Admission::Denied(_) => panic!("expected a challenge"),
    }
    s.update(0);
    let idx = s.find_client_by_addr(&a).unwrap();
    let tok = ChallengeToken { client_id: CLIENT_ID, user_data: [3; 256] };
    let mut out = [0xAAu8; MAX_PACKET_SIZE];
    let ev = s.handle_packet(idx, 300, &Inbound::Response(Some(tok)), &mut out);
    assert_eq!(ev, Ok(Some(ServerEvent::ClientConnect(CLIENT_ID))));
    assert!(out[..256].iter().all(|b| *b == 3));
    assert!(out[256..].iter().all(|b| *b == 0xAA));
}

#[test]
fn happy_path_handshake() {
    let mut s = server();
    let idx = handshake(&mut s, CLIENT_ID, addr(1));
    let c = s.clients.slots[idx].unwrap();
    assert_eq!(c.client_id, CLIENT_ID);
    assert!(matches!(c.state, ConnectionState::Idle(_)));
    assert_eq!(s.send_sequence, 1);
    assert_eq!(s.challenge_sequence, 1);
    assert_eq!(s.find_client_by_id(CLIENT_ID), Some(idx));
}

#[test]
fn slot_full_denial() {
    let mut s = server();
    for n in 0..MAX_CLIENTS as u64 {
        handshake(&mut s, 1000 + n, addr(n as u16));
    }
    assert_eq!(occupied(&s), MAX_CLIENTS);
    let before: Vec<u64> = s.clients.slots.iter().map(|c| c.unwrap().client_id).collect();
    let seq = s.send_sequence;
    let a = addr(999);
    let adm = s.handle_client_connect(&a, &request(5, NOW + 30), NOW).unwrap();
    match adm {
        Admission::Denied(f) => {
            assert_eq!(f.key, private_data(5).server_to_client_key);
            assert_eq!(f.addr, a);
            assert_eq!(f.sequence, seq + 1);
        }
        Admission::Challenge { .. } => panic!("expected a denial"),
    }
    assert_eq!(adm.event(), ServerEvent::ClientSlotFull);
    let after: Vec<u64> = s.clients.slots.iter().map(|c| c.unwrap().client_id).collect();
    assert_eq!(before, after);
    assert_eq!(s.find_client_by_id(5), None);
}

#[test]
fn expired_token() {
    let mut s = server();
    assert!(s.handle_client_connect(&addr(1), &request(CLIENT_ID, NOW - 1), NOW).is_none());
    assert!(s.handle_client_connect(&addr(1), &request(CLIENT_ID, NOW), NOW).is_none());
    assert_eq!(occupied(&s), 0);
    assert_eq!(s.send_sequence, 0);
    assert_eq!(s.next_event(MAX_PACKET_SIZE), Ok(None));
}

#[test]
fn version_mismatch() {
    let mut s = server();
    let mut version = VERSION;
    version[11] = b'2';
    let pkt = NewPeerPacket::ConnectionRequest(
        ConnectRequest { version, protocol_id: PROTOCOL_ID, token_expire: NOW + 30, sequence: 0 },
        Some(private_data(CLIENT_ID)),
    );
    assert!(s.handle_client_connect(&addr(1), &pkt, NOW).is_none());
    assert_eq!(occupied(&s), 0);
    assert_eq!(s.send_sequence, 0);
    assert!(is_current_version(&VERSION));
    assert!(!is_current_version(&version));
}

#[test]
fn protocol_mismatch() {
    let mut s = server();
    let pkt = NewPeerPacket::ConnectionRequest(
        ConnectRequest { version: VERSION, protocol_id: PROTOCOL_ID + 1, token_expire: NOW + 30, sequence: 0 },
        Some(private_data(CLIENT_ID)),
    );
    assert!(s.handle_client_connect(&addr(1), &pkt, NOW).is_none());
    assert_eq!(occupied(&s), 0);
}

#[test]
fn unsealing_failure_and_other_packets_dropped() {
    let mut s = server();
    let pkt = NewPeerPacket::ConnectionRequest(
        ConnectRequest { version: VERSION, protocol_id: PROTOCOL_ID, token_expire: NOW + 30, sequence: 0 },
        None,
    );
    assert!(s.handle_client_connect(&addr(1), &pkt, NOW).is_none());
    assert!(s.handle_client_connect(&addr(1), &NewPeerPacket::Other(4), NOW).is_none());
    assert!(s.handle_client_connect(&addr(1), &NewPeerPacket::Malformed, NOW).is_none());
    assert_eq!(occupied(&s), 0);
}

#[test]
fn idle_timeout() {
    let mut s = server();
    let idx = handshake(&mut s, CLIENT_ID, addr(1));
    s.update(INACTIVITY_TIMEOUT_MS + 1);
    let mut events = Vec::new();
    while let Some(e) = s.next_event(MAX_PACKET_SIZE).unwrap() {
        events.push(e);
    }
    assert_eq!(events, vec![ServerEvent::ClientDisconnect(CLIENT_ID)]);
    assert_eq!(s.next_event(MAX_PACKET_SIZE), Ok(None));
    assert!(s.clients.slots[idx].is_none());
}

#[test]
fn no_timeout_at_bound() {
    let mut s = server();
    let idx = handshake(&mut s, CLIENT_ID, addr(1));
    s.update(INACTIVITY_TIMEOUT_MS);
    assert_eq!(s.next_event(MAX_PACKET_SIZE), Ok(None));
    assert!(s.clients.slots[idx].is_some());
}

#[test]
fn pending_timeout_is_silent() {
    let mut s = server();
    s.handle_client_connect(&addr(1), &request(CLIENT_ID, NOW + 30), NOW).unwrap();
    s.update(INACTIVITY_TIMEOUT_MS + 1);
    assert_eq!(s.next_event(MAX_PACKET_SIZE), Ok(None));
    assert_eq!(occupied(&s), 0);
}

#[test]
fn malformed_payload() {
    let mut s = server();
    let idx = handshake(&mut s, CLIENT_ID, addr(1));
    let ev = feed(&mut s, idx, 80, &Inbound::DecodeFailed);
    assert_eq!(ev, Ok(Some(ServerEvent::ClientDisconnect(CLIENT_ID))));
    assert_eq!(s.clients.slots[idx].unwrap().state, ConnectionState::Disconnected);
    assert_eq!(s.next_event(MAX_PACKET_SIZE), Ok(None));
    assert!(s.clients.slots[idx].is_none());
}

#[test]
fn buffer_too_small() {
    let mut s = server();
    assert_eq!(s.next_event(MAX_PACKET_SIZE - 1), Err(UpdateError::PacketBufferTooSmall));
    assert_eq!(check_out_buffer(0), Err(UpdateError::PacketBufferTooSmall));
    assert_eq!(check_out_buffer(MAX_PACKET_SIZE), Ok(()));
}

#[test]
fn empty_datagram_changes_nothing() {
    let mut s = server();
    let idx = handshake(&mut s, CLIENT_ID, addr(1));
    let before = s.clients.slots[idx].unwrap().state;
    assert_eq!(feed(&mut s, idx, 0, &Inbound::Disconnect), Ok(None));
    assert_eq!(s.clients.slots[idx].unwrap().state, before);
}

#[test]
fn replayed_request_keeps_one_slot() {
    let mut s = server();
    let a = addr(1);
    s.handle_client_connect(&a, &request(CLIENT_ID, NOW + 30), NOW).unwrap();
    let b = addr(2);
    let adm = s.handle_client_connect(&b, &request(CLIENT_ID, NOW + 30), NOW).unwrap();
    assert_eq!(occupied(&s), 1);
    match adm {
        Admission::Challenge { challenge_sequence, frame, .. } => {
            assert_eq!(challenge_sequence, 2);
            assert_eq!(frame.addr, a);
            assert_eq!(frame.sequence, 2);
        }
        Admission::Denied(_) => panic!("expected a challenge"),
    }
    match s.clients.slots[0].unwrap().state {
        ConnectionState::PendingResponse(r) => {
            assert_eq!(r.retry_count, 1);
            assert_eq!(r.last_retry, 0);
        }
        other => panic!("unexpected state {:?}", other),
    }
}

#[test]
fn send_sequence_increases() {
    let mut s = server();
    let mut last = s.send_sequence;
    for n in 0..4u64 {
        let adm = s.handle_client_connect(&addr(n as u16), &request(n + 10, NOW + 30), NOW).unwrap();
        match adm {
            Admission::Challenge { frame, .. } => {
                assert!(frame.sequence > last);
                assert_eq!(frame.sequence, s.send_sequence);
                last = frame.sequence;
            }
            Admission::Denied(_) => panic!("expected a challenge"),
        }
    }
    let f = s.send_packet(12).unwrap();
    assert_eq!(f.sequence, 5);
    assert_eq!(f.addr, addr(2));
    assert!(matches!(s.send_packet(77), Err(SendError::InvalidClientId)));
    assert_eq!(s.send_sequence, 6);
}

#[test]
fn payload_refreshes_last_update() {
    let mut s = server();
    let idx = handshake(&mut s, CLIENT_ID, addr(1));
    s.update(3000);
    assert_eq!(feed(&mut s, idx, 40, &Inbound::Payload(24)), Ok(Some(ServerEvent::Packet(CLIENT_ID, 24))));
    match s.clients.slots[idx].unwrap().state {
        ConnectionState::Idle(r) => assert_eq!(r.last_update, 3000),
        other => panic!("unexpected state {:?}", other),
    }
    s.update(3000);
    assert_eq!(feed(&mut s, idx, 40, &Inbound::KeepAlive), Ok(None));
    s.update(3000);
    assert_eq!(s.next_event(MAX_PACKET_SIZE), Ok(None));
    assert!(s.clients.slots[idx].is_some());
}

#[test]
fn disconnect_packet() {
    let mut s = server();
    let idx = handshake(&mut s, CLIENT_ID, addr(1));
    assert_eq!(feed(&mut s, idx, 20, &Inbound::Disconnect), Ok(Some(ServerEvent::ClientDisconnect(CLIENT_ID))));
    assert_eq!(s.clients.slots[idx].unwrap().state, ConnectionState::Disconnected);
}

#[test]
fn pending_rejects_other_packets() {
    let mut s = server();
    s.handle_client_connect(&addr(1), &request(CLIENT_ID, NOW + 30), NOW).unwrap();
    assert_eq!(feed(&mut s, 0, 20, &Inbound::KeepAlive), Ok(Some(ServerEvent::ClientDisconnect(CLIENT_ID))));
    assert_eq!(s.clients.slots[0].unwrap().state, ConnectionState::Disconnected);
}

#[test]
fn response_unseal_failure() {
    let mut s = server();
    s.handle_client_connect(&addr(1), &request(CLIENT_ID, NOW + 30), NOW).unwrap();
    assert_eq!(
        feed(&mut s, 0, 20, &Inbound::Response(None)),
        Err(UpdateError::Internal(InternalError::ChallengeEncodeError))
    );
    assert!(matches!(s.clients.slots[0].unwrap().state, ConnectionState::PendingResponse(_)));
}

#[test]
fn idle_rejects_response() {
    let mut s = server();
    let idx = handshake(&mut s, CLIENT_ID, addr(1));
    let tok = ChallengeToken { client_id: CLIENT_ID, user_data: [0; 256] };
    assert_eq!(
        feed(&mut s, idx, 20, &Inbound::Response(Some(tok))),
        Ok(Some(ServerEvent::ClientDisconnect(CLIENT_ID)))
    );
}

#[test]
fn known_address_is_not_readmitted() {
    let mut s = server();
    handshake(&mut s, CLIENT_ID, addr(1));
    let seq = s.send_sequence;
    assert!(s.handle_client_connect(&addr(1), &request(CLIENT_ID + 1, NOW + 30), NOW).is_none());
    assert_eq!(occupied(&s), 1);
    assert_eq!(s.send_sequence, seq);
}

#[test]
fn challenge_key_kept() {
    let s = server();
    assert_eq!(*s.get_challenge_key(), [9; 32]);
    assert_eq!(s.clients.slots.len(), MAX_CLIENTS);
}

#[test]
fn buffer_untouched_without_response() {
    let mut s = server();
    let idx = handshake(&mut s, CLIENT_ID, addr(1));
    let mut out = [0x55u8; MAX_PACKET_SIZE];
    let ev = s.handle_packet(idx, 40, &Inbound::Payload(10), &mut out);
    assert_eq!(ev, Ok(Some(ServerEvent::Packet(CLIENT_ID, 10))));
    assert!(out.iter().all(|b| *b == 0x55));
}
