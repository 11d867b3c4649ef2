use octerm::clients::Clients;
use octerm::codec::encode;
use octerm::config::{CONNECTIONS_CAPACITY, CONNECTION_READ_BUF_MAX_CAPACITY};
use octerm::protocol::{HandshakeStatus, Message};
use octerm::server::{Client, ClientState};

fn encoded(m: &Message) -> Vec<u8> {
    let mut buf = bytes::BytesMut::new();
    encode(m, &mut buf).expect("encodable message");
    buf.as_ref().to_vec()
}

fn handshake_bytes(username: &str, password: &str) -> Vec<u8> {
    encoded(&Message::ClientHandshake {
        username: String::from(username),
        password: String::from(password),
    })
}

fn state_of(reg: &Clients, tok: usize) -> ClientState {
    reg.get(tok).expect("live token").state
}

#[test]
fn successful_handshake_replies_ok_and_moves_to_pairing() {
    let mut reg = Clients::new();
    let tok = reg.insert().expect("registry has room");
    reg.on_read_chunk(tok, &handshake_bytes("bob", "pw"));
    let delivered = reg.process_messages(tok);
    assert!(delivered.is_empty());
    assert_eq!(state_of(&reg, tok), ClientState::Pairing);
    assert_eq!(
        reg.pending_write(tok),
        encoded(&Message::ServerHandshake(HandshakeStatus::Okay))
    );
    assert!(!reg.is_username_unique("bob"));
    assert!(reg.is_username_unique("alice"));
}

#[test]
fn duplicate_username_is_rejected_and_not_committed() {
    let mut reg = Clients::new();
    let a = reg.insert().unwrap();
    reg.on_read_chunk(a, &handshake_bytes("alice", "pw1"));
    reg.process_messages(a);
    assert_eq!(state_of(&reg, a), ClientState::Pairing);

    let b = reg.insert().unwrap();
    reg.on_read_chunk(b, &handshake_bytes("alice", "pw2"));
    reg.process_messages(b);

    assert_eq!(
        reg.pending_write(b),
        encoded(&Message::ServerHandshake(HandshakeStatus::UserExists))
    );
    assert_eq!(state_of(&reg, b), ClientState::Handshake);
    assert!(reg.get(b).unwrap().data.is_none());
}

#[test]
fn rejected_connection_may_retry_with_a_fresh_username() {
    let mut reg = Clients::new();
    let a = reg.insert().unwrap();
    reg.on_read_chunk(a, &handshake_bytes("alice", "pw1"));
    reg.process_messages(a);

    let b = reg.insert().unwrap();
    reg.on_read_chunk(b, &handshake_bytes("alice", "pw2"));
    reg.process_messages(b);
    assert_eq!(state_of(&reg, b), ClientState::Handshake);

    reg.on_read_chunk(b, &handshake_bytes("carol", "pw2"));
    reg.process_messages(b);
    assert_eq!(state_of(&reg, b), ClientState::Pairing);
    assert!(!reg.is_username_unique("carol"));
}

#[test]
fn strict_policy_closes_on_duplicate_username() {
    let mut reg = Clients::with_policy(true);
    let a = reg.insert().unwrap();
    reg.on_read_chunk(a, &handshake_bytes("alice", "pw1"));
    reg.process_messages(a);

    let b = reg.insert().unwrap();
    reg.on_read_chunk(b, &handshake_bytes("alice", "pw2"));
    reg.process_messages(b);
    assert_eq!(state_of(&reg, b), ClientState::Error);
}

#[test]
fn message_before_handshake_is_a_protocol_violation() {
    let mut reg = Clients::new();
    let tok = reg.insert().unwrap();
    reg.on_read_chunk(tok, &encoded(&Message::Ping(1)));
    let delivered = reg.process_messages(tok);
    assert!(delivered.is_empty());
    assert_eq!(state_of(&reg, tok), ClientState::Error);
    assert_eq!(
        reg.pending_write(tok),
        encoded(&Message::Error(String::from("authorization required")))
    );
}

#[test]
fn pairing_messages_are_handed_back_for_routing() {
    let mut reg = Clients::new();
    let tok = reg.insert().unwrap();
    reg.on_read_chunk(tok, &handshake_bytes("bob", "pw"));
    reg.process_messages(tok);

    let mut chunk = encoded(&Message::PairPing(5));
    chunk.extend_from_slice(&encoded(&Message::PairText(String::from("hello"))));
    reg.on_read_chunk(tok, &chunk);
    let delivered = reg.process_messages(tok);
    assert_eq!(
        delivered,
        vec![Message::PairPing(5), Message::PairText(String::from("hello"))]
    );
    assert_eq!(state_of(&reg, tok), ClientState::Pairing);
}

#[test]
fn partial_frame_waits_for_more_bytes() {
    let mut reg = Clients::new();
    let tok = reg.insert().unwrap();
    let full = handshake_bytes("bob", "pw");
    let (first, rest) = full.split_at(5);
    reg.on_read_chunk(tok, first);
    reg.process_messages(tok);
    assert_eq!(state_of(&reg, tok), ClientState::Handshake);
    assert!(reg.pending_write(tok).is_empty());
    reg.on_read_chunk(tok, rest);
    reg.process_messages(tok);
    assert_eq!(state_of(&reg, tok), ClientState::Pairing);
}

#[test]
fn decode_fault_closes_with_an_error_reply() {
    let mut reg = Clients::new();
    let tok = reg.insert().unwrap();
    reg.on_read_chunk(tok, &[0x7f, 0x00]);
    reg.process_messages(tok);
    assert_eq!(state_of(&reg, tok), ClientState::Error);
    assert_eq!(
        reg.pending_write(tok),
        encoded(&Message::Error(String::from("unknown opcode")))
    );
}

#[test]
fn zero_byte_read_kills_the_connection_immediately() {
    let mut reg = Clients::new();
    let tok = reg.insert().unwrap();
    reg.on_read_chunk(tok, &handshake_bytes("bob", "pw")[..4]);
    reg.on_peer_closed(tok);
    assert_eq!(state_of(&reg, tok), ClientState::Dead);
    assert!(reg.should_reap(tok));
    assert!(reg.reap(tok));
    assert!(reg.get(tok).is_none());
}

#[test]
fn error_connection_stays_until_its_write_buffer_drains() {
    let mut reg = Clients::new();
    let tok = reg.insert().unwrap();
    reg.on_read_chunk(tok, &encoded(&Message::Ping(1)));
    reg.process_messages(tok);
    assert_eq!(state_of(&reg, tok), ClientState::Error);

    let pending = reg.pending_write(tok);
    assert!(!pending.is_empty());
    assert!(!reg.should_reap(tok));
    assert!(!reg.reap(tok));
    assert!(reg.get(tok).is_some());

    reg.did_write(tok, 3);
    assert!(!reg.should_reap(tok));
    assert_eq!(reg.pending_write(tok), pending[3..].to_vec());

    reg.did_write(tok, pending.len() - 3);
    assert!(reg.should_reap(tok));
    assert!(reg.reap(tok));
    assert!(reg.get(tok).is_none());
}

#[test]
fn read_buffer_overflow_errors_exactly_once() {
    let mut reg = Clients::new();
    let tok = reg.insert().unwrap();
    // a frame header that promises far more body than the ceiling allows
    reg.on_read_chunk(tok, &[0x00, 0x00, 0x20, 0x00, 0x00]);
    let chunk = [0xaau8; 4096];
    let mut fed: usize = 5;
    while fed + chunk.len() <= CONNECTION_READ_BUF_MAX_CAPACITY {
        reg.on_read_chunk(tok, &chunk);
        fed += chunk.len();
        reg.process_messages(tok);
        assert_eq!(state_of(&reg, tok), ClientState::Handshake);
    }
    reg.on_read_chunk(tok, &chunk);
    assert_eq!(state_of(&reg, tok), ClientState::Error);
    let overflow_reply = encoded(&Message::Error(String::from("buffer overflow")));
    assert_eq!(reg.pending_write(tok), overflow_reply);

    // further reads are ignored; the error is reported only once
    reg.on_read_chunk(tok, &chunk);
    assert_eq!(reg.pending_write(tok), overflow_reply);
    assert_eq!(state_of(&reg, tok), ClientState::Error);
}

#[test]
fn tokens_are_reused_after_removal() {
    let mut reg = Clients::new();
    let a = reg.insert().unwrap();
    let b = reg.insert().unwrap();
    assert_ne!(a, b);
    reg.remove(a);
    assert!(reg.get(a).is_none());
    let c = reg.insert().unwrap();
    assert_eq!(c, a);
    assert!(reg.get(b).is_some());
}

#[test]
fn registry_refuses_inserts_past_capacity() {
    let mut reg = Clients::new();
    for _ in 0..CONNECTIONS_CAPACITY {
        assert!(reg.insert().is_some());
    }
    assert!(reg.insert().is_none());
}

#[test]
fn removing_a_reaped_token_is_harmless() {
    let mut reg = Clients::new();
    let a = reg.insert().unwrap();
    reg.remove(a);
    reg.remove(a);
    assert!(reg.get(a).is_none());
    assert!(!reg.reap(a));
}

#[test]
fn fresh_client_starts_in_handshake_with_empty_buffers() {
    let c = Client::new(7);
    assert_eq!(c.token, 7);
    assert_eq!(c.state, ClientState::Handshake);
    assert!(c.data.is_none());
    assert!(c.pending_write().is_empty());
    assert!(!c.should_reap());
}

#[test]
fn send_message_queues_the_encoded_frame() {
    let mut c = Client::new(0);
    let m = Message::ServerHandshake(HandshakeStatus::Okay);
    c.send_message(&m);
    c.send_message(&m);
    let mut expected = encoded(&m);
    expected.extend_from_slice(&encoded(&m));
    assert_eq!(c.pending_write(), expected);
}

#[test]
fn handshake_and_pair_traffic_in_one_buffer() {
    let mut reg = Clients::new();
    let tok = reg.insert().unwrap();
    let mut chunk = handshake_bytes("bob", "pw");
    chunk.extend_from_slice(&encoded(&Message::PairPing(11)));
    reg.on_read_chunk(tok, &chunk);
    let delivered = reg.process_messages(tok);
    assert_eq!(delivered, vec![Message::PairPing(11)]);
    assert_eq!(state_of(&reg, tok), ClientState::Pairing);
    assert_eq!(
        reg.pending_write(tok),
        encoded(&Message::ServerHandshake(HandshakeStatus::Okay))
    );
}

#[test]
fn messages_after_a_violation_are_discarded() {
    let mut reg = Clients::new();
    let tok = reg.insert().unwrap();
    let mut chunk = encoded(&Message::Ping(1));
    chunk.extend_from_slice(&encoded(&Message::Ping(2)));
    let delivered = reg.process_messages(tok);
    assert!(delivered.is_empty());
    reg.on_read_chunk(tok, &chunk);
    let delivered = reg.process_messages(tok);
    assert!(delivered.is_empty());
    assert_eq!(state_of(&reg, tok), ClientState::Error);
    // exactly one error reply was queued
    assert_eq!(
        reg.pending_write(tok),
        encoded(&Message::Error(String::from("authorization required")))
    );
}

#[test]
fn did_write_with_more_than_is_queued_just_drains() {
    let mut c = Client::new(0);
    c.send_message(&Message::ServerHandshake(HandshakeStatus::Okay));
    let n = c.pending_write().len();
    c.did_write(n + 100);
    assert!(c.pending_write().is_empty());
}

#[test]
fn removal_frees_capacity_for_a_new_connection() {
    let mut reg = Clients::new();
    for _ in 0..CONNECTIONS_CAPACITY {
        assert!(reg.insert().is_some());
    }
    assert!(reg.insert().is_none());
    reg.remove(17);
    let tok = reg.insert();
    assert_eq!(tok, Some(17));
    assert!(reg.insert().is_none());
}

#[test]
fn dead_tokens_are_ignored_by_the_engine() {
    let mut reg = Clients::new();
    let tok = reg.insert().unwrap();
    reg.remove(tok);
    reg.on_read_chunk(tok, &[1, 2, 3]);
    reg.on_peer_closed(tok);
    reg.did_write(tok, 5);
    assert!(reg.pending_write(tok).is_empty());
    assert!(reg.process_messages(tok).is_empty());
    assert!(!reg.should_reap(tok));
}
