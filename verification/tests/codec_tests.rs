use octerm::codec::{decode, encode};
use octerm::error::DecodeError;
use octerm::protocol::{
    ConnectionStatus, DisconnectionStatus, HandshakeStatus, Message, Opcode,
};

fn encode_to_vec(m: &Message) -> Vec<u8> {
    let mut buf = bytes::BytesMut::new();
    encode(m, &mut buf).expect("encodable message");
    buf.as_ref().to_vec()
}

fn sample_messages() -> Vec<Message> {
    vec![
        Message::Error(String::from("bad things")),
        Message::CriticalError(String::from("worse things")),
        Message::Ping(0x0102030405060708),
        Message::Pong(u64::MAX),
        Message::ClientHandshake { username: String::from("alice"), password: String::from("pw") },
        Message::ClientConnect { username: String::from("bob"), password: String::from("secret") },
        Message::ClientDisconnect,
        Message::ClientGoodbye,
        Message::ServerHandshake(HandshakeStatus::Okay),
        Message::ServerHandshake(HandshakeStatus::UserExists),
        Message::ServerConnect(ConnectionStatus::PairEmployed),
        Message::ServerDisconnect(DisconnectionStatus::NotConnected),
        Message::ServerGoodbye,
        Message::PairPing(0),
        Message::PairPong(7),
        Message::PairText(String::from("щось юнікодне")),
        Message::PairBinary(vec![0xde, 0xad, 0xbe, 0xef]),
    ]
}

#[test]
fn round_trip_every_variant() {
    for m in sample_messages() {
        let mut buf = bytes::BytesMut::new();
        encode(&m, &mut buf).expect("encodable message");
        let got = decode(&mut buf).expect("clean decode");
        assert_eq!(got, Some(m));
        assert!(buf.is_empty());
    }
}

#[test]
fn round_trip_leaves_following_bytes() {
    let m = Message::Ping(42);
    let mut buf = bytes::BytesMut::new();
    encode(&m, &mut buf).unwrap();
    buf.extend_from_slice(&[0x99, 0x98]);
    let got = decode(&mut buf).unwrap();
    assert_eq!(got, Some(m));
    assert_eq!(buf.as_ref(), &[0x99, 0x98]);
}

#[test]
fn partial_frames_yield_no_message_and_consume_nothing() {
    for m in sample_messages() {
        let full = encode_to_vec(&m);
        for n in 0..full.len() {
            let mut buf = bytes::BytesMut::new();
            buf.extend_from_slice(&full[..n]);
            let got = decode(&mut buf).expect("prefix is not an error");
            assert_eq!(got, None, "prefix of length {} of {:?}", n, m);
            assert_eq!(buf.as_ref(), &full[..n], "buffer must be unchanged");
        }
    }
}

#[test]
fn exact_bytes_of_ping() {
    let bytes = encode_to_vec(&Message::Ping(0x0102030405060708));
    assert_eq!(bytes, vec![0x02, 0x01, 0x02, 0x03, 0x04, 0x05, 0x06, 0x07, 0x08]);
}

#[test]
fn exact_bytes_of_error_text() {
    let bytes = encode_to_vec(&Message::Error(String::from("hi")));
    assert_eq!(bytes, vec![0x00, 0x00, 0x00, 0x00, 0x02, b'h', b'i']);
}

#[test]
fn exact_bytes_of_server_handshake() {
    let bytes = encode_to_vec(&Message::ServerHandshake(HandshakeStatus::Okay));
    assert_eq!(bytes, vec![0x80, 0x01]);
    let bytes = encode_to_vec(&Message::ServerHandshake(HandshakeStatus::UserExists));
    assert_eq!(bytes, vec![0x80, 0x02]);
}

#[test]
fn exact_bytes_of_client_handshake() {
    let m = Message::ClientHandshake {
        username: String::from("ab"),
        password: String::from("c"),
    };
    let bytes = encode_to_vec(&m);
    assert_eq!(
        bytes,
        vec![0x40, 0x00, 0x00, 0x00, 0x02, b'a', b'b', 0x00, 0x00, 0x00, 0x01, b'c']
    );
}

#[test]
fn exact_bytes_of_pair_binary() {
    let bytes = encode_to_vec(&Message::PairBinary(vec![0xff, 0x00]));
    assert_eq!(bytes, vec![0xc3, 0x00, 0x00, 0x00, 0x02, 0xff, 0x00]);
}

#[test]
fn utf8_payload_survives_encoding() {
    let text = String::from("héllo wörld");
    let bytes = encode_to_vec(&Message::PairText(text.clone()));
    assert_ne!(bytes.len(), 1 + 4 + text.chars().count());
    let mut buf = bytes::BytesMut::new();
    buf.extend_from_slice(&bytes);
    assert_eq!(decode(&mut buf).unwrap(), Some(Message::PairText(text)));
}

#[test]
fn unknown_opcode_is_an_error_and_consumes_one_byte() {
    let mut buf = bytes::BytesMut::new();
    buf.extend_from_slice(&[0x7f, 0x01, 0x02]);
    let got = decode(&mut buf);
    assert_eq!(got, Err(DecodeError::UnknownOpcode(0x7f)));
    assert_eq!(buf.as_ref(), &[0x01, 0x02]);
}

#[test]
fn unknown_handshake_status_is_a_distinct_error() {
    let mut buf = bytes::BytesMut::new();
    buf.extend_from_slice(&[0x80, 0x99]);
    assert_eq!(decode(&mut buf), Err(DecodeError::UnknownHandshakeStatus(0x99)));
    assert!(buf.is_empty());
}

#[test]
fn unknown_connection_status_is_a_distinct_error() {
    let mut buf = bytes::BytesMut::new();
    buf.extend_from_slice(&[0x81, 0x00]);
    assert_eq!(decode(&mut buf), Err(DecodeError::UnknownConnectionStatus(0x00)));
}

#[test]
fn unknown_disconnection_status_is_a_distinct_error() {
    let mut buf = bytes::BytesMut::new();
    buf.extend_from_slice(&[0x82, 0x03]);
    assert_eq!(decode(&mut buf), Err(DecodeError::UnknownDisconnectionStatus(0x03)));
}

#[test]
fn invalid_utf8_is_an_error_and_consumes_the_frame() {
    let mut buf = bytes::BytesMut::new();
    buf.extend_from_slice(&[0x00, 0x00, 0x00, 0x00, 0x02, 0xff, 0xfe, 0x77]);
    assert_eq!(decode(&mut buf), Err(DecodeError::InvalidString));
    assert_eq!(buf.as_ref(), &[0x77]);
}

#[test]
fn decoding_continues_after_a_poison_frame() {
    let mut buf = bytes::BytesMut::new();
    buf.extend_from_slice(&[0x7f]);
    let good = encode_to_vec(&Message::Pong(3));
    buf.extend_from_slice(&good);
    assert_eq!(decode(&mut buf), Err(DecodeError::UnknownOpcode(0x7f)));
    assert_eq!(decode(&mut buf), Ok(Some(Message::Pong(3))));
    assert!(buf.is_empty());
}

#[test]
fn opcode_bytes_round_trip() {
    let opcodes = [
        (Opcode::Error, 0x00u8),
        (Opcode::CriticalError, 0x01),
        (Opcode::Ping, 0x02),
        (Opcode::Pong, 0x03),
        (Opcode::ClientHandshake, 0x40),
        (Opcode::ClientConnect, 0x41),
        (Opcode::ClientDisconnect, 0x42),
        (Opcode::ClientGoodbye, 0x43),
        (Opcode::ServerHandshake, 0x80),
        (Opcode::ServerConnect, 0x81),
        (Opcode::ServerDisconnect, 0x82),
        (Opcode::ServerGoodbye, 0x83),
        (Opcode::PairPing, 0xc0),
        (Opcode::PairPong, 0xc1),
        (Opcode::PairText, 0xc2),
        (Opcode::PairBinary, 0xc3),
    ];
    for (op, byte) in opcodes {
        assert_eq!(op.as_u8(), byte);
        assert_eq!(Opcode::from_u8(byte), Ok(op));
    }
    assert_eq!(Opcode::from_u8(0x44), Err(DecodeError::UnknownOpcode(0x44)));
}

#[test]
fn status_bytes_round_trip() {
    assert_eq!(HandshakeStatus::Okay.as_u8(), 0x01);
    assert_eq!(HandshakeStatus::from_u8(0x02), Ok(HandshakeStatus::UserExists));
    assert_eq!(
        HandshakeStatus::from_u8(0x03),
        Err(DecodeError::UnknownHandshakeStatus(0x03))
    );
    assert_eq!(ConnectionStatus::IncorrectPassword.as_u8(), 0x05);
    assert_eq!(ConnectionStatus::from_u8(0x04), Ok(ConnectionStatus::NoSuchUser));
    assert_eq!(
        ConnectionStatus::from_u8(0x06),
        Err(DecodeError::UnknownConnectionStatus(0x06))
    );
    assert_eq!(DisconnectionStatus::Okay.as_u8(), 0x01);
    assert_eq!(DisconnectionStatus::from_u8(0x02), Ok(DisconnectionStatus::NotConnected));
    assert_eq!(
        DisconnectionStatus::from_u8(0x00),
        Err(DecodeError::UnknownDisconnectionStatus(0x00))
    );
}

#[test]
fn every_message_names_its_opcode() {
    assert_eq!(Message::Error(String::new()).opcode(), Opcode::Error);
    assert_eq!(Message::Ping(1).opcode(), Opcode::Ping);
    assert_eq!(
        Message::ClientHandshake { username: String::new(), password: String::new() }.opcode(),
        Opcode::ClientHandshake
    );
    assert_eq!(Message::ServerGoodbye.opcode(), Opcode::ServerGoodbye);
    assert_eq!(Message::PairBinary(Vec::new()).opcode(), Opcode::PairBinary);
}

#[test]
fn error_texts_describe_the_fault() {
    assert_eq!(DecodeError::UnknownOpcode(9).text(), "unknown opcode");
    assert_eq!(DecodeError::InvalidString.text(), "invalid string");
    assert_eq!(
        octerm::error::ErrorKind::AuthorizationRequired.text(),
        "authorization required"
    );
    assert_eq!(octerm::error::ErrorKind::BufferOverflow.text(), "buffer overflow");
}
