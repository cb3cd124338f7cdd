//! Headers, addresses and messages, and their layout in bytes.

use arcella_broker::protocol::{
    validate_address, FixedHeader, Message, ProtocolError, TransferMode, FIXED_HEADER_SIZE,
    MAX_ADDRESS_LEN, MAX_PAYLOAD_LEN, PROTOCOL_VERSION,
};
use bytes::{Bytes, BytesMut};

fn header() -> FixedHeader {
    FixedHeader::new(TransferMode::InOut, [7u8; 32], [1u8; 16], [2u8; 4], 64, 3, 5, 7).unwrap()
}

fn message(msg_type: &str, address: &str, payload: &'static [u8]) -> Result<Message, ProtocolError> {
    Message::new(
        TransferMode::InOnly,
        [0u8; 32],
        [1u8; 16],
        [9u8; 4],
        64,
        msg_type.to_string(),
        address.to_string(),
        Bytes::from_static(payload),
    )
}

fn encoded(m: &Message) -> Bytes {
    let mut buf = BytesMut::new();
    m.encode(&mut buf);
    buf.freeze()
}

#[test]
fn transfer_mode_is_the_lowest_flag() {
    assert_eq!(TransferMode::from_flags(0), Ok(TransferMode::InOnly));
    assert_eq!(TransferMode::from_flags(1), Ok(TransferMode::InOut));
    assert_eq!(TransferMode::from_flags(0xfffe), Ok(TransferMode::InOnly));
    assert_eq!(TransferMode::from_flags(0x8001), Ok(TransferMode::InOut));
    assert_eq!(TransferMode::InOnly.to_flags(), 0);
    assert_eq!(TransferMode::InOut.to_flags(), 1);
    for mode in [TransferMode::InOnly, TransferMode::InOut] {
        assert_eq!(TransferMode::from_flags(mode.to_flags()), Ok(mode));
    }
}

#[test]
fn header_sizes_add_up() {
    let h = header();
    assert_eq!(h.version, PROTOCOL_VERSION);
    assert_eq!(h.transfer_mode(), Ok(TransferMode::InOut));
    assert_eq!(h.variable_header_size(), 8);
    assert_eq!(h.total_message_size(), 79);
    assert_eq!(h.clone(), h);
}

#[test]
fn header_lengths_have_limits() {
    let make = |address_len: u16, payload_len: u32| {
        FixedHeader::new(
            TransferMode::InOnly,
            [0u8; 32],
            [0u8; 16],
            [0u8; 4],
            1,
            255,
            address_len,
            payload_len,
        )
    };
    assert!(make(1024, MAX_PAYLOAD_LEN).is_ok());
    assert_eq!(make(1025, 0).unwrap_err(), ProtocolError::AddressTooLong(1025));
    assert_eq!(make(1, 1_048_577).unwrap_err(), ProtocolError::PayloadTooLarge(1_048_577));
    assert_eq!(make(1025, 1_048_577).unwrap_err(), ProtocolError::AddressTooLong(1025));
}

#[test]
fn header_layout_is_little_endian() {
    let h = FixedHeader::new(
        TransferMode::InOut,
        [7u8; 32],
        [1u8; 16],
        [2u8; 4],
        64,
        3,
        0x0102,
        0x000a0b0c,
    )
    .unwrap();
    let mut buf = BytesMut::new();
    h.encode(&mut buf);
    let mut expected: Vec<u8> = vec![1, 0, 1, 0];
    expected.extend_from_slice(&[7u8; 32]);
    expected.extend_from_slice(&[1u8; 16]);
    expected.extend_from_slice(&[2u8; 4]);
    expected.extend_from_slice(&[64, 3, 2, 1, 0x0c, 0x0b, 0x0a, 0]);
    assert_eq!(buf.len(), FIXED_HEADER_SIZE);
    assert_eq!(&buf[..], &expected[..]);
}

#[test]
fn header_comes_back() {
    let h = header();
    let mut buf = BytesMut::new();
    h.encode(&mut buf);
    buf.extend_from_slice(b"rest");
    let mut bytes = buf.freeze();
    assert_eq!(FixedHeader::decode(&mut bytes).unwrap(), h);
    assert_eq!(&bytes[..], b"rest");
}

#[test]
fn faulty_headers_are_refused() {
    let mut short = Bytes::from(vec![1u8; 63]);
    assert_eq!(FixedHeader::decode(&mut short).unwrap_err(), ProtocolError::IncompleteHeader);
    assert_eq!(short.len(), 63);

    let mut raw = vec![0u8; 64];
    raw[0] = 2;
    let mut other_version = Bytes::from(raw);
    assert_eq!(
        FixedHeader::decode(&mut other_version).unwrap_err(),
        ProtocolError::UnsupportedVersion(2)
    );
    assert_eq!(other_version.len(), 62);

    let mut raw = vec![0u8; 64];
    raw[0] = 1;
    raw[58] = 1;
    raw[59] = 4;
    let mut long_address = Bytes::from(raw);
    assert_eq!(
        FixedHeader::decode(&mut long_address).unwrap_err(),
        ProtocolError::AddressTooLong(1025)
    );
    assert_eq!(long_address.len(), 0);

    let mut raw = vec![0u8; 64];
    raw[0] = 1;
    raw[60] = 1;
    raw[62] = 16;
    let mut large_payload = Bytes::from(raw);
    assert_eq!(
        FixedHeader::decode(&mut large_payload).unwrap_err(),
        ProtocolError::PayloadTooLarge(1_048_577)
    );
}

#[test]
fn addresses_are_checked() {
    assert_eq!(validate_address("arcella:core:users"), Ok(()));
    assert_eq!(validate_address("A-z_0:9"), Ok(()));
    assert_eq!(
        validate_address(""),
        Err(ProtocolError::InvalidAddressFormat("Address cannot be empty".to_string()))
    );
    for address in [":a", "a:", "a::b", ":"] {
        assert_eq!(validate_address(address), Err(ProtocolError::EmptyAddressLevel));
    }
    for address in ["a:*", "a b", "a:ü", "a.b", "a/b"] {
        assert_eq!(
            validate_address(address),
            Err(ProtocolError::InvalidAddressFormat("Invalid character in address".to_string()))
        );
    }
}

#[test]
fn new_messages_are_checked() {
    assert!(message("t", "a:b", b"x").is_ok());
    assert_eq!(message("t", "a::b", b"x").unwrap_err(), ProtocolError::EmptyAddressLevel);
    assert!(message(&"t".repeat(255), "a", b"").is_ok());
    assert_eq!(
        message(&"t".repeat(256), "a", b"").unwrap_err(),
        ProtocolError::MsgTypeTooLong(0)
    );
    assert!(message("t", &"a".repeat(MAX_ADDRESS_LEN), b"").is_ok());
    assert_eq!(
        message("t", &"a".repeat(1025), b"").unwrap_err(),
        ProtocolError::AddressTooLong(1025)
    );
    let large = Message::new(
        TransferMode::InOnly,
        [0u8; 32],
        [1u8; 16],
        [0u8; 4],
        64,
        "t".to_string(),
        "a".to_string(),
        Bytes::from(vec![0u8; 1_048_577]),
    );
    assert_eq!(large.unwrap_err(), ProtocolError::PayloadTooLarge(1_048_577));
}

#[test]
fn messages_come_back() {
    let m = message("test:ping", "arcella:core:users", b"hello").unwrap();
    assert_eq!(m.size(), 64 + 9 + 18 + 5);
    assert_eq!(m.transfer_mode(), Ok(TransferMode::InOnly));
    let bytes = encoded(&m);
    assert_eq!(bytes.len(), m.size());
    let mut stream = BytesMut::from(&bytes[..]);
    stream.extend_from_slice(b"next");
    let mut stream = stream.freeze();
    let back = Message::decode(&mut stream).unwrap();
    assert_eq!(back, m);
    assert_eq!(&stream[..], b"next");
    assert_eq!(encoded(&back), bytes);
    assert_eq!(m.clone(), m);
}

#[test]
fn reply_address_is_not_encoded() {
    let mut m = message("t", "a", b"").unwrap();
    m.reply_to = "client".to_string();
    let mut bytes = encoded(&m);
    let back = Message::decode(&mut bytes).unwrap();
    assert_eq!(back.reply_to, "");
    assert_eq!(back.address, m.address);
}

#[test]
fn messages_are_encoded_where_there_is_room() {
    let m = message("type", "a:b", b"payload").unwrap();
    let mut buf = BytesMut::new();
    buf.extend_from_slice(b"xy");
    assert!(m.try_encode(&mut buf));
    assert_eq!(&buf[..2], b"xy");
    assert_eq!(&buf[2..], &encoded(&m)[..]);

    let mut buf = BytesMut::new();
    assert!(m.header.try_encode(&mut buf));
    assert_eq!(&buf[..], &encoded(&m)[..64]);
}

#[test]
fn messages_that_end_early_are_refused() {
    let m = message("type", "a:b", b"payload").unwrap();
    let bytes = encoded(&m);
    let cut = |n: usize| {
        let mut part = bytes.slice(0..n);
        let e = Message::decode(&mut part).unwrap_err();
        (e, part.len())
    };
    assert_eq!(cut(10), (ProtocolError::IncompleteHeader, 10));
    assert_eq!(cut(66), (ProtocolError::IncompleteMsgType, 2));
    assert_eq!(cut(69), (ProtocolError::IncompleteAddress, 1));
    assert_eq!(cut(75), (ProtocolError::IncompletePayload, 4));
}

#[test]
fn messages_with_faulty_text_are_refused() {
    let m = message("type", "a:b", b"p").unwrap();
    let bytes = encoded(&m);

    let mut raw = bytes.to_vec();
    raw[64] = 0xff;
    assert_eq!(
        Message::decode(&mut Bytes::from(raw)).unwrap_err(),
        ProtocolError::InvalidMsgTypeUtf8
    );

    let mut raw = bytes.to_vec();
    raw[68] = 0xff;
    assert_eq!(
        Message::decode(&mut Bytes::from(raw)).unwrap_err(),
        ProtocolError::InvalidAddressUtf8
    );

    let mut raw = bytes.to_vec();
    raw[68] = b'*';
    assert_eq!(
        Message::decode(&mut Bytes::from(raw)).unwrap_err(),
        ProtocolError::InvalidAddressFormat("Invalid character in address".to_string())
    );

    let mut raw = bytes.to_vec();
    raw[70] = b':';
    assert_eq!(
        Message::decode(&mut Bytes::from(raw)).unwrap_err(),
        ProtocolError::EmptyAddressLevel
    );
}
