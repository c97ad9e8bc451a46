use drill::proto::{AuthMode, Event, ParseEventError, IMPLEMENTED_PROTO_VERSION};

const ID: &str = "01234567-89ab-4cde-8f01-23456789abcd";

fn read_back(event: &Event<'_>) -> String {
    let bytes = event.serialize();
    format!("{:?}", Event::deserialize(&bytes).unwrap())
}

fn error_of(bytes: &[u8]) -> ParseEventError {
    Event::deserialize(bytes).unwrap_err()
}

#[test]
fn hello_bytes() {
    let event = Event::hello(AuthMode::Anonymous, "Hi");
    assert_eq!(event.serialize(), vec![1, 0, 1, 2, b'H', b'i']);
    assert_eq!(IMPLEMENTED_PROTO_VERSION, 1);
}

#[test]
fn every_auth_mode_has_its_byte() {
    assert_eq!(Event::hello(AuthMode::StaticToken, "").serialize(), vec![1, 0, 1, 1]);
    assert_eq!(Event::hello(AuthMode::Anonymous, "").serialize(), vec![1, 0, 1, 2]);
    assert_eq!(Event::hello(AuthMode::AoTell, "").serialize(), vec![1, 0, 1, 3]);
    assert_eq!(AuthMode::try_from(&1u8), Ok(AuthMode::StaticToken));
    assert_eq!(AuthMode::try_from(&2u8), Ok(AuthMode::Anonymous));
    assert_eq!(AuthMode::try_from(&3u8), Ok(AuthMode::AoTell));
    assert_eq!(AuthMode::try_from(&0u8), Err(ParseEventError::InvalidAuthMode));
    assert_eq!(AuthMode::try_from(&4u8), Err(ParseEventError::InvalidAuthMode));
    assert_eq!(AuthMode::AoTell.code(), 3);
}

#[test]
fn short_packets_bytes() {
    assert_eq!(Event::ao_auth("Bot").serialize(), b"\x02Bot");
    assert_eq!(Event::token_in_ao_tell("Teller").serialize(), b"\x03Teller");
    assert_eq!(Event::lets_go("https://a.b").serialize(), b"\x05https://a.b");
    assert_eq!(Event::auth_failed().serialize(), vec![6]);
    assert_eq!(Event::out_of_capacity().serialize(), vec![7]);
    assert_eq!(Event::disallowed_packet().serialize(), vec![8]);
}

#[test]
fn packets_with_id_bytes() {
    let mut expected = vec![4];
    expected.extend_from_slice(ID.as_bytes());
    expected.extend_from_slice(b"sub");
    assert_eq!(Event::present_token(ID, "sub").serialize(), expected);

    let mut expected = vec![9];
    expected.extend_from_slice(ID.as_bytes());
    expected.extend_from_slice(&[0, 255, 7]);
    assert_eq!(Event::data(ID, &[0, 255, 7]).serialize(), expected);

    let mut expected = vec![10];
    expected.extend_from_slice(ID.as_bytes());
    assert_eq!(Event::closed(ID).serialize(), expected);
}

#[test]
fn framed_packets_read_back() {
    let events = [
        Event::hello(AuthMode::StaticToken, "Gr\u{fc}\u{df}e"),
        Event::ao_auth("Bot"),
        Event::token_in_ao_tell(""),
        Event::present_token(ID, "sub"),
        Event::lets_go("https://a.b"),
        Event::auth_failed(),
        Event::out_of_capacity(),
        Event::disallowed_packet(),
        Event::data(ID, b"raw \xff"),
        Event::data(ID, b""),
        Event::closed(ID),
    ];
    for event in &events {
        assert_eq!(read_back(event), format!("{:?}", event));
    }
}

#[test]
fn unframed_packet_does_not_read_back() {
    // The id is a byte short, so the first byte of the data is taken for its last.
    let id = &ID[..35];
    let bytes = Event::data(id, b"xyz").serialize();
    match Event::deserialize(&bytes) {
        Ok(Event::Data { id: read, data }) => {
            assert_eq!(read, format!("{}x", id));
            assert_eq!(data, b"yz");
        }
        other => panic!("{:?}", other),
    }
    assert_eq!(error_of(&Event::closed(id).serialize()), ParseEventError::Eof);
}

#[test]
fn different_packets_have_different_bytes() {
    assert_ne!(Event::auth_failed().serialize(), Event::out_of_capacity().serialize());
    assert_ne!(Event::data(ID, b"").serialize(), Event::closed(ID).serialize());
    assert_ne!(Event::data(ID, b"a").serialize(), Event::data(ID, b"b").serialize());
    let hello = |proto_version: u16| {
        let auth_mode = AuthMode::Anonymous;
        Event::Hello { proto_version, auth_mode, description: "" }.serialize()
    };
    assert_ne!(hello(2), hello(3));
    assert_ne!(hello(2), hello(0x200));
}

#[test]
fn bytes_after_a_short_packet_are_ignored() {
    assert!(matches!(Event::deserialize(&[6, 1, 2, 3]), Ok(Event::AuthFailed)));
    let mut bytes = Event::closed(ID).serialize();
    bytes.push(0xff);
    assert!(matches!(Event::deserialize(&bytes), Ok(Event::Closed { id }) if id == ID));
}

#[test]
fn eof() {
    assert_eq!(error_of(&[]), ParseEventError::Eof);
    assert_eq!(error_of(&[1]), ParseEventError::Eof);
    assert_eq!(error_of(&[1, 0]), ParseEventError::Eof);
    assert_eq!(error_of(&[1, 0, 1]), ParseEventError::Eof);
    assert_eq!(error_of(&[4, b'a']), ParseEventError::Eof);
    assert_eq!(error_of(&[9]), ParseEventError::Eof);
    assert_eq!(error_of(&[10]), ParseEventError::Eof);
    assert!(matches!(Event::deserialize(&[2]), Ok(Event::AoAuth { character_name: "" })));
}

#[test]
fn invalid_utf8() {
    assert_eq!(error_of(&[2, 0xff]), ParseEventError::InvalidUtf8);
    assert_eq!(error_of(&[1, 0, 1, 1, 0xc3]), ParseEventError::InvalidUtf8);
    let mut bytes = Event::data(ID, b"").serialize();
    bytes[1] = 0x80;
    assert_eq!(error_of(&bytes), ParseEventError::InvalidUtf8);
    let mut bytes = Event::present_token(ID, "").serialize();
    bytes.push(0xed);
    assert_eq!(error_of(&bytes), ParseEventError::InvalidUtf8);
}

#[test]
fn unknown_type() {
    assert_eq!(error_of(&[0]), ParseEventError::UnknownType);
    assert_eq!(error_of(&[11]), ParseEventError::UnknownType);
    assert_eq!(error_of(&[255, 1, 2]), ParseEventError::UnknownType);
}

#[test]
fn invalid_auth_mode() {
    assert_eq!(error_of(&[1, 0, 1, 0]), ParseEventError::InvalidAuthMode);
    assert_eq!(error_of(&[1, 0, 1, 4, b'x']), ParseEventError::InvalidAuthMode);
}

#[test]
fn version_mismatch() {
    assert_eq!(error_of(&[1, 0, 2]), ParseEventError::ProtocolVersionMismatch);
    assert_eq!(error_of(&[1, 1, 0, 9, 0xff]), ParseEventError::ProtocolVersionMismatch);
    let event = Event::Hello {
        proto_version: 0x1234,
        auth_mode: AuthMode::Anonymous,
        description: "",
    };
    let bytes = event.serialize();
    assert_eq!(&bytes[..3], &[1, 0x12, 0x34]);
    assert_eq!(error_of(&bytes), ParseEventError::ProtocolVersionMismatch);
}

#[test]
fn parse_str_within_bounds() {
    assert_eq!(drill::proto::try_parse_str(b"abcdef", 1, Some(3)), Ok("bc"));
    assert_eq!(drill::proto::try_parse_str(b"abcdef", 4, None), Ok("ef"));
    assert_eq!(drill::proto::try_parse_str(b"abcdef", 6, None), Ok(""));
    assert_eq!(drill::proto::try_parse_str(b"abcdef", 7, None), Err(ParseEventError::Eof));
    assert_eq!(drill::proto::try_parse_str(b"abcdef", 3, Some(2)), Err(ParseEventError::Eof));
    assert_eq!(drill::proto::try_parse_str(b"abcdef", 3, Some(7)), Err(ParseEventError::Eof));
}
