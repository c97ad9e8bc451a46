use drill::client::{greet, pass_on, Args, Client, ClientAction, ClientError, Connecting, Reply};
use drill::proto::{AuthMode, Event, ParseEventError};
use drill::session::Frame;

const ID: &str = "01234567-89ab-4cde-8f01-23456789abcd";

fn args(token: Option<&str>) -> Args {
    Args {
        port: 8080,
        subdomain: String::from("sub"),
        drill: String::from("mydomain.com"),
        token: token.map(String::from),
    }
}

fn reply_to(auth_mode: AuthMode, token: Option<&str>) -> Reply {
    let hello = Event::hello(auth_mode, "Hi").serialize();
    let greeting = greet(&hello, &args(token)).unwrap();
    assert_eq!(greeting.auth_mode, auth_mode);
    assert_eq!(greeting.description, "Hi");
    greeting.reply
}

fn heard(client: &mut Client, event: &Event<'_>) -> String {
    format!("{:?}", client.on_frame(Frame::Payload(&event.serialize())))
}

#[test]
fn anonymous_server_gets_any_token() {
    let any = "AAAAAAAAAAAAAAAAAAAAAAAAAAAAAAAAAAAA";
    assert!(matches!(
        reply_to(AuthMode::Anonymous, None),
        Reply::Present(p) if p == Event::present_token(any, "sub").serialize()
    ));
    assert!(matches!(
        reply_to(AuthMode::Anonymous, Some(ID)),
        Reply::Present(p) if p == Event::present_token(ID, "sub").serialize()
    ));
}

#[test]
fn introduction_is_read_by_the_server() {
    let Reply::Present(packet) = reply_to(AuthMode::Anonymous, None) else { panic!() };
    match Event::deserialize(&packet) {
        Ok(Event::PresentToken { token, desired_subdomain }) => {
            assert_eq!(token.len(), 36);
            assert_eq!(desired_subdomain, "sub");
        }
        other => panic!("{:?}", other),
    }
}

#[test]
fn static_token_is_presented() {
    assert!(matches!(
        reply_to(AuthMode::StaticToken, Some(ID)),
        Reply::Present(p) if p == Event::present_token(ID, "sub").serialize()
    ));
    assert!(matches!(reply_to(AuthMode::StaticToken, None), Reply::TokenMissing));
}

#[test]
fn tells_are_unsupported() {
    assert!(matches!(reply_to(AuthMode::AoTell, Some(ID)), Reply::Unsupported));
    assert!(matches!(reply_to(AuthMode::AoTell, None), Reply::Unsupported));
}

#[test]
fn greeting_has_to_be_a_hello() {
    let greeted = |bytes: &[u8]| greet(bytes, &args(None)).unwrap_err();
    assert_eq!(greeted(&Event::auth_failed().serialize()), ClientError::ExpectedHello);
    assert_eq!(greeted(&[]), ClientError::Proto(ParseEventError::Eof));
    assert_eq!(
        greeted(&[1, 0, 2, 1]),
        ClientError::Proto(ParseEventError::ProtocolVersionMismatch)
    );
    assert_eq!(
        ClientError::from(ParseEventError::UnknownType),
        ClientError::Proto(ParseEventError::UnknownType)
    );
}

#[test]
fn server_news() {
    let mut client = Client::new();
    assert_eq!(heard(&mut client, &Event::lets_go("https://a.b")), "Ok(Live(\"https://a.b\"))");
    assert_eq!(heard(&mut client, &Event::auth_failed()), "Ok(AuthFailed)");
    assert_eq!(heard(&mut client, &Event::out_of_capacity()), "Ok(OutOfCapacity)");
    assert_eq!(heard(&mut client, &Event::disallowed_packet()), "Ok(ProtocolError)");
    assert_eq!(heard(&mut client, &Event::present_token(ID, "")), "Ok(ProtocolError)");
    assert_eq!(heard(&mut client, &Event::token_in_ao_tell("x")), "Ok(ProtocolError)");
    assert!(matches!(client.on_frame(Frame::Pong), Ok(ClientAction::Continue)));
    assert!(matches!(client.on_frame(Frame::Other), Ok(ClientAction::Continue)));
    assert_eq!(
        client.on_frame(Frame::Payload(b"\x63")).unwrap_err(),
        ClientError::Proto(ParseEventError::UnknownType)
    );
}

#[test]
fn data_opens_a_connection() {
    let mut client = Client::new();
    let data = Event::data(ID, b"x");
    let connect = format!("Ok(Connect {{ id: {:?}, data: [120] }})", ID);
    let write = format!("Ok(Write {{ id: {:?}, data: [120] }})", ID);
    let shutdown = format!("Ok(Shutdown({:?}))", ID);
    assert_eq!(heard(&mut client, &data), connect);
    assert_eq!(heard(&mut client, &data), connect);
    assert!(client.on_connecting(ID, Connecting::Established).is_empty());
    assert_eq!(heard(&mut client, &data), write);
    assert_eq!(client.on_written(ID, true), None);
    assert_eq!(heard(&mut client, &data), write);
    assert_eq!(heard(&mut client, &Event::closed(ID)), shutdown);
    assert_eq!(heard(&mut client, &Event::closed(ID)), "Ok(Continue)");
    assert_eq!(heard(&mut client, &data), connect);
}

#[test]
fn failed_write_ends_the_connection() {
    let mut client = Client::new();
    let _ = client.on_connecting(ID, Connecting::Established);
    assert_eq!(client.on_written(ID, false), Some(Event::closed(ID).serialize()));
    assert!(heard(&mut client, &Event::data(ID, b"x")).starts_with("Ok(Connect"));
    assert_eq!(
        client.on_connecting(ID, Connecting::WriteFailed),
        vec![Event::closed(ID).serialize()]
    );
    assert!(heard(&mut client, &Event::data(ID, b"x")).starts_with("Ok(Connect"));
}

#[test]
fn unreachable_local_server() {
    let mut client = Client::new();
    let answer = b"HTTP/1.1 502\r\nContent-Length: 0\r\n\r\n";
    assert_eq!(
        client.on_connecting(ID, Connecting::Refused),
        vec![Event::data(ID, answer).serialize(), Event::closed(ID).serialize()]
    );
    assert!(heard(&mut client, &Event::data(ID, b"x")).starts_with("Ok(Connect"));
}

#[test]
fn local_reads_are_passed_on() {
    assert_eq!(pass_on(ID, Some(b"x")), (Event::data(ID, b"x").serialize(), true));
    assert_eq!(pass_on(ID, Some(b"")), (Event::closed(ID).serialize(), false));
    assert_eq!(pass_on(ID, None), (Event::closed(ID).serialize(), false));
}
