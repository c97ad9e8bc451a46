use drill::event::StreamEvent;
use drill::request::Response;
use drill::session::Frame;
use drill::standalone::proto::{Event, ParseEventError};
use drill::standalone::session::{Action, ClientState, Session, IDLE_SECONDS};
use drill::standalone::settings::{domain, parse_port, port};
use drill::standalone::state::{Route, State, NOT_FOUND};
use drill::standalone::tunnel::Tunnel;

const ID: &str = "01234567-89ab-4cde-8f01-23456789abcd";

fn host() -> State {
    State::new(String::from("nadybotters.org"), String::from("Teller"))
}

fn with_id(kind: u8, rest: &[u8]) -> Vec<u8> {
    let mut bytes = vec![kind];
    bytes.extend_from_slice(ID.as_bytes());
    bytes.extend_from_slice(rest);
    bytes
}

fn send(session: &mut Session, state: &mut State, payload: &[u8], listener: &str) -> Action {
    session.on_frame(state, Frame::Payload(payload), listener)
}

fn reserve(session: &mut Session, state: &mut State, name: &str) -> String {
    let mut wish = vec![1];
    wish.extend_from_slice(name.as_bytes());
    match send(session, state, &wish, "") {
        Action::Tell { tell, reply } => {
            assert_eq!(reply, b"\x02Teller");
            tell.token
        }
        other => panic!("{:?}", other),
    }
}

fn reply(token: &str) -> Vec<u8> {
    let mut bytes = vec![3];
    bytes.extend_from_slice(token.as_bytes());
    bytes
}

fn let_in(state: &mut State, name: &str, listener: &str) -> (Session, Option<String>) {
    let mut session = Session::open();
    let token = reserve(&mut session, state, name);
    match send(&mut session, state, &reply(&token), listener) {
        Action::GoLive { replaced, .. } => (session, replaced),
        other => panic!("{:?}", other),
    }
}

#[test]
fn standalone_bytes() {
    assert_eq!(Event::PromptToken { sender: "T" }.serialize(), b"\x02T");
    assert_eq!(Event::LetsGo { public_url: "u" }.serialize(), b"\x04u");
    assert_eq!(Event::AuthFailed.serialize(), vec![5]);
    assert_eq!(Event::Data { id: ID, data: b"x" }.serialize(), with_id(6, b"x"));
    assert_eq!(Event::Closed { id: ID }.serialize(), with_id(7, b""));
}

#[test]
fn standalone_packets_are_read() {
    assert!(matches!(
        Event::deserialize(b"\x01bot"),
        Ok(Event::ReserveSubdomain { subdomain: "bot" })
    ));
    assert!(matches!(Event::deserialize(b"\x03"), Ok(Event::ReplyToken { token: "" })));
    assert!(matches!(
        Event::deserialize(&with_id(6, b"\xff")),
        Ok(Event::Data { id, data: b"\xff" }) if id == ID
    ));
    assert!(matches!(
        Event::deserialize(&with_id(7, b"ignored")),
        Ok(Event::Closed { id }) if id == ID
    ));
}

#[test]
fn standalone_read_errors() {
    let error = |bytes: &[u8]| Event::deserialize(bytes).unwrap_err();
    assert_eq!(error(b""), ParseEventError::Eof);
    assert_eq!(error(b"\x06short"), ParseEventError::Eof);
    assert_eq!(error(b"\x07"), ParseEventError::Eof);
    assert_eq!(error(b"\x01\xff"), ParseEventError::InvalidUtf8);
    assert_eq!(error(b"\x03\xff"), ParseEventError::InvalidUtf8);
    assert_eq!(error(b"\x02x"), ParseEventError::OnlyOutgoing);
    assert_eq!(error(b"\x04x"), ParseEventError::OnlyOutgoing);
    assert_eq!(error(b"\x05"), ParseEventError::OnlyOutgoing);
    assert_eq!(error(b"\x00"), ParseEventError::UnknownType);
    assert_eq!(error(b"\x08"), ParseEventError::UnknownType);
}

#[test]
fn standalone_outgoing_packets_read_back() {
    let data = Event::Data { id: ID, data: b"raw" };
    assert_eq!(
        format!("{:?}", Event::deserialize(&data.serialize()).unwrap()),
        format!("{:?}", data)
    );
    let prompt = Event::PromptToken { sender: "T" };
    assert_eq!(
        Event::deserialize(&prompt.serialize()).unwrap_err(),
        ParseEventError::OnlyOutgoing
    );
}

#[test]
fn reservation_and_token() {
    let mut state = host();
    let mut session = Session::open();
    match send(&mut session, &mut state, b"\x01botName", "c1") {
        Action::Tell { tell, reply } => {
            assert_eq!(tell.character, "BotName");
            assert_eq!(tell.token.len(), 36);
            assert_eq!(reply, b"\x02Teller");
            match &session.client_state {
                ClientState::WaitingForTokenReply { expected_token, subdomain } => {
                    assert_eq!(*expected_token, tell.token);
                    assert_eq!(subdomain, "botname");
                }
                other => panic!("{:?}", other),
            }
            match send(&mut session, &mut state, &self::reply(&tell.token), "c1") {
                Action::GoLive { packet, replaced } => {
                    assert_eq!(packet, b"\x04https://botname.nadybotters.org");
                    assert_eq!(replaced, None);
                }
                other => panic!("{:?}", other),
            }
        }
        other => panic!("{:?}", other),
    }
    assert!(matches!(session.client_state, ClientState::Proxying));
    assert_eq!(state.get_event_sender("botname").as_deref(), Some("c1"));
    let request = b"GET / HTTP/1.1\r\nHost: botname.nadybotters.org\r\n\r\n";
    assert!(matches!(state.receive(request), Route::Tunnel(channel) if channel == "c1"));
}

#[test]
fn wrong_token_may_be_corrected() {
    let mut state = host();
    let mut session = Session::open();
    let token = reserve(&mut session, &mut state, "bot");
    for wrong in ["", "wrong"] {
        let action = send(&mut session, &mut state, &reply(wrong), "c1");
        assert!(matches!(action, Action::Send(packet) if packet == vec![5]));
        assert_eq!(state.get_event_sender("bot"), None);
    }
    let action = send(&mut session, &mut state, &reply(&token), "c1");
    assert!(matches!(action, Action::GoLive { .. }));
}

#[test]
fn standalone_disallowed_packets() {
    let mut state = host();
    let mut session = Session::open();
    assert!(matches!(send(&mut session, &mut state, b"\x03tok", "c1"), Action::Finish));
    let data = with_id(6, b"x");
    assert!(matches!(send(&mut session, &mut state, &data, "c1"), Action::Finish));
    let _ = reserve(&mut session, &mut state, "bot");
    assert!(matches!(send(&mut session, &mut state, b"\x01bot", "c1"), Action::Finish));
    let (mut session, _) = let_in(&mut state, "bot", "c1");
    assert!(matches!(send(&mut session, &mut state, b"\x03tok", "c1"), Action::Finish));
}

#[test]
fn standalone_undecodable_packets_are_ignored() {
    let mut state = host();
    let mut session = Session::open();
    for payload in [&b""[..], b"\x05", b"\x63", b"\x01\xff"] {
        assert!(matches!(send(&mut session, &mut state, payload, "c1"), Action::Continue));
    }
    let _ = reserve(&mut session, &mut state, "bot");
}

#[test]
fn standalone_given_token_is_told() {
    let mut state = host();
    let mut session = Session::open();
    let action = session.on_frame_with(
        &mut state,
        Frame::Payload(b"\x01bot"),
        "c1",
        String::from("tok"),
    );
    assert!(matches!(action, Action::Tell { tell, .. } if tell.token == "tok"));
    let action = send(&mut session, &mut state, b"\x03tok", "c1");
    assert!(matches!(action, Action::GoLive { .. }));
}

#[test]
fn standalone_data_flows_both_ways() {
    let mut state = host();
    let (mut session, _) = let_in(&mut state, "bot", "c1");
    let tunnel = Tunnel { id: String::from(ID) };
    let action = session.on_stream_event(tunnel.opened(String::from("s1")));
    assert!(matches!(action, Action::Continue));
    let action = session.on_stream_event(tunnel.on_read(Some(b"request")));
    assert!(matches!(action, Action::Send(packet) if packet == with_id(6, b"request")));
    match send(&mut session, &mut state, &with_id(6, b"answer"), "c1") {
        Action::Deliver { sender, event } => {
            assert_eq!(sender, "s1");
            assert_eq!(tunnel.on_event(event).as_deref(), Some(&b"answer"[..]));
        }
        other => panic!("{:?}", other),
    }
    match send(&mut session, &mut state, &with_id(7, b""), "c1") {
        Action::Deliver { sender, event } => {
            assert_eq!(sender, "s1");
            assert_eq!(tunnel.on_event(event), None);
        }
        other => panic!("{:?}", other),
    }
    let action = send(&mut session, &mut state, &with_id(6, b"late"), "c1");
    assert!(matches!(action, Action::Continue));
    let action = session.on_stream_event(tunnel.on_read(None));
    assert!(matches!(action, Action::Send(packet) if packet == with_id(7, b"")));
}

#[test]
fn standalone_tunnel() {
    assert_eq!(Tunnel::new().id.len(), 36);
    let tunnel = Tunnel { id: String::from("i") };
    assert!(matches!(
        tunnel.on_read(Some(b"")),
        StreamEvent::Data { id, data } if id == "i" && data.is_empty()
    ));
    assert!(matches!(tunnel.on_read(None), StreamEvent::Close { id } if id == "i"));
    assert!(tunnel.on_written(true).is_none());
    assert!(matches!(tunnel.on_written(false), Some(StreamEvent::Close { id }) if id == "i"));
}

#[test]
fn standalone_pings() {
    let mut state = host();
    let mut session = Session::open();
    assert_eq!(IDLE_SECONDS, 60);
    assert!(matches!(session.on_idle(), Action::Ping));
    assert!(matches!(session.on_frame(&mut state, Frame::Pong, "c1"), Action::Continue));
    assert!(matches!(session.on_idle(), Action::Ping));
    assert!(matches!(session.on_frame(&mut state, Frame::Other, "c1"), Action::Continue));
    assert!(matches!(session.on_idle(), Action::Finish));
}

#[test]
fn standalone_last_client_has_the_subdomain() {
    let mut state = host();
    let (first, replaced) = let_in(&mut state, "bot", "c1");
    assert_eq!(replaced, None);
    let (_second, replaced) = let_in(&mut state, "BOT", "c2");
    assert_eq!(replaced.as_deref(), Some("c1"));
    assert_eq!(state.get_event_sender("bot").as_deref(), Some("c2"));
    let farewell = first.finish(&mut state);
    assert_eq!(farewell.unregistered.as_deref(), Some("c2"));
    assert_eq!(state.get_event_sender("bot"), None);
}

#[test]
fn standalone_farewell() {
    let mut state = host();
    let (mut session, _) = let_in(&mut state, "bot", "c1");
    let (_other, _) = let_in(&mut state, "other", "c2");
    let _ = session.on_stream_event(StreamEvent::new(String::from("i1"), String::from("s1")));
    let _ = session.on_stream_event(StreamEvent::new(String::from("i2"), String::from("s2")));
    let _ = session.on_stream_event(StreamEvent::close(String::from("i1")));
    let farewell = session.finish(&mut state);
    assert_eq!(farewell.unregistered.as_deref(), Some("c1"));
    assert_eq!(format!("{:?}", farewell.closing), "[(\"s2\", Close { id: \"i2\" })]");
    assert_eq!(state.get_event_sender("bot"), None);
    assert_eq!(state.get_event_sender("other").as_deref(), Some("c2"));
    let farewell = Session::open().finish(&mut state);
    assert_eq!(farewell.unregistered, None);
    assert!(farewell.closing.is_empty());
}

#[test]
fn standalone_routes() {
    let mut state = host();
    assert_eq!(state.register_event_listener(String::from("bot"), String::from("c1")), None);
    let shown = |host: &str| {
        let request = format!("GET / HTTP/1.1\r\nHost: {}\r\n\r\n", host);
        format!("{:?}", state.receive(request.as_bytes()))
    };
    assert_eq!(shown("bot.nadybotters.org"), "Tunnel(\"c1\")");
    assert_eq!(shown("localhost.nadybotters.org"), "Control");
    assert_eq!(shown("localhost."), "Control");
    assert_eq!(shown("who.nadybotters.org"), "NotFound");
    assert_eq!(shown("localhost"), "Respond(HostNoSubdomain)");
    assert!(matches!(
        state.receive(b"GET / HTTP/1.1\r\n\r\n"),
        Route::Respond(Response::MissingHostHeader)
    ));
    assert!(matches!(
        state.receive(b"GET / HTTP/1.1\r\nHost: \xff.a\r\n\r\n"),
        Route::Respond(Response::HostNotUtf8)
    ));
    assert!(matches!(state.receive(b"GET / HT"), Route::Wait));
    assert!(matches!(
        state.receive(b"\x01\r\n\r\n"),
        Route::Respond(Response::FailedToParse)
    ));
    assert_eq!(NOT_FOUND, "HTTP/1.1 404\r\n\r\n");
    assert_eq!(state.unregister_event_listener("bot").as_deref(), Some("c1"));
    assert_eq!(state.unregister_event_listener("bot"), None);
}

#[test]
fn port_is_parsed_as_a_number() {
    for s in [
        "0", "1", "80", "7777", "65535", "65536", "70000", "99999999999999", "", "+", "+80", "++8",
        "-0", "-1", "007", "00000000000065535", " 80", "80 ", "8a", "\u{663}", "+0", "8+",
    ] {
        assert_eq!(parse_port(s), s.parse::<u16>().ok(), "{:?}", s);
    }
    for n in 0..=70000u32 {
        let s = format!("{}", n);
        assert_eq!(parse_port(&s), s.parse::<u16>().ok());
    }
}

#[test]
fn settings_have_defaults() {
    assert_eq!(port(None), 7777);
    assert_eq!(port(Some("x")), 7777);
    assert_eq!(port(Some("80")), 80);
    assert_eq!(domain(None), "nadybotters.org");
    assert_eq!(domain(Some(String::from("a.b"))), "a.b");
}
