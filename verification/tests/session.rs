use drill::auth::dynamic::BackendReply;
use drill::auth::{AuthState, Verdict};
use drill::config::{Args, AuthBackend, SubdomainStrategy};
use drill::event::StreamEvent;
use drill::proto::{AuthMode, Event};
use drill::request::Route;
use drill::session::{Action, Frame, Session};
use drill::state::State;
use drill::tunnel::Tunnel;

const TOKEN: &str = "AAAAAAAAAAAAAAAAAAAAAAAAAAAAAAAAAAAA";
const ID: &str = "01234567-89ab-4cde-8f01-23456789abcd";

fn args(auth: AuthBackend) -> Args {
    Args {
        max_clients: 2,
        ao_username: Some(String::from("user")),
        ao_password: Some(String::from("pass")),
        ao_character: Some(String::from("Teller")),
        auth,
        subdomain_strategy: SubdomainStrategy::ClientChoice,
        token_file: Some(String::from("tokens")),
        auth_backend: Some(String::from("http://e/")),
        websocket_host: String::from("go.mydomain.com"),
        domain: String::from("mydomain.com"),
        description: String::from("Hi"),
        port: 7777,
    }
}

fn server(auth: AuthBackend) -> State {
    State::new(args(auth), Some(TOKEN)).ok().unwrap()
}

fn send(session: &mut Session, state: &mut State, event: &Event<'_>, listener: &str) -> Action {
    session.on_frame(state, Frame::Payload(&event.serialize()), listener)
}

fn let_in(state: &mut State, subdomain: &str, listener: &str) -> Session {
    let (mut session, _) = Session::open(state);
    match send(&mut session, state, &Event::present_token(TOKEN, subdomain), listener) {
        Action::GoLive(packet) => {
            let url = format!("https://{}.mydomain.com", subdomain);
            assert_eq!(packet, Event::lets_go(&url).serialize());
        }
        other => panic!("{:?}", other),
    }
    session
}

fn is_finish(action: &Action, event: &Event<'_>) -> bool {
    matches!(action, Action::Finish(Some(packet)) if *packet == event.serialize())
}

#[test]
fn client_is_greeted() {
    let greeting = |auth: AuthBackend| Session::open(&server(auth));
    let (session, hello) = greeting(AuthBackend::Ao);
    assert_eq!(hello, Event::hello(AuthMode::AoTell, "Hi").serialize());
    assert_eq!(session.auth_state, AuthState::AwaitingAoAuth);
    let (session, hello) = greeting(AuthBackend::Anonymous);
    assert_eq!(hello, Event::hello(AuthMode::Anonymous, "Hi").serialize());
    assert_eq!(session.auth_state, AuthState::AwaitingToken);
    let (_, hello) = greeting(AuthBackend::Private);
    assert_eq!(hello, Event::hello(AuthMode::StaticToken, "Hi").serialize());
    let (_, hello) = greeting(AuthBackend::Dynamic);
    assert_eq!(hello, Event::hello(AuthMode::StaticToken, "Hi").serialize());
}

#[test]
fn client_goes_live() {
    let mut state = server(AuthBackend::Anonymous);
    let session = let_in(&mut state, "sub", "c1");
    assert_eq!(session.auth_state, AuthState::Proxying);
    assert_eq!(state.get_event_sender("sub").as_deref(), Some("c1"));
    let request = b"GET / HTTP/1.1\r\nHost: sub.mydomain.com\r\n\r\n";
    assert!(matches!(state.receive(request).0, Route::Tunnel(channel) if channel == "c1"));
}

#[test]
fn random_subdomain_goes_live() {
    let mut state = State::new(
        Args { subdomain_strategy: SubdomainStrategy::Random, ..args(AuthBackend::Anonymous) },
        None,
    )
    .ok()
    .unwrap();
    let (mut session, _) = Session::open(&state);
    let action = send(&mut session, &mut state, &Event::present_token(TOKEN, "sub"), "c1");
    let Action::GoLive(packet) = action else { panic!() };
    let Ok(Event::LetsGo { public_url }) = Event::deserialize(&packet) else { panic!() };
    assert_eq!(public_url, format!("https://{}.mydomain.com", session.actual_subdomain));
    assert_eq!(session.actual_subdomain.len(), 36);
    let host = &public_url["https://".len()..];
    let request = format!("GET / HTTP/1.1\r\nHost: {}\r\n\r\n", host);
    assert!(matches!(
        state.receive(request.as_bytes()).0,
        Route::Tunnel(channel) if channel == "c1"
    ));
}

#[test]
fn character_is_told_a_token() {
    let mut state = server(AuthBackend::Ao);
    let (mut session, _) = Session::open(&state);
    let token = match send(&mut session, &mut state, &Event::ao_auth("botname"), "c1") {
        Action::Tell { tell, reply } => {
            assert_eq!(tell.character, "Botname");
            assert_eq!(reply, Event::token_in_ao_tell("Teller").serialize());
            tell.token
        }
        other => panic!("{:?}", other),
    };
    assert_eq!(token.len(), 36);
    assert_eq!(session.auth_state, AuthState::AwaitingToken);
    let action = send(&mut session, &mut state, &Event::present_token(&token, "sub"), "c1");
    assert!(matches!(action, Action::GoLive(_)));
    // The token is spent.
    let (mut other, _) = Session::open(&state);
    let _ = send(&mut other, &mut state, &Event::ao_auth("botname"), "c2");
    let action = send(&mut other, &mut state, &Event::present_token(&token, "sub2"), "c2");
    assert!(is_finish(&action, &Event::auth_failed()));
}

#[test]
fn wrong_token_is_answered() {
    let mut state = server(AuthBackend::Private);
    let (mut session, _) = Session::open(&state);
    let wrong = Event::present_token(ID, "sub");
    let action = send(&mut session, &mut state, &wrong, "c1");
    assert!(is_finish(&action, &Event::auth_failed()));
    assert_eq!(state.get_event_sender("sub"), None);
    let _ = let_in(&mut state, "sub", "c1");
}

#[test]
fn full_server_is_answered() {
    let mut state = server(AuthBackend::Anonymous);
    let _one = let_in(&mut state, "one", "c1");
    let _two = let_in(&mut state, "two", "c2");
    let (mut session, _) = Session::open(&state);
    let action = send(&mut session, &mut state, &Event::present_token(TOKEN, "three"), "c3");
    assert!(is_finish(&action, &Event::out_of_capacity()));
    assert_eq!(state.get_event_sender("three"), None);
    let farewell = session.finish(&mut state);
    assert_eq!(farewell.unregistered, None);
    assert_eq!(state.get_event_sender("one").as_deref(), Some("c1"));
    assert_eq!(state.get_event_sender("two").as_deref(), Some("c2"));
}

#[test]
fn subdomain_in_use_is_answered() {
    let mut state = server(AuthBackend::Anonymous);
    let _one = let_in(&mut state, "one", "c1");
    let (mut session, _) = Session::open(&state);
    let action = send(&mut session, &mut state, &Event::present_token(TOKEN, "one"), "c2");
    assert!(is_finish(&action, &Event::out_of_capacity()));
    assert_eq!(state.get_event_sender("one").as_deref(), Some("c1"));
    // Who was refused takes nothing away.
    let farewell = session.finish(&mut state);
    assert_eq!(farewell.unregistered, None);
    assert_eq!(state.get_event_sender("one").as_deref(), Some("c1"));
}

#[test]
fn disallowed_packets() {
    let refused = |auth: AuthBackend, event: &Event<'_>| {
        let mut state = server(auth);
        let (mut session, _) = Session::open(&state);
        let action = send(&mut session, &mut state, event, "c1");
        assert!(is_finish(&action, &Event::disallowed_packet()), "{:?}", action);
    };
    refused(AuthBackend::Ao, &Event::present_token(TOKEN, "sub"));
    refused(AuthBackend::Ao, &Event::data(ID, b"x"));
    refused(AuthBackend::Anonymous, &Event::ao_auth("Bot"));
    refused(AuthBackend::Anonymous, &Event::data(ID, b"x"));
    refused(AuthBackend::Anonymous, &Event::closed(ID));
    refused(AuthBackend::Anonymous, &Event::hello(AuthMode::Anonymous, ""));
    refused(AuthBackend::Private, &Event::lets_go(""));
    let mut state = server(AuthBackend::Anonymous);
    let mut session = let_in(&mut state, "sub", "c1");
    let action = send(&mut session, &mut state, &Event::present_token(TOKEN, "sub"), "c1");
    assert!(is_finish(&action, &Event::disallowed_packet()));
}

#[test]
fn undecodable_packets() {
    let mut state = server(AuthBackend::Anonymous);
    let (mut session, _) = Session::open(&state);
    for payload in [&b""[..], b"\xff", b"\x04short"] {
        let action = session.on_frame(&mut state, Frame::Payload(payload), "c1");
        assert!(is_finish(&action, &Event::disallowed_packet()));
    }
}

#[test]
fn endpoint_is_asked_and_decides() {
    let mut state = server(AuthBackend::Dynamic);
    let (mut session, _) = Session::open(&state);
    let action = send(&mut session, &mut state, &Event::present_token(TOKEN, "sub"), "c1");
    let expected = format!("http://e/?token={}&desired_subdomain=sub", TOKEN);
    assert!(matches!(action, Action::Ask(uri) if uri == expected));
    assert_eq!(session.auth_state, AuthState::AwaitingToken);
    let reply = BackendReply::Answer { status: 201, body: Some(b"given".to_vec()) };
    let action = session.on_reply(&mut state, &reply, "c1");
    let url = Event::lets_go("https://given.mydomain.com").serialize();
    assert!(matches!(action, Action::GoLive(packet) if packet == url));
    assert_eq!(state.get_event_sender("given").as_deref(), Some("c1"));

    // A subdomain that is in use is refused to the next client, and stays.
    let (mut session, _) = Session::open(&state);
    let action = session.on_reply(&mut state, &reply, "c2");
    assert!(is_finish(&action, &Event::out_of_capacity()));
    assert_eq!(session.finish(&mut state).unregistered, None);
    assert_eq!(state.get_event_sender("given").as_deref(), Some("c1"));

    let (mut session, _) = Session::open(&state);
    let action = session.on_reply(&mut state, &BackendReply::Unreachable, "c2");
    assert!(is_finish(&action, &Event::auth_failed()));
    let (mut session, _) = Session::open(&state);
    let reply = BackendReply::Answer { status: 404, body: Some(b"given".to_vec()) };
    let action = session.on_reply(&mut state, &reply, "c2");
    assert!(is_finish(&action, &Event::auth_failed()));
}

#[test]
fn verdicts() {
    let mut state = server(AuthBackend::Anonymous);
    let (mut session, _) = Session::open(&state);
    let action = session.on_verdict(&mut state, Verdict::Ask(String::from("u")), "c1");
    assert!(matches!(action, Action::Ask(uri) if uri == "u"));
    let action = session.on_verdict(&mut state, Verdict::Rejected, "c1");
    assert!(is_finish(&action, &Event::auth_failed()));
    let granted = Verdict::Granted(String::from("sub"));
    let action = session.on_verdict(&mut state, granted, "c1");
    assert!(matches!(action, Action::GoLive(_)));
}

#[test]
fn given_token_and_subdomain_are_used() {
    let mut state = State::new(
        Args { subdomain_strategy: SubdomainStrategy::Random, ..args(AuthBackend::Ao) },
        None,
    )
    .ok()
    .unwrap();
    let (mut session, _) = Session::open(&state);
    let frame = Event::ao_auth("bot").serialize();
    let action = session.on_frame_with(
        &mut state,
        Frame::Payload(&frame),
        "c1",
        String::from(TOKEN),
        String::from("r"),
    );
    assert!(matches!(action, Action::Tell { tell, .. } if tell.token == TOKEN));
    let frame = Event::present_token(TOKEN, "sub").serialize();
    let action = session.on_frame_with(
        &mut state,
        Frame::Payload(&frame),
        "c1",
        String::from(TOKEN),
        String::from("r"),
    );
    let url = Event::lets_go("https://r.mydomain.com").serialize();
    assert!(matches!(action, Action::GoLive(packet) if packet == url));
}

#[test]
fn data_flows_both_ways() {
    let mut state = server(AuthBackend::Anonymous);
    let mut session = let_in(&mut state, "sub", "c1");
    let tunnel = Tunnel::new();
    let id = tunnel.id.clone();
    let action = session.on_stream_event(tunnel.opened(String::from("s1")));
    assert!(matches!(action, Action::Continue));

    let news = tunnel.on_read(Some(b"request")).unwrap();
    let action = session.on_stream_event(news);
    assert!(matches!(action, Action::Send(p) if p == Event::data(&id, b"request").serialize()));

    match send(&mut session, &mut state, &Event::data(&id, b"answer"), "c1") {
        Action::Deliver { sender, event } => {
            assert_eq!(sender, "s1");
            assert_eq!(tunnel.on_event(event).as_deref(), Some(&b"answer"[..]));
        }
        other => panic!("{:?}", other),
    }

    let action = session.on_stream_event(tunnel.closed());
    assert!(matches!(action, Action::Send(p) if p == Event::closed(&id).serialize()));
    let action = send(&mut session, &mut state, &Event::data(&id, b"late"), "c1");
    assert!(matches!(action, Action::Continue));
}

#[test]
fn client_closes_a_connection() {
    let mut state = server(AuthBackend::Anonymous);
    let mut session = let_in(&mut state, "sub", "c1");
    let _ = session.on_stream_event(StreamEvent::new(String::from(ID), String::from("s1")));
    match send(&mut session, &mut state, &Event::closed(ID), "c1") {
        Action::Deliver { sender, event } => {
            assert_eq!(sender, "s1");
            assert!(matches!(event, StreamEvent::Close { id } if id == ID));
        }
        other => panic!("{:?}", other),
    }
    let action = send(&mut session, &mut state, &Event::closed(ID), "c1");
    assert!(matches!(action, Action::Continue));
    let action = send(&mut session, &mut state, &Event::data(ID, b"x"), "c1");
    assert!(matches!(action, Action::Continue));
}

#[test]
fn pings() {
    let mut state = server(AuthBackend::Anonymous);
    let (mut session, _) = Session::open(&state);
    assert_eq!(drill::session::IDLE_SECONDS, 15);
    assert!(matches!(session.on_idle(), Action::Ping));
    assert!(matches!(session.on_frame(&mut state, Frame::Other, "c1"), Action::Continue));
    assert!(matches!(session.on_frame(&mut state, Frame::Pong, "c1"), Action::Continue));
    assert!(matches!(session.on_idle(), Action::Ping));
    assert!(matches!(session.on_frame(&mut state, Frame::Other, "c1"), Action::Continue));
    assert!(matches!(session.on_idle(), Action::Finish(None)));
}

#[test]
fn farewell_closes_everything_once() {
    let mut state = server(AuthBackend::Anonymous);
    let mut session = let_in(&mut state, "sub", "c1");
    let _other = let_in(&mut state, "other", "c2");
    for (id, sender) in [("i1", "s1"), ("i2", "s2"), ("i1", "s3")] {
        let _ = session.on_stream_event(StreamEvent::new(String::from(id), String::from(sender)));
    }
    let farewell = session.finish(&mut state);
    assert_eq!(farewell.unregistered.as_deref(), Some("c1"));
    let mut closing: Vec<String> =
        farewell.closing.iter().map(|entry| format!("{:?}", entry)).collect();
    closing.sort();
    assert_eq!(
        closing,
        vec!["(\"s2\", Close { id: \"i2\" })", "(\"s3\", Close { id: \"i1\" })"]
    );
    assert_eq!(state.get_event_sender("sub"), None);
    assert_eq!(state.get_event_sender("other").as_deref(), Some("c2"));
}

#[test]
fn farewell_without_a_subdomain() {
    let mut state = server(AuthBackend::Anonymous);
    let (session, _) = Session::open(&state);
    let farewell = session.finish(&mut state);
    assert_eq!(farewell.unregistered, None);
    assert!(farewell.closing.is_empty());
}

#[test]
fn empty_subdomain_is_given_back() {
    let mut state = server(AuthBackend::Anonymous);
    let _other = let_in(&mut state, "other", "c0");
    let session = let_in(&mut state, "", "c1");
    // Who was refused the empty subdomain takes nothing away either.
    let (mut refused, _) = Session::open(&state);
    let action = send(&mut refused, &mut state, &Event::present_token(TOKEN, ""), "c2");
    assert!(is_finish(&action, &Event::out_of_capacity()));
    assert_eq!(refused.finish(&mut state).unregistered, None);
    assert_eq!(state.get_event_sender("").as_deref(), Some("c1"));
    let farewell = session.finish(&mut state);
    assert_eq!(farewell.unregistered.as_deref(), Some("c1"));
    assert_eq!(state.get_event_sender(""), None);
    // Its place is free again.
    let _ = let_in(&mut state, "sub", "c3");
}

#[test]
fn tunnel_passes_on_what_it_reads() {
    let tunnel = Tunnel::new();
    assert_eq!(tunnel.id.len(), 36);
    match tunnel.on_read(Some(b"x")) {
        Some(StreamEvent::Data { id, data }) => {
            assert_eq!(id, tunnel.id);
            assert_eq!(data, b"x");
        }
        other => panic!("{:?}", other),
    }
    assert!(tunnel.on_read(Some(b"")).is_none());
    assert!(tunnel.on_read(None).is_none());
    assert!(tunnel.on_event(StreamEvent::close(tunnel.id.clone())).is_none());
    assert!(tunnel
        .on_event(StreamEvent::new(tunnel.id.clone(), String::from("s")))
        .is_none());
    let id = tunnel.id.clone();
    assert!(matches!(tunnel.closed(), StreamEvent::Close { id: closed } if closed == id));
}
