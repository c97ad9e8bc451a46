use drill::client::{greet, pass_on, Args as ClientArgs, Client, ClientAction, Connecting, Reply};
use drill::config::{Args, AuthBackend, SubdomainStrategy};
use drill::event::StreamEvent;
use drill::request::Route;
use drill::session::{Action, Frame, Session};
use drill::state::State;
use drill::tunnel::Tunnel;

const TOKEN: &str = "01234567-89ab-4cde-8f01-23456789abcd";

fn server(auth: AuthBackend) -> State {
    let args = Args {
        max_clients: 10,
        ao_username: None,
        ao_password: None,
        ao_character: None,
        auth,
        subdomain_strategy: SubdomainStrategy::ClientChoice,
        token_file: Some(String::from("tokens")),
        auth_backend: None,
        websocket_host: String::from("mydomain.com"),
        domain: String::from("mydomain.com"),
        description: String::from("Welcome"),
        port: 7777,
    };
    State::new(args, Some(TOKEN)).ok().unwrap()
}

/// Connects a client that wants `subdomain`; the name of its channel is that of
/// the subdomain.
fn connect(state: &mut State, subdomain: &str, token: Option<&str>) -> (Session, Client) {
    let args = ClientArgs {
        port: 8080,
        subdomain: String::from(subdomain),
        drill: String::from("mydomain.com"),
        token: token.map(String::from),
    };
    let (mut session, hello) = Session::open(state);
    let greeting = greet(&hello, &args).unwrap();
    assert_eq!(greeting.description, "Welcome");
    let Reply::Present(packet) = greeting.reply else { panic!() };
    let Action::GoLive(answer) = session.on_frame(state, Frame::Payload(&packet), subdomain) else {
        panic!()
    };
    let mut client = Client::new();
    match client.on_frame(Frame::Payload(&answer)) {
        Ok(ClientAction::Live(url)) => {
            assert_eq!(url, format!("https://{}.mydomain.com", subdomain));
        }
        other => panic!("{:?}", other),
    }
    (session, client)
}

/// Passes a request on to the client, and says what the client does about it.
fn request(session: &mut Session, client: &mut Client, tunnel: &Tunnel, data: &[u8]) -> ClientAction {
    let news = tunnel.on_read(Some(data)).unwrap();
    let Action::Send(packet) = session.on_stream_event(news) else { panic!() };
    client.on_frame(Frame::Payload(&packet)).unwrap()
}

fn open(session: &mut Session) -> Tunnel {
    let tunnel = Tunnel::new();
    let news = tunnel.opened(tunnel.id.clone());
    assert!(matches!(session.on_stream_event(news), Action::Continue));
    tunnel
}

#[test]
fn request_and_answer() {
    for (auth, token) in [(AuthBackend::Anonymous, None), (AuthBackend::Private, Some(TOKEN))] {
        let mut state = server(auth);
        let (mut session, mut client) = connect(&mut state, "sub", token);
        let head = b"GET / HTTP/1.1\r\nHost: sub.mydomain.com\r\n\r\n";
        assert!(matches!(state.receive(head).0, Route::Tunnel(name) if name == "sub"));
        let tunnel = open(&mut session);

        match request(&mut session, &mut client, &tunnel, head) {
            ClientAction::Connect { id, data } => {
                assert_eq!(id, tunnel.id);
                assert_eq!(data, head);
                assert!(client.on_connecting(&id, Connecting::Established).is_empty());
            }
            other => panic!("{:?}", other),
        }
        match request(&mut session, &mut client, &tunnel, b"more") {
            ClientAction::Write { id, data } => {
                assert_eq!(id, tunnel.id);
                assert_eq!(data, b"more");
            }
            other => panic!("{:?}", other),
        }

        let (packet, go_on) = pass_on(&tunnel.id, Some(b"HTTP/1.1 204\r\n\r\n"));
        assert!(go_on);
        match session.on_frame(&mut state, Frame::Payload(&packet), "sub") {
            Action::Deliver { sender, event } => {
                assert_eq!(sender, tunnel.id);
                let written = tunnel.on_event(event).unwrap();
                assert_eq!(written, b"HTTP/1.1 204\r\n\r\n");
            }
            other => panic!("{:?}", other),
        }

        let (packet, go_on) = pass_on(&tunnel.id, Some(b""));
        assert!(!go_on);
        match session.on_frame(&mut state, Frame::Payload(&packet), "sub") {
            Action::Deliver { event, .. } => assert!(tunnel.on_event(event).is_none()),
            other => panic!("{:?}", other),
        }
    }
}

#[test]
fn connections_do_not_mix() {
    let mut state = server(AuthBackend::Anonymous);
    let (mut session, mut client) = connect(&mut state, "sub", None);
    let one = open(&mut session);
    let two = open(&mut session);
    for (tunnel, data) in [(&one, b"one"), (&two, b"two")] {
        match request(&mut session, &mut client, tunnel, data) {
            ClientAction::Connect { id, data: sent } => {
                assert_eq!(id, tunnel.id);
                assert_eq!(sent, data);
                let _ = client.on_connecting(&id, Connecting::Established);
            }
            other => panic!("{:?}", other),
        }
    }
    // One ends; the other goes on.
    let id = one.id.clone();
    let Action::Send(packet) = session.on_stream_event(one.closed()) else { panic!() };
    match client.on_frame(Frame::Payload(&packet)) {
        Ok(ClientAction::Shutdown(ended)) => assert_eq!(ended, id),
        other => panic!("{:?}", other),
    }
    let (late, _) = pass_on(&id, Some(b"late"));
    let action = session.on_frame(&mut state, Frame::Payload(&late), "sub");
    assert!(matches!(action, Action::Continue));
    let (packet, _) = pass_on(&two.id, Some(b"answer"));
    match session.on_frame(&mut state, Frame::Payload(&packet), "sub") {
        Action::Deliver { sender, event: StreamEvent::Data { id, data } } => {
            assert_eq!(sender, two.id);
            assert_eq!(id, two.id);
            assert_eq!(data, b"answer");
        }
        other => panic!("{:?}", other),
    }
}

#[test]
fn local_server_is_answered_for() {
    let mut state = server(AuthBackend::Anonymous);
    let (mut session, mut client) = connect(&mut state, "sub", None);
    let tunnel = open(&mut session);
    let action = request(&mut session, &mut client, &tunnel, b"GET");
    assert!(matches!(action, ClientAction::Connect { .. }));
    let packets = client.on_connecting(&tunnel.id, Connecting::Refused);
    assert_eq!(packets.len(), 2);
    match session.on_frame(&mut state, Frame::Payload(&packets[0]), "sub") {
        Action::Deliver { event, .. } => {
            let written = tunnel.on_event(event).unwrap();
            assert_eq!(written, b"HTTP/1.1 502\r\nContent-Length: 0\r\n\r\n");
        }
        other => panic!("{:?}", other),
    }
    match session.on_frame(&mut state, Frame::Payload(&packets[1]), "sub") {
        Action::Deliver { event, .. } => assert!(tunnel.on_event(event).is_none()),
        other => panic!("{:?}", other),
    }
}

#[test]
fn one_client_takes_nothing_from_another() {
    let mut state = server(AuthBackend::Anonymous);
    let (_one, _) = connect(&mut state, "one", None);
    let (two, _) = connect(&mut state, "two", None);
    assert_eq!(state.get_event_sender("one").as_deref(), Some("one"));

    // A third client wants the subdomain of the first and is refused.
    let args = ClientArgs {
        port: 8080,
        subdomain: String::from("one"),
        drill: String::from("mydomain.com"),
        token: None,
    };
    let (mut three, hello) = Session::open(&state);
    let Reply::Present(packet) = greet(&hello, &args).unwrap().reply else { panic!() };
    let Action::Finish(Some(answer)) =
        three.on_frame(&mut state, Frame::Payload(&packet), "three")
    else {
        panic!()
    };
    let mut client = Client::new();
    assert!(matches!(
        client.on_frame(Frame::Payload(&answer)),
        Ok(ClientAction::OutOfCapacity)
    ));
    assert_eq!(three.finish(&mut state).unregistered, None);
    assert_eq!(state.get_event_sender("one").as_deref(), Some("one"));
    let head = b"GET / HTTP/1.1\r\nHost: one.mydomain.com\r\n\r\n";
    assert!(matches!(state.receive(head).0, Route::Tunnel(name) if name == "one"));
    let _ = two.finish(&mut state);
    assert_eq!(state.get_event_sender("one").as_deref(), Some("one"));
    assert_eq!(state.get_event_sender("two"), None);
}
