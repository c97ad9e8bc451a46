use drill::auth::Verdict;
use drill::config::{Args, AuthBackend, SubdomainStrategy};
use drill::state::{StartError, State};

fn args(auth: AuthBackend) -> Args {
    Args {
        max_clients: 2,
        ao_username: None,
        ao_password: None,
        ao_character: None,
        auth,
        subdomain_strategy: SubdomainStrategy::ClientChoice,
        token_file: None,
        auth_backend: None,
        websocket_host: String::from("mydomain.com"),
        domain: String::from("mydomain.com"),
        description: String::from("Hi"),
        port: 7777,
    }
}

fn some(s: &str) -> Option<String> {
    Some(String::from(s))
}

#[test]
fn anonymous_server_starts() {
    assert!(State::new(args(AuthBackend::Anonymous), None).is_ok());
}

#[test]
fn ao_server_needs_credentials() {
    let full = Args {
        ao_username: some("u"),
        ao_password: some("p"),
        ao_character: some("C"),
        ..args(AuthBackend::Ao)
    };
    assert!(State::new(full, None).is_ok());
    let partial = Args { ao_username: some("u"), ..args(AuthBackend::Ao) };
    assert!(matches!(State::new(partial, None), Err(StartError::MissingCredentials)));
}

#[test]
fn private_server_needs_a_token_file() {
    let named = || Args { token_file: some("tokens"), ..args(AuthBackend::Private) };
    assert!(matches!(
        State::new(args(AuthBackend::Private), Some("a b")),
        Err(StartError::NoTokenFile)
    ));
    assert!(matches!(State::new(named(), None), Err(StartError::UnreadableTokenFile)));
    let mut state = State::new(named(), Some("a b")).ok().unwrap();
    let choice = SubdomainStrategy::ClientChoice;
    assert!(matches!(state.auth_provider.verify("b", "s", choice), Verdict::Granted(_)));
    assert!(matches!(state.auth_provider.verify("c", "s", choice), Verdict::Rejected));
}

#[test]
fn dynamic_server_needs_an_endpoint() {
    assert!(matches!(
        State::new(args(AuthBackend::Dynamic), None),
        Err(StartError::NoAuthBackend)
    ));
    let named = Args { auth_backend: some("http://e/"), ..args(AuthBackend::Dynamic) };
    let mut state = State::new(named, None).ok().unwrap();
    match state.auth_provider.verify("t", "s", SubdomainStrategy::Random) {
        Verdict::Ask(uri) => assert_eq!(uri, "http://e/?token=t&desired_subdomain=s"),
        other => panic!("{:?}", other),
    }
}

fn anonymous() -> State {
    State::new(args(AuthBackend::Anonymous), None).ok().unwrap()
}

#[test]
fn registered_listener_is_found() {
    let mut state = anonymous();
    assert_eq!(state.get_event_sender("one"), None);
    assert!(state.register_event_listener(String::from("one"), String::from("c1")));
    assert_eq!(state.get_event_sender("one").as_deref(), Some("c1"));
    assert_eq!(state.get_event_sender("two"), None);
}

#[test]
fn subdomain_in_use_is_refused() {
    let mut state = anonymous();
    assert!(state.register_event_listener(String::from("one"), String::from("c1")));
    assert!(!state.register_event_listener(String::from("one"), String::from("c2")));
    assert_eq!(state.get_event_sender("one").as_deref(), Some("c1"));
}

#[test]
fn full_server_refuses() {
    let mut state = anonymous();
    assert!(state.register_event_listener(String::from("one"), String::from("c1")));
    assert!(state.register_event_listener(String::from("two"), String::from("c2")));
    assert!(!state.register_event_listener(String::from("three"), String::from("c3")));
    assert_eq!(state.get_event_sender("three"), None);
    assert_eq!(state.unregister_event_listener("one").as_deref(), Some("c1"));
    assert!(state.register_event_listener(String::from("three"), String::from("c3")));
}

#[test]
fn unregistered_subdomain_is_free() {
    let mut state = anonymous();
    assert!(state.register_event_listener(String::from("one"), String::from("c1")));
    assert_eq!(state.unregister_event_listener("one").as_deref(), Some("c1"));
    assert_eq!(state.unregister_event_listener("one"), None);
    assert_eq!(state.get_event_sender("one"), None);
    assert!(state.register_event_listener(String::from("one"), String::from("c2")));
    assert_eq!(state.get_event_sender("one").as_deref(), Some("c2"));
}

#[test]
fn server_without_room_takes_no_one() {
    let none = Args { max_clients: 0, ..args(AuthBackend::Anonymous) };
    let mut state = State::new(none, None).ok().unwrap();
    assert!(!state.register_event_listener(String::from("one"), String::from("c1")));
}
