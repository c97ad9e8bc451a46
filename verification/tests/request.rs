use drill::config::{Args, AuthBackend, SubdomainStrategy};
use drill::request::{read_request, Header, Reading, RequestHead, Response, Route};
use drill::state::State;

fn server() -> State {
    let args = Args {
        max_clients: 10,
        ao_username: None,
        ao_password: None,
        ao_character: None,
        auth: AuthBackend::Anonymous,
        subdomain_strategy: SubdomainStrategy::ClientChoice,
        token_file: None,
        auth_backend: None,
        websocket_host: String::from("mydomain.com"),
        domain: String::from("mydomain.com"),
        description: String::new(),
        port: 7777,
    };
    let mut state = State::new(args, None).ok().unwrap();
    assert!(state.register_event_listener(String::from("sub"), String::from("channel")));
    state
}

fn shown(request: &str) -> String {
    format!("{:?}", server().receive(request.as_bytes()))
}

fn head(path: Option<&str>, headers: &[(&str, &[u8])]) -> RequestHead {
    RequestHead {
        path: path.map(String::from),
        headers: headers
            .iter()
            .map(|(name, value)| Header { name: String::from(*name), value: value.to_vec() })
            .collect(),
    }
}

#[test]
fn request_for_a_client() {
    assert_eq!(
        shown("GET / HTTP/1.1\r\nHost: sub.mydomain.com\r\n\r\n"),
        "(Tunnel(\"channel\"), None)"
    );
    assert_eq!(
        shown("GET / HTTP/1.1\r\nhOST: sub.other.org\r\n\r\n"),
        "(Tunnel(\"channel\"), None)"
    );
}

#[test]
fn request_for_the_websocket() {
    assert_eq!(shown("GET / HTTP/1.1\r\nHost: mydomain.com\r\n\r\n"), "(Control, None)");
    assert_eq!(shown("GET /x HTTP/1.1\r\nHost: mydomain.com\r\n\r\n"), "(Control, None)");
}

#[test]
fn probe_is_answered() {
    assert_eq!(
        shown("GET /livez HTTP/1.1\r\nHost: mydomain.com\r\n\r\n"),
        "(Respond(ServiceAlive), None)"
    );
    assert_eq!(
        shown("GET /livez HTTP/1.1\r\nHost: sub.mydomain.com\r\n\r\n"),
        "(Tunnel(\"channel\"), None)"
    );
}

#[test]
fn request_that_leads_nowhere() {
    assert_eq!(
        shown("GET / HTTP/1.1\r\nHost: who.mydomain.com\r\n\r\n"),
        "(Respond(NotFound), None)"
    );
    assert_eq!(
        shown("GET / HTTP/1.1\r\nHost: localhost\r\n\r\n"),
        "(Respond(HostNoSubdomain), None)"
    );
    assert_eq!(
        shown("GET / HTTP/1.1\r\nAccept: x\r\n\r\n"),
        "(Respond(MissingHostHeader), None)"
    );
    let mut bytes = b"GET / HTTP/1.1\r\nHost: ".to_vec();
    bytes.extend_from_slice(b"\xff.mydomain.com\r\n\r\n");
    assert!(matches!(
        server().receive(&bytes),
        (Route::Respond(Response::HostNotUtf8), None)
    ));
}

#[test]
fn malformed_request() {
    assert_eq!(shown("\u{1}\u{2} nonsense\r\n\r\n"), "(Respond(FailedToParse), None)");
    let mut many = String::from("GET / HTTP/1.1\r\n");
    for i in 0..101 {
        many.push_str(&format!("X-{}: y\r\n", i));
    }
    many.push_str("\r\n");
    assert_eq!(shown(&many), "(Respond(FailedToParse), None)");
}

#[test]
fn as_many_headers_as_may_be() {
    let mut many = String::from("GET / HTTP/1.1\r\n");
    for i in 0..99 {
        many.push_str(&format!("X-{}: y\r\n", i));
    }
    many.push_str("Host: sub.mydomain.com\r\n\r\n");
    assert_eq!(shown(&many), "(Tunnel(\"channel\"), None)");
}

#[test]
fn incomplete_request() {
    assert_eq!(shown("GET / HTTP/1.1\r\nHost: sub.mydo"), "(Wait, None)");
    assert_eq!(shown(""), "(Wait, None)");
    assert!(matches!(read_request(b"GET"), Reading::Incomplete));
}

#[test]
fn forwarded_address() {
    assert_eq!(
        shown("GET / HTTP/1.1\r\nX-Forwarded-For: 1.2.3.4, 5.6.7.8\r\nHost: mydomain.com\r\n\r\n"),
        "(Control, Some(\"1.2.3.4\"))"
    );
    assert_eq!(
        shown("GET / HTTP/1.1\r\nx-forwarded-for: ::1\r\nHost: mydomain.com\r\n\r\n"),
        "(Control, Some(\"::1\"))"
    );
    assert_eq!(head(None, &[("X-Forwarded-For", b"\xff")]).forwarded_for(), None);
    assert_eq!(head(None, &[]).forwarded_for(), None);
}

#[test]
fn request_head_is_read() {
    match read_request(b"GET /p?q HTTP/1.1\r\nHost: a\r\nB: \xff\r\n\r\nbody") {
        Reading::Complete(head) => {
            assert_eq!(head.path.as_deref(), Some("/p?q"));
            assert_eq!(head.headers.len(), 2);
            assert_eq!(head.headers[0].name, "Host");
            assert_eq!(head.headers[0].value, b"a");
            assert_eq!(head.headers[1].name, "B");
            assert_eq!(head.headers[1].value, b"\xff");
        }
        other => panic!("{:?}", other),
    }
}

#[test]
fn first_header_of_a_name_counts() {
    let head = head(None, &[("a", b"0"), ("Host", b"1"), ("HOST", b"2")]);
    assert_eq!(head.header("host"), Some(&b"1"[..]));
    assert_eq!(head.header("x"), None);
}

#[test]
fn heads_are_routed() {
    let server = server();
    let shown = |head: &RequestHead| format!("{:?}", server.route(head));
    assert_eq!(shown(&head(Some("/livez"), &[("Host", b"mydomain.com")])), "Respond(ServiceAlive)");
    assert_eq!(shown(&head(None, &[("Host", b"mydomain.com")])), "Control");
    assert_eq!(shown(&head(None, &[("Host", b"sub.x")])), "Tunnel(\"channel\")");
    assert_eq!(shown(&head(None, &[("Host", b".sub")])), "Respond(NotFound)");
    assert_eq!(shown(&head(None, &[("Host", b"MYDOMAIN.com")])), "Respond(NotFound)");
}

#[test]
fn answers() {
    assert_eq!(
        Response::MissingHostHeader.bytes(),
        b"HTTP/1.1 400\r\nContent-Length: 19\r\n\r\nMissing Host header"
    );
    assert_eq!(
        Response::FailedToParse.bytes(),
        b"HTTP/1.1 400\r\nContent-Length: 23\r\n\r\nFailed to parse request"
    );
    assert_eq!(
        Response::HostNotUtf8.bytes(),
        b"HTTP/1.1 400\r\nContent-Length: 27\r\n\r\nHost header is invalid UTF8"
    );
    assert_eq!(
        Response::HostNoSubdomain.bytes(),
        b"HTTP/1.1 400\r\nContent-Length: 28\r\n\r\nHost header has no subdomain"
    );
    assert_eq!(Response::NotFound.bytes(), b"HTTP/1.1 404\r\nContent-Length: 0\r\n\r\n");
    assert_eq!(
        Response::ServiceAlive.bytes(),
        b"HTTP/1.1 200\r\nContent-Length: 19\r\n\r\nDrill service alive"
    );
}

#[test]
fn answers_state_their_length() {
    for response in [
        Response::MissingHostHeader,
        Response::FailedToParse,
        Response::HostNotUtf8,
        Response::HostNoSubdomain,
        Response::NotFound,
        Response::ServiceAlive,
    ] {
        let text = String::from_utf8(response.bytes().to_vec()).unwrap();
        let (head, body) = text.split_once("\r\n\r\n").unwrap();
        let (_, length) = head.split_once("Content-Length: ").unwrap();
        assert_eq!(length, format!("{}", body.len()));
    }
}
