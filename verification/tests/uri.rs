use drill::uri::{server_uri, UriError, UriParts};

#[test]
fn host_is_dialled_over_tls() {
    assert_eq!(server_uri("mydomain.com").as_deref(), Ok("wss://mydomain.com/"));
    assert_eq!(server_uri("mydomain.com:8080").as_deref(), Ok("wss://mydomain.com:8080/"));
    assert_eq!(server_uri("a").as_deref(), Ok("wss://a/"));
    assert_eq!(server_uri("user@host").as_deref(), Ok("wss://user@host/"));
}

#[test]
fn uri_with_a_scheme_is_kept() {
    assert_eq!(server_uri("ws://localhost:7777").as_deref(), Ok("ws://localhost:7777"));
    assert_eq!(server_uri("wss://host/path?q=1").as_deref(), Ok("wss://host/path?q=1"));
    assert_eq!(server_uri("HTTP://Host").as_deref(), Ok("HTTP://Host"));
}

#[test]
fn path_alone_names_no_server() {
    assert_eq!(server_uri("/path"), Err(UriError::NoAuthority));
    assert_eq!(server_uri("*"), Err(UriError::NoAuthority));
    assert_eq!(server_uri("/"), Err(UriError::NoAuthority));
}

#[test]
fn no_uri() {
    assert_eq!(server_uri(""), Err(UriError::Invalid));
    assert_eq!(server_uri("my domain.com"), Err(UriError::Invalid));
    assert_eq!(server_uri("host/path"), Err(UriError::Invalid));
    assert_eq!(server_uri("a:b:c"), Err(UriError::Invalid));
}

#[test]
fn only_a_missing_scheme_is_filled_in() {
    let given = UriParts { scheme: Some(String::from("ws")), authority: None };
    assert_eq!(given.defaults(), None);
    let missing = UriParts { scheme: None, authority: Some(String::from("host")) };
    assert_eq!(missing.defaults(), Some(("wss", "/")));
}
