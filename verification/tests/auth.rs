use drill::auth::ao::AoAuthProvider;
use drill::auth::dynamic::{succeeded, BackendReply, DynamicAuthProvider};
use drill::auth::{AuthProvider, AuthState, Verdict};
use drill::config::{AoCredentials, Args, AuthBackend, SubdomainStrategy};
use drill::proto::AuthMode;
use drill::text;

fn args() -> Args {
    Args {
        max_clients: 1,
        ao_username: Some(String::from("user")),
        ao_password: Some(String::from("pass")),
        ao_character: Some(String::from("Teller")),
        auth: AuthBackend::Ao,
        subdomain_strategy: SubdomainStrategy::Random,
        token_file: None,
        auth_backend: None,
        websocket_host: String::new(),
        domain: String::new(),
        description: String::new(),
        port: 1,
    }
}

fn granted(verdict: Verdict) -> Option<String> {
    match verdict {
        Verdict::Granted(subdomain) => Some(subdomain),
        Verdict::Rejected => None,
        Verdict::Ask(uri) => panic!("{}", uri),
    }
}

#[test]
fn auth_modes_of_backends() {
    assert_eq!(AuthMode::from(AuthBackend::Ao), AuthMode::AoTell);
    assert_eq!(AuthMode::from(AuthBackend::Anonymous), AuthMode::Anonymous);
    assert_eq!(AuthMode::from(AuthBackend::Private), AuthMode::StaticToken);
    assert_eq!(AuthMode::from(AuthBackend::Dynamic), AuthMode::StaticToken);
}

#[test]
fn first_state_of_auth_modes() {
    assert_eq!(AuthState::from(AuthMode::AoTell), AuthState::AwaitingAoAuth);
    assert_eq!(AuthState::from(AuthMode::Anonymous), AuthState::AwaitingToken);
    assert_eq!(AuthState::from(AuthMode::StaticToken), AuthState::AwaitingToken);
}

#[test]
fn credentials_are_complete_or_missing() {
    let credentials = AoCredentials::try_from(&args()).unwrap();
    assert_eq!(credentials.username, "user");
    assert_eq!(credentials.password, "pass");
    assert_eq!(credentials.character, "Teller");
    assert!(AoCredentials::try_from(&Args { ao_username: None, ..args() }).is_err());
    assert!(AoCredentials::try_from(&Args { ao_password: None, ..args() }).is_err());
    assert!(AoCredentials::try_from(&Args { ao_character: None, ..args() }).is_err());
}

#[test]
fn told_token_is_accepted_once() {
    let mut provider = AoAuthProvider::new();
    let tell = provider.expect(String::from("Bot"), String::from("t1"));
    assert_eq!(tell.character, "Bot");
    assert_eq!(tell.token, "t1");
    let choice = SubdomainStrategy::ClientChoice;
    assert_eq!(provider.verify("t2", "sub", choice), None);
    assert_eq!(provider.verify("t1", "sub", choice).as_deref(), Some("sub"));
    assert_eq!(provider.verify("t1", "sub", choice), None);
}

#[test]
fn one_token_leaves_the_others() {
    let mut provider = AoAuthProvider::new();
    let _ = provider.expect(String::from("One"), String::from("t1"));
    let _ = provider.expect(String::from("Two"), String::from("t2"));
    let name = SubdomainStrategy::AoCharacter;
    assert_eq!(provider.verify("t1", "", name).as_deref(), Some("one"));
    assert_eq!(provider.verify("t2", "", name).as_deref(), Some("two"));
}

#[test]
fn character_subdomain_is_lower_case() {
    // Unicode lower case, not only ASCII
    for (name, lower) in [("Botname", "botname"), ("\u{c4}B", "\u{e4}b"), ("\u{130}", "i\u{307}")] {
        let mut provider = AoAuthProvider::new();
        let _ = provider.expect(String::from(name), String::from("t"));
        let got = provider.verify("t", "other", SubdomainStrategy::AoCharacter);
        assert_eq!(got.as_deref(), Some(lower));
    }
}

#[test]
fn random_subdomain_for_a_character() {
    let mut provider = AoAuthProvider::new();
    let _ = provider.expect(String::from("Bot"), String::from("t"));
    let got = provider.verify_with("t", "sub", SubdomainStrategy::Random, String::from("r"));
    assert_eq!(got.as_deref(), Some("r"));
    let _ = provider.expect(String::from("Bot"), String::from("t"));
    let got = provider.verify("t", "sub", SubdomainStrategy::Random).unwrap();
    assert_eq!(got.len(), 36);
}

#[test]
fn anonymous_accepts_any_token() {
    let mut provider = AuthProvider::Anonymous;
    let choice = SubdomainStrategy::ClientChoice;
    assert_eq!(granted(provider.verify("", "sub", choice)).as_deref(), Some("sub"));
    let random = granted(provider.verify("x", "sub", SubdomainStrategy::Random)).unwrap();
    assert_eq!(random.len(), 36);
    let random = granted(provider.verify("x", "sub", SubdomainStrategy::AoCharacter)).unwrap();
    assert_eq!(random.len(), 36);
}

#[test]
fn private_accepts_the_tokens_of_the_file() {
    let mut provider = AuthProvider::Private(text::words_of("one two\nthree"));
    let choice = SubdomainStrategy::ClientChoice;
    assert_eq!(granted(provider.verify("two", "sub", choice)).as_deref(), Some("sub"));
    assert_eq!(granted(provider.verify("two", "sub", choice)).as_deref(), Some("sub"));
    assert_eq!(granted(provider.verify("four", "sub", choice)), None);
    assert_eq!(granted(provider.verify("one two", "sub", choice)), None);
    let random = SubdomainStrategy::Random;
    let got = provider.verify_with("three", "sub", random, String::from("r"));
    assert_eq!(granted(got).as_deref(), Some("r"));
}

#[test]
fn only_characters_are_expected() {
    let mut provider = AuthProvider::Anonymous;
    assert!(provider.expect(String::from("Bot"), String::from("t")).is_none());
    let mut provider = AuthProvider::Ao(AoAuthProvider::new());
    assert!(provider.expect(String::from("Bot"), String::from("t")).is_some());
    let name = SubdomainStrategy::AoCharacter;
    assert_eq!(granted(provider.verify("t", "", name)).as_deref(), Some("bot"));
    assert_eq!(granted(provider.verify("t", "", name)), None);
}

#[test]
fn dynamic_asks_the_endpoint() {
    let endpoint = String::from("http://auth.local/check");
    let mut provider = AuthProvider::Dynamic(DynamicAuthProvider::new(endpoint));
    for strategy in [SubdomainStrategy::Random, SubdomainStrategy::ClientChoice] {
        match provider.verify("tok", "sub", strategy) {
            Verdict::Ask(uri) => {
                assert_eq!(uri, "http://auth.local/check?token=tok&desired_subdomain=sub");
            }
            other => panic!("{:?}", other),
        }
    }
}

#[test]
fn question_carries_any_characters() {
    let provider = DynamicAuthProvider::new(String::from("http://auth.local/"));
    assert_eq!(
        provider.request_uri("a&b=c d", "\u{e9}+%#?/x"),
        "http://auth.local/?token=a%26b%3Dc%20d&desired_subdomain=%C3%A9%2B%25%23%3F%2Fx"
    );
    let uri = provider.request_uri(" \u{1f600}\"<>", "a b");
    assert!(uri.parse::<http::Uri>().is_ok());
}

#[test]
fn question_is_added_to_the_query_of_the_endpoint() {
    let provider = DynamicAuthProvider::new(String::from("http://auth.local/?key=1"));
    assert_eq!(
        provider.request_uri("t", "s"),
        "http://auth.local/?key=1&token=t&desired_subdomain=s"
    );
}

#[test]
fn endpoint_grants_with_2xx_and_text() {
    let provider = DynamicAuthProvider::new(String::from("http://auth.local"));
    let answer = |status: u16, body: &[u8]| BackendReply::Answer {
        status,
        body: Some(body.to_vec()),
    };
    assert_eq!(provider.verify(&answer(200, b"sub")).as_deref(), Some("sub"));
    assert_eq!(provider.verify(&answer(299, b"")).as_deref(), Some(""));
    assert_eq!(provider.verify(&answer(199, b"sub")), None);
    assert_eq!(provider.verify(&answer(300, b"sub")), None);
    assert_eq!(provider.verify(&answer(403, b"sub")), None);
    assert_eq!(provider.verify(&answer(200, b"\xff")), None);
    assert_eq!(provider.verify(&BackendReply::Answer { status: 200, body: None }), None);
    assert_eq!(provider.verify(&BackendReply::Unreachable), None);
    assert_eq!(answer(204, b"x").granted().as_deref(), Some("x"));
    for status in 0..1000 {
        assert_eq!(succeeded(status), status / 100 == 2);
    }
}
