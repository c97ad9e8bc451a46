use drill::util;

fn check(s: &str) {
    assert_eq!(s.len(), 36);
    for (i, c) in s.chars().enumerate() {
        match i {
            8 | 13 | 18 | 23 => assert_eq!(c, '-'),
            14 => assert_eq!(c, '4'),
            19 => assert!("89ab".contains(c)),
            _ => assert!("0123456789abcdef".contains(c), "{}", s),
        }
    }
    assert!(!s.contains('.'));
}

#[test]
fn random_tokens_are_uuids() {
    for _ in 0..200 {
        check(&util::random_token());
        check(&util::random_subdomain());
    }
}

#[test]
fn random_tokens_differ() {
    assert_ne!(util::random_token(), util::random_token());
    assert_ne!(util::random_subdomain(), util::random_subdomain());
}

#[test]
fn random_token_fits_a_packet() {
    let id = util::random_token();
    let bytes = drill::proto::Event::closed(&id).serialize();
    assert!(matches!(
        drill::proto::Event::deserialize(&bytes),
        Ok(drill::proto::Event::Closed { id: read }) if read == id
    ));
}
