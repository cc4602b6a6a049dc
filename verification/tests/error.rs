use standards::error::Error;

#[test]
fn constructors_make_their_variants() {
    match Error::invalid("bad email") {
        Error::Invalid(m) => assert_eq!(m, "bad email"),
        other => panic!("unexpected {:?}", other),
    }
    match Error::storage(String::from("disk full")) {
        Error::Storage(m) => assert_eq!(m, "disk full"),
        other => panic!("unexpected {:?}", other),
    }
}

#[test]
fn messages_follow_the_variant() {
    assert_eq!(Error::NotFound { entity: "order" }.message(), "order not found");
    assert_eq!(Error::invalid("x").message(), "invalid input: x");
    assert_eq!(Error::Conflict("taken".into()).message(), "conflict: taken");
    assert_eq!(Error::Unauthorized.message(), "unauthorized");
    assert_eq!(Error::storage("io").message(), "storage error: io");
    assert_eq!(Error::Upstream("timeout".into()).message(), "upstream error: timeout");
    assert_eq!(Error::Other("boom".into()).message(), "boom");
}

#[test]
fn status_codes_follow_the_variant() {
    assert_eq!(Error::NotFound { entity: "order" }.status_code(), 404);
    assert_eq!(Error::invalid("x").status_code(), 400);
    assert_eq!(Error::Conflict(String::new()).status_code(), 409);
    assert_eq!(Error::Unauthorized.status_code(), 401);
    assert_eq!(Error::Upstream(String::new()).status_code(), 502);
    assert_eq!(Error::storage("x").status_code(), 500);
    assert_eq!(Error::Other(String::new()).status_code(), 500);
}

#[test]
fn constructors_keep_their_text() {
    assert_eq!(Error::invalid("bad id").message(), "invalid input: bad id");
    assert_eq!(Error::storage(String::from("disk full")).message(), "storage error: disk full");
}
