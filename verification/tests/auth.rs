use axum::http::{header::AUTHORIZATION, HeaderMap, HeaderValue};
use shopping::auth::{credentials_from_decoded, header_text, user_context_from_headers};

fn headers(value: &[u8]) -> HeaderMap {
    let mut h = HeaderMap::new();
    h.insert(AUTHORIZATION, HeaderValue::from_bytes(value).unwrap());
    h
}

fn err_of(h: &HeaderMap) -> (String, u16) {
    match user_context_from_headers(h) {
        Ok(_) => panic!("expected an error"),
        Err(e) => (e.message, e.status),
    }
}

#[test]
fn valid_basic_auth_gives_user_and_password() {
    let ctx = user_context_from_headers(&headers(b"Basic YWxpY2U6cHc=")).unwrap();
    assert_eq!(ctx.user.0, "alice");
    assert_eq!(ctx.password, "pw");
}

#[test]
fn password_keeps_later_colons() {
    let ctx = user_context_from_headers(&headers(b"Basic YTpiOmM=")).unwrap();
    assert_eq!(ctx.user.0, "a");
    assert_eq!(ctx.password, "b:c");
}

#[test]
fn missing_header_is_unauthorized() {
    assert_eq!(
        err_of(&HeaderMap::new()),
        ("Missing Authorization header".to_string(), 401)
    );
}

#[test]
fn wrong_scheme_is_unauthorized() {
    assert_eq!(
        err_of(&headers(b"Bearer abc")),
        ("Authorization must use Basic scheme".to_string(), 401)
    );
}

#[test]
fn non_ascii_header_is_invalid() {
    assert_eq!(
        err_of(&headers(b"Basic \xe9")),
        ("Invalid Authorization header".to_string(), 401)
    );
}

#[test]
fn bad_base64_is_unauthorized() {
    assert_eq!(
        err_of(&headers(b"Basic !!!")),
        ("Invalid Base64 in Authorization header".to_string(), 401)
    );
}

#[test]
fn non_utf8_credentials_are_unauthorized() {
    assert_eq!(
        err_of(&headers(b"Basic //46eA==")),
        ("Authorization header is not valid UTF\u{2011}8".to_string(), 401)
    );
}

#[test]
fn missing_parts_are_unauthorized() {
    assert_eq!(err_of(&headers(b"Basic YWxpY2U=")), ("Missing password".to_string(), 401));
    assert_eq!(err_of(&headers(b"Basic YWxpY2U6")), ("Missing password".to_string(), 401));
    assert_eq!(err_of(&headers(b"Basic OnB3")), ("Missing username".to_string(), 401));
}

#[test]
fn credentials_round_trip() {
    let ctx = credentials_from_decoded("zoë:pässword".as_bytes()).unwrap();
    assert_eq!(ctx.user.0, "zoë");
    assert_eq!(ctx.password, "pässword");
}

#[test]
fn header_text_accepts_tab_and_visible_ascii() {
    assert_eq!(header_text(b"a\tb ~"), Some("a\tb ~".to_string()));
    assert_eq!(header_text(b"a\x7f"), None);
    assert_eq!(header_text(b"a\n"), None);
}
