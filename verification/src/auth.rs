//! Reading the user and password of a request from its `Authorization`
//! header (HTTP Basic authentication).

use vstd::prelude::*;
use vstd::utf8::{decode_utf8, valid_utf8, encode_utf8};
use axum::http::{HeaderMap, HeaderValue};
use base64::Engine;
use crate::error::{ApiError, UNAUTHORIZED};
use crate::text::{has_prefix, push_char, skip_chars, starts_with};
use crate::user::{UserContext, UserId};

verus! {

#[verifier::external_type_specification]
#[verifier::external_body]
#[verifier::reject_recursive_types(T)]
pub struct ExHeaderMap<T>(HeaderMap<T>);

#[verifier::external_type_specification]
#[verifier::external_body]
pub struct ExHeaderValue(HeaderValue);

/// What a header map holds: for each header name (in lower case, as `http`
/// keeps names), the bytes of its values in the order they were added.
pub uninterp spec fn header_entries(headers: HeaderMap) -> Map<Seq<char>, Seq<Seq<u8>>>;

/// The bytes of the first `Authorization` value of `headers`
/// (`HeaderMap::get` with `header::AUTHORIZATION`), or `None` when there is
/// none.
#[verifier::external_body]
fn authorization_value(headers: &HeaderMap) -> (res: Option<Vec<u8>>)
    ensures
        match res {
            Some(v) => header_entries(*headers).contains_key("authorization"@)
                && v@ == header_entries(*headers)["authorization"@][0],
            None => !header_entries(*headers).contains_key("authorization"@),
        },
{
    match headers.get(axum::http::header::AUTHORIZATION) {
        Some(v) => Some(v.as_bytes().to_vec()),
        None => None,
    }
}

/// The bytes `HeaderValue::to_str` accepts: visible ASCII and tab.
pub open spec fn is_visible_ascii(b: u8) -> bool {
    (32 <= b && b < 127) || b == 9
}

/// The characters of ASCII bytes.
pub open spec fn ascii_chars(bytes: Seq<u8>) -> Seq<char> {
    Seq::new(bytes.len(), |i: int| bytes[i] as char)
}

/// The text of a header value, when all its bytes are visible ASCII or tab
/// (what `HeaderValue::to_str` accepts).
pub fn header_text(bytes: &[u8]) -> (res: Option<String>)
    ensures
        match res {
            Some(s) => (forall|i: int| 0 <= i < bytes@.len() ==> is_visible_ascii(#[trigger] bytes@[i]))
                && s@ == ascii_chars(bytes@),
            None => exists|i: int| 0 <= i < bytes@.len() && !is_visible_ascii(#[trigger] bytes@[i]),
        },
{
    let mut s = String::new();
    let n = bytes.len();
    let mut i: usize = 0;
    while i < n
        invariant
            n == bytes@.len(),
            i <= n,
            forall|j: int| 0 <= j < i ==> is_visible_ascii(#[trigger] bytes@[j]),
            s@ == ascii_chars(bytes@.subrange(0, i as int)),
        decreases n - i,
    {
        let b = bytes[i];
        if !((32 <= b && b < 127) || b == 9) {
            return None;
        }
        push_char(&mut s, b as char);
        assert(s@ =~= ascii_chars(bytes@.subrange(0, i + 1)));
        i = i + 1;
    }
    assert(bytes@.subrange(0, n as int) =~= bytes@);
    Some(s)
}

/// What the standard base64 alphabet (with padding) decodes `text` to, or
/// `None` when it is not valid base64.
pub uninterp spec fn base64_decoded(text: Seq<char>) -> Option<Seq<u8>>;

/// Decodes `text` with `base64`'s `general_purpose::STANDARD` engine.
#[verifier::external_body]
fn base64_decode(text: &str) -> (res: Option<Vec<u8>>)
    ensures
        match res {
            Some(v) => base64_decoded(text@) == Some(v@),
            None => base64_decoded(text@) is None,
        },
{
    match base64::engine::general_purpose::STANDARD.decode(text) {
        Ok(v) => Some(v),
        Err(_) => None,
    }
}

/// The text that UTF-8 bytes encode, when they are valid UTF-8
/// (`std::str::from_utf8`).
#[verifier::external_body]
fn utf8_text(bytes: &[u8]) -> (res: Option<String>)
    ensures
        match res {
            Some(s) => valid_utf8(bytes@) && s@ == decode_utf8(bytes@),
            None => !valid_utf8(bytes@),
        },
{
    match std::str::from_utf8(bytes) {
        Ok(s) => Some(s.to_owned()),
        Err(_) => None,
    }
}

/// The index of the first `:` in `s`, or -1.
pub open spec fn first_colon(s: Seq<char>) -> int
    decreases s.len(),
{
    if s.len() == 0 {
        -1
    } else if s[0] == ':' {
        0
    } else {
        let r = first_colon(s.drop_first());
        if r < 0 {
            -1
        } else {
            r + 1
        }
    }
}

/// What `first_colon` finds.
proof fn lemma_first_colon(s: Seq<char>)
    ensures
        -1 <= first_colon(s) < s.len(),
        first_colon(s) >= 0 ==> s[first_colon(s)] == ':',
        forall|j: int| 0 <= j < s.len() && (first_colon(s) < 0 || j < first_colon(s)) ==> #[trigger] s[j] != ':',
    decreases s.len(),
{
    if s.len() > 0 {
        lemma_first_colon(s.drop_first());
        assert forall|j: int| 0 <= j < s.len() && (first_colon(s) < 0 || j < first_colon(s)) implies #[trigger] s[j] != ':' by {
            if j > 0 {
                assert(s[j] == s.drop_first()[j - 1]);
            }
        }
    }
}

/// What a decoded `user:password` text gives: the text before the first
/// `:` is the user and the text after it the password; both must be
/// present and non-empty.
pub open spec fn credentials_outcome(text: Seq<char>) -> Result<(Seq<char>, Seq<char>), Seq<char>> {
    let c = first_colon(text);
    let user = if c < 0 { text } else { text.subrange(0, c) };
    if user.len() == 0 {
        Err("Missing username"@)
    } else if c < 0 || text.subrange(c + 1, text.len() as int).len() == 0 {
        Err("Missing password"@)
    } else {
        Ok((user, text.subrange(c + 1, text.len() as int)))
    }
}

/// What the decoded bytes of a Basic `Authorization` header give: the user
/// and password (see `credentials_outcome`) when they are UTF-8.
pub open spec fn decoded_outcome(decoded: Seq<u8>) -> Result<(Seq<char>, Seq<char>), Seq<char>> {
    if !valid_utf8(decoded) {
        Err("Authorization header is not valid UTF\u{2011}8"@)
    } else {
        credentials_outcome(decode_utf8(decoded))
    }
}

/// What a request with the `Authorization` value `header` (`None` when it
/// has none) is answered with: the user and password, or the message of a
/// 401 answer.
pub open spec fn auth_outcome(header: Option<Seq<u8>>) -> Result<(Seq<char>, Seq<char>), Seq<char>> {
    match header {
        None => Err("Missing Authorization header"@),
        Some(bytes) => if exists|i: int| 0 <= i < bytes.len() && !is_visible_ascii(#[trigger] bytes[i]) {
            Err("Invalid Authorization header"@)
        } else if !has_prefix(ascii_chars(bytes), "Basic "@) {
            Err("Authorization must use Basic scheme"@)
        } else {
            match base64_decoded(ascii_chars(bytes).skip("Basic "@.len() as int)) {
                None => Err("Invalid Base64 in Authorization header"@),
                Some(decoded) => decoded_outcome(decoded),
            }
        },
    }
}

/// The `Authorization` value of a request, as `auth_outcome` reads it.
pub open spec fn authorization_of(headers: HeaderMap) -> Option<Seq<u8>> {
    if header_entries(headers).contains_key("authorization"@) {
        Some(header_entries(headers)["authorization"@][0])
    } else {
        None
    }
}

/// `res` is the answer `outcome` describes: the context of the user and
/// password, or a 401 error with the message.
pub open spec fn answers(
    res: Result<UserContext, ApiError>,
    outcome: Result<(Seq<char>, Seq<char>), Seq<char>>,
) -> bool {
    match res {
        Ok(ctx) => outcome == Ok::<(Seq<char>, Seq<char>), Seq<char>>((ctx.user@, ctx.password@)),
        Err(e) => e.status == UNAUTHORIZED && outcome == Err::<(Seq<char>, Seq<char>), Seq<char>>(e.message@),
    }
}

/// The user and password in the decoded bytes of a Basic `Authorization`
/// header: `user:password`, both non-empty; a 401 error otherwise.
pub fn credentials_from_decoded(decoded: &[u8]) -> (res: Result<UserContext, ApiError>)
    ensures
        answers(res, decoded_outcome(decoded@)),
{
    let text = match utf8_text(decoded) {
        Some(t) => t,
        None => {
            return Err(ApiError::unauthorized("Authorization header is not valid UTF\u{2011}8"));
        },
    };
    let n = text.as_str().unicode_len();
    let mut c: usize = 0;
    while c < n && text.as_str().get_char(c) != ':'
        invariant
            n == text@.len(),
            c <= n,
            forall|j: int| 0 <= j < c ==> text@[j] != ':',
        decreases n - c,
    {
        c = c + 1;
    }
    proof {
        lemma_first_colon(text@);
        if c < n {
            assert(first_colon(text@) == c);
        } else {
            assert(first_colon(text@) == -1);
        }
    }
    if c == 0 {
        return Err(ApiError::unauthorized("Missing username"));
    }
    let user = text.as_str().substring_char(0, c).to_owned();
    if c == n || c + 1 == n {
        return Err(ApiError::unauthorized("Missing password"));
    }
    let password = text.as_str().substring_char(c + 1, n).to_owned();
    proof {
        if c == n {
            assert(text@.subrange(0, c as int) =~= text@);
        }
    }
    Ok(UserContext::new(UserId(user), password))
}

/// The user and password of a request, from its `Authorization` header,
/// which must hold `Basic ` and the base64 of `user:password`; a 401 error
/// saying what is wrong otherwise.
pub fn user_context_from_headers(headers: &HeaderMap) -> (res: Result<UserContext, ApiError>)
    ensures
        answers(res, auth_outcome(authorization_of(*headers))),
{
    let value = match authorization_value(headers) {
        Some(v) => v,
        None => {
            return Err(ApiError::unauthorized("Missing Authorization header"));
        },
    };
    let text = match header_text(value.as_slice()) {
        Some(t) => t,
        None => {
            return Err(ApiError::unauthorized("Invalid Authorization header"));
        },
    };
    if !starts_with(text.as_str(), "Basic ") {
        return Err(ApiError::unauthorized("Authorization must use Basic scheme"));
    }
    let encoded = skip_chars(text.as_str(), "Basic ".unicode_len());
    let decoded = match base64_decode(encoded.as_str()) {
        Some(d) => d,
        None => {
            return Err(ApiError::unauthorized("Invalid Base64 in Authorization header"));
        },
    };
    credentials_from_decoded(decoded.as_slice())
}

/// Credentials written as `user:password` in UTF-8 are read back as they
/// were written, when the user is non-empty without a `:` and the password
/// is non-empty.
pub proof fn law_credentials_round_trip(user: Seq<char>, password: Seq<char>)
    requires
        user.len() > 0,
        password.len() > 0,
        forall|i: int| 0 <= i < user.len() ==> #[trigger] user[i] != ':',
    ensures
        decoded_outcome(encode_utf8(user + seq![':'] + password)) == Ok::<(Seq<char>, Seq<char>), Seq<char>>((user, password)),
{
    let text = user + seq![':'] + password;
    vstd::utf8::encode_utf8_valid_utf8(text);
    vstd::utf8::encode_utf8_decode_utf8(text);
    lemma_first_colon(text);
    assert(text[user.len() as int] == ':');
    assert forall|j: int| 0 <= j < user.len() implies #[trigger] text[j] != ':' by {
        assert(text[j] == user[j]);
    }
    assert(first_colon(text) == user.len());
    assert(text.subrange(0, user.len() as int) =~= user);
    assert(text.subrange(user.len() + 1 as int, text.len() as int) =~= password);
}

} // verus!
