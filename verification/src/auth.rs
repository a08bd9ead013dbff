use vstd::prelude::*;
use vstd::string::StrSliceExecFns;
use base64::Engine;
use crate::utf8_text::utf8_to_string;

verus! {

// Authorization: a stateless filter in front of the resolver. With no
// verification key configured the service is deliberately open and every
// request passes untouched. With a key, the bearer credential is taken
// from the password field of HTTP Basic framing and must verify as a
// JSON Web Token; any failure yields one uniform unauthorized outcome
// that never reveals why.

#[verifier::external_type_specification]
#[verifier::external_body]
pub struct ExDecodingKey(jsonwebtoken::DecodingKey);

/// What the standard base64 alphabet decodes a text to, if it decodes at
/// all: a function of the text alone.
pub uninterp spec fn b64_standard_decoded(s: Seq<char>) -> Option<Seq<u8>>;

/// Relies on base64's standard engine: decoding is a function of the
/// input text alone.
#[verifier::external_body]
fn b64_decode(s: &str) -> (r: Option<Vec<u8>>)
    ensures
        match r {
            Some(v) => b64_standard_decoded(s@) == Some(v@),
            None => b64_standard_decoded(s@) is None,
        },
{
    base64::engine::general_purpose::STANDARD.decode(s).ok()
}

/// Relies on jsonwebtoken's `decode`: verifies the token's signature with
/// the given key, requires an expiration claim, validates not-before when
/// present, and does not check the audience. The outcome also depends on
/// the clock, so nothing more is claimed of it.
#[verifier::external_body]
fn verify_token(token: &str, key: &jsonwebtoken::DecodingKey) -> bool {
    let mut validation = jsonwebtoken::Validation::new(jsonwebtoken::Algorithm::RS256);
    validation.validate_nbf = true;
    validation.validate_aud = false;
    validation.set_required_spec_claims(&["exp"]);
    jsonwebtoken::decode::<serde_json::Value>(token, key, &validation).is_ok()
}

/// True when the header value uses HTTP Basic framing.
pub open spec fn starts_with_basic(h: Seq<char>) -> bool {
    h.len() >= 6 && h.subrange(0, 6) == "Basic "@
}

/// Decide whether a header value uses HTTP Basic framing.
fn has_basic_prefix(h: &str) -> (r: bool)
    ensures
        r == starts_with_basic(h@),
{
    let n = h.unicode_len();
    if n < 6 {
        false
    } else {
        let r = h.get_char(0) == 'B' && h.get_char(1) == 'a' && h.get_char(2) == 's' && h.get_char(
            3,
        ) == 'i' && h.get_char(4) == 'c' && h.get_char(5) == ' ';
        proof {
            reveal_strlit("Basic ");
            let pre = h@.subrange(0, 6);
            if r {
                assert(pre =~= "Basic "@);
            } else if pre == "Basic "@ {
                assert(h@[0] == pre[0]);
                assert(h@[1] == pre[1]);
                assert(h@[2] == pre[2]);
                assert(h@[3] == pre[3]);
                assert(h@[4] == pre[4]);
                assert(h@[5] == pre[5]);
            }
        }
        r
    }
}

/// The position of the first colon at or after `i`.
pub open spec fn first_colon(s: Seq<char>, i: int) -> Option<int>
    decreases s.len() - i,
{
    if i < 0 || i >= s.len() {
        None
    } else if s[i] == ':' {
        Some(i)
    } else {
        first_colon(s, i + 1)
    }
}

/// The password field of Basic credentials: everything after the first
/// colon, or nothing when no colon separates user and password.
pub open spec fn spec_password_of(credentials: Seq<char>) -> Option<Seq<char>> {
    match first_colon(credentials, 0) {
        Some(i) => Some(credentials.skip(i + 1)),
        None => None,
    }
}

fn first_colon_exec(s: &str, i: usize, n: usize) -> (r: Option<usize>)
    requires
        n == s@.len(),
        i <= n,
    ensures
        match r {
            Some(j) => first_colon(s@, i as int) == Some(j as int) && i <= j < n,
            None => first_colon(s@, i as int) is None,
        },
    decreases n - i,
{
    if i >= n {
        None
    } else if s.get_char(i) == ':' {
        Some(i)
    } else {
        first_colon_exec(s, i + 1, n)
    }
}

/// Split Basic credentials at the first colon and return the password.
pub fn password_of_credentials(credentials: &str) -> (r: Option<String>)
    ensures
        match r {
            Some(p) => spec_password_of(credentials@) == Some(p@),
            None => spec_password_of(credentials@) is None,
        },
{
    let n = credentials.unicode_len();
    match first_colon_exec(credentials, 0, n) {
        Some(i) => {
            let p = credentials.substring_char(i + 1, n);
            proof {
                assert(p@ =~= credentials@.skip(i as int + 1));
            }
            Some(p.to_owned())
        },
        None => None,
    }
}

/// The password carried by an authorization header value, when the header
/// uses Basic framing, its credentials decode from base64 to UTF-8 text,
/// and that text has a password field.
pub open spec fn spec_extract_password(h: Seq<char>) -> Option<Seq<char>> {
    if !starts_with_basic(h) {
        None
    } else {
        match b64_standard_decoded(h.skip(6)) {
            None => None,
            Some(bytes) => {
                if !vstd::utf8::valid_utf8(bytes) {
                    None
                } else {
                    spec_password_of(vstd::utf8::decode_utf8(bytes))
                }
            },
        }
    }
}

/// Extract the HTTP Basic authorization password, used here purely as the
/// carrier of the bearer token.
pub fn extract_auth_password(header_value: &str) -> (r: Option<String>)
    ensures
        match r {
            Some(p) => spec_extract_password(header_value@) == Some(p@),
            None => spec_extract_password(header_value@) is None,
        },
{
    if !has_basic_prefix(header_value) {
        return None;
    }
    let n = header_value.unicode_len();
    let encoded = header_value.substring_char(6, n);
    proof {
        assert(encoded@ =~= header_value@.skip(6));
    }
    match b64_decode(encoded) {
        None => None,
        Some(bytes) => match utf8_to_string(bytes) {
            None => None,
            Some(credentials) => password_of_credentials(credentials.as_str()),
        },
    }
}

/// The filter's answer for one request.
#[derive(Clone, Copy, Debug, PartialEq, Eq, Structural)]
pub enum AuthOutcome {
    /// Let the request through to the resolver.
    Allow,
    /// Answer with one uniform unauthorized response.
    Deny,
}

/// The answer a verification outcome maps to. The denial carries no
/// detail: a tampered, expired or malformed token all present alike.
pub fn decision_for_verification(verified: bool) -> (r: AuthOutcome)
    ensures
        r == if verified {
            AuthOutcome::Allow
        } else {
            AuthOutcome::Deny
        },
{
    if verified {
        AuthOutcome::Allow
    } else {
        AuthOutcome::Deny
    }
}

/// Filter one request. With no key configured every request passes
/// untouched. With a key, a request without an extractable credential is
/// denied; one with a credential is allowed exactly when the token
/// verifies, and denied uniformly otherwise.
pub fn authorize_request(key: Option<&jsonwebtoken::DecodingKey>, auth_header: Option<&str>) -> (r:
    AuthOutcome)
    ensures
        key is None ==> r == AuthOutcome::Allow,
        key is Some ==> match auth_header {
            None => r == AuthOutcome::Deny,
            Some(h) => spec_extract_password(h@) is None ==> r == AuthOutcome::Deny,
        },
{
    match key {
        None => AuthOutcome::Allow,
        Some(k) => match auth_header {
            None => AuthOutcome::Deny,
            Some(h) => match extract_auth_password(h) {
                None => AuthOutcome::Deny,
                Some(token) => decision_for_verification(verify_token(token.as_str(), k)),
            },
        },
    }
}

} // verus!
