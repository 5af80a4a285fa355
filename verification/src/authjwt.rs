//! Stateless credential issuance and verification: a registration checked
//! against a shared registration key mints a signed, time-limited claim, and
//! protected requests present it as a bearer token that is verified without
//! any server-side session state.

use crate::error::AuthError;
use vstd::prelude::*;
use vstd::slice::slice_to_vec;

verus! {

/// Lifetime of an issued claim, in seconds: one day.
pub const CLAIM_LIFETIME_SECONDS: u64 = 86400;

/// The symmetric key material used for signing and verifying claims, kept as
/// the raw secret bytes.
pub struct JwtKeys {
    secret: Vec<u8>,
}

impl View for JwtKeys {
    type V = Seq<u8>;

    closed spec fn view(&self) -> Seq<u8> {
        self.secret@
    }
}

impl JwtKeys {
    /// Keys that sign and verify with the given secret.
    pub fn new(secret: &[u8]) -> (k: Self)
        ensures
            k@ == secret@,
    {
        JwtKeys { secret: slice_to_vec(secret) }
    }
}

/// A registration request: who asks for access, and the access code that is
/// checked against the shared registration key. Submitted once, never stored.
#[derive(Debug)]
pub struct Registration {
    pub full_name: String,
    pub email: String,
    pub access_code: String,
}

/// The claim set of an issued credential: fixed issuer, subject derived from
/// the registration, and the expiry timestamp in seconds.
#[derive(Debug)]
pub struct Claims {
    pub iss: String,
    pub sub: String,
    pub exp: u64,
}

/// A successfully minted credential as handed to the caller: the signed
/// token and its scheme.
#[derive(Debug)]
pub struct AuthBody {
    pub access_token: String,
    pub token_type: String,
}

impl AuthBody {
    /// Wraps a signed token for the response body; the scheme is always
    /// `Bearer`.
    pub fn new(access_token: String) -> (b: Self)
        ensures
            b.access_token@ == access_token@,
            b.token_type@ == "Bearer"@,
    {
        AuthBody { access_token, token_type: String::from_str("Bearer") }
    }
}

/// The signed token minted for the given issuer, subject, expiry and secret.
/// Signing is deterministic, so the token is a function of these alone.
pub uninterp spec fn token_of(iss: Seq<char>, sub: Seq<char>, exp: u64, secret: Seq<u8>) -> Seq<
    char,
>;

/// The claim fields recovered from a token whose signature verifies under
/// the given secret, or nothing when parsing or verification fails. The
/// expiry is not consulted here, so this is a function of token and secret
/// alone.
pub uninterp spec fn verified_claims_of(token: Seq<char>, secret: Seq<u8>) -> Option<
    (Seq<char>, Seq<char>, u64),
>;

/// Signs the claim set with HS512 under the given secret.
///
/// Relies on `jsonwebtoken::encode`, with the key built by
/// `jsonwebtoken::EncodingKey::from_secret` and the claim set carried as a
/// `serde_json` object: HMAC signing, base64 encoding and the claim
/// serialization are deterministic functions of the claims and the secret,
/// and `jsonwebtoken::decode` under the same secret and algorithm recovers
/// exactly the claims that were signed. The call cannot fail: the key and
/// the header share the HMAC family, HMAC-SHA512 accepts a key of any
/// length and its signing step is infallible, and serializing a
/// string-keyed JSON object cannot error, so every error path of `encode`
/// is unreachable here.
#[verifier::external_body]
fn encode_claims(iss: &String, sub: &String, exp: u64, secret: &[u8]) -> (r: Option<String>)
    ensures
        r is Some,
        r matches Some(t) ==> t@ == token_of(iss@, sub@, exp, secret@),
        r matches Some(t) ==> verified_claims_of(t@, secret@) == Some((iss@, sub@, exp)),
{
    let mut claims = serde_json::Map::new();
    claims.insert("iss".to_string(), serde_json::Value::String(iss.clone()));
    claims.insert("sub".to_string(), serde_json::Value::String(sub.clone()));
    claims.insert("exp".to_string(), serde_json::Value::from(exp));
    let header = jsonwebtoken::Header::new(jsonwebtoken::Algorithm::HS512);
    let key = jsonwebtoken::EncodingKey::from_secret(secret);
    jsonwebtoken::encode(&header, &serde_json::Value::Object(claims), &key).ok()
}

/// Parses a token and checks its HS512 signature under the given secret,
/// returning its issuer, subject and expiry fields.
///
/// Relies on `jsonwebtoken::decode`, with the key built by
/// `jsonwebtoken::DecodingKey::from_secret` and the claims read back from a
/// `serde_json` object: with `validate_exp` and `validate_nbf` switched off
/// no clock is read, so acceptance and the recovered claims are a function
/// of the token and the secret alone.
#[verifier::external_body]
fn decode_claims(token: &String, secret: &[u8]) -> (r: Option<(String, String, u64)>)
    ensures
        r matches Some(c) ==> verified_claims_of(token@, secret@) == Some((c.0@, c.1@, c.2)),
        r is None ==> verified_claims_of(token@, secret@) is None,
{
    let mut validation = jsonwebtoken::Validation::new(jsonwebtoken::Algorithm::HS512);
    validation.validate_exp = false;
    validation.validate_nbf = false;
    let key = jsonwebtoken::DecodingKey::from_secret(secret);
    let data = jsonwebtoken::decode::<serde_json::Value>(token, &key, &validation).ok()?;
    let iss = data.claims.get("iss")?.as_str()?.to_string();
    let sub = data.claims.get("sub")?.as_str()?.to_string();
    let exp = data.claims.get("exp")?.as_u64()?;
    Some((iss, sub, exp))
}

/// The fixed issuer written into every claim.
pub open spec fn spec_issuer() -> Seq<char> {
    "recipe-server.po8.org"@
}

/// The subject derived from a registration: the full name, then the email
/// in angle brackets.
pub open spec fn spec_subject(full_name: Seq<char>, email: Seq<char>) -> Seq<char> {
    full_name + " <"@ + email + ">"@
}

/// Builds the subject string of a registration.
fn subject_of(full_name: &String, email: &String) -> (s: String)
    ensures
        s@ == spec_subject(full_name@, email@),
{
    let mut s = full_name.clone();
    s.append(" <");
    s.append(email.as_str());
    s.append(">");
    s
}

/// Validates a registration against the shared registration key and mints a
/// signed claim that expires one day after `now`.
///
/// A wrong access code always fails with `Registration`, whatever the other
/// fields hold. With the correct code the call succeeds, and the minted
/// token carries the fixed issuer, the subject derived from name and email,
/// and expiry `now + CLAIM_LIFETIME_SECONDS`. The `TokenCreation` fault is
/// kept in the error type for callers that render it, but HMAC signing
/// cannot fail, so this function never returns it.
pub fn make_jwt_token(
    keys: &JwtKeys,
    reg_key: &String,
    registration: &Registration,
    now: u64,
) -> (r: Result<AuthBody, AuthError>)
    requires
        now + CLAIM_LIFETIME_SECONDS <= u64::MAX,
    ensures
        registration.access_code@ != reg_key@ <==> r == Err::<AuthBody, AuthError>(
            AuthError::Registration,
        ),
        registration.access_code@ == reg_key@ ==> r is Ok,
        r matches Ok(body) ==> {
            &&& body.access_token@ == token_of(
                spec_issuer(),
                spec_subject(registration.full_name@, registration.email@),
                (now + CLAIM_LIFETIME_SECONDS) as u64,
                keys@,
            )
            &&& verified_claims_of(body.access_token@, keys@) == Some(
                (
                    spec_issuer(),
                    spec_subject(registration.full_name@, registration.email@),
                    (now + CLAIM_LIFETIME_SECONDS) as u64,
                ),
            )
            &&& body.token_type@ == "Bearer"@
        },
{
    if !(registration.access_code == *reg_key) {
        return Err(AuthError::Registration);
    }
    let iss = String::from_str("recipe-server.po8.org");
    let sub = subject_of(&registration.full_name, &registration.email);
    let exp = now + CLAIM_LIFETIME_SECONDS;
    match encode_claims(&iss, &sub, exp, self_secret(keys)) {
        Some(token) => Ok(AuthBody::new(token)),
        None => Err(AuthError::TokenCreation),
    }
}

/// The secret bytes of the keys, for the signing and verifying calls.
fn self_secret(keys: &JwtKeys) -> (s: &[u8])
    ensures
        s@ == keys@,
{
    keys.secret.as_slice()
}

/// The scheme prefix of a well-formed authorization header value.
pub open spec fn bearer_prefix() -> Seq<char> {
    "Bearer "@
}

/// What validating an authorization header value means: the value must carry
/// the bearer scheme, the token's signature must verify under the secret,
/// and the expiry must not have elapsed at `now`. A malformed header fails
/// with `InvalidToken`; a failed verification and an elapsed expiry both
/// fail with `Registration`, indistinguishable to the caller.
pub open spec fn validate_spec(header: Seq<char>, secret: Seq<u8>, now: u64) -> Result<
    (Seq<char>, Seq<char>, u64),
    AuthError,
> {
    if header.len() < 7 || header.subrange(0, 7) != bearer_prefix() {
        Err(AuthError::InvalidToken)
    } else {
        match verified_claims_of(header.subrange(7, header.len() as int), secret) {
            Option::None => Err(AuthError::Registration),
            Option::Some(c) => if now < c.2 {
                Ok(c)
            } else {
                Err(AuthError::Registration)
            },
        }
    }
}

/// Verifies the bearer credential of a protected request, statelessly.
///
/// Returns exactly what [`validate_spec`] prescribes for the header value,
/// the configured secret and the given time.
pub fn validate_bearer(keys: &JwtKeys, header: &String, now: u64) -> (r: Result<Claims, AuthError>)
    ensures
        match validate_spec(header@, keys@, now) {
            Ok(c) => r matches Ok(cl) && cl.iss@ == c.0 && cl.sub@ == c.1 && cl.exp == c.2,
            Err(e) => r == Err::<Claims, AuthError>(e),
        },
{
    let n = header.as_str().unicode_len();
    if n < 7 {
        return Err(AuthError::InvalidToken);
    }
    let prefix = header.as_str().substring_char(0, 7);
    if !(String::from_str(prefix) == String::from_str("Bearer ")) {
        return Err(AuthError::InvalidToken);
    }
    let token = String::from_str(header.as_str().substring_char(7, n));
    match decode_claims(&token, self_secret(keys)) {
        None => Err(AuthError::Registration),
        Some((iss, sub, exp)) => {
            if now < exp {
                Ok(Claims { iss, sub, exp })
            } else {
                Err(AuthError::Registration)
            }
        },
    }
}

/// A bearer header formed from any token is accepted by validation exactly
/// when the token's signature verifies under the secret and its expiry has
/// not elapsed, and then yields exactly the verified claim fields.
pub proof fn lemma_bearer_round_trip(token: Seq<char>, secret: Seq<u8>, now: u64)
    ensures
        validate_spec(bearer_prefix() + token, secret, now) == (match verified_claims_of(
            token,
            secret,
        ) {
            Option::None => Err::<(Seq<char>, Seq<char>, u64), AuthError>(AuthError::Registration),
            Option::Some(c) => if now < c.2 {
                Ok(c)
            } else {
                Err(AuthError::Registration)
            },
        }),
{
    reveal_strlit("Bearer ");
    let h = bearer_prefix() + token;
    assert(h.subrange(0, 7) =~= bearer_prefix());
    assert(h.subrange(7, h.len() as int) =~= token);
}

} // verus!
