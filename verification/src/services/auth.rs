//! Accounts: password hashing and checking (Argon2), and the decisions of
//! sign-up, login and token verification.
use vstd::prelude::*;
use vstd::string::StringExecFns;
use crate::input_types::id_types::{uuid_display, uuid_parse, uuid_text_valid, uuid_text_value, uuid_to_string};
use crate::text::concat2;

verus! {

/// Why an account operation failed.
#[derive(Debug, Clone, PartialEq)]
pub enum AuthError {
    /// The database failed (its message).
    Database(String),
    /// No user has this id.
    UserNotFound,
    /// The email or the password is wrong.
    InvalidCredentials,
    /// The email is taken.
    EmailExists,
    /// The token is not valid.
    InvalidToken,
    /// The token has expired.
    TokenExpired,
}

/// The message of an account error, as its display shows it.
pub open spec fn auth_error_text(e: AuthError) -> Seq<char> {
    match e {
        AuthError::Database(m) => "Database error: "@ + m@,
        AuthError::UserNotFound => "User not found"@,
        AuthError::InvalidCredentials => "Invalid email or password"@,
        AuthError::EmailExists => "Email already exists"@,
        AuthError::InvalidToken => "Invalid token"@,
        AuthError::TokenExpired => "Token expired"@,
    }
}

impl AuthError {
    /// The message shown for this error.
    pub fn message(&self) -> (r: String)
        ensures
            r@ == auth_error_text(*self),
    {
        match self {
            AuthError::Database(m) => concat2("Database error: ", m.as_str()),
            AuthError::UserNotFound => String::from_str("User not found"),
            AuthError::InvalidCredentials => String::from_str("Invalid email or password"),
            AuthError::EmailExists => String::from_str("Email already exists"),
            AuthError::InvalidToken => String::from_str("Invalid token"),
            AuthError::TokenExpired => String::from_str("Token expired"),
        }
    }
}

/// What Argon2 says of `password` against the stored hash text `hash`:
/// `None` when the text is no password hash, else whether it matches.
pub uninterp spec fn argon2_verdict(password: Seq<char>, hash: Seq<char>) -> Option<bool>;

/// `Argon2::default().hash_password` with a fresh random salt
/// (`SaltString::generate(&mut OsRng)`), as its PHC text; `None` when hashing
/// fails. The salt is random, so the text itself is not stated; what is
/// stated is that the password verifies against it (`verify_password`
/// re-hashes with the parameters and salt read back from the text and
/// compares the outputs).
#[verifier::external_body]
fn argon2_hash(password: &str) -> (r: Option<String>)
    ensures
        r matches Some(h) ==> argon2_verdict(password@, h@) == Some(true),
{
    let salt = argon2::password_hash::SaltString::generate(
        &mut argon2::password_hash::rand_core::OsRng,
    );
    argon2::password_hash::PasswordHasher::hash_password(
        &argon2::Argon2::default(),
        password.as_bytes(),
        &salt,
    ).ok().map(|h| h.to_string())
}

/// `PasswordHash::new(hash)` then `Argon2::default().verify_password`: `None`
/// when `hash` does not parse, else whether the password matches. The
/// outcome is named `argon2_verdict(password@, hash@)`.
#[verifier::external_body]
fn argon2_check(password: &str, hash: &str) -> (r: Option<bool>)
    ensures
        r == argon2_verdict(password@, hash@),
{
    match argon2::password_hash::PasswordHash::new(hash) {
        Ok(parsed) => Some(
            argon2::password_hash::PasswordVerifier::verify_password(
                &argon2::Argon2::default(),
                password.as_bytes(),
                &parsed,
            ).is_ok(),
        ),
        Err(_) => None,
    }
}

/// Hashes a password with a random salt; a failure of the hasher is
/// reported as `InvalidCredentials`. The password verifies against the hash
/// (see `verify_password`).
pub fn hash_password(password: &str) -> (r: Result<String, AuthError>)
    ensures
        r matches Err(e) ==> e == AuthError::InvalidCredentials,
        r matches Ok(h) ==> argon2_verdict(password@, h@) == Some(true),
{
    match argon2_hash(password) {
        Some(h) => Ok(h),
        None => Err(AuthError::InvalidCredentials),
    }
}

/// Checks a password against its stored hash: `InvalidCredentials` when
/// the stored text is no hash, else whether the password matches.
pub fn verify_password(password: &str, hash: &str) -> (r: Result<bool, AuthError>)
    ensures
        match argon2_verdict(password@, hash@) {
            Some(ok) => r == Ok::<bool, AuthError>(ok),
            None => r == Err::<bool, AuthError>(AuthError::InvalidCredentials),
        },
{
    match argon2_check(password, hash) {
        Some(ok) => Ok(ok),
        None => Err(AuthError::InvalidCredentials),
    }
}

/// Sign-up needs an email that is not taken.
pub fn signup_check(email_taken: bool) -> (r: Result<(), AuthError>)
    ensures
        email_taken ==> r == Err::<(), AuthError>(AuthError::EmailExists),
        !email_taken ==> r is Ok,
{
    if email_taken {
        Err(AuthError::EmailExists)
    } else {
        Ok(())
    }
}

/// Login needs a user with the email and a matching password; either
/// failure is `InvalidCredentials`, so the answer does not tell which.
pub fn login_check<T>(user: Option<T>, password_matches: bool) -> (r: Result<T, AuthError>)
    ensures
        user matches Some(u) ==> (password_matches ==> r == Ok::<T, AuthError>(u)),
        user is None || !password_matches ==> r == Err::<T, AuthError>(AuthError::InvalidCredentials),
{
    match user {
        Some(u) => if password_matches {
            Ok(u)
        } else {
            Err(AuthError::InvalidCredentials)
        },
        None => Err(AuthError::InvalidCredentials),
    }
}

/// How long a token lives: 7 days, in seconds.
pub const TOKEN_LIFETIME_SECS: usize = 604800;

/// The expiry and issue times of a token issued at `now` (seconds since
/// the epoch); `None` where the expiry overflows.
pub fn token_times(now: usize) -> (r: Option<(usize, usize)>)
    ensures
        now + TOKEN_LIFETIME_SECS <= usize::MAX ==> r == Some(((now + TOKEN_LIFETIME_SECS) as usize, now)),
        now + TOKEN_LIFETIME_SECS > usize::MAX ==> r is None,
{
    if now > usize::MAX - TOKEN_LIFETIME_SECS {
        None
    } else {
        Some((now + TOKEN_LIFETIME_SECS, now))
    }
}

/// The refusal of a token that does not verify: `TokenExpired` for an
/// expired signature, `InvalidToken` for anything else.
pub fn token_error(expired: bool) -> (r: AuthError)
    ensures
        expired ==> r == AuthError::TokenExpired,
        !expired ==> r == AuthError::InvalidToken,
{
    if expired {
        AuthError::TokenExpired
    } else {
        AuthError::InvalidToken
    }
}

/// The user id in a token's subject: a UUID text, else `InvalidToken`.
pub fn token_subject(sub: &str) -> (r: Result<u128, AuthError>)
    ensures
        uuid_text_valid(sub@) ==> r == Ok::<u128, AuthError>(uuid_text_value(sub@)),
        !uuid_text_valid(sub@) ==> r == Err::<u128, AuthError>(AuthError::InvalidToken),
{
    match uuid_parse(sub) {
        Some(v) => Ok(v),
        None => Err(AuthError::InvalidToken),
    }
}

/// The user of a verified token, or `UserNotFound`.
pub fn token_user<T>(user: Option<T>) -> (r: Result<T, AuthError>)
    ensures
        user matches Some(u) ==> r == Ok::<T, AuthError>(u),
        user is None ==> r == Err::<T, AuthError>(AuthError::UserNotFound),
{
    match user {
        Some(u) => Ok(u),
        None => Err(AuthError::UserNotFound),
    }
}


// ----------------------------------------------------------------------------
// Session tokens (HS256 JWT)
// ----------------------------------------------------------------------------

/// The HS256 token `jsonwebtoken::encode` makes of the claims `sub`, `email`,
/// `role`, `exp`, `iat` (in this order, as a JSON object) with `secret`.
pub uninterp spec fn jwt_hs256(
    sub: Seq<char>,
    email: Seq<char>,
    role: Seq<char>,
    exp: nat,
    iat: nat,
    secret: Seq<char>,
) -> Seq<char>;

/// The payload of `token` as a JSON document, when its HS256 signature
/// verifies with `secret` and the payload is JSON (no claim is validated);
/// `None` otherwise.
pub uninterp spec fn jwt_signed_payload_of(token: Seq<char>, secret: Seq<char>) -> Option<
    serde_json::Value,
>;

/// The member `key` of a JSON document when it is an object whose member is a
/// string (`Value::get` then `Value::as_str`).
pub uninterp spec fn json_str_member(v: serde_json::Value, key: Seq<char>) -> Option<Seq<char>>;

/// The member `key` of a JSON document when it is an object whose member is a
/// non-negative integer that fits a `u64` (`Value::get` then `Value::as_u64`).
pub uninterp spec fn json_u64_member(v: serde_json::Value, key: Seq<char>) -> Option<u64>;

/// The token's signature verifies with `secret` and its payload holds the
/// string claims `sub`, `email`, `role` and the integer claims `exp`, `iat`.
pub open spec fn reads_back(
    token: Seq<char>,
    secret: Seq<char>,
    sub: Seq<char>,
    email: Seq<char>,
    role: Seq<char>,
    exp: u64,
    iat: u64,
) -> bool {
    jwt_signed_payload_of(token, secret) matches Some(p) && json_str_member(p, "sub"@) == Some(sub)
        && json_str_member(p, "email"@) == Some(email) && json_str_member(p, "role"@) == Some(role)
        && json_u64_member(p, "exp"@) == Some(exp) && json_u64_member(p, "iat"@) == Some(iat)
}

/// Calls `jsonwebtoken::encode` with an HS256 header, the claims as a JSON
/// object and `EncodingKey::from_secret`. Its source serializes the header and
/// the claims (which cannot fail for a JSON object) and signs with HMAC (which
/// cannot fail), so it always succeeds. The token is named `jwt_hs256`; its
/// signature verifies with the same secret and its payload reads back the
/// claims, which is what is claimed of the name `jwt_signed_payload_of`.
#[verifier::external_body]
fn jwt_encode(sub: &str, email: &str, role: &str, exp: usize, iat: usize, secret: &str) -> (r: String)
    ensures
        r@ == jwt_hs256(sub@, email@, role@, exp as nat, iat as nat, secret@),
        reads_back(r@, secret@, sub@, email@, role@, exp as u64, iat as u64),
{
    let mut claims = serde_json::Map::new();
    claims.insert("sub".to_string(), serde_json::Value::from(sub));
    claims.insert("email".to_string(), serde_json::Value::from(email));
    claims.insert("role".to_string(), serde_json::Value::from(role));
    claims.insert("exp".to_string(), serde_json::Value::from(exp));
    claims.insert("iat".to_string(), serde_json::Value::from(iat));
    let header = jsonwebtoken::Header::new(jsonwebtoken::Algorithm::HS256);
    let key = jsonwebtoken::EncodingKey::from_secret(secret.as_bytes());
    jsonwebtoken::encode(&header, &serde_json::Value::Object(claims), &key).expect("HS256 encoding")
}

/// Calls `jsonwebtoken::decode::<serde_json::Value>` with HS256 and every claim
/// check switched off (no required claim, no `exp`, no `aud`), so only the
/// signature and the payload's JSON are checked; nothing reads the clock. The
/// outcome is named `jwt_signed_payload_of`.
#[verifier::external_body]
fn jwt_signed_payload(token: &str, secret: &str) -> (r: Option<serde_json::Value>)
    ensures
        r == jwt_signed_payload_of(token@, secret@),
{
    let mut v = jsonwebtoken::Validation::new(jsonwebtoken::Algorithm::HS256);
    v.required_spec_claims.clear();
    v.validate_exp = false;
    v.validate_aud = false;
    let key = jsonwebtoken::DecodingKey::from_secret(secret.as_bytes());
    jsonwebtoken::decode::<serde_json::Value>(token, &key, &v).ok().map(|d| d.claims)
}

/// Calls `Value::get(key)` then `Value::as_str`; named `json_str_member`.
#[verifier::external_body]
fn json_member_str(v: &serde_json::Value, key: &str) -> (r: Option<String>)
    ensures
        r.deep_view() == json_str_member(*v, key@),
{
    v.get(key).and_then(|x| x.as_str()).map(|x| x.to_string())
}

/// Calls `Value::get(key)` then `Value::as_u64`; named `json_u64_member`.
#[verifier::external_body]
fn json_member_u64(v: &serde_json::Value, key: &str) -> (r: Option<u64>)
    ensures
        r == json_u64_member(*v, key@),
{
    v.get(key).and_then(|x| x.as_u64())
}

/// Calls `jsonwebtoken::decode::<serde_json::Value>` with the default HS256
/// validation (`exp` required and not past, with 60 s of leeway; no `aud`).
/// `Err(true)` for an expired signature, `Err(false)` for any other refusal.
/// It reads the clock, so nothing is stated of the outcome.
#[verifier::external_body]
fn jwt_validate(token: &str, secret: &str) -> (r: Result<(), bool>) {
    let mut v = jsonwebtoken::Validation::new(jsonwebtoken::Algorithm::HS256);
    v.iss = None;
    let key = jsonwebtoken::DecodingKey::from_secret(secret.as_bytes());
    match jsonwebtoken::decode::<serde_json::Value>(token, &key, &v) {
        Ok(_) => Ok(()),
        Err(e) => Err(matches!(e.kind(), jsonwebtoken::errors::ErrorKind::ExpiredSignature)),
    }
}

/// The session token of a user, issued at `now` (seconds since the epoch) and
/// valid for `TOKEN_LIFETIME_SECS`: the HS256 token of the claims `sub` (the
/// user's id as hyphenated UUID text), `email`, `role`, `exp` and `iat`.
/// `None` when the expiry does not fit a `usize`. The token's signed payload
/// gives the user's id back as its subject.
pub fn session_token(user_id: u128, email: &str, role: &str, now: usize, secret: &str) -> (r: Option<
    String,
>)
    ensures
        now + TOKEN_LIFETIME_SECS > usize::MAX ==> r is None,
        now + TOKEN_LIFETIME_SECS <= usize::MAX ==> (r matches Some(t) && t@ == jwt_hs256(
            uuid_display(user_id),
            email@,
            role@,
            (now + TOKEN_LIFETIME_SECS) as nat,
            now as nat,
            secret@,
        )),
        r matches Some(t) ==> signed_subject(jwt_signed_payload_of(t@, secret@)) == Ok::<
            Seq<char>,
            AuthError,
        >(uuid_display(user_id)),
{
    match token_times(now) {
        None => None,
        Some((exp, iat)) => {
            let sub = uuid_to_string(user_id);
            Some(jwt_encode(sub.as_str(), email, role, exp, iat, secret))
        },
    }
}

/// The subject of a token's signed payload: its payload must hold the string
/// claims `sub`, `email`, `role` and the integer claims `exp`, `iat` (fitting
/// a `usize`), as a session token's claims do; otherwise `InvalidToken`.
pub open spec fn signed_subject(payload: Option<serde_json::Value>) -> Result<Seq<char>, AuthError> {
    match payload {
        None => Err(AuthError::InvalidToken),
        Some(p) => if {
            &&& json_str_member(p, "sub"@) is Some
            &&& json_str_member(p, "email"@) is Some
            &&& json_str_member(p, "role"@) is Some
            &&& json_u64_member(p, "exp"@) is Some && json_u64_member(p, "exp"@)->Some_0 <= usize::MAX
            &&& json_u64_member(p, "iat"@) is Some && json_u64_member(p, "iat"@)->Some_0 <= usize::MAX
        } {
            Ok(json_str_member(p, "sub"@)->Some_0)
        } else {
            Err(AuthError::InvalidToken)
        },
    }
}

/// Reads the subject of a token's signed payload (see `signed_subject`).
pub fn payload_subject(payload: &Option<serde_json::Value>) -> (r: Result<String, AuthError>)
    ensures
        match signed_subject(*payload) {
            Ok(s) => r matches Ok(x) && x@ == s,
            Err(e) => r == Err::<String, AuthError>(e),
        },
{
    match payload {
        None => Err(AuthError::InvalidToken),
        Some(p) => {
            let sub = json_member_str(p, "sub");
            let email = json_member_str(p, "email");
            let role = json_member_str(p, "role");
            let exp = json_member_u64(p, "exp");
            let iat = json_member_u64(p, "iat");
            let fits = match (exp, iat) {
                (Some(e), Some(i)) => e as u128 <= usize::MAX as u128 && i as u128 <= usize::MAX as u128,
                _ => false,
            };
            match sub {
                Some(s) => if email.is_some() && role.is_some() && fits {
                    Ok(s)
                } else {
                    Err(AuthError::InvalidToken)
                },
                None => Err(AuthError::InvalidToken),
            }
        },
    }
}

/// The user id of a token once its claims were validated: a refused
/// validation gives `TokenExpired` or `InvalidToken` (see `token_error`);
/// otherwise the subject must be a UUID text (see `token_subject`).
pub fn validated_subject(validated: Result<(), bool>, sub: &str) -> (r: Result<u128, AuthError>)
    ensures
        validated matches Err(expired) ==> r == Err::<u128, AuthError>(
            if expired {
                AuthError::TokenExpired
            } else {
                AuthError::InvalidToken
            },
        ),
        validated is Ok && uuid_text_valid(sub@) ==> r == Ok::<u128, AuthError>(uuid_text_value(sub@)),
        validated is Ok && !uuid_text_valid(sub@) ==> r == Err::<u128, AuthError>(AuthError::InvalidToken),
{
    match validated {
        Err(expired) => Err(token_error(expired)),
        Ok(()) => token_subject(sub),
    }
}

/// The user id of a session token: its signature must verify with `secret`
/// and its payload hold the session claims (else `InvalidToken`, see
/// `signed_subject`); then its claims are validated against the clock
/// (`TokenExpired` for an expired token), and its subject must be a UUID text.
/// The validation reads the clock, so when the payload holds the claims the
/// outcome is that of `validated_subject` for some validation result.
pub fn verify_token_subject(token: &str, secret: &str) -> (r: Result<u128, AuthError>)
    ensures
        signed_subject(jwt_signed_payload_of(token@, secret@)) matches Err(e) ==> r == Err::<
            u128,
            AuthError,
        >(e),
        signed_subject(jwt_signed_payload_of(token@, secret@)) matches Ok(s) ==> {
            ||| r == Err::<u128, AuthError>(AuthError::TokenExpired)
            ||| r == Err::<u128, AuthError>(AuthError::InvalidToken)
            ||| uuid_text_valid(s) && r == Ok::<u128, AuthError>(uuid_text_value(s))
        },
        r matches Ok(v) ==> signed_subject(jwt_signed_payload_of(token@, secret@)) matches Ok(s)
            && uuid_text_valid(s) && v == uuid_text_value(s),
{
    let payload = jwt_signed_payload(token, secret);
    let sub = match payload_subject(&payload) {
        Ok(s) => s,
        Err(e) => {
            return Err(e);
        },
    };
    let validated = jwt_validate(token, secret);
    validated_subject(validated, sub.as_str())
}

} // verus!
