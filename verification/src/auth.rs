//! Credentials: password hashes, the per-installation secret, and signed
//! session tokens.
//!
//! Hashing is bcrypt's and signing is jsonwebtoken's; both are called here
//! and taken on trust. The rules around them are verified: what a token
//! claims, until when it is valid, that every failure of a check looks the
//! same, and how a bearer header is read.

use vstd::prelude::*;
use vstd::string::*;
use crate::clock::{rfc3339, rfc3339_text, utc_now};
use crate::random::{hex_encode, hex_text, random_bytes};
use crate::text::{matches_at, occurs_at, to_chars};

verus! {

/// `bcrypt::BcryptError`: why hashing or checking failed. It is carried
/// through unread.
#[verifier::external_type_specification]
#[verifier::external_body]
pub struct ExBcryptError(bcrypt::BcryptError);

/// `jsonwebtoken::errors::Error`: why signing or decoding failed. It is
/// carried through unread.
#[verifier::external_type_specification]
#[verifier::external_body]
pub struct ExJwtError(jsonwebtoken::errors::Error);

/// Seconds in the seven days for which a session token is valid.
pub const TOKEN_LIFETIME_SECS: i64 = 604800;

/// Number of random bytes in a newly made signing secret.
pub const SECRET_BYTES: usize = 32;

/// Seconds by which a token may be past its expiry and still pass.
pub const EXPIRY_LEEWAY_SECS: i64 = 60;

// ---------------------------------------------------------------------------
// Data
// ---------------------------------------------------------------------------

/// What a session token claims.
#[derive(Debug)]
pub struct Claims {
    /// The user's id.
    pub sub: String,
    pub username: String,
    pub is_admin: bool,
    /// Expiry, in seconds since the epoch.
    pub exp: i64,
    /// Time of issue, in seconds since the epoch.
    pub iat: i64,
}

/// A signed token and the time at which it expires, as RFC 3339 text.
#[derive(Debug)]
pub struct AuthToken {
    pub token: String,
    pub expires_at: String,
}

/// The mathematical value of [`Claims`].
pub struct ClaimsView {
    pub sub: Seq<char>,
    pub username: Seq<char>,
    pub is_admin: bool,
    pub exp: i64,
    pub iat: i64,
}

impl View for Claims {
    type V = ClaimsView;

    open spec fn view(&self) -> ClaimsView {
        ClaimsView {
            sub: self.sub@,
            username: self.username@,
            is_admin: self.is_admin,
            exp: self.exp,
            iat: self.iat,
        }
    }
}

/// The claims found in a token whose signature holds; a claim that is
/// missing, or is not of its type, is `None`.
#[derive(Debug)]
pub struct RawClaims {
    pub sub: Option<String>,
    pub username: Option<String>,
    pub is_admin: Option<bool>,
    pub exp: Option<i64>,
    pub iat: Option<i64>,
}

/// The mathematical value of [`RawClaims`].
pub struct RawClaimsView {
    pub sub: Option<Seq<char>>,
    pub username: Option<Seq<char>>,
    pub is_admin: Option<bool>,
    pub exp: Option<i64>,
    pub iat: Option<i64>,
}

impl View for RawClaims {
    type V = RawClaimsView;

    open spec fn view(&self) -> RawClaimsView {
        RawClaimsView {
            sub: match self.sub {
                Some(s) => Some(s@),
                None => None,
            },
            username: match self.username {
                Some(s) => Some(s@),
                None => None,
            },
            is_admin: self.is_admin,
            exp: self.exp,
            iat: self.iat,
        }
    }
}

/// The kinds of failure of the credential store.
#[derive(Debug, Clone, Copy, PartialEq, Eq, Structural)]
pub enum AuthError {
    /// The token is invalid or expired; which of the two is not told.
    InvalidToken,
    /// The password could not be hashed.
    HashFailed,
    /// The stored hash is malformed.
    MalformedHash,
    /// The token could not be created.
    TokenCreation,
    /// No random bytes could be had for a new secret.
    NoRandomness,
}

// ---------------------------------------------------------------------------
// Trusted: bcrypt and jsonwebtoken
// ---------------------------------------------------------------------------

/// What `bcrypt::verify` answers for a password and a hash: `Some(true)`
/// where they match, `Some(false)` where they do not, `None` where the hash
/// is malformed.
pub uninterp spec fn bcrypt_check(password: Seq<char>, hash: Seq<char>) -> Option<bool>;

/// A hash that `bcrypt::verify` can read: it answers for every password.
pub open spec fn readable_hash(hash: Seq<char>) -> bool {
    forall|password: Seq<char>| #[trigger] bcrypt_check(password, hash) is Some
}

/// A hash that `bcrypt::verify` cannot read: it answers for no password.
pub open spec fn malformed_hash(hash: Seq<char>) -> bool {
    forall|password: Seq<char>| #[trigger] bcrypt_check(password, hash) is None
}

/// The claims that `jsonwebtoken::decode` finds in `token` under the HS256
/// secret `secret`, with the check of the expiry against the clock switched
/// off; `None` where decoding fails: the token is malformed, its signature
/// does not hold, or it has no expiry that is a non-negative number.
pub uninterp spec fn jwt_claims(token: Seq<char>, secret: Seq<char>) -> Option<RawClaimsView>;

/// Calls `bcrypt::hash` with bcrypt's default cost. The salt is random, so
/// the hash has no name; what is claimed is that `bcrypt::verify` accepts
/// the password for it, as verify hashes the password again with the salt
/// and cost that it reads from the hash, and that verify can read it.
#[verifier::external_body]
fn bcrypt_hash(password: &str) -> (r: Result<String, bcrypt::BcryptError>)
    ensures
        r matches Ok(h) ==> bcrypt_check(password@, h@) == Some(true) && readable_hash(h@),
{
    bcrypt::hash(password, bcrypt::DEFAULT_COST)
}

/// Calls `bcrypt::verify`. The contract names the answer, which depends on
/// the password and the hash alone, and says that whether there is an
/// answer depends on the hash alone: every error of verify comes from
/// reading the hash.
#[verifier::external_body]
fn bcrypt_verify(password: &str, hash: &str) -> (r: Result<bool, bcrypt::BcryptError>)
    ensures
        match r {
            Ok(b) => bcrypt_check(password@, hash@) == Some(b) && readable_hash(hash@),
            Err(_) => bcrypt_check(password@, hash@) is None && malformed_hash(hash@),
        },
{
    bcrypt::verify(password, hash)
}

/// Calls `jsonwebtoken::encode` with the default header (HS256) on a JSON
/// object of the five claims. It succeeds: the key is an HMAC secret, as
/// the header asks, the claims are strings, booleans and integers, which
/// serialise, and HMAC signing does not fail. What is claimed of the token
/// is that decoding it under the same secret gives the claims back; that
/// needs a non-negative expiry, as the decoder requires one.
#[verifier::external_body]
fn jwt_encode(claims: &Claims, secret: &str) -> (r: Result<String, jsonwebtoken::errors::Error>)
    ensures
        r is Ok,
        r matches Ok(t) ==> (claims.exp >= 0 ==> jwt_claims(t@, secret@) == Some(raw_of(claims@))),
{
    let mut m = serde_json::Map::new();
    m.insert("sub".to_string(), serde_json::Value::from(claims.sub.clone()));
    m.insert("username".to_string(), serde_json::Value::from(claims.username.clone()));
    m.insert("is_admin".to_string(), serde_json::Value::from(claims.is_admin));
    m.insert("exp".to_string(), serde_json::Value::from(claims.exp));
    m.insert("iat".to_string(), serde_json::Value::from(claims.iat));
    let key = jsonwebtoken::EncodingKey::from_secret(secret.as_bytes());
    jsonwebtoken::encode(&jsonwebtoken::Header::default(), &m, &key)
}

/// Calls `jsonwebtoken::decode` with the default validation (HS256, `exp`
/// required) but without the check of the expiry against the clock, and
/// picks the five claims out of the JSON object. The contract only names
/// the result, which depends on the token and the secret alone.
#[verifier::external_body]
fn jwt_decode(token: &str, secret: &str) -> (r: Result<RawClaims, jsonwebtoken::errors::Error>)
    ensures
        match r {
            Ok(c) => jwt_claims(token@, secret@) == Some(c@),
            Err(_) => jwt_claims(token@, secret@) is None,
        },
{
    let mut v = jsonwebtoken::Validation::default();
    v.validate_exp = false;
    let key = jsonwebtoken::DecodingKey::from_secret(secret.as_bytes());
    let c = jsonwebtoken::decode::<serde_json::Value>(token, &key, &v)?.claims;
    Ok(RawClaims {
        sub: c.get("sub").and_then(serde_json::Value::as_str).map(str::to_owned),
        username: c.get("username").and_then(serde_json::Value::as_str).map(str::to_owned),
        is_admin: c.get("is_admin").and_then(serde_json::Value::as_bool),
        exp: c.get("exp").and_then(serde_json::Value::as_i64),
        iat: c.get("iat").and_then(serde_json::Value::as_i64),
    })
}

// ---------------------------------------------------------------------------
// Passwords
// ---------------------------------------------------------------------------

/// `hash` is a hash of `password`: checking the password against it
/// succeeds.
pub open spec fn hashes_to(password: Seq<char>, hash: Seq<char>) -> bool {
    bcrypt_check(password, hash) == Some(true)
}

/// What checking a password against a hash gives.
pub open spec fn verify_outcome(password: Seq<char>, hash: Seq<char>) -> Result<bool, AuthError> {
    match bcrypt_check(password, hash) {
        Some(b) => Ok(b),
        None => Err(AuthError::MalformedHash),
    }
}

/// Hashes a password with a random salt. The only failure is bcrypt's.
pub fn hash_password(password: &str) -> (r: Result<String, AuthError>)
    ensures
        match r {
            Ok(h) => hashes_to(password@, h@) && readable_hash(h@),
            Err(e) => e == AuthError::HashFailed,
        },
{
    match bcrypt_hash(password) {
        Ok(h) => Ok(h),
        Err(_) => Err(AuthError::HashFailed),
    }
}

/// Checks a password against a hash: `Ok(false)` on a mismatch, an error
/// only for a malformed hash.
pub fn verify_password(password: &str, hash: &str) -> (r: Result<bool, AuthError>)
    ensures
        r == verify_outcome(password@, hash@),
        r is Ok ==> readable_hash(hash@),
        r is Err ==> malformed_hash(hash@),
{
    match bcrypt_verify(password, hash) {
        Ok(b) => Ok(b),
        Err(_) => Err(AuthError::MalformedHash),
    }
}

/// A password passes the check against every hash made of it.
pub proof fn lemma_own_hash_verifies(password: Seq<char>, hash: Seq<char>)
    requires
        hashes_to(password, hash),
    ensures
        verify_outcome(password, hash) == Ok::<bool, AuthError>(true),
{
}

/// Against a hash that can be read, every password is answered: a
/// mismatch is `Ok(false)` or `Ok(true)`, never an error. Every hash that
/// `hash_password` made can be read.
pub proof fn lemma_mismatch_is_no_error(wrong: Seq<char>, hash: Seq<char>)
    requires
        readable_hash(hash),
    ensures
        verify_outcome(wrong, hash) is Ok,
{
    assert(bcrypt_check(wrong, hash) is Some);
}

// ---------------------------------------------------------------------------
// The per-installation secret
// ---------------------------------------------------------------------------

/// The signing secret of an installation.
#[derive(Debug)]
pub struct JwtSecret {
    pub value: String,
    /// Whether the secret was generated just now and has to be stored.
    pub newly_generated: bool,
}

/// A secret that was generated: the hexadecimal text of thirty-two bytes.
pub open spec fn is_generated_secret(s: Seq<char>) -> bool {
    exists|bytes: Seq<u8>| bytes.len() == 32 && s == #[trigger] hex_text(bytes)
}

/// Settles the signing secret: the stored one where there is one, else a
/// new one of thirty-two random bytes in hexadecimal, which the caller then
/// stores. The only failure is that of the random source.
pub fn init_jwt_secret(existing: Option<String>) -> (r: Result<JwtSecret, AuthError>)
    ensures
        match existing {
            Some(s) => r matches Ok(j) && j.value == s && !j.newly_generated,
            None => match r {
                Ok(j) => j.newly_generated && is_generated_secret(j.value@) && j.value@.len() == 64,
                Err(e) => e == AuthError::NoRandomness,
            },
        },
{
    match existing {
        Some(s) => Ok(JwtSecret { value: s, newly_generated: false }),
        None => match random_bytes(SECRET_BYTES) {
            Ok(bytes) => {
                let value = hex_encode(&bytes);
                Ok(JwtSecret { value, newly_generated: true })
            },
            Err(_) => Err(AuthError::NoRandomness),
        },
    }
}

// ---------------------------------------------------------------------------
// Tokens
// ---------------------------------------------------------------------------

/// The raw form of complete claims.
pub open spec fn raw_of(c: ClaimsView) -> RawClaimsView {
    RawClaimsView {
        sub: Some(c.sub),
        username: Some(c.username),
        is_admin: Some(c.is_admin),
        exp: Some(c.exp),
        iat: Some(c.iat),
    }
}

/// The claims that raw claims make, where none is missing.
pub open spec fn complete(raw: RawClaimsView) -> Option<ClaimsView> {
    match (raw.sub, raw.username, raw.is_admin, raw.exp, raw.iat) {
        (Some(sub), Some(username), Some(is_admin), Some(exp), Some(iat)) => Some(
            ClaimsView { sub, username, is_admin, exp, iat },
        ),
        _ => None,
    }
}

/// A token with the expiry `exp` has expired at `now`: the expiry lies more
/// than the leeway in the past, or is negative.
pub open spec fn expired(exp: i64, now: i64) -> bool {
    exp < 0 || exp + EXPIRY_LEEWAY_SECS < now
}

/// What validating a token at the time `now` gives: the claims of a token
/// that is well-formed, signed with the secret, complete and not expired;
/// otherwise one and the same error.
pub open spec fn validate_outcome(token: Seq<char>, secret: Seq<char>, now: i64) -> Result<
    ClaimsView,
    AuthError,
> {
    match jwt_claims(token, secret) {
        None => Err(AuthError::InvalidToken),
        Some(raw) => match complete(raw) {
            None => Err(AuthError::InvalidToken),
            Some(c) => if expired(c.exp, now) {
                Err(AuthError::InvalidToken)
            } else {
                Ok(c)
            },
        },
    }
}

/// The view of claims or of their refusal.
pub open spec fn claims_result_view(r: Result<Claims, AuthError>) -> Result<ClaimsView, AuthError> {
    match r {
        Ok(c) => Ok(c@),
        Err(e) => Err(e),
    }
}

/// The claims of a token for the user, issued at `now`: it expires seven
/// days later.
pub open spec fn issued_claims(user_id: Seq<char>, username: Seq<char>, is_admin: bool, now: i64) -> ClaimsView {
    ClaimsView {
        sub: user_id,
        username,
        is_admin,
        exp: (now + TOKEN_LIFETIME_SECS) as i64,
        iat: now,
    }
}

/// `token` carries `claims` under `secret`.
pub open spec fn token_carries(token: Seq<char>, secret: Seq<char>, claims: ClaimsView) -> bool {
    jwt_claims(token, secret) == Some(raw_of(claims))
}

/// The complete claims among raw ones.
pub fn complete_claims(raw: RawClaims) -> (r: Option<Claims>)
    ensures
        match r {
            Some(c) => complete(raw@) == Some(c@),
            None => complete(raw@) is None,
        },
{
    match (raw.sub, raw.username, raw.is_admin, raw.exp, raw.iat) {
        (Some(sub), Some(username), Some(is_admin), Some(exp), Some(iat)) => Some(
            Claims { sub, username, is_admin, exp, iat },
        ),
        _ => None,
    }
}

/// Whether a token with the expiry `exp` has expired at `now`.
pub fn is_expired(exp: i64, now: i64) -> (r: bool)
    ensures
        r == expired(exp, now),
{
    exp < 0 || (exp as i128) + (EXPIRY_LEEWAY_SECS as i128) < (now as i128)
}

/// `token` with the expiry text `expires_at` is what was issued for the
/// user at the time `now` (and `nanos` within the second): it expires seven
/// days later, `expires_at` writes that instant, and, the expiry not being
/// negative, the token carries the user's claims.
pub open spec fn issued(
    token: Seq<char>,
    expires_at: Seq<char>,
    secret: Seq<char>,
    user_id: Seq<char>,
    username: Seq<char>,
    is_admin: bool,
    now: i64,
    nanos: u32,
) -> bool {
    &&& now + TOKEN_LIFETIME_SECS <= i64::MAX
    &&& rfc3339_text((now + TOKEN_LIFETIME_SECS) as i64, nanos) == Some(expires_at)
    &&& now + TOKEN_LIFETIME_SECS >= 0 ==> token_carries(
        token,
        secret,
        issued_claims(user_id, username, is_admin, now),
    )
}

/// A token is owed at the time `now` (and `nanos` within the second): the
/// instant seven days later can be written.
pub open spec fn token_owed(now: i64, nanos: u32) -> bool {
    now + TOKEN_LIFETIME_SECS <= i64::MAX && rfc3339_text((now + TOKEN_LIFETIME_SECS) as i64, nanos) is Some
}

/// Issues a token for the user at the time `now_secs` (and `now_nanos`
/// within the second). It expires seven days later. Fails exactly where
/// that instant cannot be written.
pub fn generate_token_at(secret: &str, user_id: &str, username: &str, is_admin: bool, now_secs: i64, now_nanos: u32) -> (r:
    Result<AuthToken, AuthError>)
    ensures
        match r {
            Ok(t) => issued(
                t.token@,
                t.expires_at@,
                secret@,
                user_id@,
                username@,
                is_admin,
                now_secs,
                now_nanos,
            ),
            Err(e) => e == AuthError::TokenCreation,
        },
        r is Ok <==> token_owed(now_secs, now_nanos),
{
    if now_secs > i64::MAX - TOKEN_LIFETIME_SECS {
        return Err(AuthError::TokenCreation);
    }
    let exp: i64 = now_secs + TOKEN_LIFETIME_SECS;
    let expires_at = match rfc3339(exp, now_nanos) {
        Some(s) => s,
        None => {
            return Err(AuthError::TokenCreation);
        },
    };
    let claims = Claims {
        sub: String::from_str(user_id),
        username: String::from_str(username),
        is_admin,
        exp,
        iat: now_secs,
    };
    match jwt_encode(&claims, secret) {
        Ok(token) => Ok(AuthToken { token, expires_at }),
        Err(_) => Err(AuthError::TokenCreation),
    }
}

/// What the clock can read: an instant that is not before the epoch.
pub open spec fn clock_reading(now: i64, nanos: u32) -> bool {
    now >= 0 && rfc3339_text(now, nanos) is Some
}

/// What issuing a token at the clock's reading `now` gives: the token that
/// is issued for the user at that time, where one is owed, and else the
/// one error.
pub open spec fn generate_outcome(
    r: Result<AuthToken, AuthError>,
    secret: Seq<char>,
    user_id: Seq<char>,
    username: Seq<char>,
    is_admin: bool,
    now: i64,
    nanos: u32,
) -> bool {
    match r {
        Ok(t) => token_owed(now, nanos) && issued(
            t.token@,
            t.expires_at@,
            secret,
            user_id,
            username,
            is_admin,
            now,
            nanos,
        ),
        Err(e) => e == AuthError::TokenCreation && !token_owed(now, nanos),
    }
}

/// Issues a token for the user, valid for seven days from now: what
/// `generate_token_at` gives at the clock's reading, which is not before
/// the epoch.
pub fn generate_token(secret: &str, user_id: &str, username: &str, is_admin: bool) -> (r: Result<
    AuthToken,
    AuthError,
>)
    ensures
        exists|now: i64, nanos: u32|
            clock_reading(now, nanos) && #[trigger] generate_outcome(
                r,
                secret@,
                user_id@,
                username@,
                is_admin,
                now,
                nanos,
            ),
{
    let (secs, nanos) = utc_now();
    let r = generate_token_at(secret, user_id, username, is_admin, secs, nanos);
    assert(generate_outcome(r, secret@, user_id@, username@, is_admin, secs, nanos));
    r
}

/// Validates a token at the time `now`: signature, completeness and
/// expiry. Every failure is the same error.
pub fn validate_token_at(secret: &str, token: &str, now: i64) -> (r: Result<Claims, AuthError>)
    ensures
        claims_result_view(r) == validate_outcome(token@, secret@, now),
{
    match jwt_decode(token, secret) {
        Err(_) => Err(AuthError::InvalidToken),
        Ok(raw) => match complete_claims(raw) {
            None => Err(AuthError::InvalidToken),
            Some(c) => if is_expired(c.exp, now) {
                Err(AuthError::InvalidToken)
            } else {
                Ok(c)
            },
        },
    }
}

/// Validates a token now. Every failure is the same error.
pub fn validate_token(secret: &str, token: &str) -> (r: Result<Claims, AuthError>)
    ensures
        exists|now: i64| now >= 0 && claims_result_view(r) == #[trigger] validate_outcome(token@, secret@, now),
        r is Err ==> r->Err_0 == AuthError::InvalidToken,
{
    let (secs, _nanos) = utc_now();
    validate_token_at(secret, token, secs)
}

/// A token validates to the claims that it carries, from its issue until
/// its expiry and the leeway after it.
pub proof fn lemma_issued_token_validates(token: Seq<char>, secret: Seq<char>, claims: ClaimsView, now: i64)
    requires
        token_carries(token, secret, claims),
        !expired(claims.exp, now),
    ensures
        validate_outcome(token, secret, now) == Ok::<ClaimsView, AuthError>(claims),
{
}

/// A token that was issued validates, from its issue until seven days and
/// the leeway later, to claims with the subject, the name and the role that
/// it was issued for.
pub proof fn lemma_generated_token_validates(
    token: Seq<char>,
    expires_at: Seq<char>,
    secret: Seq<char>,
    user_id: Seq<char>,
    username: Seq<char>,
    is_admin: bool,
    issued_at: i64,
    nanos: u32,
    now: i64,
)
    requires
        issued(token, expires_at, secret, user_id, username, is_admin, issued_at, nanos),
        issued_at + TOKEN_LIFETIME_SECS >= 0,
        now <= issued_at + TOKEN_LIFETIME_SECS + EXPIRY_LEEWAY_SECS,
    ensures
        validate_outcome(token, secret, now) is Ok,
        validate_outcome(token, secret, now)->Ok_0.sub == user_id,
        validate_outcome(token, secret, now)->Ok_0.username == username,
        validate_outcome(token, secret, now)->Ok_0.is_admin == is_admin,
        validate_outcome(token, secret, now)->Ok_0.iat == issued_at,
        validate_outcome(token, secret, now)->Ok_0.exp == issued_at + TOKEN_LIFETIME_SECS,
{
    lemma_issued_token_validates(
        token,
        secret,
        issued_claims(user_id, username, is_admin, issued_at),
        now,
    );
}

/// A token that `generate_token` made validates at every time up to seven
/// days and the leeway after the clock's reading at which it was made, to
/// claims with the subject, the name and the role that it was made for.
pub proof fn lemma_token_round_trip(
    made: Result<AuthToken, AuthError>,
    secret: Seq<char>,
    user_id: Seq<char>,
    username: Seq<char>,
    is_admin: bool,
    issued_at: i64,
    nanos: u32,
    now: i64,
)
    requires
        made is Ok,
        issued_at >= 0,
        generate_outcome(made, secret, user_id, username, is_admin, issued_at, nanos),
        now <= issued_at + TOKEN_LIFETIME_SECS + EXPIRY_LEEWAY_SECS,
    ensures
        validate_outcome(made->Ok_0.token@, secret, now) is Ok,
        validate_outcome(made->Ok_0.token@, secret, now)->Ok_0.sub == user_id,
        validate_outcome(made->Ok_0.token@, secret, now)->Ok_0.username == username,
        validate_outcome(made->Ok_0.token@, secret, now)->Ok_0.is_admin == is_admin,
{
    lemma_generated_token_validates(
        made->Ok_0.token@,
        made->Ok_0.expires_at@,
        secret,
        user_id,
        username,
        is_admin,
        issued_at,
        nanos,
        now,
    );
}

/// An expired token, a token whose signature does not hold and a token
/// with a claim missing all fail in the same way.
pub proof fn lemma_invalid_tokens_fail_alike(token: Seq<char>, secret: Seq<char>, now: i64)
    ensures
        validate_outcome(token, secret, now) is Err ==> validate_outcome(token, secret, now)
            == Err::<ClaimsView, AuthError>(AuthError::InvalidToken),
        jwt_claims(token, secret) is None ==> validate_outcome(token, secret, now) is Err,
        forall|c: ClaimsView|
            #[trigger] token_carries(token, secret, c) && expired(c.exp, now) ==> validate_outcome(
                token,
                secret,
                now,
            ) is Err,
{
}

// ---------------------------------------------------------------------------
// Bearer headers
// ---------------------------------------------------------------------------

/// The prefix of a bearer header.
pub open spec fn bearer_prefix() -> Seq<char> {
    seq!['B', 'e', 'a', 'r', 'e', 'r', ' ']
}

/// The token in an `Authorization` header: what follows `"Bearer "`, and
/// nothing for any other header.
pub open spec fn bearer_token(header: Seq<char>) -> Option<Seq<char>> {
    if occurs_at(header, bearer_prefix(), 0) {
        Some(header.skip(7))
    } else {
        None
    }
}

/// Takes the token out of an `Authorization` header.
pub fn extract_bearer_token(auth_header: &str) -> (r: Option<&str>)
    ensures
        match r {
            Some(t) => bearer_token(auth_header@) == Some(t@),
            None => bearer_token(auth_header@) is None,
        },
{
    let h = to_chars(auth_header);
    let p = to_chars("Bearer ");
    proof {
        reveal_strlit("Bearer ");
        assert(p@ =~= bearer_prefix());
    }
    if matches_at(&h, &p, 0) {
        let t = auth_header.substring_char(7, h.len());
        assert(t@ =~= auth_header@.skip(7));
        Some(t)
    } else {
        None
    }
}

} // verus!
