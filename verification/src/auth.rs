//! Access tokens (HS256 JWTs) and password hashes (Argon2).

use argon2::password_hash::{PasswordHash, PasswordHasher, PasswordVerifier, SaltString};
use vstd::prelude::*;
use vstd::utf8::encode_utf8;

use crate::error::{AuthError, ServerError};
use crate::ids::{AccountId, uuid_parse, uuid_text};

verus! {

/// Lifetime of an access token, in seconds.
pub const TOKEN_TTL_SECS: u64 = 3600;

/// Lifetime of a token that only lets a login finish its second factor.
pub const MFA_TOKEN_TTL_SECS: u64 = 300;

/// `password` is accepted by the Argon2 PHC string `phc`: the string parses
/// and the hash of the password under its parameters and salt matches.
pub uninterp spec fn argon2_verifies(password: Seq<u8>, phc: Seq<char>) -> bool;

/// The HS256 token (`jsonwebtoken::encode` with the default header) signed
/// with `secret` over the claims `sub`, `exp`, `iat` and, when given,
/// `mfa_pending`.
pub uninterp spec fn jwt_hs256(sub: Seq<char>, iat: u64, exp: u64, mfa_pending: Option<bool>, secret: Seq<u8>) -> Seq<char>;

/// `r` is no claims at all, or the subject `sub` with the second-factor flag `m`.
pub open spec fn decoded_as(r: Option<(String, Option<bool>)>, sub: Seq<char>, m: Option<bool>) -> bool {
    match r {
        None => true,
        Some((t, n)) => t@ == sub && n == m,
    }
}

/// Signs the claims as an HS256 token under the HMAC key made from `secret`
/// (`EncodingKey::from_secret`, then `jsonwebtoken::encode` with the default
/// header). The contract names the token and claims what the crate's source
/// shows: signing with an HMAC key under the default (HS256) header does not
/// fail, the claims being a JSON object with string keys; and the token,
/// three base64url parts joined by dots, is not empty. The claims are
/// written in the order `sub`, `exp`, `iat`, `mfa_pending` (the map keeps the
/// order of insertion).
#[verifier::external_body]
fn jwt_encode(sub: String, iat: u64, exp: u64, mfa_pending: Option<bool>, secret: &[u8]) -> (r: Result<String, String>)
    ensures
        r is Ok,
        r matches Ok(t) ==> t@ == jwt_hs256(sub@, iat, exp, mfa_pending, secret@),
        r matches Ok(t) ==> t@.len() > 0,
{
    let mut claims = serde_json::Map::new();
    claims.insert("sub".to_owned(), serde_json::Value::String(sub));
    claims.insert("exp".to_owned(), serde_json::Value::from(exp));
    claims.insert("iat".to_owned(), serde_json::Value::from(iat));
    if let Some(flag) = mfa_pending {
        claims.insert("mfa_pending".to_owned(), serde_json::Value::Bool(flag));
    }
    let key = jsonwebtoken::EncodingKey::from_secret(secret);
    let header = jsonwebtoken::Header::default();
    jsonwebtoken::encode(&header, &serde_json::Value::Object(claims), &key).map_err(|e| e.to_string())
}

/// Checks a token's HS256 signature under the key made from `secret` and its
/// expiry (`DecodingKey::from_secret`, then `jsonwebtoken::decode` with the
/// default validation), and reads its claims: `sub` a string, `exp` and `iat`
/// numbers, `mfa_pending` a boolean when present. Gives `sub` and
/// `mfa_pending`, or `None` when the token is refused or its claims do not
/// have that shape. Nothing is stated of the outcome: expiry is judged by the
/// clock.
#[verifier::external_body]
fn jwt_decode(token: &str, secret: &[u8]) -> (r: Option<(String, Option<bool>)>)
    ensures
        forall|s: Seq<char>, i: u64, e: u64, m: Option<bool>|
            #[trigger] jwt_hs256(s, i, e, m, secret@) == token@ ==> decoded_as(r, s, m),
{
    let key = jsonwebtoken::DecodingKey::from_secret(secret);
    let validation = jsonwebtoken::Validation::default();
    let data = jsonwebtoken::decode::<serde_json::Value>(token, &key, &validation).ok()?;
    let sub = data.claims.get("sub")?.as_str()?.to_owned();
    data.claims.get("exp")?.as_u64()?;
    data.claims.get("iat")?.as_u64()?;
    let mfa_pending = match data.claims.get("mfa_pending") {
        None => None,
        Some(serde_json::Value::Null) => None,
        Some(serde_json::Value::Bool(flag)) => Some(*flag),
        Some(_) => return None,
    };
    Some((sub, mfa_pending))
}

/// Seconds since 1970 by the system clock
/// (`SystemTime::now().duration_since(UNIX_EPOCH)`); `None` when the clock
/// reads before 1970. Nothing is stated of the value.
#[verifier::external_body]
pub(crate) fn unix_now() -> Option<u64> {
    let now = std::time::SystemTime::now();
    now.duration_since(std::time::UNIX_EPOCH).ok().map(|d| d.as_secs())
}

/// The Argon2 PHC string of `password`, with the default parameters and a
/// fresh salt from `OsRng` (`SaltString::generate`, then
/// `Argon2::default().hash_password`); `None` when hashing fails. The salt is
/// made here, as a generated salt is always of a length Argon2 takes. The
/// contract claims what the crate's source shows: hashing fails only for a
/// password above 2^32 - 1 bytes; and what the scheme is for: the same
/// password verifies against the string.
#[verifier::external_body]
fn argon2_hash(password: &[u8]) -> (r: Option<String>)
    ensures
        password@.len() <= 0xFFFF_FFFF ==> r is Some,
        r matches Some(h) ==> argon2_verifies(password@, h@),
{
    let salt = SaltString::generate(&mut rand::rngs::OsRng);
    argon2::Argon2::default().hash_password(password, &salt).ok().map(|h| h.to_string())
}

/// Whether `password` verifies against the PHC string `phc`
/// (`PasswordHash::new` then `Argon2::default().verify_password`).
#[verifier::external_body]
fn argon2_verify(password: &[u8], phc: &str) -> (r: bool)
    ensures
        r == argon2_verifies(password@, phc@),
{
    match PasswordHash::new(phc) {
        Ok(parsed) => argon2::Argon2::default().verify_password(password, &parsed).is_ok(),
        Err(_) => false,
    }
}

/// The account a token's claims name, for a token of the wanted kind: an
/// ordinary token (`want_mfa` false) must not be marked `mfa_pending`, a
/// second-factor token must be; and `sub` must be an account id.
pub open spec fn claims_account(sub: Seq<char>, mfa_pending: Option<bool>, want_mfa: bool) -> Option<AccountId> {
    if (mfa_pending == Some(true)) != want_mfa {
        None
    } else {
        match uuid_parse(sub) {
            Some(v) => Some(AccountId(v)),
            None => None,
        }
    }
}

/// `e` is the error for a refused token.
pub open spec fn is_invalid_token(e: ServerError) -> bool {
    e matches ServerError::Auth(AuthError::InvalidToken)
}

/// Applies `claims_account` to decoded claims.
pub fn account_from_claims(sub: &str, mfa_pending: Option<bool>, want_mfa: bool) -> (r: Result<AccountId, ServerError>)
    ensures
        match claims_account(sub@, mfa_pending, want_mfa) {
            Some(a) => r == Ok::<AccountId, ServerError>(a),
            None => r matches Err(e) && is_invalid_token(e),
        },
{
    let pending = match mfa_pending {
        Some(true) => true,
        _ => false,
    };
    if pending != want_mfa {
        return Err(ServerError::Auth(AuthError::InvalidToken));
    }
    match AccountId::parse(sub) {
        Some(a) => Ok(a),
        None => Err(ServerError::Auth(AuthError::InvalidToken)),
    }
}

/// Issues and checks the server's access tokens.
pub struct JwtService {
    secret: Vec<u8>,
}

/// `a + b`, or the largest `u64` when that overflows.
pub open spec fn saturating_add(a: u64, b: u64) -> u64 {
    if a + b > u64::MAX {
        u64::MAX
    } else {
        (a + b) as u64
    }
}

/// `t` is a non-empty token for the account, issued at some instant and expiring `ttl`
/// seconds later (at the latest instant a `u64` holds, should that overflow),
/// signed with `secret`.
pub open spec fn token_for(t: Seq<char>, account_id: AccountId, ttl: u64, mfa_pending: Option<bool>, secret: Seq<u8>) -> bool {
    t.len() > 0 && exists|iat: u64| t == jwt_hs256(uuid_text(account_id.0), iat, saturating_add(iat, ttl), mfa_pending, secret)
}

/// `t` is the token for the account issued at `now` (seconds since 1970):
/// its claims say it was issued at `now` and expires `ttl` seconds later (at
/// the latest instant a `u64` holds, should that overflow); it is signed with
/// `secret` and not empty.
pub open spec fn token_issued_at(t: Seq<char>, account_id: AccountId, ttl: u64, mfa_pending: Option<bool>, secret: Seq<u8>, now: u64) -> bool {
    t.len() > 0 && t == jwt_hs256(uuid_text(account_id.0), now, saturating_add(now, ttl), mfa_pending, secret)
}

/// A token issued at an instant is signed over the claims of that instant:
/// issued at `now`, and expiring exactly `ttl` seconds later whenever that
/// instant fits in a `u64` (else at the last one), never earlier than it was
/// issued. So an access token issued at `now` is still unexpired an hour
/// later, and a second-factor token five minutes later.
pub proof fn lemma_token_issued_at_claims(t: Seq<char>, account_id: AccountId, ttl: u64, mfa_pending: Option<bool>, secret: Seq<u8>, now: u64)
    requires
        token_issued_at(t, account_id, ttl, mfa_pending, secret, now),
    ensures
        exists|exp: u64|
            t == #[trigger] jwt_hs256(uuid_text(account_id.0), now, exp, mfa_pending, secret) && now <= exp && (
            now + ttl <= u64::MAX ==> exp == now + ttl) && (now + ttl > u64::MAX ==> exp == u64::MAX),
        token_for(t, account_id, ttl, mfa_pending, secret),
{
    let exp = saturating_add(now, ttl);
    assert(t == jwt_hs256(uuid_text(account_id.0), now, exp, mfa_pending, secret));
}

/// What token validation gives for `token`, for every claims it could have
/// been signed with under `secret`: the account the claims name when the
/// token is of the wanted kind (or a refusal, the clock deciding expiry), and
/// a refusal otherwise.
pub open spec fn accepts_only(r: Result<AccountId, ServerError>, token: Seq<char>, secret: Seq<u8>, want_mfa: bool) -> bool {
    forall|s: Seq<char>, i: u64, e: u64, m: Option<bool>|
        #[trigger] jwt_hs256(s, i, e, m, secret) == token ==> match claims_account(s, m, want_mfa) {
            Some(a) => r is Err || r == Ok::<AccountId, ServerError>(a),
            None => r is Err,
        }
}

/// A token the service issued names its account and nothing else: when
/// validated as the kind it was issued as, it gives back that account or is
/// refused (the clock deciding expiry); validated as the other kind it is
/// always refused. Access and second-factor tokens are not interchangeable,
/// and a token signed under another secret is not read as one of these.
pub proof fn lemma_issued_token_names_account(
    t: Seq<char>,
    account_id: AccountId,
    ttl: u64,
    mfa_pending: Option<bool>,
    secret: Seq<u8>,
    r: Result<AccountId, ServerError>,
    want_mfa: bool,
)
    requires
        token_for(t, account_id, ttl, mfa_pending, secret),
        uuid_parse(uuid_text(account_id.0)) == Some(account_id.0),
        accepts_only(r, t, secret, want_mfa),
    ensures
        (mfa_pending == Some(true)) == want_mfa ==> (r is Err || r == Ok::<AccountId, ServerError>(account_id)),
        (mfa_pending == Some(true)) != want_mfa ==> r is Err,
{
    let iat = choose|iat: u64| t == jwt_hs256(uuid_text(account_id.0), iat, saturating_add(iat, ttl), mfa_pending, secret);
    assert(jwt_hs256(uuid_text(account_id.0), iat, saturating_add(iat, ttl), mfa_pending, secret) == t);
}

impl JwtService {
    /// The shared secret the service signs and checks with, as bytes.
    pub closed spec fn secret(&self) -> Seq<u8> {
        self.secret@
    }

    /// A service that signs and checks with the shared secret `secret`.
    pub fn new(secret: &str) -> (r: JwtService)
        ensures
            r.secret() == encode_utf8(secret@),
    {
        let bytes = secret.as_bytes();
        JwtService { secret: vstd::slice::slice_to_vec(bytes) }
    }

    /// An access token for the account, valid for an hour.
    pub fn issue(&self, account_id: AccountId) -> (r: Result<String, ServerError>)
        ensures
            r matches Ok(t) ==> token_for(t@, account_id, TOKEN_TTL_SECS, None, self.secret()),
            r matches Err(e) ==> e matches ServerError::Auth(AuthError::Jwt(_)),
            uuid_parse(uuid_text(account_id.0)) == Some(account_id.0),
            r matches Ok(t) ==> exists|now: u64| token_issued_at(t@, account_id, TOKEN_TTL_SECS, None, self.secret(), now),
    {
        self.issue_with_ttl(account_id, TOKEN_TTL_SECS, None, unix_now())
    }

    /// The access token for the account issued at `now` (seconds since 1970):
    /// issued at `now` and expiring an hour later.
    pub fn issue_at(&self, account_id: AccountId, now: u64) -> (r: Result<String, ServerError>)
        ensures
            r matches Ok(t) && token_issued_at(t@, account_id, TOKEN_TTL_SECS, None, self.secret(), now),
            uuid_parse(uuid_text(account_id.0)) == Some(account_id.0),
    {
        self.issue_with_ttl(account_id, TOKEN_TTL_SECS, None, Some(now))
    }

    /// A token that only lets the account finish a two-factor login, valid for
    /// five minutes.
    pub fn issue_mfa_pending(&self, account_id: AccountId) -> (r: Result<String, ServerError>)
        ensures
            r matches Ok(t) ==> token_for(t@, account_id, MFA_TOKEN_TTL_SECS, Some(true), self.secret()),
            r matches Err(e) ==> e matches ServerError::Auth(AuthError::Jwt(_)),
            uuid_parse(uuid_text(account_id.0)) == Some(account_id.0),
            r matches Ok(t) ==> exists|now: u64|
                token_issued_at(t@, account_id, MFA_TOKEN_TTL_SECS, Some(true), self.secret(), now),
    {
        self.issue_with_ttl(account_id, MFA_TOKEN_TTL_SECS, Some(true), unix_now())
    }

    /// The second-factor token for the account issued at `now` (seconds since
    /// 1970): issued at `now` and expiring five minutes later.
    pub fn issue_mfa_pending_at(&self, account_id: AccountId, now: u64) -> (r: Result<String, ServerError>)
        ensures
            r matches Ok(t) && token_issued_at(t@, account_id, MFA_TOKEN_TTL_SECS, Some(true), self.secret(), now),
            uuid_parse(uuid_text(account_id.0)) == Some(account_id.0),
    {
        self.issue_with_ttl(account_id, MFA_TOKEN_TTL_SECS, Some(true), Some(now))
    }

    /// A token naming the account, issued at the clock reading `clock` (seconds
    /// since 1970; `None` when the clock reads before 1970, which is an error)
    /// and expiring `ttl` seconds later (at the latest instant a `u64` holds,
    /// should that overflow).
    fn issue_with_ttl(&self, account_id: AccountId, ttl: u64, mfa_pending: Option<bool>, clock: Option<u64>) -> (r: Result<String, ServerError>)
        ensures
            r matches Ok(t) ==> token_for(t@, account_id, ttl, mfa_pending, self.secret()),
            r matches Err(e) ==> e matches ServerError::Auth(AuthError::Jwt(_)),
            uuid_parse(uuid_text(account_id.0)) == Some(account_id.0),
            match clock {
                Some(now) => r matches Ok(t) && token_issued_at(t@, account_id, ttl, mfa_pending, self.secret(), now),
                None => r is Err,
            },
    {
        let sub = account_id.to_text();
        let now = match clock {
            Some(t) => t,
            None => {
                return Err(ServerError::Auth(AuthError::Jwt(String::from_str("system time before unix epoch"))));
            },
        };
        let exp = now.saturating_add(ttl);
        assert(exp == saturating_add(now, ttl));
        match jwt_encode(sub, now, exp, mfa_pending, self.secret.as_slice()) {
            Ok(token) => {
                assert(token@ == jwt_hs256(uuid_text(account_id.0), now, saturating_add(now, ttl), mfa_pending, self.secret@));
                Ok(token)
            },
            Err(message) => Err(ServerError::Auth(AuthError::Jwt(message))),
        }
    }

    /// The account an ordinary access token names; refused when its signature
    /// or expiry does not check, when it is a second-factor token, or when it
    /// names no account.
    pub fn validate(&self, token: &str) -> (r: Result<AccountId, ServerError>)
        ensures
            r matches Ok(a) ==> exists|sub: Seq<char>, m: Option<bool>| claims_account(sub, m, false) == Some(a),
            r matches Err(e) ==> is_invalid_token(e),
            accepts_only(r, token@, self.secret(), false),
    {
        match jwt_decode(token, self.secret.as_slice()) {
            Some((sub, mfa_pending)) => account_from_claims(sub.as_str(), mfa_pending, false),
            None => Err(ServerError::Auth(AuthError::InvalidToken)),
        }
    }

    /// The account a second-factor token names; refused when its signature or
    /// expiry does not check, when it is an ordinary token, or when it names
    /// no account.
    pub fn validate_mfa_pending(&self, token: &str) -> (r: Result<AccountId, ServerError>)
        ensures
            r matches Ok(a) ==> exists|sub: Seq<char>, m: Option<bool>| claims_account(sub, m, true) == Some(a),
            r matches Err(e) ==> is_invalid_token(e),
            accepts_only(r, token@, self.secret(), true),
    {
        match jwt_decode(token, self.secret.as_slice()) {
            Some((sub, mfa_pending)) => account_from_claims(sub.as_str(), mfa_pending, true),
            None => Err(ServerError::Auth(AuthError::InvalidToken)),
        }
    }
}

/// An Argon2 hash of the password, with a fresh random salt. The hash
/// verifies the same password.
pub fn hash_password(password: &str) -> (r: Result<String, ServerError>)
    ensures
        r matches Ok(h) ==> argon2_verifies(encode_utf8(password@), h@),
        r matches Err(e) ==> e matches ServerError::Auth(AuthError::HashingFailed),
        encode_utf8(password@).len() <= 0xFFFF_FFFF ==> r is Ok,
{
    match argon2_hash(password.as_bytes()) {
        Some(h) => Ok(h),
        None => Err(ServerError::Auth(AuthError::HashingFailed)),
    }
}

/// Checks a password against a stored hash.
pub fn verify_password(password: &str, password_hash: &str) -> (r: Result<(), ServerError>)
    ensures
        r is Ok <==> argon2_verifies(encode_utf8(password@), password_hash@),
        r matches Err(e) ==> e matches ServerError::Auth(AuthError::InvalidCredentials),
{
    if argon2_verify(password.as_bytes(), password_hash) {
        Ok(())
    } else {
        Err(ServerError::Auth(AuthError::InvalidCredentials))
    }
}

} // verus!
