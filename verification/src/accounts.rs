//! The account rules of the server: registration, login with and without a
//! second factor, password change, and turning two-factor login on and off.
//! The caller loads the account record and stores what these functions
//! return; they check the request and decide.

use vstd::prelude::*;
use vstd::utf8::encode_utf8;

use crate::auth::{
    unix_now,
    accepts_only, argon2_verifies, claims_account, hash_password, is_invalid_token, token_for, verify_password,
    JwtService, MFA_TOKEN_TTL_SECS, TOKEN_TTL_SECS,
};
use crate::error::{AuthError, ServerError};
use crate::ids::{AccountId, uuid_parse, uuid_text};
use crate::presence::{
    issue_refresh_token, later, revoke_all_for_account, revoked_for, IssuedRefreshToken, RefreshRecord,
    REFRESH_TOKEN_TTL_MICROS,
};
use crate::secrets::{
    encrypt_secret, decrypt_secret, generate_recovery_codes, hash_recovery_code, is_recovery_code,
    open_fault_error, opened, sha256, stored_nonce, stored_nonce_usable, OpenFault,
    RECOVERY_CODE_COUNT,
};
use crate::text::{hex_lower, to_lowercase, trim, trimmed, unicode_lower, unicode_upper};
use crate::totp::{
    base32_secret_bytes, build_otpauth_uri, generate_totp_secret, has_char, totp_buildable,
    totp_code_accepted, totp_uri, verify_totp_when, TOTP_DIGITS, TOTP_STEP,
};

verus! {

/// An account as the server keeps it. Instants are microseconds since 1970.
#[derive(Debug, Clone)]
pub struct AccountRecord {
    pub id: AccountId,
    pub email: String,
    /// The Argon2 PHC string of the password.
    pub password_hash: String,
    /// The TOTP secret, sealed under the server's encryption key.
    pub totp_secret: Option<String>,
    pub totp_enabled: bool,
    pub created_at: i64,
}

/// The form in which an e-mail address is stored and looked up: trimmed, then
/// lower-cased.
pub open spec fn normalized_email(email: Seq<char>) -> Seq<char> {
    unicode_lower(trimmed(email))
}

/// Number of UTF-8 bytes of a text.
pub open spec fn byte_len(s: Seq<char>) -> nat {
    encode_utf8(s).len()
}

/// Fewest bytes in a password.
pub const MIN_PASSWORD_BYTES: usize = 8;

/// `e` is a bad request with message `m`.
pub open spec fn is_bad_request(e: ServerError, m: Seq<char>) -> bool {
    e matches ServerError::BadRequest(t) && t@ == m
}

/// `e` is a conflict with message `m`.
pub open spec fn is_conflict(e: ServerError, m: Seq<char>) -> bool {
    e matches ServerError::Conflict(t) && t@ == m
}

/// The stored form of an e-mail address.
pub fn normalize_email(email: &str) -> (r: String)
    ensures
        r@ == normalized_email(email@),
{
    let t = trim(email);
    to_lowercase(t.as_str())
}

/// Checks a registration request; gives the e-mail address in stored form.
pub fn check_registration(email: &str, password: &str) -> (r: Result<String, ServerError>)
    ensures
        trimmed(email@).len() == 0 || password@.len() == 0 ==> (r matches Err(e) && is_bad_request(
            e,
            "email and password are required"@,
        )),
        trimmed(email@).len() != 0 && password@.len() != 0 && byte_len(password@) < MIN_PASSWORD_BYTES
            ==> (r matches Err(e) && is_bad_request(e, "password must be at least 8 characters"@)),
        trimmed(email@).len() != 0 && password@.len() != 0 && byte_len(password@) >= MIN_PASSWORD_BYTES
            ==> (r matches Ok(v) && v@ == normalized_email(email@)),
{
    let t = trim(email);
    if t.as_str().is_empty() || password.is_empty() {
        return Err(ServerError::BadRequest(String::from_str("email and password are required")));
    }
    if password.as_bytes().len() < MIN_PASSWORD_BYTES {
        return Err(
            ServerError::BadRequest(String::from_str("password must be at least 8 characters")),
        );
    }
    Ok(to_lowercase(t.as_str()))
}

/// Creates the record of a new account with e-mail `email` (in stored form),
/// created at `now`; `email_taken` tells whether an account already has it.
/// The stored hash verifies the password, and two-factor login is off.
pub fn new_account(email: String, password: &str, email_taken: bool, now: i64) -> (r: Result<AccountRecord, ServerError>)
    ensures
        email_taken ==> (r matches Err(e) && is_conflict(e, "email already registered"@)),
        r matches Ok(a) ==> {
            &&& !email_taken
            &&& a.email@ == email@
            &&& argon2_verifies(encode_utf8(password@), a.password_hash@)
            &&& a.totp_secret is None
            &&& !a.totp_enabled
            &&& a.created_at == now
        },
        !email_taken && r is Err ==> r matches Err(ServerError::Auth(AuthError::HashingFailed)),
        !email_taken && byte_len(password@) <= 0xFFFF_FFFF ==> r is Ok,
{
    if email_taken {
        return Err(ServerError::Conflict(String::from_str("email already registered")));
    }
    let password_hash = match hash_password(password) {
        Ok(h) => h,
        Err(e) => {
            return Err(e);
        },
    };
    Ok(
        AccountRecord {
            id: AccountId::new(),
            email,
            password_hash,
            totp_secret: None,
            totp_enabled: false,
            created_at: now,
        },
    )
}

/// What a login with the right password leads to.
#[derive(Debug, Clone)]
pub enum LoginOutcome {
    /// The account is signed in; the caller issues its tokens.
    Authenticated(AccountId),
    /// The account has two-factor login on: this token lets it finish.
    MfaRequired(String),
}

/// The password verifies against the account's stored hash.
pub open spec fn password_matches(a: AccountRecord, password: Seq<char>) -> bool {
    argon2_verifies(encode_utf8(password), a.password_hash@)
}

/// Logs in the account `account` (looked up by e-mail) with `password`. An
/// unknown account is unauthorized, a wrong password is bad credentials. An
/// account with two-factor login on is never signed in here: it gets a token
/// that only lets it finish with its second factor.
pub fn login(jwt: &JwtService, account: Option<AccountRecord>, password: &str) -> (r: Result<LoginOutcome, ServerError>)
    ensures
        account is None ==> r matches Err(ServerError::Unauthorized),
        account matches Some(a) && !password_matches(a, password@) ==> r matches Err(
            ServerError::Auth(AuthError::InvalidCredentials),
        ),
        match account {
            Some(a) => password_matches(a, password@) && !a.totp_enabled ==> (r matches Ok(
                LoginOutcome::Authenticated(id),
            ) && id == a.id),
            None => true,
        },
        match account {
            Some(a) => password_matches(a, password@) && a.totp_enabled ==> ((r matches Ok(
                LoginOutcome::MfaRequired(t),
            ) && token_for(t@, a.id, MFA_TOKEN_TTL_SECS, Some(true), jwt.secret())
                && uuid_parse(uuid_text(a.id.0)) == Some(a.id.0)) || r matches Err(
                ServerError::Auth(AuthError::Jwt(_)),
            )),
            None => true,
        },
{
    let a = match account {
        Some(a) => a,
        None => {
            return Err(ServerError::Unauthorized);
        },
    };
    match verify_password(password, a.password_hash.as_str()) {
        Ok(()) => {},
        Err(e) => {
            return Err(e);
        },
    }
    if a.totp_enabled {
        match jwt.issue_mfa_pending(a.id) {
            Ok(token) => Ok(LoginOutcome::MfaRequired(token)),
            Err(e) => Err(e),
        }
    } else {
        Ok(LoginOutcome::Authenticated(a.id))
    }
}

/// What a signed-in client is given: an access token and a refresh token.
#[derive(Debug, Clone)]
pub struct AuthTokens {
    pub token: String,
    pub refresh: IssuedRefreshToken,
}

/// The refresh token is one issued for the account at `now`, kept by its hash.
pub open spec fn refresh_issued(i: IssuedRefreshToken, account_id: AccountId, now: i64) -> bool {
    &&& later(now, REFRESH_TOKEN_TTL_MICROS) matches Some(t) && i.record == (RefreshRecord {
        account_id: account_id.0,
        expires_at: t,
        revoked_at: None,
    })
    &&& i.token_hash@ == hex_lower(sha256(encode_utf8(i.raw@)))
    &&& i.raw@.len() == 64
}

/// The tokens handed to the account at `now` once it is signed in: the access
/// token first, then a refresh token.
pub fn issue_auth_response(jwt: &JwtService, account_id: AccountId, now: i64) -> (r: Result<AuthTokens, ServerError>)
    ensures
        r matches Ok(t) ==> token_for(t.token@, account_id, TOKEN_TTL_SECS, None, jwt.secret())
            && refresh_issued(t.refresh, account_id, now),
        uuid_parse(uuid_text(account_id.0)) == Some(account_id.0),
        r matches Err(e) ==> e matches ServerError::Auth(AuthError::Jwt(_)) || (e matches ServerError::Internal(_)
            && later(now, REFRESH_TOKEN_TTL_MICROS) is None),
        later(now, REFRESH_TOKEN_TTL_MICROS) is Some ==> (r is Ok || r matches Err(ServerError::Auth(AuthError::Jwt(_)))),
{
    let token = match jwt.issue(account_id) {
        Ok(t) => t,
        Err(e) => {
            return Err(e);
        },
    };
    match issue_refresh_token(account_id.0, now) {
        Ok(refresh) => Ok(AuthTokens { token, refresh }),
        Err(e) => Err(e),
    }
}

/// What a login answers.
#[derive(Debug, Clone)]
pub enum LoginReply {
    /// The account is signed in.
    Signed(AuthTokens),
    /// The account has two-factor login on: this token lets it finish.
    MfaRequired(String),
}

/// A login at `now`, answered as `login` decides: an account without a second
/// factor is signed in with fresh tokens, one with a second factor gets a
/// second-factor token, and the refusals are those of `login`.
pub fn login_reply(jwt: &JwtService, account: Option<AccountRecord>, password: &str, now: i64) -> (r: Result<LoginReply, ServerError>)
    ensures
        account is None ==> r matches Err(ServerError::Unauthorized),
        account matches Some(a) && !password_matches(a, password@) ==> r matches Err(
            ServerError::Auth(AuthError::InvalidCredentials),
        ),
        match account {
            Some(a) => password_matches(a, password@) && !a.totp_enabled ==> ((r matches Ok(LoginReply::Signed(t))
                && token_for(t.token@, a.id, TOKEN_TTL_SECS, None, jwt.secret()) && refresh_issued(t.refresh, a.id, now)
                && uuid_parse(uuid_text(a.id.0)) == Some(a.id.0))
                || r matches Err(ServerError::Auth(AuthError::Jwt(_))) || (r matches Err(ServerError::Internal(_))
                && later(now, REFRESH_TOKEN_TTL_MICROS) is None)),
            None => true,
        },
        match account {
            Some(a) => password_matches(a, password@) && a.totp_enabled ==> ((r matches Ok(
                LoginReply::MfaRequired(t),
            ) && token_for(t@, a.id, MFA_TOKEN_TTL_SECS, Some(true), jwt.secret())) || r matches Err(
                ServerError::Auth(AuthError::Jwt(_)),
            )),
            None => true,
        },
{
    match login(jwt, account, password) {
        Ok(LoginOutcome::Authenticated(id)) => match issue_auth_response(jwt, id, now) {
            Ok(t) => Ok(LoginReply::Signed(t)),
            Err(e) => Err(e),
        },
        Ok(LoginOutcome::MfaRequired(t)) => Ok(LoginReply::MfaRequired(t)),
        Err(e) => Err(e),
    }
}

/// Checks a second-factor login request; gives the token and the code, trimmed.
pub fn check_mfa_request(mfa_token: &str, code: &str) -> (r: Result<(String, String), ServerError>)
    ensures
        trimmed(mfa_token@).len() == 0 || trimmed(code@).len() == 0 ==> (r matches Err(e)
            && is_bad_request(e, "mfa_token and code are required"@)),
        trimmed(mfa_token@).len() != 0 && trimmed(code@).len() != 0 ==> (r matches Ok((t, c)) && t@
            == trimmed(mfa_token@) && c@ == trimmed(code@)),
{
    let t = trim(mfa_token);
    let c = trim(code);
    if t.as_str().is_empty() || c.as_str().is_empty() {
        return Err(ServerError::BadRequest(String::from_str("mfa_token and code are required")));
    }
    Ok((t, c))
}

/// The stored secret, if any, has a nonce of the length AES-GCM takes (any
/// secret this server sealed has).
pub open spec fn sealed_secret_ok(secret: Option<String>) -> bool {
    secret matches Some(s) ==> (stored_nonce(s@) matches Some(n) ==> n.len() == 12)
}

/// Whether the account's sealed secret, if any, can be opened without fault
/// of its nonce's length: what `second_factor`, `totp_enable` and
/// `totp_disable_check` ask of the account.
pub fn sealed_secret_usable(account: &AccountRecord) -> (r: bool)
    ensures
        r == sealed_secret_ok(account.totp_secret),
{
    match &account.totp_secret {
        Some(s) => stored_nonce_usable(s.as_str()),
        None => true,
    }
}

/// The key the account's TOTP secret is sealed under.
pub open spec fn sealing_key(encryption_key: Seq<char>) -> Seq<u8> {
    sha256(encode_utf8(encryption_key))
}

/// Whether `code` is the account's TOTP code at the instant `now` (`None`
/// when the clock could not be read), as `totp_code_accepted` says. An
/// account without a secret has none; a secret that does not open is an
/// error.
fn totp_matches(account: &AccountRecord, encryption_key: &str, code: &str, now: Option<u64>) -> (r: Result<bool, ServerError>)
    requires
        sealed_secret_ok(account.totp_secret),
    ensures
        match account.totp_secret {
            None => r == Ok::<bool, ServerError>(false),
            Some(s) => match opened(sealing_key(encryption_key@), s@) {
                Err(f) => r matches Err(e) && open_fault_error(f, e),
                Ok(p) => r == Ok::<bool, ServerError>(totp_code_accepted(account.email@, p, code@, now)),
            },
        },
{
    match &account.totp_secret {
        None => Ok(false),
        Some(s) => {
            let secret = match decrypt_secret(encryption_key, s.as_str()) {
                Ok(p) => p,
                Err(e) => {
                    return Err(e);
                },
            };
            Ok(verify_totp_when(account.email.as_str(), secret.as_str(), code, now).is_ok())
        },
    }
}

/// Where a second-factor check stands.
#[derive(Debug, Clone)]
pub enum SecondFactor {
    /// The TOTP code matched.
    Verified,
    /// The code did not match as a TOTP code: the caller consumes an unused
    /// recovery code of the account with this stored form, if there is one.
    RecoveryCode(String),
}

/// The outcome of a second-factor check that did not error: verified when the
/// TOTP code matched, else the stored form of the code as a recovery code.
pub open spec fn second_factor_next(r: SecondFactor, code: Seq<char>) -> bool {
    match r {
        SecondFactor::Verified => true,
        SecondFactor::RecoveryCode(h) => h@ == hex_lower(sha256(encode_utf8(unicode_upper(trimmed(code))))),
    }
}

/// What `second_factor` gives for these inputs.
pub open spec fn second_factor_outcome(account: Option<AccountRecord>, encryption_key: Seq<char>, code: Seq<char>, now: Option<u64>, r: Result<SecondFactor, ServerError>) -> bool {
    &&& (account is None ==> r matches Err(ServerError::Unauthorized))
    &&& (account matches Some(a) && !a.totp_enabled ==> r matches Err(ServerError::Unauthorized))
    &&& (r matches Ok(s) ==> second_factor_next(s, code))
    &&& (r matches Ok(SecondFactor::Verified) ==> account matches Some(a) && a.totp_secret matches Some(
        sec,
    ) && opened(sealing_key(encryption_key), sec@) matches Ok(p) && totp_code_accepted(a.email@, p, code, now))
    &&& (match account {
        Some(a) => a.totp_enabled ==> match a.totp_secret {
            None => r matches Ok(SecondFactor::RecoveryCode(_)),
            Some(sec) => match opened(sealing_key(encryption_key), sec@) {
                Err(f) => r matches Err(e) && open_fault_error(f, e),
                Ok(p) => r is Ok && ((r matches Ok(SecondFactor::Verified)) <==> totp_code_accepted(
                    a.email@,
                    p,
                    code,
                    now,
                )),
            },
        },
        None => true,
    })
}

/// The second step of a two-factor login, for the account the second-factor
/// token named, at the current time: as `second_factor_at` decides at the
/// instant read from the clock.
pub fn second_factor(account: Option<AccountRecord>, encryption_key: &str, code: &str) -> (r: Result<SecondFactor, ServerError>)
    requires
        account matches Some(a) ==> sealed_secret_ok(a.totp_secret),
    ensures
        exists|now: Option<u64>| second_factor_outcome(account, encryption_key@, code@, now, r),
{
    let now = unix_now();
    second_factor_at(account, encryption_key, code, now)
}

/// The second step of a two-factor login at the instant `now` (seconds since
/// 1970; `None` when the clock could not be read), for the account the
/// second-factor token named: it must exist and have two-factor login on;
/// the code is verified when it is the account's TOTP code at `now`, and
/// otherwise is left to be tried as a recovery code.
pub fn second_factor_at(account: Option<AccountRecord>, encryption_key: &str, code: &str, now: Option<u64>) -> (r: Result<SecondFactor, ServerError>)
    requires
        account matches Some(a) ==> sealed_secret_ok(a.totp_secret),
    ensures
        second_factor_outcome(account, encryption_key@, code@, now, r),
{
    let a = match account {
        Some(a) => a,
        None => {
            return Err(ServerError::Unauthorized);
        },
    };
    if !a.totp_enabled {
        return Err(ServerError::Unauthorized);
    }
    match totp_matches(&a, encryption_key, code, now) {
        Ok(true) => Ok(SecondFactor::Verified),
        Ok(false) => Ok(SecondFactor::RecoveryCode(hash_recovery_code(code))),
        Err(e) => Err(e),
    }
}

/// Finishes a second-factor check that fell back to a recovery code:
/// `consumed` tells whether an unused one matched (and is now used).
pub fn recovery_code_result(consumed: bool) -> (r: Result<(), ServerError>)
    ensures
        consumed <==> r is Ok,
        !consumed ==> r matches Err(ServerError::Unauthorized),
{
    if consumed {
        Ok(())
    } else {
        Err(ServerError::Unauthorized)
    }
}

/// What `change_password` gives for these inputs.
pub open spec fn change_password_outcome(account: Option<AccountRecord>, current: Seq<char>, new: Seq<char>, r: Result<AccountRecord, ServerError>) -> bool {
    &&& (current.len() == 0 || new.len() == 0 ==> (r matches Err(e) && is_bad_request(
        e,
        "current_password and new_password are required"@,
    )))
    &&& (current.len() != 0 && new.len() != 0 && byte_len(new) < MIN_PASSWORD_BYTES ==> (r matches Err(
        e,
    ) && is_bad_request(e, "new password must be at least 8 characters"@)))
    &&& (current.len() != 0 && new.len() != 0 && byte_len(new) >= MIN_PASSWORD_BYTES ==> match account {
        None => r matches Err(ServerError::Unauthorized),
        Some(a) => if !password_matches(a, current) {
            r matches Err(ServerError::Auth(AuthError::InvalidCredentials))
        } else {
            r matches Ok(b) ==> b == (AccountRecord { password_hash: b.password_hash, ..a })
                && argon2_verifies(encode_utf8(new), b.password_hash@)
        },
    })
    &&& (r matches Ok(b) ==> account matches Some(a) && password_matches(a, current) && argon2_verifies(
        encode_utf8(new),
        b.password_hash@,
    ))
    &&& (account matches Some(a) && password_matches(a, current) && current.len() != 0
        && MIN_PASSWORD_BYTES <= byte_len(new) <= 0xFFFF_FFFF ==> r is Ok)
}

/// Changes the password of `account` (the signed-in account, if it still
/// exists): the current password must verify, and the new one be long enough.
/// The result is the account with the new password's hash; nothing else changes.
pub fn change_password(account: Option<AccountRecord>, current: &str, new: &str) -> (r: Result<AccountRecord, ServerError>)
    ensures
        change_password_outcome(account, current@, new@, r),
{
    if current.is_empty() || new.is_empty() {
        return Err(
            ServerError::BadRequest(
                String::from_str("current_password and new_password are required"),
            ),
        );
    }
    if new.as_bytes().len() < MIN_PASSWORD_BYTES {
        return Err(
            ServerError::BadRequest(String::from_str("new password must be at least 8 characters")),
        );
    }
    let a = match account {
        Some(a) => a,
        None => {
            return Err(ServerError::Unauthorized);
        },
    };
    match verify_password(current, a.password_hash.as_str()) {
        Ok(()) => {},
        Err(e) => {
            return Err(e);
        },
    }
    let password_hash = match hash_password(new) {
        Ok(h) => h,
        Err(e) => {
            return Err(e);
        },
    };
    Ok(
        AccountRecord {
            id: a.id,
            email: a.email,
            password_hash,
            totp_secret: a.totp_secret,
            totp_enabled: a.totp_enabled,
            created_at: a.created_at,
        },
    )
}

/// A password change as it is stored: the account with its new password
/// (as `change_password` gives it) and the refresh records, `refresh_records`,
/// with every token of the account revoked at `now`. A refused change
/// carries nothing to store.
pub fn password_change(
    account: Option<AccountRecord>,
    current: &str,
    new: &str,
    refresh_records: &Vec<RefreshRecord>,
    now: i64,
) -> (r: Result<(AccountRecord, Vec<RefreshRecord>), ServerError>)
    ensures
        match r {
            Ok((b, rs)) => {
                &&& change_password_outcome(account, current@, new@, Ok(b))
                &&& rs@.len() == refresh_records@.len()
                &&& forall|i: int|
                    0 <= i < rs@.len() ==> #[trigger] rs@[i] == revoked_for(refresh_records@[i], b.id.0, now)
            },
            Err(e) => change_password_outcome(account, current@, new@, Err(e)),
        },
{
    match change_password(account, current, new) {
        Ok(b) => {
            let rs = revoke_all_for_account(refresh_records, b.id.0, now);
            Ok((b, rs))
        },
        Err(e) => Err(e),
    }
}

/// What a client is told when it sets up two-factor login.
#[derive(Debug, Clone)]
pub struct TotpSetup {
    pub otpauth_uri: String,
    pub secret: String,
}

/// Starts two-factor login for `account` (the signed-in account): a fresh
/// secret, sealed under the server's key in the returned record, which keeps
/// two-factor login off until a code is confirmed. The sealed secret opens
/// back to the secret the client is given.
pub fn totp_setup(account: Option<AccountRecord>, encryption_key: &str) -> (r: Result<(AccountRecord, TotpSetup), ServerError>)
    ensures
        account is None ==> r matches Err(ServerError::Unauthorized),
        account matches Some(a) && a.totp_enabled ==> (r matches Err(e) && is_conflict(
            e,
            "2FA is already enabled"@,
        )),
        match r {
            Ok((b, s)) => match account {
                Some(a) => {
                    &&& !a.totp_enabled
                    &&& b == (AccountRecord { totp_secret: b.totp_secret, totp_enabled: false, ..a })
                    &&& sealed_secret_ok(b.totp_secret)
                    &&& match b.totp_secret {
                        Some(sealed) => opened(sealing_key(encryption_key@), sealed@) == Ok::<
                            Seq<char>,
                            OpenFault,
                        >(s.secret@),
                        None => false,
                    }
                    &&& totp_buildable(a.email@, s.secret@)
                    &&& s.otpauth_uri@.len() >= 15
                    &&& s.otpauth_uri@.subrange(0, 15) == "otpauth://totp/"@
                    &&& s.otpauth_uri@ == totp_uri(TOTP_DIGITS, TOTP_STEP, base32_secret_bytes(s.secret@).unwrap(), "Failsafe"@, a.email@)
                },
                None => false,
            },
            Err(e) => match account {
                Some(a) => !a.totp_enabled ==> (e matches ServerError::Auth(AuthError::HashingFailed)
                    || e matches ServerError::Auth(AuthError::InvalidCredentials)),
                None => true,
            },
        },
        account matches Some(a) && !a.totp_enabled && !has_char(a.email@, ':') ==> r is Ok,
{
    let a = match account {
        Some(a) => a,
        None => {
            return Err(ServerError::Unauthorized);
        },
    };
    if a.totp_enabled {
        return Err(ServerError::Conflict(String::from_str("2FA is already enabled")));
    }
    let secret = generate_totp_secret();
    let sealed = match encrypt_secret(encryption_key, secret.as_str()) {
        Ok(s) => s,
        Err(e) => {
            return Err(e);
        },
    };
    let otpauth_uri = match build_otpauth_uri(a.email.as_str(), secret.as_str()) {
        Ok(u) => u,
        Err(e) => {
            return Err(e);
        },
    };
    let b = AccountRecord {
        id: a.id,
        email: a.email,
        password_hash: a.password_hash,
        totp_secret: Some(sealed),
        totp_enabled: false,
        created_at: a.created_at,
    };
    Ok((b, TotpSetup { otpauth_uri, secret }))
}

/// What turning two-factor login on produces: the account to store, the
/// recovery codes to show once, and the stored form of each.
#[derive(Debug, Clone)]
pub struct TotpEnabled {
    pub account: AccountRecord,
    pub recovery_codes: Vec<String>,
    pub code_hashes: Vec<String>,
}

/// The stored form of a recovery code.
pub open spec fn recovery_code_hash(code: Seq<char>) -> Seq<char> {
    hex_lower(sha256(encode_utf8(unicode_upper(trimmed(code)))))
}

/// What `totp_enable` gives for these inputs.
pub open spec fn totp_enable_outcome(account: Option<AccountRecord>, encryption_key: Seq<char>, code: Seq<char>, now: Option<u64>, r: Result<TotpEnabled, ServerError>) -> bool {
    &&& (trimmed(code).len() == 0 ==> (r matches Err(e) && is_bad_request(e, "code is required"@)))
    &&& (trimmed(code).len() != 0 ==> match account {
        None => r matches Err(ServerError::Unauthorized),
        Some(a) => if a.totp_enabled {
            r matches Err(e) && is_conflict(e, "2FA is already enabled"@)
        } else {
            match a.totp_secret {
                None => r matches Err(e) && is_bad_request(
                    e,
                    "call /auth/2fa/setup before enabling 2FA"@,
                ),
                Some(sec) => match opened(sealing_key(encryption_key), sec@) {
                    Err(f) => r matches Err(e) && open_fault_error(f, e),
                    Ok(p) => (r is Ok <==> totp_code_accepted(a.email@, p, code, now)) && (r matches Err(e)
                        ==> e matches ServerError::Auth(AuthError::InvalidCredentials)),
                },
            }
        },
    })
    &&& (r matches Ok(t) ==> {
        &&& account matches Some(a) && t.account == (AccountRecord { totp_enabled: true, ..a })
        &&& t.recovery_codes@.len() == RECOVERY_CODE_COUNT
        &&& t.code_hashes@.len() == RECOVERY_CODE_COUNT
        &&& forall|i: int|
            0 <= i < RECOVERY_CODE_COUNT ==> is_recovery_code(#[trigger] t.recovery_codes@[i]@)
                && t.code_hashes@[i]@ == recovery_code_hash(t.recovery_codes@[i]@)
    })
}

/// Turns two-factor login on for `account` (the signed-in account) once the
/// client shows the current code of the secret of `totp_setup`: as
/// `totp_enable_at` decides at the instant read from the clock.
pub fn totp_enable(account: Option<AccountRecord>, encryption_key: &str, code: &str) -> (r: Result<TotpEnabled, ServerError>)
    requires
        account matches Some(a) ==> sealed_secret_ok(a.totp_secret),
    ensures
        exists|now: Option<u64>| totp_enable_outcome(account, encryption_key@, code@, now, r),
{
    let now = unix_now();
    totp_enable_at(account, encryption_key, code, now)
}

/// Turns two-factor login on for `account` (the signed-in account) at the
/// instant `now` (seconds since 1970; `None` when the clock could not be
/// read), once the client shows the code of the secret of `totp_setup` for
/// that instant; gives fresh recovery codes.
pub fn totp_enable_at(account: Option<AccountRecord>, encryption_key: &str, code: &str, now: Option<u64>) -> (r: Result<TotpEnabled, ServerError>)
    requires
        account matches Some(a) ==> sealed_secret_ok(a.totp_secret),
    ensures
        totp_enable_outcome(account, encryption_key@, code@, now, r),
{
    let c = trim(code);
    if c.as_str().is_empty() {
        return Err(ServerError::BadRequest(String::from_str("code is required")));
    }
    let a = match account {
        Some(a) => a,
        None => {
            return Err(ServerError::Unauthorized);
        },
    };
    if a.totp_enabled {
        return Err(ServerError::Conflict(String::from_str("2FA is already enabled")));
    }
    let secret = match &a.totp_secret {
        Some(sec) => match decrypt_secret(encryption_key, sec.as_str()) {
            Ok(p) => p,
            Err(e) => {
                return Err(e);
            },
        },
        None => {
            return Err(
                ServerError::BadRequest(String::from_str("call /auth/2fa/setup before enabling 2FA")),
            );
        },
    };
    match verify_totp_when(a.email.as_str(), secret.as_str(), code, now) {
        Ok(()) => {},
        Err(e) => {
            return Err(e);
        },
    }
    let recovery_codes = generate_recovery_codes();
    let mut code_hashes: Vec<String> = Vec::new();
    let mut i: usize = 0;
    while i < recovery_codes.len()
        invariant
            i <= recovery_codes@.len(),
            recovery_codes@.len() == RECOVERY_CODE_COUNT,
            code_hashes@.len() == i,
            forall|j: int|
                0 <= j < i ==> #[trigger] code_hashes@[j]@ == recovery_code_hash(recovery_codes@[j]@),
        decreases recovery_codes.len() - i,
    {
        code_hashes.push(hash_recovery_code(recovery_codes[i].as_str()));
        i = i + 1;
    }
    let account = AccountRecord {
        id: a.id,
        email: a.email,
        password_hash: a.password_hash,
        totp_secret: a.totp_secret,
        totp_enabled: true,
        created_at: a.created_at,
    };
    Ok(TotpEnabled { account, recovery_codes, code_hashes })
}

/// What `totp_disable_check` gives for these inputs.
pub open spec fn totp_disable_outcome(account: Option<AccountRecord>, encryption_key: Seq<char>, password: Seq<char>, code: Seq<char>, now: Option<u64>, r: Result<SecondFactor, ServerError>) -> bool {
    &&& (password.len() == 0 || trimmed(code).len() == 0 ==> (r matches Err(e) && is_bad_request(
        e,
        "password and code are required"@,
    )))
    &&& (password.len() != 0 && trimmed(code).len() != 0 ==> match account {
        None => r matches Err(ServerError::Unauthorized),
        Some(a) => if !a.totp_enabled {
            r matches Err(e) && is_bad_request(e, "2FA is not enabled"@)
        } else if !password_matches(a, password) {
            r matches Err(ServerError::Auth(AuthError::InvalidCredentials))
        } else {
            match a.totp_secret {
                None => r matches Ok(SecondFactor::RecoveryCode(_)),
                Some(sec) => match opened(sealing_key(encryption_key), sec@) {
                    Err(f) => r matches Err(e) && open_fault_error(f, e),
                    Ok(p) => r is Ok && ((r matches Ok(SecondFactor::Verified)) <==> totp_code_accepted(
                        a.email@,
                        p,
                        code,
                        now,
                    )),
                },
            }
        },
    })
    &&& (match r {
        Ok(s) => second_factor_next(s, code) && match account {
            Some(a) => a.totp_enabled && password_matches(a, password),
            None => false,
        },
        Err(_) => true,
    })
    &&& (r matches Ok(SecondFactor::Verified) ==> account matches Some(a) && a.totp_secret matches Some(
        sec,
    ) && opened(sealing_key(encryption_key), sec@) matches Ok(p) && totp_code_accepted(a.email@, p, code, now))
}

/// The checks before two-factor login is turned off for `account` (the
/// signed-in account), at the current time: as `totp_disable_check_at`
/// decides at the instant read from the clock.
pub fn totp_disable_check(
    account: Option<AccountRecord>,
    encryption_key: &str,
    password: &str,
    code: &str,
) -> (r: Result<SecondFactor, ServerError>)
    requires
        account matches Some(a) ==> sealed_secret_ok(a.totp_secret),
    ensures
        exists|now: Option<u64>| totp_disable_outcome(account, encryption_key@, password@, code@, now, r),
{
    let now = unix_now();
    totp_disable_check_at(account, encryption_key, password, code, now)
}

/// The checks before two-factor login is turned off for `account` (the
/// signed-in account), at the instant `now` (seconds since 1970; `None` when
/// the clock could not be read): the password must verify, then the code
/// must be the TOTP code at `now` or, failing that, an unused recovery code.
pub fn totp_disable_check_at(
    account: Option<AccountRecord>,
    encryption_key: &str,
    password: &str,
    code: &str,
    now: Option<u64>,
) -> (r: Result<SecondFactor, ServerError>)
    requires
        account matches Some(a) ==> sealed_secret_ok(a.totp_secret),
    ensures
        totp_disable_outcome(account, encryption_key@, password@, code@, now, r),
{
    let c = trim(code);
    if password.is_empty() || c.as_str().is_empty() {
        return Err(ServerError::BadRequest(String::from_str("password and code are required")));
    }
    let a = match account {
        Some(a) => a,
        None => {
            return Err(ServerError::Unauthorized);
        },
    };
    if !a.totp_enabled {
        return Err(ServerError::BadRequest(String::from_str("2FA is not enabled")));
    }
    match verify_password(password, a.password_hash.as_str()) {
        Ok(()) => {},
        Err(e) => {
            return Err(e);
        },
    }
    proof {
        crate::text::lemma_trimmed_idempotent(code@);
    }
    match totp_matches(&a, encryption_key, c.as_str(), now) {
        Ok(true) => Ok(SecondFactor::Verified),
        Ok(false) => Ok(SecondFactor::RecoveryCode(hash_recovery_code(c.as_str()))),
        Err(e) => Err(e),
    }
}

/// An account whose sealed secret names a nonce of the wrong length.
pub open spec fn sealed_secret_faulty(account: Option<AccountRecord>) -> bool {
    account matches Some(a) && !sealed_secret_ok(a.totp_secret)
}

/// `second_factor` for any loaded account: `None`, and nothing checked, when
/// the account's sealed secret names a nonce of the wrong length.
pub fn second_factor_checked(account: Option<AccountRecord>, encryption_key: &str, code: &str) -> (r: Option<Result<SecondFactor, ServerError>>)
    ensures
        sealed_secret_faulty(account) <==> r is None,
        r matches Some(res) ==> exists|now: Option<u64>| second_factor_outcome(account, encryption_key@, code@, now, res),
{
    if let Some(a) = &account {
        if !sealed_secret_usable(a) {
            return None;
        }
    }
    Some(second_factor(account, encryption_key, code))
}

/// `totp_enable` for any loaded account: `None`, and nothing checked, when
/// the account's sealed secret names a nonce of the wrong length.
pub fn totp_enable_checked(account: Option<AccountRecord>, encryption_key: &str, code: &str) -> (r: Option<Result<TotpEnabled, ServerError>>)
    ensures
        sealed_secret_faulty(account) <==> r is None,
        r matches Some(res) ==> exists|now: Option<u64>| totp_enable_outcome(account, encryption_key@, code@, now, res),
{
    if let Some(a) = &account {
        if !sealed_secret_usable(a) {
            return None;
        }
    }
    Some(totp_enable(account, encryption_key, code))
}

/// `totp_disable_check` for any loaded account: `None`, and nothing checked,
/// when the account's sealed secret names a nonce of the wrong length.
pub fn totp_disable_check_checked(
    account: Option<AccountRecord>,
    encryption_key: &str,
    password: &str,
    code: &str,
) -> (r: Option<Result<SecondFactor, ServerError>>)
    ensures
        sealed_secret_faulty(account) <==> r is None,
        r matches Some(res) ==> exists|now: Option<u64>| totp_disable_outcome(account, encryption_key@, password@, code@, now, res),
{
    if let Some(a) = &account {
        if !sealed_secret_usable(a) {
            return None;
        }
    }
    Some(totp_disable_check(account, encryption_key, password, code))
}

/// The account once two-factor login is off: no secret, and off.
pub fn totp_disabled(account: AccountRecord) -> (r: AccountRecord)
    ensures
        r == (AccountRecord { totp_secret: None, totp_enabled: false, ..account }),
{
    AccountRecord {
        id: account.id,
        email: account.email,
        password_hash: account.password_hash,
        totp_secret: None,
        totp_enabled: false,
        created_at: account.created_at,
    }
}

/// Turning two-factor login off as it is stored, once `totp_disable_check`
/// passed and any recovery code was consumed: the account without a secret
/// and with two-factor login off, and the refresh records, `refresh_records`,
/// with every token of the account revoked at `now`.
pub fn totp_turned_off(account: AccountRecord, refresh_records: &Vec<RefreshRecord>, now: i64) -> (r: (AccountRecord, Vec<RefreshRecord>))
    ensures
        r.0 == (AccountRecord { totp_secret: None, totp_enabled: false, ..account }),
        r.1@.len() == refresh_records@.len(),
        forall|i: int| 0 <= i < r.1@.len() ==> #[trigger] r.1@[i] == revoked_for(refresh_records@[i], account.id.0, now),
{
    let id = account.id.0;
    let rs = revoke_all_for_account(refresh_records, id, now);
    (totp_disabled(account), rs)
}

/// What a client is told of its own account.
#[derive(Debug, Clone)]
pub struct AccountResponse {
    pub email: String,
    pub totp_enabled: bool,
}

/// The signed-in account's e-mail and two-factor state; an account that no
/// longer exists is unauthorized.
pub fn account_summary(account: Option<AccountRecord>) -> (r: Result<AccountResponse, ServerError>)
    ensures
        match account {
            None => r matches Err(ServerError::Unauthorized),
            Some(a) => r matches Ok(s) && s.email@ == a.email@ && s.totp_enabled == a.totp_enabled,
        },
{
    match account {
        Some(a) => Ok(AccountResponse { email: a.email, totp_enabled: a.totp_enabled }),
        None => Err(ServerError::Unauthorized),
    }
}

/// Checks a refresh request; gives the token, trimmed.
pub fn check_refresh_request(refresh_token: &str) -> (r: Result<String, ServerError>)
    ensures
        trimmed(refresh_token@).len() == 0 ==> (r matches Err(e) && is_bad_request(
            e,
            "refresh_token is required"@,
        )),
        trimmed(refresh_token@).len() != 0 ==> (r matches Ok(t) && t@ == trimmed(refresh_token@)),
{
    let t = trim(refresh_token);
    if t.as_str().is_empty() {
        return Err(ServerError::BadRequest(String::from_str("refresh_token is required")));
    }
    Ok(t)
}

/// The token a logout request revokes, trimmed: none when it is blank (the
/// request then succeeds doing nothing).
pub fn logout_token(refresh_token: &str) -> (r: Option<String>)
    ensures
        trimmed(refresh_token@).len() == 0 <==> r is None,
        r matches Some(t) ==> t@ == trimmed(refresh_token@),
{
    let t = trim(refresh_token);
    if t.as_str().is_empty() {
        None
    } else {
        Some(t)
    }
}

/// The prefix of an `Authorization` header that carries a bearer token.
pub open spec fn bearer_prefix() -> Seq<char> {
    "Bearer "@
}

/// The token of an `Authorization` header: what follows "Bearer ". A missing
/// header, or one of another form, is unauthorized.
pub fn bearer_token(header: Option<&str>) -> (r: Result<String, ServerError>)
    ensures
        match header {
            None => r matches Err(ServerError::Unauthorized),
            Some(h) => if h@.len() >= 7 && h@.subrange(0, 7) == bearer_prefix() {
                r matches Ok(t) && t@ == h@.subrange(7, h@.len() as int)
            } else {
                r matches Err(ServerError::Unauthorized)
            },
        },
{
    let h = match header {
        Some(h) => h,
        None => {
            return Err(ServerError::Unauthorized);
        },
    };
    proof {
        reveal_strlit("Bearer ");
    }
    let cs = crate::text::chars_of(h);
    let prefix = crate::text::chars_of("Bearer ");
    assert(prefix@.len() == 7);
    if cs.len() < 7 {
        return Err(ServerError::Unauthorized);
    }
    let mut i: usize = 0;
    while i < 7
        invariant
            i <= 7,
            header == Some(h),
            cs@ == h@,
            cs@.len() >= 7,
            prefix@ == bearer_prefix(),
            prefix@.len() == 7,
            forall|j: int| 0 <= j < i ==> cs@[j] == prefix@[j],
        decreases 7 - i,
    {
        if cs[i] != prefix[i] {
            assert(h@.subrange(0, 7)[i as int] != bearer_prefix()[i as int]);
            return Err(ServerError::Unauthorized);
        }
        i = i + 1;
    }
    assert(h@.subrange(0, 7) =~= bearer_prefix());
    let mut t = String::new();
    let mut k: usize = 7;
    while k < cs.len()
        invariant
            7 <= k <= cs@.len(),
            cs@ == h@,
            t@ == h@.subrange(7, k as int),
        decreases cs.len() - k,
    {
        crate::text::push_char(&mut t, cs[k]);
        k = k + 1;
        assert(t@ =~= h@.subrange(7, k as int));
    }
    Ok(t)
}

/// The account a request is made for: the one its bearer token names, which
/// must be an ordinary access token.
pub fn authenticate(jwt: &JwtService, header: Option<&str>) -> (r: Result<AccountId, ServerError>)
    ensures
        header is None ==> r matches Err(ServerError::Unauthorized),
        r matches Err(e) ==> e matches ServerError::Unauthorized || is_invalid_token(e),
        r matches Ok(a) ==> exists|sub: Seq<char>, m: Option<bool>| claims_account(sub, m, false) == Some(a),
        match header {
            None => true,
            Some(h) => if h@.len() >= 7 && h@.subrange(0, 7) == bearer_prefix() {
                accepts_only(r, h@.subrange(7, h@.len() as int), jwt.secret(), false)
            } else {
                r matches Err(ServerError::Unauthorized)
            },
        },
{
    let token = match bearer_token(header) {
        Ok(t) => t,
        Err(e) => {
            return Err(e);
        },
    };
    jwt.validate(token.as_str())
}

/// A token is only good for an account that still exists.
pub fn require_existing_account(id: AccountId, exists: bool) -> (r: Result<AccountId, ServerError>)
    ensures
        exists ==> r == Ok::<AccountId, ServerError>(id),
        !exists ==> r matches Err(ServerError::Unauthorized),
{
    if exists {
        Ok(id)
    } else {
        Err(ServerError::Unauthorized)
    }
}

} // verus!
