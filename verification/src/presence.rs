//! Device presence, and the lifetimes of refresh tokens and pairing codes.
//! Instants are microseconds since 1970 (UTC).

use vstd::prelude::*;

use vstd::utf8::encode_utf8;

use crate::auth::{token_for, JwtService, TOKEN_TTL_SECS};
use crate::error::{AuthError, ServerError};
use crate::ids::{uuid_parse, uuid_text, AccountId};
use crate::secrets::{generate_raw_token, hash_token, sha256};
use crate::text::hex_lower;

verus! {

/// A device is online when it was seen at most this many seconds ago.
pub const ONLINE_THRESHOLD_SECS: i64 = 90;

/// Microseconds in a second.
pub const MICROS_PER_SEC: i64 = 1000000;

/// Lifetime of a refresh token: thirty days, in microseconds.
pub const REFRESH_TOKEN_TTL_MICROS: i64 = 2592000000000;

/// Lifetime of a pairing code: ten minutes, in microseconds.
pub const PAIRING_TTL_MICROS: i64 = 600000000;

/// The current instant by the system clock, in microseconds since 1970
/// (`SystemTime::now().duration_since(UNIX_EPOCH)`, then `as_micros`); `None`
/// when the clock reads before 1970 or too far ahead for an `i64`. Nothing is
/// stated of the value.
#[verifier::external_body]
pub(crate) fn now_micros() -> Option<i64> {
    let since = std::time::SystemTime::now().duration_since(std::time::UNIX_EPOCH).ok()?;
    i64::try_from(since.as_micros()).ok()
}

/// Whether a device last seen at `last_seen` is online at `now`.
pub open spec fn online_at(last_seen: Option<i64>, now: i64) -> bool {
    match last_seen {
        Some(t) => now - t <= ONLINE_THRESHOLD_SECS * MICROS_PER_SEC,
        None => false,
    }
}

/// Applies `online_at`.
pub fn is_online_at(last_seen: Option<i64>, now: i64) -> (r: bool)
    ensures
        r == online_at(last_seen, now),
{
    match last_seen {
        Some(t) => (now as i128) - (t as i128) <= (ONLINE_THRESHOLD_SECS * MICROS_PER_SEC) as i128,
        None => false,
    }
}

/// Whether a device last seen at `last_seen` is online now; never for a
/// device never seen, nor when the clock cannot be read.
pub fn is_online(last_seen: Option<i64>) -> (r: bool)
    ensures
        last_seen is None ==> !r,
        r ==> exists|now: i64| online_at(last_seen, now),
{
    match now_micros() {
        Some(now) => is_online_at(last_seen, now),
        None => false,
    }
}

/// `t` plus `d`, if it fits.
pub open spec fn later(t: i64, d: i64) -> Option<i64> {
    if i64::MIN <= t + d <= i64::MAX {
        Some((t + d) as i64)
    } else {
        None
    }
}

/// The expiry of a refresh token issued at `now`.
pub fn refresh_token_expiry(now: i64) -> (r: Result<i64, ServerError>)
    ensures
        match later(now, REFRESH_TOKEN_TTL_MICROS) {
            Some(t) => r == Ok::<i64, ServerError>(t),
            None => r matches Err(ServerError::Internal(_)),
        },
{
    match now.checked_add(REFRESH_TOKEN_TTL_MICROS) {
        Some(t) => Ok(t),
        None => Err(ServerError::Internal(String::from_str("timestamp out of range"))),
    }
}

/// The expiry of a pairing code created at `now`.
pub fn pairing_code_expiry(now: i64) -> (r: Result<i64, ServerError>)
    ensures
        match later(now, PAIRING_TTL_MICROS) {
            Some(t) => r == Ok::<i64, ServerError>(t),
            None => r matches Err(ServerError::Internal(_)),
        },
{
    match now.checked_add(PAIRING_TTL_MICROS) {
        Some(t) => Ok(t),
        None => Err(ServerError::Internal(String::from_str("timestamp out of range"))),
    }
}

/// What the server keeps of a refresh token.
#[derive(Debug, Clone, Copy, PartialEq, Eq, Structural)]
pub struct RefreshRecord {
    pub account_id: u128,
    pub expires_at: i64,
    pub revoked_at: Option<i64>,
}

/// A refresh token can be used at `now` when it is on record, not revoked, not
/// expired, and its account still exists.
pub open spec fn refresh_usable(record: Option<RefreshRecord>, account_exists: bool, now: i64) -> bool {
    match record {
        Some(r) => r.revoked_at is None && !(r.expires_at < now) && account_exists,
        None => false,
    }
}

/// Applies `refresh_usable`: a token that cannot be used is answered with
/// `Unauthorized`.
pub fn check_refresh_record(record: Option<RefreshRecord>, account_exists: bool, now: i64) -> (r: Result<RefreshRecord, ServerError>)
    ensures
        refresh_usable(record, account_exists, now) ==> r == Ok::<RefreshRecord, ServerError>(record.unwrap()),
        !refresh_usable(record, account_exists, now) ==> r matches Err(ServerError::Unauthorized),
{
    match record {
        Some(rec) => {
            if rec.revoked_at.is_some() || rec.expires_at < now || !account_exists {
                Err(ServerError::Unauthorized)
            } else {
                Ok(rec)
            }
        },
        None => Err(ServerError::Unauthorized),
    }
}

/// Whether logging out with a token revokes a record: only a record on file
/// that is not revoked yet.
pub fn revokes_on_logout(record: Option<RefreshRecord>) -> (r: bool)
    ensures
        r == (record matches Some(rec) && rec.revoked_at is None),
{
    match record {
        Some(rec) => rec.revoked_at.is_none(),
        None => false,
    }
}

/// What the server keeps of a pairing code.
#[derive(Debug, Clone, Copy, PartialEq, Eq, Structural)]
pub struct PairingRecord {
    pub account_id: u128,
    pub expires_at: i64,
    pub used_at: Option<i64>,
}

/// The reason a pairing code on record cannot be redeemed at `now`, if any.
pub open spec fn pairing_refusal(record: Option<PairingRecord>, now: i64) -> Option<Seq<char>> {
    match record {
        None => Some("invalid pairing code"@),
        Some(r) => if r.expires_at < now {
            Some("pairing code expired"@)
        } else if r.used_at is Some {
            Some("pairing code already used"@)
        } else {
            None
        },
    }
}

/// Decides whether a looked-up pairing code can be redeemed at `now`; a
/// refusal is a bad request saying why.
pub fn check_pairing_record(record: Option<PairingRecord>, now: i64) -> (r: Result<PairingRecord, ServerError>)
    ensures
        match pairing_refusal(record, now) {
            None => r == Ok::<PairingRecord, ServerError>(record.unwrap()),
            Some(m) => r matches Err(ServerError::BadRequest(s)) && s@ == m,
        },
{
    match record {
        None => Err(ServerError::BadRequest(String::from_str("invalid pairing code"))),
        Some(rec) => {
            if rec.expires_at < now {
                Err(ServerError::BadRequest(String::from_str("pairing code expired")))
            } else if rec.used_at.is_some() {
                Err(ServerError::BadRequest(String::from_str("pairing code already used")))
            } else {
                Ok(rec)
            }
        },
    }
}


/// A refresh token as issued: the raw token handed to the client, its stored
/// form, and the record kept under that form.
#[derive(Debug, Clone)]
pub struct IssuedRefreshToken {
    pub raw: String,
    pub token_hash: String,
    pub record: RefreshRecord,
}

/// Issues a refresh token for the account at `now`: random, kept only by its
/// hash, expiring thirty days later.
pub fn issue_refresh_token(account_id: u128, now: i64) -> (r: Result<IssuedRefreshToken, ServerError>)
    ensures
        match later(now, REFRESH_TOKEN_TTL_MICROS) {
            Some(t) => r matches Ok(i) && i.record == (RefreshRecord {
                account_id,
                expires_at: t,
                revoked_at: None,
            }) && i.token_hash@ == hex_lower(sha256(encode_utf8(i.raw@))) && i.raw@.len() == 64,
            None => r matches Err(ServerError::Internal(_)),
        },
{
    let expires_at = match refresh_token_expiry(now) {
        Ok(t) => t,
        Err(e) => {
            return Err(e);
        },
    };
    let raw = generate_raw_token();
    let token_hash = hash_token(raw.as_str());
    Ok(
        IssuedRefreshToken {
            raw,
            token_hash,
            record: RefreshRecord { account_id, expires_at, revoked_at: None },
        },
    )
}

/// The record of a refresh token revoked at `now` (by rotation or logout).
pub fn revoke_refresh_record(record: RefreshRecord, now: i64) -> (r: RefreshRecord)
    ensures
        r == (RefreshRecord { revoked_at: Some(now), ..record }),
{
    RefreshRecord { revoked_at: Some(now), ..record }
}

/// What a refresh-token rotation writes and answers: the used token's record,
/// now revoked; the new refresh token with its record; and the new access
/// token.
#[derive(Debug, Clone)]
pub struct Rotation {
    pub revoked: RefreshRecord,
    pub issued: IssuedRefreshToken,
    pub token: String,
}

/// Rotates the refresh token whose record is `record` (looked up by the
/// token's hash) at `now`: a token that cannot be used is unauthorized, and
/// otherwise its record is revoked, a new refresh token is issued for the same
/// account, and an access token with it. Only an `Ok` carries anything to
/// write, so a refused rotation writes nothing.
pub fn rotate_refresh(jwt: &JwtService, record: Option<RefreshRecord>, account_exists: bool, now: i64) -> (r: Result<Rotation, ServerError>)
    ensures
        !refresh_usable(record, account_exists, now) ==> r matches Err(ServerError::Unauthorized),
        refresh_usable(record, account_exists, now) && later(now, REFRESH_TOKEN_TTL_MICROS) is None ==> r matches Err(
            ServerError::Internal(_),
        ),
        refresh_usable(record, account_exists, now) && later(now, REFRESH_TOKEN_TTL_MICROS) is Some ==> (r is Ok
            || r matches Err(ServerError::Auth(AuthError::Jwt(_)))),
        r matches Ok(rot) ==> {
            let old_record = record.unwrap();
            &&& refresh_usable(record, account_exists, now)
            &&& rot.revoked == (RefreshRecord { revoked_at: Some(now), ..old_record })
            &&& rot.issued.record == (RefreshRecord {
                account_id: old_record.account_id,
                expires_at: later(now, REFRESH_TOKEN_TTL_MICROS).unwrap(),
                revoked_at: None,
            })
            &&& rot.issued.token_hash@ == hex_lower(sha256(encode_utf8(rot.issued.raw@)))
            &&& rot.issued.raw@.len() == 64
            &&& token_for(rot.token@, AccountId(old_record.account_id), TOKEN_TTL_SECS, None, jwt.secret())
            &&& uuid_parse(uuid_text(old_record.account_id)) == Some(old_record.account_id)
        },
{
    let rec = match check_refresh_record(record, account_exists, now) {
        Ok(rec) => rec,
        Err(e) => {
            return Err(e);
        },
    };
    let revoked = revoke_refresh_record(rec, now);
    let issued = match issue_refresh_token(rec.account_id, now) {
        Ok(i) => i,
        Err(e) => {
            return Err(e);
        },
    };
    let token = match jwt.issue(AccountId(rec.account_id)) {
        Ok(t) => t,
        Err(e) => {
            return Err(e);
        },
    };
    Ok(Rotation { revoked, issued, token })
}

/// What logging out with a token writes at `now`: its record revoked, when it
/// is on record and not revoked yet; nothing otherwise.
pub fn logout_revocation(record: Option<RefreshRecord>, now: i64) -> (r: Option<RefreshRecord>)
    ensures
        match record {
            Some(rec) => if rec.revoked_at is None {
                r == Some(RefreshRecord { revoked_at: Some(now), ..rec })
            } else {
                r is None
            },
            None => r is None,
        },
{
    match record {
        Some(rec) => if revokes_on_logout(record) {
            Some(revoke_refresh_record(rec, now))
        } else {
            None
        },
        None => None,
    }
}

/// A record once every refresh token of the account is revoked at `now`: the
/// account's records not revoked yet become revoked at `now`; the others stay.
pub open spec fn revoked_for(r: RefreshRecord, account_id: u128, now: i64) -> RefreshRecord {
    if r.account_id == account_id && r.revoked_at is None {
        RefreshRecord { revoked_at: Some(now), ..r }
    } else {
        r
    }
}

/// Revokes every refresh token of the account at `now` (as a password change
/// or turning two-factor login off does): each record as `revoked_for` says,
/// in order. Afterwards no token of the account can be used, at any time.
pub fn revoke_all_for_account(records: &Vec<RefreshRecord>, account_id: u128, now: i64) -> (r: Vec<RefreshRecord>)
    ensures
        r@.len() == records@.len(),
        forall|i: int| 0 <= i < r@.len() ==> #[trigger] r@[i] == revoked_for(records@[i], account_id, now),
        forall|i: int, t: i64, exists_: bool|
            0 <= i < r@.len() && r@[i].account_id == account_id ==> !#[trigger] refresh_usable(
                Some(r@[i]),
                exists_,
                t,
            ),
{
    let mut r: Vec<RefreshRecord> = Vec::new();
    let mut i: usize = 0;
    while i < records.len()
        invariant
            i <= records@.len(),
            r@.len() == i,
            forall|j: int| 0 <= j < i ==> #[trigger] r@[j] == revoked_for(records@[j], account_id, now),
        decreases records.len() - i,
    {
        let rec = records[i];
        if rec.account_id == account_id && rec.revoked_at.is_none() {
            r.push(revoke_refresh_record(rec, now));
        } else {
            r.push(rec);
        }
        i = i + 1;
    }
    r
}

/// A refresh token can be used from its issue until it expires, while its
/// account exists; once revoked it can never be used again.
pub proof fn lemma_refresh_token_lifetime(account_id: u128, issued: i64, t: i64, revoked: i64)
    requires
        later(issued, REFRESH_TOKEN_TTL_MICROS) is Some,
    ensures
        ({
            let record = RefreshRecord {
                account_id,
                expires_at: later(issued, REFRESH_TOKEN_TTL_MICROS).unwrap(),
                revoked_at: None,
            };
            &&& t <= record.expires_at ==> refresh_usable(Some(record), true, t)
            &&& t > record.expires_at ==> !refresh_usable(Some(record), true, t)
            &&& !refresh_usable(Some(record), false, t)
            &&& !refresh_usable(Some(RefreshRecord { revoked_at: Some(revoked), ..record }), true, t)
        }),
{
}

/// The record of a pairing code created at `now` for the account.
pub fn new_pairing_record(account_id: u128, now: i64) -> (r: Result<PairingRecord, ServerError>)
    ensures
        match later(now, PAIRING_TTL_MICROS) {
            Some(t) => r == Ok::<PairingRecord, ServerError>(PairingRecord { account_id, expires_at: t, used_at: None }),
            None => r matches Err(ServerError::Internal(_)),
        },
{
    match pairing_code_expiry(now) {
        Ok(t) => Ok(PairingRecord { account_id, expires_at: t, used_at: None }),
        Err(e) => Err(e),
    }
}

/// The record of a pairing code once redeemed at `now`.
pub fn mark_pairing_used(record: PairingRecord, now: i64) -> (r: PairingRecord)
    ensures
        r == (PairingRecord { used_at: Some(now), ..record }),
{
    PairingRecord { used_at: Some(now), ..record }
}

/// A pairing code is redeemed once: a fresh code can be redeemed at any time
/// before it expires, and once used it is refused as used (or as expired, once
/// past its expiry) at any later time.
pub proof fn lemma_pairing_code_redeemed_once(account_id: u128, created: i64, t: i64, used: i64, later_t: i64)
    requires
        later(created, PAIRING_TTL_MICROS) is Some,
    ensures
        ({
            let record = PairingRecord {
                account_id,
                expires_at: later(created, PAIRING_TTL_MICROS).unwrap(),
                used_at: None,
            };
            &&& t <= record.expires_at ==> pairing_refusal(Some(record), t) is None
            &&& t > record.expires_at ==> pairing_refusal(Some(record), t) == Some("pairing code expired"@)
            &&& pairing_refusal(Some(PairingRecord { used_at: Some(used), ..record }), later_t) is Some
            &&& later_t <= record.expires_at ==> pairing_refusal(
                Some(PairingRecord { used_at: Some(used), ..record }),
                later_t,
            ) == Some("pairing code already used"@)
        }),
{
}

} // verus!
