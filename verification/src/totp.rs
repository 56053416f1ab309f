//! Time-based one-time passwords for two-factor login, through `totp_rs`.

use vstd::prelude::*;
use vstd::utf8::{encode_scalar, encode_utf8};

use crate::auth::unix_now;
use crate::error::{AuthError, ServerError};
use crate::text::{chars_of, is_ascii_digit, owned, trim, trimmed};

verus! {

#[verifier::external_type_specification]
#[verifier::external_body]
pub struct ExTotp(totp_rs::TOTP);

/// The bytes that RFC 4648 base32 without padding reads from `text`, if any,
/// as `totp_rs::Secret::Encoded(..).to_bytes()` decodes it.
pub uninterp spec fn base32_secret_bytes(text: Seq<char>) -> Option<Seq<u8>>;

/// Hash algorithm of a one-time password.
pub enum TotpAlgorithm {
    Sha1,
}

/// Decodes a base32 secret (`totp_rs::Secret::to_bytes` of `Secret::Encoded`).
#[verifier::external_body]
fn decode_secret(secret: &str) -> (r: Option<Vec<u8>>)
    ensures
        match base32_secret_bytes(secret@) {
            Some(b) => r matches Some(v) && v@ == b,
            None => r is None,
        },
{
    totp_rs::Secret::Encoded(secret.to_owned()).to_bytes().ok()
}

/// A fresh random secret in base32 (`Secret::generate_secret`, then
/// `to_encoded` and its text). The contract claims what the crate's source
/// shows: the secret is 20 random bytes, so its text decodes to 20 bytes, and
/// unpadded RFC 4648 base32 writes those 160 bits as 32 characters.
#[verifier::external_body]
fn random_secret() -> (r: String)
    ensures
        base32_secret_bytes(r@) is Some,
        base32_secret_bytes(r@).unwrap().len() == 20,
        r@.len() == 32,
{
    totp_rs::Secret::generate_secret().to_encoded().to_string()
}

/// `s` contains the character `c`.
pub open spec fn has_char(s: Seq<char>, c: char) -> bool {
    exists|i: int| 0 <= i < s.len() && s[i] == c
}

/// The otpauth URI (`TOTP::get_url`) of a SHA-1 generator of `digits`
/// digits and `step`-second steps over the secret bytes `secret`, issued by
/// `issuer` to `account`.
pub uninterp spec fn totp_uri(digits: usize, step: u64, secret: Seq<u8>, issuer: Seq<char>, account: Seq<char>) -> Seq<char>;

/// A one-time-password generator (`totp_rs::TOTP::new`). The contract claims
/// what the crate's source shows: construction succeeds exactly when there
/// are 6 to 8 digits, the secret has at least 16 bytes, and neither issuer nor
/// account name contains a colon.
#[verifier::external_body]
fn new_totp(
    algorithm: TotpAlgorithm,
    digits: usize,
    skew: u8,
    step: u64,
    secret: Vec<u8>,
    issuer: Option<String>,
    account: String,
) -> (r: Option<totp_rs::TOTP>)
    ensures
        r is Some <==> (6 <= digits <= 8 && secret@.len() >= 16 && !(issuer matches Some(i)
            && has_char(i@, ':')) && !has_char(account@, ':')),
{
    let algorithm = match algorithm {
        TotpAlgorithm::Sha1 => totp_rs::Algorithm::SHA1,
    };
    totp_rs::TOTP::new(algorithm, digits, skew, step, secret, issuer, account).ok()
}

/// A SHA-1 generator together with the settings it was built from. Only
/// `build_totp` makes one, from the same values it hands to `new_totp`, so
/// the fields beside `totp` are those of `totp`.
struct TotpGenerator {
    totp: totp_rs::TOTP,
    digits: usize,
    skew: u8,
    step: u64,
    secret: Vec<u8>,
    issuer: String,
    account: String,
}

/// The otpauth URI of a generator (`TOTP::get_url`). The contract names the
/// URI by the generator's settings, and claims the fixed start that the
/// source writes for SHA-1 generators.
#[verifier::external_body]
fn totp_url(g: &TotpGenerator) -> (r: String)
    ensures
        r@ == totp_uri(g.digits, g.step, g.secret@, g.issuer@, g.account@),
        r@.len() >= 15 && r@.subrange(0, 15) == "otpauth://totp/"@,
{
    g.totp.get_url()
}

/// The code of a SHA-1 generator of `digits` digits over the secret bytes
/// `secret` for the time step numbered `counter` (the step's number being
/// the time in seconds divided by the step's length).
pub uninterp spec fn totp_step_code(digits: usize, secret: Seq<u8>, counter: u64) -> Seq<char>;

/// The code of such a generator, of `step`-second steps, at `time` seconds
/// since 1970.
pub open spec fn totp_code_at(digits: usize, step: u64, secret: Seq<u8>, time: u64) -> Seq<char>
    recommends
        step > 0,
{
    totp_step_code(digits, secret, time / step)
}

/// A generator with `skew` steps of skew accepts `token` at `time`: it is the
/// code of one of the steps from `skew` steps before the current one to
/// `skew` steps after it.
pub open spec fn totp_accepts(digits: usize, step: u64, skew: u8, secret: Seq<u8>, token: Seq<char>, time: u64) -> bool
    recommends
        step > 0,
{
    exists|i: int|
        0 <= i <= 2 * skew && token == #[trigger] totp_step_code(digits, secret, (time / step - skew + i) as u64)
}

/// The code at `time` (`TOTP::generate`). The contract names the code by the
/// generator's settings and the step `time` falls in (the source signs
/// `time / step`), and claims what the source shows of a SHA-1 generator:
/// the code is a number below 10 to the number of digits, written in decimal
/// and zero-padded to that many digits. The step must not be zero: the
/// source divides by it.
#[verifier::external_body]
fn totp_generate(g: &TotpGenerator, time: u64) -> (r: String)
    requires
        g.step > 0,
        6 <= g.digits <= 8,
    ensures
        r@ == totp_step_code(g.digits, g.secret@, time / g.step),
        r@.len() == g.digits,
        forall|i: int| 0 <= i < r@.len() ==> is_ascii_digit(#[trigger] r@[i]),
{
    g.totp.generate(time)
}

/// Whether `token` is accepted at `time` (`TOTP::check`): the source compares
/// it byte for byte with the code of each step from `skew` steps before the
/// step of `time` to `skew` steps after it. The step must not be zero, and
/// those steps must start within the range of a `u64` (the source subtracts
/// and multiplies without checks).
#[verifier::external_body]
fn totp_check(g: &TotpGenerator, token: &str, time: u64) -> (r: bool)
    requires
        g.step > 0,
        6 <= g.digits <= 8,
        time / g.step >= g.skew,
        (time / g.step + g.skew) * g.step <= u64::MAX,
    ensures
        r == totp_accepts(g.digits, g.step, g.skew, g.secret@, token@, time),
{
    g.totp.check(token, time)
}

/// Digits of a code.
pub const TOTP_DIGITS: usize = 6;

/// Steps of skew accepted either side of now.
pub const TOTP_SKEW: u8 = 1;

/// Seconds per step.
pub const TOTP_STEP: u64 = 30;

/// Whether a generator can be built for this account and base32 secret: the
/// secret decodes to at least 16 bytes and the e-mail has no colon (the
/// issuer, "Failsafe", has none).
pub open spec fn totp_buildable(email: Seq<char>, secret: Seq<char>) -> bool {
    match base32_secret_bytes(secret) {
        Some(b) => b.len() >= 16 && !has_char(email, ':'),
        None => false,
    }
}

/// `e` is the error for bad credentials.
pub open spec fn is_invalid_credentials(e: ServerError) -> bool {
    e matches ServerError::Auth(AuthError::InvalidCredentials)
}

/// A fresh random TOTP secret, in base32.
pub fn generate_totp_secret() -> (r: String)
    ensures
        base32_secret_bytes(r@) matches Some(b) && b.len() == 20,
        r@.len() == 32,
        encode_utf8(r@).len() <= 128,
{
    let r = random_secret();
    proof {
        lemma_utf8_len_bound(r@);
    }
    r
}

/// No character takes more than four bytes in UTF-8.
pub proof fn lemma_utf8_len_bound(s: Seq<char>)
    ensures
        encode_utf8(s).len() <= 4 * s.len(),
    decreases s.len(),
{
    if s.len() > 0 {
        lemma_utf8_len_bound(s.drop_first());
        assert(encode_scalar(s[0] as u32).len() <= 4);
    }
}

/// The generator for an account: SHA-1, six digits, 30-second steps, one step
/// of skew, issued by "Failsafe" to the account's e-mail.
fn build_totp(email: &str, secret: &str) -> (r: Result<TotpGenerator, ServerError>)
    ensures
        r is Ok <==> totp_buildable(email@, secret@),
        r matches Err(e) ==> is_invalid_credentials(e),
        r matches Ok(g) ==> {
            &&& g.digits == TOTP_DIGITS
            &&& g.skew == TOTP_SKEW
            &&& g.step == TOTP_STEP
            &&& Some(g.secret@) == base32_secret_bytes(secret@)
            &&& g.issuer@ == "Failsafe"@
            &&& g.account@ == email@
        },
{
    let bytes = match decode_secret(secret) {
        Some(b) => b,
        None => return Err(ServerError::Auth(AuthError::InvalidCredentials)),
    };
    let issuer = String::from_str("Failsafe");
    proof {
        reveal_strlit("Failsafe");
        assert(!has_char(issuer@, ':'));
    }
    let kept = vstd::slice::slice_to_vec(bytes.as_slice());
    match new_totp(TotpAlgorithm::Sha1, TOTP_DIGITS, TOTP_SKEW, TOTP_STEP, bytes, Some(issuer), owned(email)) {
        Some(t) => Ok(
            TotpGenerator {
                totp: t,
                digits: TOTP_DIGITS,
                skew: TOTP_SKEW,
                step: TOTP_STEP,
                secret: kept,
                issuer: String::from_str("Failsafe"),
                account: owned(email),
            },
        ),
        None => Err(ServerError::Auth(AuthError::InvalidCredentials)),
    }
}

/// The otpauth URI an authenticator app scans to enrol the account: that of a
/// six-digit, 30-second SHA-1 generator over the secret's bytes, issued by
/// "Failsafe" to the e-mail address.
pub fn build_otpauth_uri(email: &str, secret: &str) -> (r: Result<String, ServerError>)
    ensures
        r is Ok <==> totp_buildable(email@, secret@),
        r matches Err(e) ==> is_invalid_credentials(e),
        r matches Ok(u) ==> u@ == totp_uri(TOTP_DIGITS, TOTP_STEP, base32_secret_bytes(secret@).unwrap(), "Failsafe"@, email@),
        r matches Ok(u) ==> u@.len() >= 15 && u@.subrange(0, 15) == "otpauth://totp/"@,
{
    let totp = build_totp(email, secret)?;
    Ok(totp_url(&totp))
}

/// A typed code has the shape of a code: six ASCII digits.
pub open spec fn code_shaped(code: Seq<char>) -> bool {
    code.len() == TOTP_DIGITS && forall|i: int| 0 <= i < code.len() ==> is_ascii_digit(#[trigger] code[i])
}

fn shaped(code: &Vec<char>) -> (r: bool)
    ensures
        r == code_shaped(code@),
{
    if code.len() != TOTP_DIGITS {
        return false;
    }
    let mut i: usize = 0;
    while i < code.len()
        invariant
            i <= code@.len(),
            forall|j: int| 0 <= j < i ==> is_ascii_digit(#[trigger] code@[j]),
        decreases code.len() - i,
    {
        if !('0' <= code[i] && code[i] <= '9') {
            return false;
        }
        i = i + 1;
    }
    true
}

/// The instants at which a code can be checked: from the start of the step
/// `TOTP_SKEW` steps after 1970, up to where the last step checked still
/// starts within the range of a `u64`.
pub open spec fn checkable_time(now: u64) -> bool {
    now / TOTP_STEP >= TOTP_SKEW && (now / TOTP_STEP + TOTP_SKEW) * TOTP_STEP <= u64::MAX
}

/// Checks a typed code against the account's generator at `now` (seconds
/// since 1970): accepted when the generator can be built, the trimmed code is
/// six digits, and it is the code of the step of `now` or of one step either
/// side. An instant at which the steps either side cannot be counted is
/// refused.
pub fn verify_totp_at(email: &str, secret: &str, code: &str, now: u64) -> (r: Result<(), ServerError>)
    ensures
        r is Ok <==> (totp_buildable(email@, secret@) && code_shaped(trimmed(code@)) && checkable_time(now)
            && totp_accepts(TOTP_DIGITS, TOTP_STEP, TOTP_SKEW, base32_secret_bytes(secret@).unwrap(), trimmed(code@), now)),
        r matches Err(e) ==> is_invalid_credentials(e),
{
    let totp = build_totp(email, secret)?;
    let trimmed_code = trim(code);
    let cs = chars_of(trimmed_code.as_str());
    if !shaped(&cs) {
        return Err(ServerError::Auth(AuthError::InvalidCredentials));
    }
    let counter = now / TOTP_STEP;
    if counter < TOTP_SKEW as u64 || counter > u64::MAX / TOTP_STEP - TOTP_SKEW as u64 {
        proof {
            if counter >= TOTP_SKEW as u64 {
                assert((counter + 1) * 30 > u64::MAX) by (nonlinear_arith)
                    requires counter > u64::MAX / 30 - 1;
            }
        }
        return Err(ServerError::Auth(AuthError::InvalidCredentials));
    }
    proof {
        assert((counter + 1) * 30 <= u64::MAX) by (nonlinear_arith)
            requires counter <= u64::MAX / 30 - 1;
    }
    if totp_check(&totp, trimmed_code.as_str(), now) {
        Ok(())
    } else {
        Err(ServerError::Auth(AuthError::InvalidCredentials))
    }
}

/// The trimmed `code` is accepted by the account's generator (for `email`
/// and the base32 `secret`) at the instant `now`, in seconds since 1970
/// (`None` when the clock could not be read, and then nothing is accepted):
/// the generator can be built, the code is six digits, and it is the code of
/// the step of `now` or of one step either side.
pub open spec fn totp_code_accepted(email: Seq<char>, secret: Seq<char>, code: Seq<char>, now: Option<u64>) -> bool {
    &&& now matches Some(t)
    &&& totp_buildable(email, secret)
    &&& code_shaped(trimmed(code))
    &&& checkable_time(now.unwrap())
    &&& totp_accepts(TOTP_DIGITS, TOTP_STEP, TOTP_SKEW, base32_secret_bytes(secret).unwrap(), trimmed(code), now.unwrap())
}

/// `verify_totp_at` at the instant `now`, when the clock could be read; a
/// code is refused when it could not.
pub fn verify_totp_when(email: &str, secret: &str, code: &str, now: Option<u64>) -> (r: Result<(), ServerError>)
    ensures
        r is Ok <==> totp_code_accepted(email@, secret@, code@, now),
        r matches Err(e) ==> is_invalid_credentials(e),
{
    match now {
        Some(t) => verify_totp_at(email, secret, code, t),
        None => Err(ServerError::Auth(AuthError::InvalidCredentials)),
    }
}

/// Checks a typed code against the account's generator at the current time,
/// as `verify_totp_when` does at the instant read from the clock.
pub fn verify_totp(email: &str, secret: &str, code: &str) -> (r: Result<(), ServerError>)
    ensures
        exists|now: Option<u64>| (r is Ok <==> totp_code_accepted(email@, secret@, code@, now)),
        !totp_buildable(email@, secret@) ==> (r matches Err(e) && is_invalid_credentials(e)),
        !code_shaped(trimmed(code@)) ==> (r matches Err(e) && is_invalid_credentials(e)),
        r matches Err(e) ==> is_invalid_credentials(e),
{
    let now = unix_now();
    verify_totp_when(email, secret, code, now)
}

/// The code the account's generator shows at `now` (seconds since 1970): that
/// of the step `now` falls in.
pub fn totp_code_at_time(email: &str, secret: &str, now: u64) -> (r: Result<String, ServerError>)
    ensures
        r is Ok <==> totp_buildable(email@, secret@),
        r matches Err(e) ==> is_invalid_credentials(e),
        r matches Ok(c) ==> c@ == totp_code_at(TOTP_DIGITS, TOTP_STEP, base32_secret_bytes(secret@).unwrap(), now)
            && code_shaped(c@),
{
    let totp = build_totp(email, secret)?;
    Ok(totp_generate(&totp, now))
}

/// The code the account's generator shows now, as `totp_code_at_time` gives
/// it at the instant read from the clock; refused when the clock reads
/// before 1970.
pub fn current_totp_code(email: &str, secret: &str) -> (r: Result<String, ServerError>)
    ensures
        !totp_buildable(email@, secret@) ==> (r matches Err(e) && is_invalid_credentials(e)),
        r matches Err(e) ==> is_invalid_credentials(e),
        r matches Ok(c) ==> code_shaped(c@) && exists|now: u64| c@ == totp_code_at(
            TOTP_DIGITS,
            TOTP_STEP,
            base32_secret_bytes(secret@).unwrap(),
            now,
        ),
{
    match unix_now() {
        Some(now) => totp_code_at_time(email, secret, now),
        None => {
            let _ = build_totp(email, secret)?;
            Err(ServerError::Auth(AuthError::InvalidCredentials))
        },
    }
}

/// The code a generator shows at an instant is accepted at that instant, and
/// at any instant within one step either side of it.
pub proof fn lemma_code_accepted_when_shown(secret: Seq<u8>, shown: u64, now: u64)
    requires
        checkable_time(now),
        now / TOTP_STEP - 1 <= shown / TOTP_STEP <= now / TOTP_STEP + 1,
    ensures
        totp_accepts(TOTP_DIGITS, TOTP_STEP, TOTP_SKEW, secret, totp_code_at(TOTP_DIGITS, TOTP_STEP, secret, shown), now),
{
    let i: int = shown / 30 - now / 30 + 1;
    assert((now / 30 - 1 + i) as u64 == shown / 30);
    assert(totp_code_at(TOTP_DIGITS, TOTP_STEP, secret, shown) == totp_step_code(
        TOTP_DIGITS,
        secret,
        (now / TOTP_STEP - TOTP_SKEW + i) as u64,
    ));
}

} // verus!
