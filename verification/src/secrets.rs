//! Hashes, random tokens, recovery codes, and the sealed storage of TOTP
//! secrets: SHA-256, AES-256-GCM and base64 come from their crates.

use aes_gcm::aead::{Aead, KeyInit};
use rand::RngCore;
use sha2::Digest;
use vstd::prelude::*;
use vstd::utf8::{decode_utf8, encode_utf8, encode_utf8_decode_utf8, valid_utf8};

use crate::error::{AuthError, ServerError};
use crate::text::{
    chars_of, hex_lower, owned, push_char, push_str, string_of, to_hex_lower, to_uppercase, trim,
    trimmed, unicode_upper,
};

verus! {

/// The SHA-256 digest of `data`.
pub uninterp spec fn sha256(data: Seq<u8>) -> Seq<u8>;

/// The standard base64 text (with padding) of `data`.
pub uninterp spec fn base64_text(data: Seq<u8>) -> Seq<char>;

/// The bytes that standard base64 decoding reads from `text`, if any.
pub uninterp spec fn base64_bytes(text: Seq<char>) -> Option<Seq<u8>>;

/// The AES-256-GCM ciphertext (with its 16-byte tag) of `plaintext`.
pub uninterp spec fn aes_gcm_seal(key: Seq<u8>, nonce: Seq<u8>, plaintext: Seq<u8>) -> Seq<u8>;

/// The plaintext that AES-256-GCM recovers from `ciphertext`, if it authenticates.
pub uninterp spec fn aes_gcm_open(key: Seq<u8>, nonce: Seq<u8>, ciphertext: Seq<u8>) -> Option<Seq<u8>>;

/// A character of the standard base64 alphabet or its padding.
pub open spec fn is_base64_char(c: char) -> bool {
    ('A' <= c && c <= 'Z') || ('a' <= c && c <= 'z') || ('0' <= c && c <= '9') || c == '+' || c
        == '/' || c == '='
}

/// The SHA-256 digest of `data` (`sha2::Sha256::digest`).
#[verifier::external_body]
pub(crate) fn sha256_digest(data: &[u8]) -> (r: [u8; 32])
    ensures
        r@ == sha256(data@),
{
    sha2::Sha256::digest(data).into()
}

/// Fills `buf` from the operating system's random source
/// (`rand::rngs::OsRng::fill_bytes`). Nothing is stated of the bytes.
#[verifier::external_body]
fn fill_random(buf: &mut [u8])
    ensures
        final(buf)@.len() == old(buf)@.len(),
{
    rand::rngs::OsRng.fill_bytes(buf);
}

/// A random number from the operating system (`rand::rngs::OsRng::next_u32`).
#[verifier::external_body]
fn random_u32() -> u32 {
    rand::rngs::OsRng.next_u32()
}

/// Standard base64 with padding (`base64::Engine::encode` on
/// `general_purpose::STANDARD`). The contract claims, as the crate documents,
/// that the text uses only the base64 alphabet and `=`, and that decoding it
/// gives the bytes back.
#[verifier::external_body]
pub(crate) fn base64_encode(data: &[u8]) -> (r: String)
    ensures
        r@ == base64_text(data@),
        base64_bytes(r@) == Some(data@),
        forall|i: int| 0 <= i < r@.len() ==> is_base64_char(#[trigger] r@[i]),
{
    base64::Engine::encode(&base64::engine::general_purpose::STANDARD, data)
}

/// Standard base64 decoding (`base64::Engine::decode` on
/// `general_purpose::STANDARD`); `None` where the crate reports an error.
#[verifier::external_body]
pub(crate) fn base64_decode(text: &str) -> (r: Option<Vec<u8>>)
    ensures
        match base64_bytes(text@) {
            Some(b) => r matches Some(v) && v@ == b,
            None => r is None,
        },
{
    base64::Engine::decode(&base64::engine::general_purpose::STANDARD, text).ok()
}

/// AES-256-GCM encryption of `plaintext` under `key` and `nonce`, without
/// associated data (`KeyInit::new` then `Aead::encrypt` of `aes_gcm::Aes256Gcm`).
/// The contract claims what the crate's source shows: encryption fails only
/// for a plaintext above 2^36 bytes; and what AEAD promises: decrypting the
/// ciphertext with the same key and nonce gives the plaintext back.
#[verifier::external_body]
fn aes_seal(key: &[u8; 32], nonce: &[u8; 12], plaintext: &[u8]) -> (r: Option<Vec<u8>>)
    ensures
        plaintext@.len() <= 0x10_0000_0000 ==> r is Some,
        r matches Some(c) ==> c@ == aes_gcm_seal(key@, nonce@, plaintext@) && aes_gcm_open(
            key@,
            nonce@,
            c@,
        ) == Some(plaintext@),
{
    let cipher = aes_gcm::Aes256Gcm::new(key.into());
    cipher.encrypt(aes_gcm::Nonce::from_slice(nonce), plaintext.as_ref()).ok()
}

/// AES-256-GCM decryption (`KeyInit::new` then `Aead::decrypt`); `None` when
/// the ciphertext does not authenticate.
#[verifier::external_body]
fn aes_open(key: &[u8; 32], nonce: &[u8; 12], ciphertext: &[u8]) -> (r: Option<Vec<u8>>)
    ensures
        match aes_gcm_open(key@, nonce@, ciphertext@) {
            Some(p) => r matches Some(v) && v@ == p,
            None => r is None,
        },
{
    let cipher = aes_gcm::Aes256Gcm::new(key.into());
    cipher.decrypt(aes_gcm::Nonce::from_slice(nonce), ciphertext.as_ref()).ok()
}

/// The string whose UTF-8 encoding is `bytes`, if they are valid UTF-8
/// (`String::from_utf8`).
#[verifier::external_body]
fn utf8_string(bytes: Vec<u8>) -> (r: Option<String>)
    ensures
        r is Some <==> valid_utf8(bytes@),
        r matches Some(s) ==> s@ == decode_utf8(bytes@),
{
    String::from_utf8(bytes).ok()
}

/// The stored form of a refresh token: the hex SHA-256 of its text.
pub fn hash_token(raw: &str) -> (r: String)
    ensures
        r@ == hex_lower(sha256(encode_utf8(raw@))),
{
    let digest = sha256_digest(raw.as_bytes());
    to_hex_lower(&digest)
}

/// A fresh refresh token: 32 random bytes in lower-case hex.
pub fn generate_raw_token() -> (r: String)
    ensures
        r@.len() == 64,
        exists|b: Seq<u8>| b.len() == 32 && r@ == hex_lower(b),
{
    let mut bytes = [0u8; 32];
    fill_random(&mut bytes);
    to_hex_lower(&bytes)
}

/// The stored form of a recovery code: trimmed, upper-cased, then hex SHA-256.
pub fn hash_recovery_code(code: &str) -> (r: String)
    ensures
        r@ == hex_lower(sha256(encode_utf8(unicode_upper(trimmed(code@))))),
{
    let t = trim(code);
    let u = to_uppercase(t.as_str());
    let digest = sha256_digest(u.as_str().as_bytes());
    to_hex_lower(&digest)
}

/// Number of recovery codes handed out when two-factor login is turned on.
pub const RECOVERY_CODE_COUNT: usize = 10;

/// Number of characters in a recovery code.
pub const RECOVERY_CODE_LENGTH: usize = 8;

/// The `i`-th character of "ABCDEFGHJKLMNPQRSTUVWXYZ23456789", the recovery
/// alphabet: capitals without I and O, digits without 0 and 1.
pub open spec fn recovery_char(i: nat) -> char {
    if i < 8 {
        ((65 + i) as u8) as char
    } else if i < 13 {
        ((74 + (i - 8)) as u8) as char
    } else if i < 24 {
        ((80 + (i - 13)) as u8) as char
    } else {
        ((50 + (i - 24)) as u8) as char
    }
}

/// `c` is in the recovery alphabet.
pub open spec fn is_recovery_char(c: char) -> bool {
    (('A' <= c && c <= 'Z') && c != 'I' && c != 'O') || ('2' <= c && c <= '9')
}

/// `s` is a recovery code: eight characters of the recovery alphabet.
pub open spec fn is_recovery_code(s: Seq<char>) -> bool {
    s.len() == RECOVERY_CODE_LENGTH && forall|i: int| 0 <= i < s.len() ==> is_recovery_char(#[trigger] s[i])
}

fn recovery_alphabet_char(i: u32) -> (c: char)
    requires
        i < 32,
    ensures
        c == recovery_char(i as nat),
        is_recovery_char(c),
{
    if i < 8 {
        ((65 + i) as u8) as char
    } else if i < 13 {
        ((74 + (i - 8)) as u8) as char
    } else if i < 24 {
        ((80 + (i - 13)) as u8) as char
    } else {
        ((50 + (i - 24)) as u8) as char
    }
}

/// Ten fresh random recovery codes.
pub fn generate_recovery_codes() -> (r: Vec<String>)
    ensures
        r@.len() == RECOVERY_CODE_COUNT,
        forall|i: int| 0 <= i < r@.len() ==> is_recovery_code(#[trigger] r@[i]@),
{
    let mut codes: Vec<String> = Vec::new();
    let mut n: usize = 0;
    while n < RECOVERY_CODE_COUNT
        invariant
            n <= RECOVERY_CODE_COUNT,
            codes@.len() == n,
            forall|i: int| 0 <= i < codes@.len() ==> is_recovery_code(#[trigger] codes@[i]@),
        decreases RECOVERY_CODE_COUNT - n,
    {
        let mut code = String::new();
        let mut k: usize = 0;
        while k < RECOVERY_CODE_LENGTH
            invariant
                k <= RECOVERY_CODE_LENGTH,
                code@.len() == k,
                forall|i: int| 0 <= i < code@.len() ==> is_recovery_char(#[trigger] code@[i]),
            decreases RECOVERY_CODE_LENGTH - k,
        {
            let idx = random_u32() % 32;
            let c = recovery_alphabet_char(idx);
            let ghost before = code@;
            push_char(&mut code, c);
            assert forall|i: int| 0 <= i < code@.len() implies is_recovery_char(#[trigger] code@[i]) by {
                if i < before.len() {
                    assert(code@[i] == before[i]);
                }
            }
            k = k + 1;
        }
        codes.push(code);
        n = n + 1;
    }
    codes
}

/// The AES key a TOTP secret is sealed under: SHA-256 of the server's
/// encryption key text.
pub fn derive_encryption_key(secret: &str) -> (r: [u8; 32])
    ensures
        r@ == sha256(encode_utf8(secret@)),
{
    sha256_digest(secret.as_bytes())
}

/// The stored text of a sealed secret: base64 nonce, a colon, base64 ciphertext.
pub open spec fn sealed_text(nonce: Seq<u8>, ciphertext: Seq<u8>) -> Seq<char> {
    base64_text(nonce) + seq![':'] + base64_text(ciphertext)
}

/// Why a stored secret cannot be opened.
pub enum OpenFault {
    Format,
    Nonce,
    Ciphertext,
    Credentials,
}

/// The error for each fault, as the server reports it.
pub open spec fn open_fault_error(f: OpenFault, e: ServerError) -> bool {
    match f {
        OpenFault::Format => e matches ServerError::Internal(m) && m@ == "invalid encrypted secret format"@,
        OpenFault::Nonce => e matches ServerError::Internal(m) && m@ == "invalid encrypted secret nonce"@,
        OpenFault::Ciphertext => e matches ServerError::Internal(m) && m@ == "invalid encrypted secret ciphertext"@,
        OpenFault::Credentials => e matches ServerError::Auth(AuthError::InvalidCredentials),
    }
}

/// Position of the first colon of `s`, if any.
pub open spec fn first_colon(s: Seq<char>) -> Option<int> {
    if exists|i: int| 0 <= i < s.len() && s[i] == ':' && forall|j: int| 0 <= j < i ==> s[j] != ':' {
        Some(choose|i: int| 0 <= i < s.len() && s[i] == ':' && forall|j: int| 0 <= j < i ==> s[j] != ':')
    } else {
        None
    }
}

/// The nonce bytes a stored secret holds, if its form is right.
pub open spec fn stored_nonce(stored: Seq<char>) -> Option<Seq<u8>> {
    match first_colon(stored) {
        Some(i) => base64_bytes(stored.subrange(0, i)),
        None => None,
    }
}

/// The secret a stored text opens to under `key`, or why it does not open.
pub open spec fn opened(key: Seq<u8>, stored: Seq<char>) -> Result<Seq<char>, OpenFault> {
    match first_colon(stored) {
        None => Err(OpenFault::Format),
        Some(i) => match base64_bytes(stored.subrange(0, i)) {
            None => Err(OpenFault::Nonce),
            Some(nonce) => match base64_bytes(stored.subrange(i + 1, stored.len() as int)) {
                None => Err(OpenFault::Ciphertext),
                Some(ct) => match aes_gcm_open(key, nonce, ct) {
                    None => Err(OpenFault::Credentials),
                    Some(p) => if valid_utf8(p) {
                        Ok(decode_utf8(p))
                    } else {
                        Err(OpenFault::Credentials)
                    },
                },
            },
        },
    }
}

proof fn lemma_first_colon_unique(s: Seq<char>, k: int)
    requires
        0 <= k < s.len(),
        s[k] == ':',
        forall|j: int| 0 <= j < k ==> s[j] != ':',
    ensures
        first_colon(s) == Some(k),
{
    let i = choose|i: int| 0 <= i < s.len() && s[i] == ':' && forall|j: int| 0 <= j < i ==> s[j] != ':';
    assert(i == k) by {
        if i < k {
            assert(s[i] != ':');
        } else if i > k {
            assert(s[k] != ':');
        }
    }
}

/// Seals a TOTP secret for storage under the server's encryption key, with a
/// fresh random nonce. The stored text opens back to the secret.
pub fn encrypt_secret(encryption_key: &str, plaintext: &str) -> (r: Result<String, ServerError>)
    ensures
        encode_utf8(plaintext@).len() <= 0x10_0000_0000 ==> r is Ok,
        r matches Err(e) ==> e matches ServerError::Auth(AuthError::HashingFailed),
        r matches Ok(s) ==> exists|nonce: Seq<u8>| nonce.len() == 12 && s@ == sealed_text(nonce, aes_gcm_seal(sha256(encode_utf8(encryption_key@)), nonce, encode_utf8(plaintext@))),
        r matches Ok(s) ==> stored_nonce(s@) matches Some(n) && n.len() == 12,
        r matches Ok(s) ==> opened(sha256(encode_utf8(encryption_key@)), s@) == Ok::<Seq<char>, OpenFault>(plaintext@),
{
    let key = derive_encryption_key(encryption_key);
    let mut nonce = [0u8; 12];
    fill_random(&mut nonce);
    let ct = match aes_seal(&key, &nonce, plaintext.as_bytes()) {
        Some(c) => c,
        None => return Err(ServerError::Auth(AuthError::HashingFailed)),
    };
    let n64 = base64_encode(&nonce);
    let c64 = base64_encode(ct.as_slice());
    let mut out = owned(n64.as_str());
    push_char(&mut out, ':');
    push_str(&mut out, c64.as_str());
    proof {
        let s = out@;
        let k = n64@.len() as int;
        assert(s =~= sealed_text(nonce@, ct@));
        assert(s[k] == ':');
        assert forall|j: int| 0 <= j < k implies s[j] != ':' by {
            assert(s[j] == n64@[j]);
            assert(is_base64_char(n64@[j]));
        }
        lemma_first_colon_unique(s, k);
        assert(s.subrange(0, k) =~= n64@);
        assert(s.subrange(k + 1, s.len() as int) =~= c64@);
        encode_utf8_decode_utf8(plaintext@);
        vstd::utf8::encode_utf8_valid_utf8(plaintext@);
    }
    Ok(out)
}

fn find_colon(cs: &Vec<char>) -> (r: Option<usize>)
    ensures
        match first_colon(cs@) {
            Some(i) => r == Some(i as usize),
            None => r is None,
        },
        r matches Some(i) ==> i < cs@.len() && cs@[i as int] == ':',
{
    let mut i: usize = 0;
    while i < cs.len()
        invariant
            i <= cs@.len(),
            forall|j: int| 0 <= j < i ==> cs@[j] != ':',
        decreases cs.len() - i,
    {
        if cs[i] == ':' {
            proof {
                lemma_first_colon_unique(cs@, i as int);
            }
            return Some(i);
        }
        i = i + 1;
    }
    proof {
        if exists|k: int| 0 <= k < cs@.len() && cs@[k] == ':' && forall|j: int| 0 <= j < k ==> cs@[j] != ':' {
            let k = choose|k: int| 0 <= k < cs@.len() && cs@[k] == ':' && forall|j: int| 0 <= j < k ==> cs@[j] != ':';
            assert(cs@[k] != ':');
        }
    }
    None
}

/// Opens a stored TOTP secret with the server's encryption key. The nonce
/// part must decode to twelve bytes: the cipher takes no other length.
pub fn decrypt_secret(encryption_key: &str, stored: &str) -> (r: Result<String, ServerError>)
    requires
        stored_nonce(stored@) matches Some(n) ==> n.len() == 12,
    ensures
        match opened(sha256(encode_utf8(encryption_key@)), stored@) {
            Ok(p) => r matches Ok(s) && s@ == p,
            Err(f) => r matches Err(e) && open_fault_error(f, e),
        },
{
    let cs = chars_of(stored);
    let i = match find_colon(&cs) {
        Some(i) => i,
        None => return Err(ServerError::Internal(String::from_str("invalid encrypted secret format"))),
    };
    assert(i < cs.len());
    let left = string_of(&slice_chars(&cs, 0, i));
    let right = string_of(&slice_chars(&cs, i + 1, cs.len()));
    let nonce_bytes = match base64_decode(left.as_str()) {
        Some(b) => b,
        None => return Err(ServerError::Internal(String::from_str("invalid encrypted secret nonce"))),
    };
    let ciphertext = match base64_decode(right.as_str()) {
        Some(b) => b,
        None => return Err(ServerError::Internal(String::from_str("invalid encrypted secret ciphertext"))),
    };
    let key = derive_encryption_key(encryption_key);
    let nonce: [u8; 12] = [
        nonce_bytes[0], nonce_bytes[1], nonce_bytes[2], nonce_bytes[3], nonce_bytes[4],
        nonce_bytes[5], nonce_bytes[6], nonce_bytes[7], nonce_bytes[8], nonce_bytes[9],
        nonce_bytes[10], nonce_bytes[11],
    ];
    assert(nonce@ =~= nonce_bytes@);
    let plain = match aes_open(&key, &nonce, ciphertext.as_slice()) {
        Some(p) => p,
        None => return Err(ServerError::Auth(AuthError::InvalidCredentials)),
    };
    match utf8_string(plain) {
        Some(s) => Ok(s),
        None => Err(ServerError::Auth(AuthError::InvalidCredentials)),
    }
}

/// The nonce of a stored secret, when its form lets one be read, has the
/// length AES-GCM takes (twelve bytes); `decrypt_secret` asks for that.
pub fn stored_nonce_usable(stored: &str) -> (r: bool)
    ensures
        r == (stored_nonce(stored@) matches Some(n) ==> n.len() == 12),
{
    let cs = chars_of(stored);
    if let Some(i) = find_colon(&cs) {
        let left = string_of(&slice_chars(&cs, 0, i));
        if let Some(b) = base64_decode(left.as_str()) {
            if b.len() != 12 {
                return false;
            }
        }
    }
    true
}

/// Opens a stored secret when its nonce has the length AES-GCM takes; `None`
/// otherwise (where `decrypt_secret` cannot be called).
pub fn decrypt_secret_checked(encryption_key: &str, stored: &str) -> (r: Option<Result<String, ServerError>>)
    ensures
        (stored_nonce(stored@) matches Some(n) && n.len() != 12) <==> r is None,
        r matches Some(res) ==> match opened(sha256(encode_utf8(encryption_key@)), stored@) {
            Ok(p) => res matches Ok(s) && s@ == p,
            Err(f) => res matches Err(e) && open_fault_error(f, e),
        },
{
    if !stored_nonce_usable(stored) {
        return None;
    }
    Some(decrypt_secret(encryption_key, stored))
}

/// The characters of `cs` from `from` to `to`.
fn slice_chars(cs: &Vec<char>, from: usize, to: usize) -> (r: Vec<char>)
    requires
        from <= to <= cs@.len(),
    ensures
        r@ == cs@.subrange(from as int, to as int),
{
    let mut r: Vec<char> = Vec::new();
    let mut i = from;
    while i < to
        invariant
            from <= i <= to,
            to <= cs@.len(),
            r@ == cs@.subrange(from as int, i as int),
        decreases to - i,
    {
        r.push(cs[i]);
        i = i + 1;
        assert(r@ =~= cs@.subrange(from as int, i as int));
    }
    r
}

} // verus!
