//! Pairing codes: six characters of A-Z and 0-9 with which a new device
//! joins an account.

use rand::Rng;
use vstd::prelude::*;

use crate::error::ServerError;

use crate::text::{
    all_upper_or_digit, ascii_upper, chars_of, is_ascii_text, is_ascii_digit, is_ascii_upper, is_unicode_whitespace,
    lemma_trimmed_identity, push_char, to_uppercase, trim, trimmed, unicode_upper,
};

verus! {

/// Number of characters in a pairing code.
pub const CODE_LEN: usize = 6;

/// Number of characters a code is drawn from: A-Z then 0-9.
pub const CODE_CHARSET_LEN: usize = 36;

/// The `i`-th character of the code alphabet "A..Z0..9".
pub open spec fn code_char(i: nat) -> char {
    if i < 26 {
        ((65 + i) as u8) as char
    } else {
        ((48 + (i - 26)) as u8) as char
    }
}

/// `s` is a well-formed pairing code.
pub open spec fn is_code(s: Seq<char>) -> bool {
    s.len() == CODE_LEN && all_upper_or_digit(s)
}

/// The form in which a typed code is looked up: trimmed, then upper-cased.
pub open spec fn normal_form(s: Seq<char>) -> Seq<char> {
    unicode_upper(trimmed(s))
}

/// A number in `0..n` from the thread-local generator (`rand::Rng::gen_range`).
#[verifier::external_body]
fn random_index(n: usize) -> (r: usize)
    requires
        n > 0,
    ensures
        r < n,
{
    rand::thread_rng().gen_range(0..n)
}

fn charset_char(i: usize) -> (c: char)
    requires
        i < CODE_CHARSET_LEN,
    ensures
        c == code_char(i as nat),
        is_ascii_upper(c) || is_ascii_digit(c),
{
    if i < 26 {
        ((65 + i) as u8) as char
    } else {
        ((48 + (i - 26)) as u8) as char
    }
}

/// A fresh random pairing code.
pub fn generate_code() -> (r: String)
    ensures
        is_code(r@),
{
    let mut r = String::new();
    let mut n: usize = 0;
    while n < CODE_LEN
        invariant
            n <= CODE_LEN,
            r@.len() == n,
            all_upper_or_digit(r@),
        decreases CODE_LEN - n,
    {
        let idx = random_index(CODE_CHARSET_LEN);
        let c = charset_char(idx);
        let ghost before = r@;
        push_char(&mut r, c);
        proof {
            assert forall|i: int| 0 <= i < r@.len() implies is_ascii_upper(#[trigger] r@[i]) || is_ascii_digit(r@[i]) by {
                if i < before.len() {
                    assert(r@[i] == before[i]);
                }
            }
        }
        n = n + 1;
    }
    r
}

/// Reads a typed pairing code: trims it and upper-cases it, and accepts it
/// only if six ASCII capitals and digits remain.
pub fn normalize_code(code: &str) -> (r: Option<String>)
    ensures
        r is Some <==> is_code(normal_form(code@)),
        r matches Some(v) ==> v@ == normal_form(code@),
        r matches Some(v) ==> normal_form(v@) == v@,
        is_ascii_text(trimmed(code@)) ==> (r is Some <==> is_code(ascii_upper(trimmed(code@)))),
        is_ascii_text(trimmed(code@)) ==> (r matches Some(v) ==> v@ == ascii_upper(trimmed(code@))),
{
    let t = trim(code);
    let normalized = to_uppercase(t.as_str());
    let cs = chars_of(normalized.as_str());
    if cs.len() != CODE_LEN {
        return None;
    }
    let mut i: usize = 0;
    while i < cs.len()
        invariant
            cs@ == normalized@,
            normalized@ == normal_form(code@),
            is_ascii_text(trimmed(code@)) ==> normalized@ == ascii_upper(trimmed(code@)),
            i <= cs.len(),
            forall|j: int| 0 <= j < i ==> is_ascii_upper(#[trigger] cs@[j]) || is_ascii_digit(cs@[j]),
        decreases cs.len() - i,
    {
        let c = cs[i];
        if !(('A' <= c && c <= 'Z') || ('0' <= c && c <= '9')) {
            assert(!(is_ascii_upper(normalized@[i as int]) || is_ascii_digit(normalized@[i as int])));
            assert(!all_upper_or_digit(normalized@));
            return None;
        }
        i = i + 1;
    }
    proof {
        lemma_generated_code_normalizes(normalized@);
    }
    Some(normalized)
}

/// A well-formed code (every generated code is one) is its own trimmed form,
/// and reads back as itself wherever it is its own upper-case form, which the
/// contract of `to_uppercase` gives for every string of capitals and digits.
pub proof fn lemma_generated_code_normalizes(code: Seq<char>)
    requires
        is_code(code),
    ensures
        trimmed(code) == code,
        unicode_upper(code) == code ==> normal_form(code) == code && is_code(normal_form(code)),
{
    assert(!is_unicode_whitespace(code[0])) by {
        assert(is_ascii_upper(code[0]) || is_ascii_digit(code[0]));
    }
    assert(!is_unicode_whitespace(code.last())) by {
        assert(is_ascii_upper(code[code.len() - 1]) || is_ascii_digit(code[code.len() - 1]));
    }
    lemma_trimmed_identity(code);
}


/// The message refusing a code of the wrong form.
pub open spec fn bad_code_message() -> Seq<char> {
    "pairing code must be 8 uppercase alphanumeric characters"@
}

/// Reads the code of a redeem request; one of the wrong form is a bad request.
pub fn check_redeem_code(code: &str) -> (r: Result<String, ServerError>)
    ensures
        is_code(normal_form(code@)) ==> (r matches Ok(v) && v@ == normal_form(code@)),
        !is_code(normal_form(code@)) ==> (r matches Err(ServerError::BadRequest(m)) && m@
            == bad_code_message()),
{
    match normalize_code(code) {
        Some(v) => Ok(v),
        None => Err(
            ServerError::BadRequest(
                String::from_str("pairing code must be 8 uppercase alphanumeric characters"),
            ),
        ),
    }
}

/// Number of fresh codes tried before creating a pairing code gives up.
pub const PAIRING_CODE_ATTEMPTS: u32 = 10;

/// The code to try storing next, after `attempts` codes could not be stored
/// (they clashed with stored ones): a fresh code, or, after ten, an error.
pub fn next_pairing_code(attempts: u32) -> (r: Result<String, ServerError>)
    ensures
        attempts < PAIRING_CODE_ATTEMPTS ==> (r matches Ok(c) && is_code(c@)),
        attempts >= PAIRING_CODE_ATTEMPTS ==> (r matches Err(ServerError::Internal(m)) && m@
            == "failed to generate unique pairing code"@),
{
    if attempts >= PAIRING_CODE_ATTEMPTS {
        return Err(ServerError::Internal(String::from_str("failed to generate unique pairing code")));
    }
    Ok(generate_code())
}

/// Marking the code used must change its record: when no unused record was
/// updated, another redeem won the race.
pub fn claim_pairing_code(rows_updated: u64) -> (r: Result<(), ServerError>)
    ensures
        rows_updated > 0 <==> r is Ok,
        rows_updated == 0 ==> (r matches Err(ServerError::BadRequest(m)) && m@
            == "pairing code already used"@),
{
    if rows_updated == 0 {
        Err(ServerError::BadRequest(String::from_str("pairing code already used")))
    } else {
        Ok(())
    }
}

} // verus!
