//! Identifiers of accounts and devices: UUIDs, held as their 128-bit values.

use vstd::prelude::*;

use crate::text::{hex_digit, owned};

verus! {

/// Of the 32 hex digits of `id`, most significant first, the `k`-th.
pub open spec fn uuid_nibble(id: u128, k: int) -> nat {
    ((id >> ((124 - 4 * k) as u128)) & 0xFu128) as nat
}

/// The canonical hyphenated lower-case text of the UUID with value `id`, as
/// the `uuid` crate renders it: its 32 hex digits, most significant first, in
/// groups of 8, 4, 4, 4 and 12 joined by hyphens.
pub open spec fn uuid_text(id: u128) -> Seq<char> {
    Seq::new(
        36,
        |i: int|
            if i == 8 || i == 13 || i == 18 || i == 23 {
                '-'
            } else {
                let k = if i < 8 {
                    i
                } else if i < 13 {
                    i - 1
                } else if i < 18 {
                    i - 2
                } else if i < 23 {
                    i - 3
                } else {
                    i - 4
                };
                hex_digit(uuid_nibble(id, k))
            },
    )
}

/// The UUID that `uuid::Uuid::parse_str` reads from `text`, if any.
pub uninterp spec fn uuid_parse(text: Seq<char>) -> Option<u128>;

/// A UUID of version 4 (random) and of the RFC 4122 variant: its version
/// nibble is 4 and the two top bits of its clock sequence are `10`.
pub open spec fn is_v4_uuid(id: u128) -> bool {
    id & 0xF000_C000_0000_0000_0000u128 == 0x4000_8000_0000_0000_0000u128
}

/// A fresh random UUID (`uuid::Uuid::new_v4`). The contract claims what the
/// crate's source shows: random bits with the version and variant bits set
/// for a version 4, RFC 4122 UUID. Nothing else is stated of its value: it
/// comes from the random source.
#[verifier::external_body]
fn random_uuid() -> (r: u128)
    ensures
        is_v4_uuid(r),
{
    uuid::Uuid::new_v4().as_u128()
}

/// The hyphenated text of a UUID (`uuid::Uuid`'s `Display`). The contract
/// claims the text the crate's formatter writes (`uuid_text`), and that
/// `uuid::Uuid::parse_str` reads that text back as the same UUID.
#[verifier::external_body]
pub(crate) fn format_uuid(id: u128) -> (r: String)
    ensures
        r@ == uuid_text(id),
        uuid_parse(r@) == Some(id),
{
    uuid::Uuid::from_u128(id).to_string()
}

/// Reads a UUID from its text (`uuid::Uuid::parse_str`).
#[verifier::external_body]
pub(crate) fn parse_uuid(text: &str) -> (r: Option<u128>)
    ensures
        r == uuid_parse(text@),
{
    match uuid::Uuid::parse_str(text) {
        Ok(id) => Some(id.as_u128()),
        Err(_) => None,
    }
}

/// A device, named by a UUID.
#[derive(Debug, Clone, Copy, PartialEq, Eq, Hash, Structural)]
pub struct DeviceId(pub u128);

/// A registered account, named by a UUID.
#[derive(Debug, Clone, Copy, PartialEq, Eq, Hash, Structural)]
pub struct AccountId(pub u128);

impl DeviceId {
    /// A fresh random device id: a version 4 UUID.
    pub fn new() -> (r: DeviceId)
        ensures
            is_v4_uuid(r.0),
    {
        DeviceId(random_uuid())
    }

    /// The hyphenated text of the id, which reads back as the same id.
    pub fn to_text(&self) -> (r: String)
        ensures
            r@ == uuid_text(self.0),
            uuid_parse(r@) == Some(self.0),
    {
        format_uuid(self.0)
    }
}

impl AccountId {
    /// A fresh random account id: a version 4 UUID.
    pub fn new() -> (r: AccountId)
        ensures
            is_v4_uuid(r.0),
    {
        AccountId(random_uuid())
    }

    /// The hyphenated text of the id, which reads back as the same id.
    pub fn to_text(&self) -> (r: String)
        ensures
            r@ == uuid_text(self.0),
            uuid_parse(r@) == Some(self.0),
    {
        format_uuid(self.0)
    }

    /// Reads an account id from its text.
    pub fn parse(text: &str) -> (r: Option<AccountId>)
        ensures
            r == match uuid_parse(text@) {
                Some(v) => Some(AccountId(v)),
                None => None::<AccountId>,
            },
    {
        match parse_uuid(text) {
            Some(v) => Some(AccountId(v)),
            None => None,
        }
    }
}

/// A feature of the sync system, named by its identifier ("clipboard", "shell", ...).
#[derive(Debug, Clone)]
pub struct FeatureId {
    pub name: String,
}

impl FeatureId {
    /// The feature with the given name.
    pub fn from_static(name: &str) -> (r: FeatureId)
        ensures
            r.name@ == name@,
    {
        FeatureId { name: owned(name) }
    }

    /// The feature's name.
    pub fn as_str(&self) -> (r: &str)
        ensures
            r@ == self.name@,
    {
        self.name.as_str()
    }
}

} // verus!
