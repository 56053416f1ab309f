//! Which device stands behind a remote endpoint, and the endpoint's own
//! secret key as read from disk.

use vstd::prelude::*;

use crate::error::TransportError;
use crate::ids::DeviceId;
use crate::keyed::{distinct_keys, key_position, keyed, lemma_keyed_at, put};
use crate::text::{owned, push_str};

verus! {

/// The devices of the address book by endpoint id, later entries winning.
pub open spec fn reverse_of(pairs: Seq<(DeviceId, String)>) -> Map<Seq<char>, DeviceId>
    decreases pairs.len(),
{
    if pairs.len() == 0 {
        Map::empty()
    } else {
        reverse_of(pairs.drop_last()).insert(pairs.last().1@, pairs.last().0)
    }
}

/// The device of each remote endpoint id.
pub struct ReverseLookup {
    entries: Vec<(String, DeviceId)>,
}

impl ReverseLookup {
    /// The lookup is well formed: no endpoint id is listed twice.
    pub closed spec fn wf(&self) -> bool {
        distinct_keys(self.entries@)
    }

    /// The device of each endpoint id.
    pub closed spec fn devices(&self) -> Map<Seq<char>, DeviceId> {
        keyed(self.entries@)
    }

    /// The lookup of an address book, given as each device with the id of its
    /// endpoint; when two devices share an endpoint, the later one wins.
    pub fn from_pairs(pairs: &Vec<(DeviceId, String)>) -> (r: ReverseLookup)
        ensures
            r.wf(),
            r.devices() == reverse_of(pairs@),
    {
        let mut entries: Vec<(String, DeviceId)> = Vec::new();
        assert(keyed(entries@) =~= Map::<Seq<char>, DeviceId>::empty());
        let mut i: usize = 0;
        while i < pairs.len()
            invariant
                i <= pairs@.len(),
                distinct_keys(entries@),
                keyed(entries@) == reverse_of(pairs@.subrange(0, i as int)),
            decreases pairs.len() - i,
        {
            proof {
                assert(pairs@.subrange(0, i + 1).drop_last() =~= pairs@.subrange(0, i as int));
            }
            put(&mut entries, pairs[i].1.clone(), pairs[i].0);
            i = i + 1;
        }
        assert(pairs@.subrange(0, pairs@.len() as int) =~= pairs@);
        ReverseLookup { entries }
    }

    /// The device behind the remote endpoint `remote_id`; an endpoint the
    /// address book does not list is refused until the server syncs peers.
    pub fn resolve(&self, remote_id: &str) -> (r: Result<DeviceId, TransportError>)
        requires
            self.wf(),
        ensures
            self.devices().dom().contains(remote_id@) ==> r == Ok::<DeviceId, TransportError>(
                self.devices()[remote_id@],
            ),
            !self.devices().dom().contains(remote_id@) ==> (r matches Err(TransportError::Codec(m))
                && m@ == "unknown remote endpoint "@ + remote_id@ + "; waiting for server peer sync"@),
    {
        match key_position(&self.entries, remote_id) {
            Some(i) => {
                proof {
                    lemma_keyed_at(self.entries@, i as int);
                }
                Ok(self.entries[i].1)
            },
            None => {
                let mut m = owned("unknown remote endpoint ");
                push_str(&mut m, remote_id);
                push_str(&mut m, "; waiting for server peer sync");
                proof {
                    reveal_strlit("unknown remote endpoint ");
                    reveal_strlit("; waiting for server peer sync");
                }
                Err(TransportError::Codec(m))
            },
        }
    }
}

/// Every address of the book was read as an endpoint id.
pub open spec fn all_read(parsed: Seq<Result<String, String>>) -> bool {
    forall|i: int| 0 <= i < parsed.len() ==> (#[trigger] parsed[i]) is Ok
}

/// The first address that could not be read is the `k`-th, with message `m`.
pub open spec fn first_unread(parsed: Seq<Result<String, String>>, k: int, m: Seq<char>) -> bool {
    &&& 0 <= k < parsed.len()
    &&& parsed[k] matches Err(e) && e@ == m
    &&& forall|j: int| 0 <= j < k ==> (#[trigger] parsed[j]) is Ok
}

/// Each device of the book with the endpoint id its address was read as.
pub open spec fn endpoint_pairs(book: Seq<(DeviceId, String)>, parsed: Seq<Result<String, String>>) -> Seq<(DeviceId, String)> {
    Seq::new(book.len(), |i: int| (book[i].0, parsed[i]->Ok_0))
}

/// The error for an address that is no endpoint id.
pub open spec fn invalid_address_error(e: TransportError, m: Seq<char>) -> bool {
    e matches TransportError::Codec(t) && t@ == "invalid iroh public key: "@ + m
}

/// The address book of the peers (each device with its endpoint address),
/// and the device behind each endpoint id it names.
pub struct AddressState {
    book: Vec<(DeviceId, String)>,
    lookup: ReverseLookup,
}

impl AddressState {
    pub closed spec fn wf(&self) -> bool {
        self.lookup.wf()
    }

    /// The address book.
    pub closed spec fn book(&self) -> Seq<(DeviceId, String)> {
        self.book@
    }

    /// The device of each endpoint id.
    pub closed spec fn devices(&self) -> Map<Seq<char>, DeviceId> {
        self.lookup.devices()
    }

    /// The state of an address book, where `parsed` holds what each address
    /// was read as: its endpoint id, or the reader's error message. Every
    /// address must be read; the first that is not is the error.
    pub fn from_book(book: Vec<(DeviceId, String)>, parsed: &Vec<Result<String, String>>) -> (r: Result<AddressState, TransportError>)
        requires
            parsed@.len() == book@.len(),
        ensures
            r is Ok <==> all_read(parsed@),
            r matches Ok(s) ==> s.wf() && s.book() == book@ && s.devices() == reverse_of(endpoint_pairs(book@, parsed@)),
            r matches Err(e) ==> exists|k: int, m: Seq<char>| first_unread(parsed@, k, m) && invalid_address_error(e, m),
    {
        let mut pairs: Vec<(DeviceId, String)> = Vec::new();
        let mut i: usize = 0;
        while i < parsed.len()
            invariant
                i <= parsed@.len(),
                parsed@.len() == book@.len(),
                forall|j: int| 0 <= j < i ==> (#[trigger] parsed@[j]) is Ok,
                pairs@.len() == i,
                forall|j: int| 0 <= j < i ==> #[trigger] pairs@[j] == endpoint_pairs(book@, parsed@)[j],
            decreases parsed.len() - i,
        {
            match &parsed[i] {
                Ok(id) => {
                    pairs.push((book[i].0, id.clone()));
                },
                Err(m) => {
                    let mut t = owned("invalid iroh public key: ");
                    push_str(&mut t, m.as_str());
                    proof {
                        reveal_strlit("invalid iroh public key: ");
                        assert(first_unread(parsed@, i as int, m@));
                    }
                    return Err(TransportError::Codec(t));
                },
            }
            i = i + 1;
        }
        assert(pairs@ =~= endpoint_pairs(book@, parsed@));
        let lookup = ReverseLookup::from_pairs(&pairs);
        Ok(AddressState { book, lookup })
    }

    /// Replaces the address book, as `from_book` reads it; when an address
    /// cannot be read, the error is given and the state is left as it was.
    pub fn update(&mut self, book: Vec<(DeviceId, String)>, parsed: &Vec<Result<String, String>>) -> (r: Result<(), TransportError>)
        requires
            parsed@.len() == book@.len(),
        ensures
            r is Ok <==> all_read(parsed@),
            r is Ok ==> final(self).wf() && final(self).book() == book@ && final(self).devices() == reverse_of(
                endpoint_pairs(book@, parsed@),
            ),
            r matches Err(e) ==> *final(self) == *old(self) && exists|k: int, m: Seq<char>|
                first_unread(parsed@, k, m) && invalid_address_error(e, m),
    {
        match AddressState::from_book(book, parsed) {
            Ok(next) => {
                *self = next;
                Ok(())
            },
            Err(e) => Err(e),
        }
    }

    /// The device behind the remote endpoint `remote_id`, as
    /// `ReverseLookup::resolve` finds it.
    pub fn resolve(&self, remote_id: &str) -> (r: Result<DeviceId, TransportError>)
        requires
            self.wf(),
        ensures
            self.devices().dom().contains(remote_id@) ==> r == Ok::<DeviceId, TransportError>(
                self.devices()[remote_id@],
            ),
            !self.devices().dom().contains(remote_id@) ==> (r matches Err(TransportError::Codec(m))
                && m@ == "unknown remote endpoint "@ + remote_id@ + "; waiting for server peer sync"@),
    {
        self.lookup.resolve(remote_id)
    }
}

/// The endpoint's secret key from the bytes of its key file, which must hold
/// exactly 32 bytes; `path` is how the file is named in the error.
pub fn secret_key_from_bytes(path: &str, bytes: &Vec<u8>) -> (r: Result<[u8; 32], TransportError>)
    ensures
        bytes@.len() == 32 ==> (r matches Ok(k) && k@ == bytes@),
        bytes@.len() != 32 ==> (r matches Err(TransportError::Codec(m)) && m@ == "secret key at "@
            + path@ + " must be 32 bytes"@),
{
    if bytes.len() != 32 {
        let mut m = owned("secret key at ");
        push_str(&mut m, path);
        push_str(&mut m, " must be 32 bytes");
        proof {
            reveal_strlit("secret key at ");
            reveal_strlit(" must be 32 bytes");
        }
        return Err(TransportError::Codec(m));
    }
    let mut key = [0u8; 32];
    let mut i: usize = 0;
    while i < 32
        invariant
            i <= 32,
            bytes@.len() == 32,
            key@.len() == 32,
            forall|j: int| 0 <= j < i ==> key@[j] == bytes@[j],
        decreases 32 - i,
    {
        key.set(i, bytes[i]);
        i = i + 1;
    }
    assert(key@ =~= bytes@);
    Ok(key)
}

} // verus!
