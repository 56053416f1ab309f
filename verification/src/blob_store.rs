//! An in-memory blob store: blobs and collections of named files, kept under
//! their hashes, and the collections that were downloaded.

use vstd::prelude::*;

use crate::blobs::{
    blob_hash, blob_hash_text, collection_hash, collection_hash_text, BlobHash, BlobProgress,
    ImportedFile, import_progress, imported_files, collection_status, bytes_through, names_file,
};
use crate::error::BlobError;
use crate::ids::DeviceId;
use crate::keyed::{distinct_keys, has_key, key_position, keyed, lemma_keyed_at, put};

verus! {

/// A copy of a byte string.
fn copy_bytes(data: &Vec<u8>) -> (r: Vec<u8>)
    ensures
        r@ == data@,
{
    let mut r: Vec<u8> = Vec::new();
    let mut i: usize = 0;
    while i < data.len()
        invariant
            i <= data@.len(),
            r@ == data@.subrange(0, i as int),
        decreases data.len() - i,
    {
        r.push(data[i]);
        i = i + 1;
        assert(r@ =~= data@.subrange(0, i as int));
    }
    assert(data@.subrange(0, data@.len() as int) =~= data@);
    r
}

/// Two lists of named files hold the same names and contents, in order.
pub open spec fn same_files(a: Seq<(String, Vec<u8>)>, b: Seq<(String, Vec<u8>)>) -> bool {
    a.len() == b.len() && forall|i: int|
        0 <= i < a.len() ==> (#[trigger] a[i]).0@ == b[i].0@ && a[i].1@ == b[i].1@
}

fn copy_files(files: &Vec<(String, Vec<u8>)>) -> (r: Vec<(String, Vec<u8>)>)
    ensures
        same_files(r@, files@),
{
    let mut r: Vec<(String, Vec<u8>)> = Vec::new();
    let mut i: usize = 0;
    while i < files.len()
        invariant
            i <= files@.len(),
            r@.len() == i,
            forall|j: int| 0 <= j < i ==> (#[trigger] r@[j]).0@ == files@[j].0@ && r@[j].1@ == files@[j].1@,
        decreases files.len() - i,
    {
        r.push((files[i].0.clone(), copy_bytes(&files[i].1)));
        i = i + 1;
    }
    r
}

/// `e` says that nothing is stored under `hash`.
pub open spec fn is_not_found(e: BlobError, hash: Seq<char>) -> bool {
    e matches BlobError::NotFound(m) && m@ == hash
}

/// A blob store held in memory.
pub struct MockBlobTransfer {
    blobs: Vec<(String, Vec<u8>)>,
    collections: Vec<(String, Vec<(String, Vec<u8>)>)>,
    downloaded: Vec<(String, ())>,
}

impl MockBlobTransfer {
    /// No hash is stored twice.
    pub closed spec fn wf(&self) -> bool {
        distinct_keys(self.blobs@) && distinct_keys(self.collections@) && distinct_keys(self.downloaded@)
    }

    /// The blobs, by hash text.
    pub closed spec fn blob_map(&self) -> Map<Seq<char>, Vec<u8>> {
        keyed(self.blobs@)
    }

    /// The collections, by root hash text.
    pub closed spec fn collection_map(&self) -> Map<Seq<char>, Vec<(String, Vec<u8>)>> {
        keyed(self.collections@)
    }

    /// The root hash texts of the collections downloaded.
    pub closed spec fn downloaded_roots(&self) -> Set<Seq<char>> {
        keyed(self.downloaded@).dom()
    }

    /// An empty store.
    pub fn new() -> (r: MockBlobTransfer)
        ensures
            r.wf(),
            r.blob_map() == Map::<Seq<char>, Vec<u8>>::empty(),
            r.collection_map() == Map::<Seq<char>, Vec<(String, Vec<u8>)>>::empty(),
            r.downloaded_roots() == Set::<Seq<char>>::empty(),
    {
        let r = MockBlobTransfer { blobs: Vec::new(), collections: Vec::new(), downloaded: Vec::new() };
        assert(keyed(r.blobs@) =~= Map::<Seq<char>, Vec<u8>>::empty());
        assert(keyed(r.collections@) =~= Map::<Seq<char>, Vec<(String, Vec<u8>)>>::empty());
        assert(keyed(r.downloaded@).dom() =~= Set::<Seq<char>>::empty());
        r
    }

    /// Stores a blob under its hash, which it returns.
    pub fn store_bytes(&mut self, data: Vec<u8>) -> (r: Result<BlobHash, BlobError>)
        requires
            old(self).wf(),
        ensures
            final(self).wf(),
            r matches Ok(h) && h.0@ == blob_hash_text(data@),
            final(self).blob_map() == old(self).blob_map().insert(blob_hash_text(data@), data),
            final(self).collection_map() == old(self).collection_map(),
            final(self).downloaded_roots() == old(self).downloaded_roots(),
    {
        let hash = blob_hash(data.as_slice());
        put(&mut self.blobs, hash.0.clone(), data);
        Ok(hash)
    }

    /// Stores a collection of named files under its root hash, which it returns.
    pub fn store_files(&mut self, files: Vec<(String, Vec<u8>)>) -> (r: Result<BlobHash, BlobError>)
        requires
            old(self).wf(),
        ensures
            final(self).wf(),
            r matches Ok(h) && h.0@ == collection_hash_text(files@),
            final(self).collection_map() == old(self).collection_map().insert(
                collection_hash_text(files@),
                files,
            ),
            final(self).blob_map() == old(self).blob_map(),
            final(self).downloaded_roots() == old(self).downloaded_roots(),
    {
        let root = collection_hash(&files);
        put(&mut self.collections, root.0.clone(), files);
        Ok(root)
    }

    /// The blob stored under `hash`; one not stored is not found.
    pub fn fetch_bytes(&self, peer: DeviceId, hash: &BlobHash) -> (r: Result<Vec<u8>, BlobError>)
        requires
            self.wf(),
        ensures
            match r {
                Ok(v) => self.blob_map().dom().contains(hash.0@) && v@ == self.blob_map()[hash.0@]@,
                Err(e) => !self.blob_map().dom().contains(hash.0@) && is_not_found(e, hash.0@),
            },
    {
        match key_position(&self.blobs, hash.as_str()) {
            Some(i) => {
                proof {
                    lemma_keyed_at(self.blobs@, i as int);
                }
                Ok(copy_bytes(&self.blobs[i].1))
            },
            None => Err(BlobError::NotFound(hash.0.clone())),
        }
    }

    /// Downloads the collection `root` from a peer: here, marks it downloaded
    /// when it is held, and gives the progress reported, all `total_bytes`
    /// done. A collection not held is not found.
    pub fn download_collection(&mut self, peer: DeviceId, root: &BlobHash, total_bytes: u64) -> (r: Result<BlobProgress, BlobError>)
        requires
            old(self).wf(),
        ensures
            final(self).wf(),
            final(self).blob_map() == old(self).blob_map(),
            final(self).collection_map() == old(self).collection_map(),
            old(self).collection_map().dom().contains(root.0@) ==> {
                &&& r matches Ok(p) && p.bytes_done == total_bytes && p.bytes_total == total_bytes
                    && p.current_file is None
                &&& final(self).downloaded_roots() == old(self).downloaded_roots().insert(root.0@)
            },
            !old(self).collection_map().dom().contains(root.0@) ==> {
                &&& r matches Err(BlobError::NotFound(m)) && m@ == root.0@
                &&& final(self).downloaded_roots() == old(self).downloaded_roots()
            },
    {
        match key_position(&self.collections, root.as_str()) {
            None => Err(BlobError::NotFound(root.0.clone())),
            Some(i) => {
                proof {
                    lemma_keyed_at(self.collections@, i as int);
                }
                put(&mut self.downloaded, root.0.clone(), ());
                proof {
                    assert(keyed(self.downloaded@).dom() =~= keyed(old(self).downloaded@).dom().insert(root.0@));
                }
                Ok(BlobProgress { bytes_done: total_bytes, bytes_total: total_bytes, current_file: None })
            },
        }
    }

    /// The files of the collection `root`, once downloaded from the peer.
    pub fn fetch_collection_files(&mut self, peer: DeviceId, root: &BlobHash) -> (r: Result<Vec<(String, Vec<u8>)>, BlobError>)
        requires
            old(self).wf(),
        ensures
            final(self).wf(),
            final(self).blob_map() == old(self).blob_map(),
            final(self).collection_map() == old(self).collection_map(),
            match r {
                Ok(files) => old(self).collection_map().dom().contains(root.0@) && same_files(
                    files@,
                    old(self).collection_map()[root.0@]@,
                ) && final(self).downloaded_roots() == old(self).downloaded_roots().insert(root.0@),
                Err(e) => !old(self).collection_map().dom().contains(root.0@) && is_not_found(e, root.0@),
            },
    {
        match self.download_collection(peer, root, 0) {
            Ok(_) => {},
            Err(e) => {
                return Err(e);
            },
        }
        match key_position(&self.collections, root.as_str()) {
            Some(i) => {
                proof {
                    lemma_keyed_at(self.collections@, i as int);
                }
                Ok(copy_files(&self.collections[i].1))
            },
            None => Err(BlobError::NotFound(root.0.clone())),
        }
    }

    /// The files of a collection held here, to be written out by the caller;
    /// one not held is not found.
    pub fn collection_files(&self, root: &BlobHash) -> (r: Result<Vec<(String, Vec<u8>)>, BlobError>)
        requires
            self.wf(),
        ensures
            match r {
                Ok(files) => self.collection_map().dom().contains(root.0@) && same_files(
                    files@,
                    self.collection_map()[root.0@]@,
                ),
                Err(e) => !self.collection_map().dom().contains(root.0@) && is_not_found(e, root.0@),
            },
    {
        match key_position(&self.collections, root.as_str()) {
            Some(i) => {
                proof {
                    lemma_keyed_at(self.collections@, i as int);
                }
                Ok(copy_files(&self.collections[i].1))
            },
            None => Err(BlobError::NotFound(root.0.clone())),
        }
    }

    /// `(bytes present, bytes expected, complete)` for the collection `root`:
    /// complete, with every byte, when it is held or was downloaded.
    pub fn collection_status(&self, root: &BlobHash, total_bytes: u64) -> (r: (u64, u64, bool))
        requires
            self.wf(),
        ensures
            r.2 == (self.collection_map().dom().contains(root.0@) || self.downloaded_roots().contains(root.0@)),
            r.0 == (if r.2 { total_bytes } else { 0 }),
            r.1 == total_bytes,
    {
        let held = key_position(&self.collections, root.as_str()).is_some();
        let downloaded = key_position(&self.downloaded, root.as_str()).is_some();
        proof {
            if has_key(self.collections@, root.0@) {
                let i = choose|i: int| 0 <= i < self.collections@.len() && self.collections@[i].0@ == root.0@;
                lemma_keyed_at(self.collections@, i);
            }
            if has_key(self.downloaded@, root.0@) {
                let i = choose|i: int| 0 <= i < self.downloaded@.len() && self.downloaded@[i].0@ == root.0@;
                lemma_keyed_at(self.downloaded@, i);
            }
        }
        collection_status(held, downloaded, total_bytes)
    }

    /// Imports files the caller has read from disk (`total_bytes` being their
    /// sizes on disk): stores them as a collection and gives its hash, the
    /// files with their sizes, and the progress reported after each file.
    pub fn import_files(&mut self, files: Vec<(String, Vec<u8>)>, total_bytes: u64) -> (r: Result<(BlobHash, Vec<ImportedFile>, Vec<BlobProgress>), BlobError>)
        requires
            old(self).wf(),
        ensures
            final(self).wf(),
            r matches Ok((h, imported, progress)) && {
                &&& h.0@ == collection_hash_text(files@)
                &&& imported@.len() == files@.len()
                &&& progress@.len() == files@.len()
                &&& forall|i: int|
                    0 <= i < files@.len() ==> (#[trigger] imported@[i]).name@ == files@[i].0@
                        && imported@[i].size == files@[i].1@.len()
                &&& forall|i: int|
                    0 <= i < files@.len() ==> (#[trigger] progress@[i]).bytes_done == bytes_through(
                        files@,
                        (i + 1) as nat,
                    ) && progress@[i].bytes_total == total_bytes && names_file(
                        progress@[i].current_file,
                        files@[i].0@,
                    )
            },
            final(self).collection_map() == old(self).collection_map().insert(
                collection_hash_text(files@),
                files,
            ),
            final(self).blob_map() == old(self).blob_map(),
            final(self).downloaded_roots() == old(self).downloaded_roots(),
    {
        let progress = import_progress(&files, total_bytes);
        let imported = imported_files(&files);
        match self.store_files(files) {
            Ok(h) => Ok((h, imported, progress)),
            Err(e) => Err(e),
        }
    }
}

/// What a stored blob reads back as: storing a byte string and fetching it by
/// the hash returned gives the same bytes, whatever else the store held.
pub proof fn lemma_store_then_fetch(blobs: Map<Seq<char>, Vec<u8>>, data: Vec<u8>)
    ensures
        blobs.insert(blob_hash_text(data@), data).dom().contains(blob_hash_text(data@)),
        blobs.insert(blob_hash_text(data@), data)[blob_hash_text(data@)]@ == data@,
{
}

/// What an imported collection reads back as: after an import stores the
/// files under the hash it returns, fetching the collection by that hash
/// gives files with the same names and contents, in the same order, as any
/// `fetched` that `collection_files` may give for it, whatever else the store
/// held.
pub proof fn lemma_import_then_fetch(
    collections: Map<Seq<char>, Vec<(String, Vec<u8>)>>,
    files: Vec<(String, Vec<u8>)>,
    fetched: Seq<(String, Vec<u8>)>,
)
    requires
        same_files(fetched, collections.insert(collection_hash_text(files@), files)[collection_hash_text(files@)]@),
    ensures
        collections.insert(collection_hash_text(files@), files).dom().contains(collection_hash_text(files@)),
        same_files(fetched, files@),
{
}

} // verus!
