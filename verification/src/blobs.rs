//! Blobs and collections of files shared between devices: their hashes, the
//! names under which exported files land, and the progress reported while
//! files move.

use vstd::prelude::*;
use vstd::utf8::encode_utf8;

use crate::error::BlobError;
use crate::text::{hex_lower, owned, push_char, push_str, string_of, to_hex_lower};

verus! {

/// The BLAKE3 hash of `data` (32 bytes), as the `blake3` crate computes it.
pub uninterp spec fn blake3_digest(data: Seq<u8>) -> Seq<u8>;

/// The BLAKE3 hash of a byte string (`blake3::hash`).
#[verifier::external_body]
fn blake3_hash(data: &[u8]) -> (r: [u8; 32])
    ensures
        r@ == blake3_digest(data@),
{
    *blake3::hash(data).as_bytes()
}

/// The hash naming a blob or a collection, in lower-case hex.
#[derive(Debug, Clone, PartialEq, Eq, Hash)]
pub struct BlobHash(pub String);

impl BlobHash {
    /// The hash's text.
    pub fn as_str(&self) -> (r: &str)
        ensures
            r@ == self.0@,
    {
        self.0.as_str()
    }
}

impl From<String> for BlobHash {
    fn from(value: String) -> (r: BlobHash) {
        BlobHash(value)
    }
}

impl vstd::std_specs::convert::FromSpecImpl<String> for BlobHash {
    open spec fn obeys_from_spec() -> bool {
        true
    }

    open spec fn from_spec(v: String) -> BlobHash {
        BlobHash(v)
    }
}

/// How far a transfer has come.
#[derive(Debug, Clone, PartialEq, Eq)]
pub struct BlobProgress {
    pub bytes_done: u64,
    pub bytes_total: u64,
    pub current_file: Option<String>,
}

/// A file taken into the blob store.
#[derive(Debug, Clone, PartialEq, Eq)]
pub struct ImportedFile {
    pub name: String,
    pub size: u64,
}

/// The hash text of a blob: its BLAKE3 hash in hex.
pub open spec fn blob_hash_text(data: Seq<u8>) -> Seq<char> {
    hex_lower(blake3_digest(data))
}

/// The hash of a blob.
pub fn blob_hash(data: &[u8]) -> (r: BlobHash)
    ensures
        r.0@ == blob_hash_text(data@),
{
    let digest = blake3_hash(data);
    BlobHash(to_hex_lower(&digest))
}

/// The line a file contributes to its collection's manifest: its name, a
/// colon, and the hash of its contents.
pub open spec fn manifest_line(name: Seq<char>, data: Seq<u8>) -> Seq<char> {
    name + seq![':'] + blob_hash_text(data)
}

/// The manifest of a collection: the lines of its files in order, joined by "|".
pub open spec fn manifest(files: Seq<(String, Vec<u8>)>) -> Seq<char>
    decreases files.len(),
{
    if files.len() == 0 {
        Seq::empty()
    } else if files.len() == 1 {
        manifest_line(files[0].0@, files[0].1@)
    } else {
        manifest(files.drop_last()) + seq!['|'] + manifest_line(files.last().0@, files.last().1@)
    }
}

/// The hash text of a collection: the BLAKE3 hash, in hex, of its manifest.
pub open spec fn collection_hash_text(files: Seq<(String, Vec<u8>)>) -> Seq<char> {
    hex_lower(blake3_digest(encode_utf8(manifest(files))))
}

/// The hash of a collection of named files.
pub fn collection_hash(files: &Vec<(String, Vec<u8>)>) -> (r: BlobHash)
    ensures
        r.0@ == collection_hash_text(files@),
{
    let mut m = String::new();
    let mut i: usize = 0;
    while i < files.len()
        invariant
            i <= files@.len(),
            m@ == manifest(files@.subrange(0, i as int)),
        decreases files.len() - i,
    {
        proof {
            assert(files@.subrange(0, i + 1).drop_last() =~= files@.subrange(0, i as int));
        }
        if i > 0 {
            push_char(&mut m, '|');
        }
        let h = blob_hash(files[i].1.as_slice());
        push_str(&mut m, files[i].0.as_str());
        push_char(&mut m, ':');
        push_str(&mut m, h.0.as_str());
        proof {
            let s = files@.subrange(0, i + 1);
            assert(s.last() == files@[i as int]);
            if i == 0 {
                assert(s[0] == files@[0]);
                assert(m@ =~= manifest_line(s[0].0@, s[0].1@));
            } else {
                assert(m@ =~= manifest(s.drop_last()) + seq!['|'] + manifest_line(
                    s.last().0@,
                    s.last().1@,
                ));
            }
        }
        i = i + 1;
    }
    assert(files@.subrange(0, files@.len() as int) =~= files@);
    let digest = blake3_hash(m.as_str().as_bytes());
    BlobHash(to_hex_lower(&digest))
}

/// The parts of `s` between slashes, as `str::split('/')` gives them: always
/// at least one, empty ones included.
pub open spec fn slash_parts(s: Seq<char>) -> Seq<Seq<char>>
    decreases s.len(),
{
    if s.len() == 0 {
        seq![Seq::<char>::empty()]
    } else {
        let rest = slash_parts(s.drop_last());
        if s.last() == '/' {
            rest.push(Seq::<char>::empty())
        } else {
            rest.update(rest.len() - 1, rest.last().push(s.last()))
        }
    }
}

proof fn lemma_slash_parts_nonempty(s: Seq<char>)
    ensures
        slash_parts(s).len() >= 1,
    decreases s.len(),
{
    if s.len() > 0 {
        lemma_slash_parts_nonempty(s.drop_last());
    }
}

/// A path part that cannot name a file under the export directory: empty,
/// "." or "..".
pub open spec fn bad_part(p: Seq<char>) -> bool {
    p.len() == 0 || p == seq!['.'] || p == seq!['.', '.']
}

/// From position `i` on, the first bad part of `parts`.
pub open spec fn first_bad_part(parts: Seq<Seq<char>>, i: nat) -> Option<Seq<char>>
    decreases parts.len() - i,
{
    if i >= parts.len() {
        None
    } else if bad_part(parts[i as int]) {
        Some(parts[i as int])
    } else {
        first_bad_part(parts, i + 1)
    }
}

/// The texts of a list of strings.
pub open spec fn texts_of(v: Seq<String>) -> Seq<Seq<char>> {
    v.map_values(|s: String| s@)
}

fn split_slashes(name: &str) -> (r: Vec<String>)
    ensures
        texts_of(r@) == slash_parts(name@),
{
    let cs = crate::text::chars_of(name);
    let mut parts: Vec<String> = Vec::new();
    let mut cur: Vec<char> = Vec::new();
    let mut i: usize = 0;
    while i < cs.len()
        invariant
            cs@ == name@,
            i <= cs@.len(),
            texts_of(parts@).push(cur@) == slash_parts(cs@.subrange(0, i as int)),
        decreases cs.len() - i,
    {
        let ghost pre = cs@.subrange(0, i as int);
        let ghost next = cs@.subrange(0, i + 1);
        proof {
            assert(next.drop_last() =~= pre);
            assert(next.last() == cs@[i as int]);
            lemma_slash_parts_nonempty(pre);
        }
        let ghost before = texts_of(parts@);
        let ghost cur_before = cur@;
        if cs[i] == '/' {
            parts.push(string_of(&cur));
            cur = Vec::new();
            proof {
                assert(texts_of(parts@) =~= before.push(cur_before));
                assert(texts_of(parts@).push(cur@) =~= slash_parts(next));
            }
        } else {
            cur.push(cs[i]);
            proof {
                assert(texts_of(parts@).push(cur@) =~= before.push(cur_before).update(
                    before.len() as int,
                    cur_before.push(cs@[i as int]),
                ));
            }
        }
        i = i + 1;
    }
    assert(cs@.subrange(0, cs@.len() as int) =~= cs@);
    let ghost before = texts_of(parts@);
    parts.push(string_of(&cur));
    assert(texts_of(parts@) =~= before.push(cur@));
    parts
}

fn is_bad_part(p: &str) -> (r: bool)
    ensures
        r == bad_part(p@),
{
    let cs = crate::text::chars_of(p);
    if cs.len() == 0 {
        return true;
    }
    if cs.len() == 1 && cs[0] == '.' {
        assert(p@ =~= seq!['.']);
        return true;
    }
    if cs.len() == 2 && cs[0] == '.' && cs[1] == '.' {
        assert(p@ =~= seq!['.', '.']);
        return true;
    }
    proof {
        if p@ == seq!['.'] {
            assert(cs@[0] == '.');
        }
        if p@ == seq!['.', '.'] {
            assert(cs@[0] == '.' && cs@[1] == '.');
        }
    }
    false
}

/// The message refusing a path part.
pub open spec fn bad_part_message(p: Seq<char>) -> Seq<char> {
    "invalid path component: "@ + p
}

/// The path, as parts to join under the export directory, of a collection
/// entry named `name`: its parts between slashes. A part that is empty, "."
/// or ".." would leave the directory or name it, and is refused (the first
/// such part, in order).
pub fn export_components(name: &str) -> (r: Result<Vec<String>, BlobError>)
    ensures
        match first_bad_part(slash_parts(name@), 0) {
            None => r matches Ok(v) && texts_of(v@) == slash_parts(name@),
            Some(p) => r matches Err(BlobError::Store(m)) && m@ == bad_part_message(p),
        },
{
    let parts = split_slashes(name);
    let ghost ps = slash_parts(name@);
    let mut i: usize = 0;
    while i < parts.len()
        invariant
            i <= parts@.len(),
            texts_of(parts@) == ps,
            ps == slash_parts(name@),
            first_bad_part(ps, 0) == first_bad_part(ps, i as nat),
        decreases parts.len() - i,
    {
        assert(ps[i as int] == parts@[i as int]@);
        if is_bad_part(parts[i].as_str()) {
            let mut m = owned("invalid path component: ");
            push_str(&mut m, parts[i].as_str());
            proof {
                reveal_strlit("invalid path component: ");
            }
            return Err(BlobError::Store(m));
        }
        i = i + 1;
    }
    Ok(parts)
}


/// What exporting the `index`-th of `total` files, named `name`, does once
/// its target path is known: whether to write it (not when the target exists
/// already, which is kept and counted as done), and the progress to report
/// first: the file done when it is skipped, the files before it otherwise.
pub fn export_file_step(index: u64, total: u64, name: &str, target_exists: bool) -> (r: (bool, BlobProgress))
    requires
        index < total,
    ensures
        r.0 == !target_exists,
        r.1.bytes_done == (if target_exists { index + 1 } else { index as int }),
        r.1.bytes_total == total,
        r.1.current_file matches Some(n) && n@ == name@,
{
    let done = if target_exists {
        index + 1
    } else {
        index
    };
    (!target_exists, BlobProgress { bytes_done: done, bytes_total: total, current_file: Some(owned(name)) })
}

/// The progress reported once a transfer (an export of `total` files, an
/// import or a download of `total` bytes) is done: all of it, and no file.
pub fn transfer_done(total: u64) -> (r: BlobProgress)
    ensures
        r.bytes_done == total && r.bytes_total == total && r.current_file is None,
{
    BlobProgress { bytes_done: total, bytes_total: total, current_file: None }
}

/// The files as taken into the store: each name with its size, in order.
pub fn imported_files(files: &Vec<(String, Vec<u8>)>) -> (r: Vec<ImportedFile>)
    ensures
        r@.len() == files@.len(),
        forall|i: int|
            0 <= i < files@.len() ==> (#[trigger] r@[i]).name@ == files@[i].0@ && r@[i].size
                == files@[i].1@.len(),
{
    let mut r: Vec<ImportedFile> = Vec::new();
    let mut i: usize = 0;
    while i < files.len()
        invariant
            i <= files@.len(),
            r@.len() == i,
            forall|j: int|
                0 <= j < i ==> (#[trigger] r@[j]).name@ == files@[j].0@ && r@[j].size
                    == files@[j].1@.len(),
        decreases files.len() - i,
    {
        let size = files[i].1.len() as u64;
        r.push(ImportedFile { name: files[i].0.clone(), size });
        i = i + 1;
    }
    r
}

/// `a + b`, or the largest `u64` when that overflows.
pub open spec fn saturating(a: u64, b: int) -> u64 {
    if a + b > u64::MAX {
        u64::MAX
    } else {
        (a + b) as u64
    }
}

/// The bytes done once the first `n` files are read: their sizes added up,
/// stopping at the largest `u64`.
pub open spec fn bytes_through(files: Seq<(String, Vec<u8>)>, n: nat) -> u64
    decreases n,
{
    if n == 0 {
        0
    } else {
        saturating(bytes_through(files, (n - 1) as nat), files[n - 1].1@.len() as int)
    }
}

/// `current` names the file `name`.
pub open spec fn names_file(current: Option<String>, name: Seq<char>) -> bool {
    current matches Some(s) && s@ == name
}

/// The progress reported as each file of an import is read: the bytes done
/// so far (out of `total_bytes`, the sizes found on disk) and the file's name.
pub fn import_progress(files: &Vec<(String, Vec<u8>)>, total_bytes: u64) -> (r: Vec<BlobProgress>)
    ensures
        r@.len() == files@.len(),
        forall|i: int|
            0 <= i < files@.len() ==> (#[trigger] r@[i]).bytes_done == bytes_through(files@, (i + 1) as nat)
                && r@[i].bytes_total == total_bytes && names_file(
                r@[i].current_file,
                files@[i].0@,
            ),
{
    let mut r: Vec<BlobProgress> = Vec::new();
    let mut done: u64 = 0;
    let mut i: usize = 0;
    while i < files.len()
        invariant
            i <= files@.len(),
            r@.len() == i,
            done == bytes_through(files@, i as nat),
            forall|j: int|
                0 <= j < i ==> (#[trigger] r@[j]).bytes_done == bytes_through(files@, (j + 1) as nat)
                    && r@[j].bytes_total == total_bytes && names_file(
                    r@[j].current_file,
                    files@[j].0@,
                ),
        decreases files.len() - i,
    {
        done = done.saturating_add(files[i].1.len() as u64);
        r.push(
            BlobProgress {
                bytes_done: done,
                bytes_total: total_bytes,
                current_file: Some(files[i].0.clone()),
            },
        );
        i = i + 1;
    }
    r
}

/// The state of a collection: `(bytes present, bytes expected, complete)`. A
/// collection held or downloaded here is complete with every byte present;
/// otherwise nothing is.
pub fn collection_status(held: bool, downloaded: bool, total_bytes: u64) -> (r: (u64, u64, bool))
    ensures
        r.2 == (held || downloaded),
        r.0 == (if r.2 { total_bytes } else { 0 }),
        r.1 == total_bytes,
{
    let complete = downloaded || held;
    let done = if complete {
        total_bytes
    } else {
        0
    };
    (done, total_bytes, complete)
}


/// The progress reported while a collection downloads: the bytes fetched so
/// far, never more than `total_bytes`, out of `total_bytes`.
pub fn download_progress(fetched: u64, total_bytes: u64) -> (r: BlobProgress)
    ensures
        r.bytes_done == (if fetched < total_bytes { fetched } else { total_bytes }),
        r.bytes_total == total_bytes,
        r.current_file is None,
{
    let done = if fetched < total_bytes {
        fetched
    } else {
        total_bytes
    };
    BlobProgress { bytes_done: done, bytes_total: total_bytes, current_file: None }
}

/// What the store reports while it takes in one file from disk.
#[derive(Debug, Clone)]
pub enum ImportEvent {
    /// The file's size.
    Size(u64),
    /// Bytes of the file copied so far.
    CopyProgress(u64),
    /// The store failed, with this cause.
    Failed(String),
    /// The file is in the store.
    Done,
    /// The reports ended before the file was in the store.
    Ended,
    /// A report the import does not act on.
    Other,
}

/// What an import does after a report of the store.
#[derive(Debug, Clone)]
pub enum ImportAction {
    /// Report this progress and wait for the next report.
    Report(BlobProgress),
    /// Wait for the next report.
    Continue,
    /// Stop the import with this error.
    Fail(BlobError),
    /// The file is in: go on to the next one.
    Finish,
}

/// One step of taking in the file `name` (read from `path`), `bytes_done` of
/// `bytes_total` bytes of the import being done before it and `file_size` its
/// size as reported so far: gives the size as now known, and what to do.
pub fn import_event_step(
    name: &str,
    path: &str,
    bytes_done: u64,
    bytes_total: u64,
    file_size: u64,
    event: ImportEvent,
) -> (r: (u64, ImportAction))
    ensures
        match event {
            ImportEvent::Size(n) => r.0 == n && r.1 is Continue,
            ImportEvent::CopyProgress(offset) => r.0 == file_size && (r.1 matches ImportAction::Report(p)
                && p.bytes_done == saturating(bytes_done, offset as int) && p.bytes_total == bytes_total
                && names_file(p.current_file, name@)),
            ImportEvent::Failed(cause) => r.0 == file_size && (r.1 matches ImportAction::Fail(
                BlobError::Store(m),
            ) && m@ == "failed to import "@ + path@ + ": "@ + cause@),
            ImportEvent::Done => r.0 == file_size && r.1 is Finish,
            ImportEvent::Ended => r.0 == file_size && (r.1 matches ImportAction::Fail(BlobError::Store(m))
                && m@ == "import stream ended before completion for "@ + path@),
            ImportEvent::Other => r.0 == file_size && r.1 is Continue,
        },
{
    match event {
        ImportEvent::Size(n) => (n, ImportAction::Continue),
        ImportEvent::CopyProgress(offset) => {
            let p = BlobProgress {
                bytes_done: bytes_done.saturating_add(offset),
                bytes_total,
                current_file: Some(owned(name)),
            };
            (file_size, ImportAction::Report(p))
        },
        ImportEvent::Failed(cause) => {
            let mut m = owned("failed to import ");
            push_str(&mut m, path);
            push_str(&mut m, ": ");
            push_str(&mut m, cause.as_str());
            proof {
                reveal_strlit("failed to import ");
                reveal_strlit(": ");
            }
            (file_size, ImportAction::Fail(BlobError::Store(m)))
        },
        ImportEvent::Done => (file_size, ImportAction::Finish),
        ImportEvent::Ended => {
            let mut m = owned("import stream ended before completion for ");
            push_str(&mut m, path);
            proof {
                reveal_strlit("import stream ended before completion for ");
            }
            (file_size, ImportAction::Fail(BlobError::Store(m)))
        },
        ImportEvent::Other => (file_size, ImportAction::Continue),
    }
}

/// The progress reported as the import of the file `name` starts, with
/// `bytes_done` of `bytes_total` bytes done before it.
pub fn import_file_started(name: &str, bytes_done: u64, bytes_total: u64) -> (r: BlobProgress)
    ensures
        r.bytes_done == bytes_done && r.bytes_total == bytes_total && names_file(r.current_file, name@),
{
    BlobProgress { bytes_done, bytes_total, current_file: Some(owned(name)) }
}

/// Once the file `name` of `file_size` bytes is in: the bytes done (adding
/// up, stopping at the largest `u64`), the file as imported, and the progress
/// to report.
pub fn import_file_finished(name: &str, bytes_done: u64, bytes_total: u64, file_size: u64) -> (r: (u64, ImportedFile, BlobProgress))
    ensures
        r.0 == saturating(bytes_done, file_size as int),
        r.1.name@ == name@ && r.1.size == file_size,
        r.2.bytes_done == r.0 && r.2.bytes_total == bytes_total && names_file(r.2.current_file, name@),
{
    let done = bytes_done.saturating_add(file_size);
    (
        done,
        ImportedFile { name: owned(name), size: file_size },
        BlobProgress { bytes_done: done, bytes_total, current_file: Some(owned(name)) },
    )
}

/// A progress report as values: bytes done, bytes in all, the file's name.
pub open spec fn progress_view(p: BlobProgress) -> (u64, u64, Option<Seq<char>>) {
    (
        p.bytes_done,
        p.bytes_total,
        match p.current_file {
            Some(n) => Some(n@),
            None => None,
        },
    )
}

/// What taking in the file `name` (read from `path`) gives from the store's
/// reports `events`, `done` of `total` bytes being done before it and `size`
/// its size as reported so far: the progress reported after the opening
/// report, and either the bytes done and the file's size once it is in, or
/// the message of the error that stopped the import.
pub open spec fn import_run(
    name: Seq<char>,
    path: Seq<char>,
    done: u64,
    total: u64,
    size: u64,
    events: Seq<ImportEvent>,
) -> (Seq<(u64, u64, Option<Seq<char>>)>, Result<(u64, u64), Seq<char>>)
    decreases events.len(),
{
    if events.len() == 0 {
        (Seq::empty(), Err("import stream ended before completion for "@ + path))
    } else {
        match events[0] {
            ImportEvent::Size(n) => import_run(name, path, done, total, n, events.drop_first()),
            ImportEvent::CopyProgress(offset) => {
                let rest = import_run(name, path, done, total, size, events.drop_first());
                (seq![(saturating(done, offset as int), total, Some(name))] + rest.0, rest.1)
            },
            ImportEvent::Failed(cause) => (Seq::empty(), Err("failed to import "@ + path + ": "@ + cause@)),
            ImportEvent::Done => (
                seq![(saturating(done, size as int), total, Some(name))],
                Ok((saturating(done, size as int), size)),
            ),
            ImportEvent::Ended => (Seq::empty(), Err("import stream ended before completion for "@ + path)),
            ImportEvent::Other => import_run(name, path, done, total, size, events.drop_first()),
        }
    }
}

fn copy_event(e: &ImportEvent) -> (r: ImportEvent)
    ensures
        r == *e,
{
    match e {
        ImportEvent::Size(n) => ImportEvent::Size(*n),
        ImportEvent::CopyProgress(o) => ImportEvent::CopyProgress(*o),
        ImportEvent::Failed(c) => ImportEvent::Failed(c.clone()),
        ImportEvent::Done => ImportEvent::Done,
        ImportEvent::Ended => ImportEvent::Ended,
        ImportEvent::Other => ImportEvent::Other,
    }
}

/// Takes in one file from the store's reports `events`, in order, as
/// `import_run` says: the progress to report (first the opening report of
/// the file), and the bytes done with the file as imported, or the error
/// that stopped the import. Reports after the one that ends the file are not
/// read.
pub fn import_file(name: &str, path: &str, bytes_done: u64, bytes_total: u64, events: &Vec<ImportEvent>) -> (r: (Vec<BlobProgress>, Result<(u64, ImportedFile), BlobError>))
    ensures
        ({
            let run = import_run(name@, path@, bytes_done, bytes_total, 0, events@);
            &&& r.0@.map_values(|p: BlobProgress| progress_view(p)) == seq![(bytes_done, bytes_total, Some(name@))] + run.0
            &&& match run.1 {
                Ok((d, size)) => r.1 matches Ok((d2, f)) && d2 == d && f.name@ == name@ && f.size == size,
                Err(m) => r.1 matches Err(BlobError::Store(m2)) && m2@ == m,
            }
        }),
{
    let mut reports: Vec<BlobProgress> = Vec::new();
    reports.push(import_file_started(name, bytes_done, bytes_total));
    let ghost whole = import_run(name@, path@, bytes_done, bytes_total, 0, events@);
    let mut size: u64 = 0;
    let mut i: usize = 0;
    proof {
        assert(events@.subrange(0, events@.len() as int) =~= events@);
        assert(reports@.map_values(|p: BlobProgress| progress_view(p)) =~= seq![(bytes_done, bytes_total, Some(name@))]);
    }
    while i < events.len()
        invariant
            i <= events@.len(),
            whole == import_run(name@, path@, bytes_done, bytes_total, 0, events@),
            reports@.map_values(|p: BlobProgress| progress_view(p)) + import_run(
                name@,
                path@,
                bytes_done,
                bytes_total,
                size,
                events@.subrange(i as int, events@.len() as int),
            ).0 == seq![(bytes_done, bytes_total, Some(name@))] + whole.0,
            import_run(name@, path@, bytes_done, bytes_total, size, events@.subrange(i as int, events@.len() as int)).1
                == whole.1,
        decreases events.len() - i,
    {
        let ghost rest = events@.subrange(i as int, events@.len() as int);
        let ghost before = reports@.map_values(|p: BlobProgress| progress_view(p));
        proof {
            assert(rest.drop_first() =~= events@.subrange(i + 1, events@.len() as int));
            assert(rest[0] == events@[i as int]);
        }
        let (next_size, action) = import_event_step(name, path, bytes_done, bytes_total, size, copy_event(&events[i]));
        match action {
            ImportAction::Report(p) => {
                reports.push(p);
                proof {
                    let after = reports@.map_values(|p: BlobProgress| progress_view(p));
                    assert(after =~= before.push(progress_view(p)));
                    let tail = import_run(name@, path@, bytes_done, bytes_total, size, rest.drop_first()).0;
                    assert(before.push(progress_view(p)) + tail =~= before + (seq![progress_view(p)] + tail));
                }
            },
            ImportAction::Continue => {},
            ImportAction::Fail(e) => {
                proof {
                    assert(before + Seq::<(u64, u64, Option<Seq<char>>)>::empty() =~= before);
                }
                return (reports, Err(e));
            },
            ImportAction::Finish => {
                let (done, file, report) = import_file_finished(name, bytes_done, bytes_total, size);
                reports.push(report);
                proof {
                    let after = reports@.map_values(|p: BlobProgress| progress_view(p));
                    assert(after =~= before.push(progress_view(report)));
                    assert(before.push(progress_view(report)) =~= before + seq![progress_view(report)]);
                }
                return (reports, Ok((done, file)));
            },
        }
        size = next_size;
        i = i + 1;
    }
    proof {
        let before = reports@.map_values(|p: BlobProgress| progress_view(p));
        assert(before + Seq::<(u64, u64, Option<Seq<char>>)>::empty() =~= before);
    }
    let mut m = owned("import stream ended before completion for ");
    push_str(&mut m, path);
    proof {
        reveal_strlit("import stream ended before completion for ");
    }
    (reports, Err(BlobError::Store(m)))
}

/// `r` with the files `prefix` put before the files it lists, when it lists any.
pub open spec fn after_files(prefix: Seq<(Seq<char>, u64)>, r: Result<Seq<(Seq<char>, u64)>, Seq<char>>) -> Result<Seq<(Seq<char>, u64)>, Seq<char>> {
    match r {
        Ok(fs) => Ok(prefix + fs),
        Err(m) => Err(m),
    }
}

/// What an import of the files `files` (each a name and the path it is read
/// from) gives, each file taken in from its own reports in `events`, `done`
/// of `total` bytes being done before: every file opens with a report of the
/// bytes done before it, then reports as `import_run` says; an error stops the
/// import; once all files are in, a closing report says all bytes are done.
/// The result lists each file's name and size, or gives the error's message.
pub open spec fn import_all(files: Seq<(String, String)>, events: Seq<Vec<ImportEvent>>, done: u64, total: u64) -> (Seq<(u64, u64, Option<Seq<char>>)>, Result<Seq<(Seq<char>, u64)>, Seq<char>>)
    decreases files.len(),
{
    if files.len() == 0 || events.len() == 0 {
        (seq![(total, total, None::<Seq<char>>)], Ok(Seq::empty()))
    } else {
        let run = import_run(files[0].0@, files[0].1@, done, total, 0, events[0]@);
        let opening = seq![(done, total, Some(files[0].0@))];
        match run.1 {
            Err(m) => (opening + run.0, Err(m)),
            Ok((d, size)) => {
                let rest = import_all(files.drop_first(), events.drop_first(), d, total);
                (opening + run.0 + rest.0, after_files(seq![(files[0].0@, size)], rest.1))
            },
        }
    }
}

/// The store reports one file's import in order: each copy offset is at
/// least the one before (`floor` at first), and the size reported when the
/// file is in is at least the last offset.
pub open spec fn orderly_events(events: Seq<ImportEvent>, size: u64, floor: u64) -> bool
    decreases events.len(),
{
    if events.len() == 0 {
        true
    } else {
        match events[0] {
            ImportEvent::Size(n) => orderly_events(events.drop_first(), n, floor),
            ImportEvent::CopyProgress(offset) => floor <= offset && orderly_events(events.drop_first(), size, offset),
            ImportEvent::Done => floor <= size,
            ImportEvent::Other => orderly_events(events.drop_first(), size, floor),
            _ => true,
        }
    }
}

/// The bytes done in the reports never decrease.
pub open spec fn never_decreasing(reports: Seq<(u64, u64, Option<Seq<char>>)>) -> bool {
    forall|i: int, j: int| 0 <= i <= j < reports.len() ==> reports[i].0 <= reports[j].0
}

proof fn lemma_import_run_orderly(name: Seq<char>, path: Seq<char>, done: u64, total: u64, size: u64, floor: u64, events: Seq<ImportEvent>)
    requires
        orderly_events(events, size, floor),
    ensures
        ({
            let run = import_run(name, path, done, total, size, events);
            &&& never_decreasing(run.0)
            &&& forall|k: int| 0 <= k < run.0.len() ==> saturating(done, floor as int) <= (#[trigger] run.0[k]).0
            &&& run.1 matches Ok((d, _)) ==> saturating(done, floor as int) <= d && forall|k: int|
                0 <= k < run.0.len() ==> (#[trigger] run.0[k]).0 <= d
        }),
    decreases events.len(),
{
    if events.len() > 0 {
        match events[0] {
            ImportEvent::Size(n) => {
                lemma_import_run_orderly(name, path, done, total, n, floor, events.drop_first());
            },
            ImportEvent::CopyProgress(offset) => {
                lemma_import_run_orderly(name, path, done, total, size, offset, events.drop_first());
                let rest = import_run(name, path, done, total, size, events.drop_first());
                let head = seq![(saturating(done, offset as int), total, Some(name))];
                let all = head + rest.0;
                assert forall|i: int, j: int| 0 <= i <= j < all.len() implies all[i].0 <= all[j].0 by {
                    if i == 0 {
                        if j > 0 {
                            assert(all[j] == rest.0[j - 1]);
                        }
                    } else {
                        assert(all[i] == rest.0[i - 1]);
                        assert(all[j] == rest.0[j - 1]);
                    }
                }
                assert forall|k: int| 0 <= k < all.len() implies saturating(done, floor as int) <= (
                #[trigger] all[k]).0 by {
                    if k > 0 {
                        assert(all[k] == rest.0[k - 1]);
                    }
                }
                if let Ok((d, _)) = rest.1 {
                    assert forall|k: int| 0 <= k < all.len() implies (#[trigger] all[k]).0 <= d by {
                        if k > 0 {
                            assert(all[k] == rest.0[k - 1]);
                        }
                    }
                }
            },
            ImportEvent::Other => {
                lemma_import_run_orderly(name, path, done, total, size, floor, events.drop_first());
            },
            _ => {},
        }
    }
}

/// The bytes done once every file of an import is in (or the bytes done
/// before the file whose import failed).
pub open spec fn import_done(files: Seq<(String, String)>, events: Seq<Vec<ImportEvent>>, done: u64, total: u64) -> u64
    decreases files.len(),
{
    if files.len() == 0 || events.len() == 0 {
        done
    } else {
        match import_run(files[0].0@, files[0].1@, done, total, 0, events[0]@).1 {
            Ok((d, _)) => import_done(files.drop_first(), events.drop_first(), d, total),
            Err(_) => done,
        }
    }
}

/// The progress of an import never goes back: when the store reports each
/// file's import in order and the bytes in all are at least those the files
/// add up to, every report says at least as many bytes done as the one
/// before, starting from the bytes done before the import.
pub proof fn lemma_import_progress_never_decreases(files: Seq<(String, String)>, events: Seq<Vec<ImportEvent>>, done: u64, total: u64)
    requires
        forall|i: int| 0 <= i < events.len() ==> orderly_events((#[trigger] events[i])@, 0, 0),
        import_done(files, events, done, total) <= total,
    ensures
        never_decreasing(import_all(files, events, done, total).0),
        forall|k: int|
            0 <= k < import_all(files, events, done, total).0.len() ==> done <= (#[trigger] import_all(
                files,
                events,
                done,
                total,
            ).0[k]).0,
    decreases files.len(),
{
    let all = import_all(files, events, done, total).0;
    if files.len() == 0 || events.len() == 0 {
    } else {
        let run = import_run(files[0].0@, files[0].1@, done, total, 0, events[0]@);
        lemma_import_run_orderly(files[0].0@, files[0].1@, done, total, 0, 0, events[0]@);
        assert(saturating(done, 0) == done);
        let opening = seq![(done, total, Some(files[0].0@))];
        match run.1 {
            Err(_) => {
                assert(all == opening + run.0);
                assert forall|i: int, j: int| 0 <= i <= j < all.len() implies all[i].0 <= all[j].0 by {
                    if i > 0 {
                        assert(all[i] == run.0[i - 1]);
                    }
                    if j > 0 {
                        assert(all[j] == run.0[j - 1]);
                    }
                }
                assert forall|k: int| 0 <= k < all.len() implies done <= (#[trigger] all[k]).0 by {
                    if k > 0 {
                        assert(all[k] == run.0[k - 1]);
                    }
                }
            },
            Ok((d, _)) => {
                let fr = files.drop_first();
                let er = events.drop_first();
                assert forall|i: int| 0 <= i < er.len() implies orderly_events((#[trigger] er[i])@, 0, 0) by {
                    assert(er[i] == events[i + 1]);
                }
                lemma_import_progress_never_decreases(fr, er, d, total);
                let rest = import_all(fr, er, d, total).0;
                let first = opening + run.0;
                assert(all == first + rest);
                assert forall|k: int| 0 <= k < first.len() implies done <= (#[trigger] first[k]).0 && first[k].0 <= d by {
                    if k > 0 {
                        assert(first[k] == run.0[k - 1]);
                    }
                }
                assert forall|i: int, j: int| 0 <= i <= j < first.len() implies first[i].0 <= first[j].0 by {
                    if i > 0 {
                        assert(first[i] == run.0[i - 1]);
                    }
                    if j > 0 {
                        assert(first[j] == run.0[j - 1]);
                    }
                }
                assert forall|i: int, j: int| 0 <= i <= j < all.len() implies all[i].0 <= all[j].0 by {
                    if j < first.len() {
                        assert(all[i] == first[i]);
                        assert(all[j] == first[j]);
                    } else if i < first.len() {
                        assert(all[i] == first[i]);
                        assert(all[j] == rest[j - first.len()]);
                    } else {
                        assert(all[i] == rest[i - first.len()]);
                        assert(all[j] == rest[j - first.len()]);
                    }
                }
                assert forall|k: int| 0 <= k < all.len() implies done <= (#[trigger] all[k]).0 by {
                    if k < first.len() {
                        assert(all[k] == first[k]);
                    } else {
                        assert(all[k] == rest[k - first.len()]);
                    }
                }
            },
        }
    }
}

/// The imported files as values: each name with its size.
pub open spec fn imported_view(fs: Seq<ImportedFile>) -> Seq<(Seq<char>, u64)> {
    fs.map_values(|f: ImportedFile| (f.name@, f.size))
}

/// Takes in the files `files` (each a name and the path it is read from) in
/// order, each from its own reports of the store (`events`, one list per
/// file), `total_bytes` being the bytes of all of them: the progress to
/// report and the files as imported, or the error that stopped the import,
/// as `import_all` says, starting with no bytes done.
pub fn import_collection_files(files: &Vec<(String, String)>, events: &Vec<Vec<ImportEvent>>, total_bytes: u64) -> (r: (Vec<BlobProgress>, Result<Vec<ImportedFile>, BlobError>))
    requires
        events@.len() == files@.len(),
    ensures
        ({
            let all = import_all(files@, events@, 0, total_bytes);
            &&& r.0@.map_values(|p: BlobProgress| progress_view(p)) == all.0
            &&& match all.1 {
                Ok(fs) => r.1 matches Ok(v) && imported_view(v@) == fs,
                Err(m) => r.1 matches Err(BlobError::Store(m2)) && m2@ == m,
            }
        }),
{
    let ghost whole = import_all(files@, events@, 0, total_bytes);
    let mut reports: Vec<BlobProgress> = Vec::new();
    let mut imported: Vec<ImportedFile> = Vec::new();
    let mut done: u64 = 0;
    let mut i: usize = 0;
    proof {
        assert(files@.subrange(0, files@.len() as int) =~= files@);
        assert(events@.subrange(0, events@.len() as int) =~= events@);
        assert(reports@.map_values(|p: BlobProgress| progress_view(p)) + whole.0 =~= whole.0);
        assert(after_files(imported_view(imported@), whole.1) == whole.1) by {
            assert(imported_view(imported@) =~= Seq::<(Seq<char>, u64)>::empty());
            if let Ok(fs) = whole.1 {
                assert(Seq::<(Seq<char>, u64)>::empty() + fs =~= fs);
            }
        }
    }
    while i < files.len()
        invariant
            i <= files@.len(),
            events@.len() == files@.len(),
            whole == import_all(files@, events@, 0, total_bytes),
            reports@.map_values(|p: BlobProgress| progress_view(p)) + import_all(
                files@.subrange(i as int, files@.len() as int),
                events@.subrange(i as int, events@.len() as int),
                done,
                total_bytes,
            ).0 == whole.0,
            after_files(
                imported_view(imported@),
                import_all(
                    files@.subrange(i as int, files@.len() as int),
                    events@.subrange(i as int, events@.len() as int),
                    done,
                    total_bytes,
                ).1,
            ) == whole.1,
        decreases files.len() - i,
    {
        let ghost fr = files@.subrange(i as int, files@.len() as int);
        let ghost er = events@.subrange(i as int, events@.len() as int);
        let ghost before = reports@.map_values(|p: BlobProgress| progress_view(p));
        let ghost before_files = imported_view(imported@);
        proof {
            assert(fr.drop_first() =~= files@.subrange(i + 1, files@.len() as int));
            assert(er.drop_first() =~= events@.subrange(i + 1, events@.len() as int));
            assert(fr[0] == files@[i as int]);
            assert(er[0] == events@[i as int]);
        }
        let (file_reports, outcome) = import_file(files[i].0.as_str(), files[i].1.as_str(), done, total_bytes, &events[i]);
        let ghost fv = file_reports@.map_values(|p: BlobProgress| progress_view(p));
        let mut k: usize = 0;
        while k < file_reports.len()
            invariant
                k <= file_reports@.len(),
                fv == file_reports@.map_values(|p: BlobProgress| progress_view(p)),
                reports@.map_values(|p: BlobProgress| progress_view(p)) == before + fv.subrange(0, k as int),
            decreases file_reports.len() - k,
        {
            let p = copy_progress(&file_reports[k]);
            let ghost prev = reports@;
            reports.push(p);
            proof {
                assert(fv[k as int] == progress_view(p));
                assert(reports@.map_values(|p: BlobProgress| progress_view(p)) =~= prev.map_values(
                    |p: BlobProgress| progress_view(p),
                ).push(progress_view(p)));
                assert(fv.subrange(0, k + 1) =~= fv.subrange(0, k as int).push(fv[k as int]));
                assert(reports@.map_values(|p: BlobProgress| progress_view(p)) =~= before + fv.subrange(0, k + 1));
            }
            k = k + 1;
        }
        proof {
            assert(fv.subrange(0, fv.len() as int) =~= fv);
        }
        match outcome {
            Ok((d, f)) => {
                imported.push(f);
                proof {
                    let run = import_run(fr[0].0@, fr[0].1@, done, total_bytes, 0, er[0]@);
                    let rest = import_all(fr.drop_first(), er.drop_first(), d, total_bytes);
                    assert(before + (fv + rest.0) =~= (before + fv) + rest.0);
                    assert(imported_view(imported@) =~= before_files + seq![(f.name@, f.size)]);
                    match rest.1 {
                        Ok(fs) => {
                            assert(before_files + (seq![(f.name@, f.size)] + fs) =~= (before_files + seq![(f.name@, f.size)]) + fs);
                        },
                        Err(_) => {},
                    }
                }
                done = d;
            },
            Err(e) => {
                return (reports, Err(e));
            },
        }
        i = i + 1;
    }
    proof {
        assert(files@.subrange(i as int, files@.len() as int) =~= Seq::<(String, String)>::empty());
        assert(imported_view(imported@) + Seq::<(Seq<char>, u64)>::empty() =~= imported_view(imported@));
    }
    let closing = transfer_done(total_bytes);
    let ghost before = reports@.map_values(|p: BlobProgress| progress_view(p));
    reports.push(closing);
    proof {
        assert(reports@.map_values(|p: BlobProgress| progress_view(p)) =~= before + seq![progress_view(closing)]);
    }
    (reports, Ok(imported))
}

fn copy_progress(p: &BlobProgress) -> (r: BlobProgress)
    ensures
        progress_view(r) == progress_view(*p),
{
    BlobProgress {
        bytes_done: p.bytes_done,
        bytes_total: p.bytes_total,
        current_file: match &p.current_file {
            Some(n) => Some(n.clone()),
            None => None,
        },
    }
}

/// How a download of a collection of `total_bytes` bytes starts: when the
/// collection is already complete here, nothing is fetched and every byte is
/// reported done (`Some`); otherwise the download goes ahead (`None`).
pub fn download_start(complete: bool, total_bytes: u64) -> (r: Option<BlobProgress>)
    ensures
        complete <==> r is Some,
        r matches Some(p) ==> progress_view(p) == (total_bytes, total_bytes, None::<Seq<char>>),
{
    if complete {
        Some(transfer_done(total_bytes))
    } else {
        None
    }
}

/// What the downloader reports while a collection downloads.
#[derive(Debug, Clone)]
pub enum DownloadEvent {
    /// Bytes fetched so far.
    Progress(u64),
    /// The download failed.
    DownloadFailed,
    /// The downloader failed, with this message.
    Failed(String),
    /// A report the download does not act on.
    Other,
}

/// What a download does after a report of the downloader.
#[derive(Debug, Clone)]
pub enum DownloadAction {
    Report(BlobProgress),
    Continue,
    Fail(BlobError),
}

/// One step of a download of `total_bytes` bytes: progress is reported as
/// `download_progress` clamps it, and a failure stops the download.
pub fn download_event_step(total_bytes: u64, event: DownloadEvent) -> (r: DownloadAction)
    ensures
        match event {
            DownloadEvent::Progress(fetched) => r matches DownloadAction::Report(p) && p.bytes_done == (if fetched
                < total_bytes {
                fetched
            } else {
                total_bytes
            }) && p.bytes_total == total_bytes && p.current_file is None,
            DownloadEvent::DownloadFailed => r matches DownloadAction::Fail(BlobError::Store(m)) && m@
                == "download failed"@,
            DownloadEvent::Failed(e) => r matches DownloadAction::Fail(BlobError::Store(m)) && m@ == e@,
            DownloadEvent::Other => r is Continue,
        },
{
    match event {
        DownloadEvent::Progress(fetched) => DownloadAction::Report(download_progress(fetched, total_bytes)),
        DownloadEvent::DownloadFailed => DownloadAction::Fail(BlobError::Store(String::from_str("download failed"))),
        DownloadEvent::Failed(e) => DownloadAction::Fail(BlobError::Store(e)),
        DownloadEvent::Other => DownloadAction::Continue,
    }
}

/// The end of a download of `total_bytes` bytes: the collection must now be
/// complete here, and then every byte is reported done.
pub fn download_finished(complete: bool, total_bytes: u64) -> (r: Result<BlobProgress, BlobError>)
    ensures
        complete ==> (r matches Ok(p) && p.bytes_done == total_bytes && p.bytes_total == total_bytes
            && p.current_file is None),
        !complete ==> (r matches Err(BlobError::Store(m)) && m@ == "download ended before collection was complete"@),
{
    if complete {
        Ok(transfer_done(total_bytes))
    } else {
        Err(BlobError::Store(String::from_str("download ended before collection was complete")))
    }
}

} // verus!
