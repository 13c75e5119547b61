//! The index of file hashes, which spares hashing a file that has not changed.

use crate::digest::{blake3_hash, FileHash};
use std::time::Duration;
use vstd::prelude::*;

verus! {

/// When a file was last modified, since the Unix epoch.
#[derive(Clone, Copy, Debug, PartialEq, Eq, Structural)]
pub struct Modified {
    pub secs: i64,
    pub nanos: u32,
}

/// What the file system says of a file.
#[derive(Clone, Copy, Debug, PartialEq, Eq, Structural)]
pub struct FileMetadata {
    pub modified: Modified,
    pub size: u64,
}

/// An entry of the index: a file's hash, with the state of the file that it was computed for.
#[derive(Clone, Copy, Debug)]
pub struct FileEntry {
    pub last_modified: Modified,
    pub size: u64,
    pub hash: FileHash,
}

impl FileEntry {
    /// The entry for a file in the given state, with the given hash.
    pub fn from_metadata(metadata: &FileMetadata, hash: FileHash) -> (r: FileEntry)
        ensures
            r == (FileEntry { last_modified: metadata.modified, size: metadata.size, hash }),
    {
        FileEntry { last_modified: metadata.modified, size: metadata.size, hash }
    }

    pub fn hash(&self) -> (r: FileHash)
        ensures
            r == self.hash,
    {
        self.hash
    }

    /// The entry was made for the file as it is: with the same time and the same size.
    pub open spec fn fits(self, metadata: FileMetadata) -> bool {
        self.last_modified == metadata.modified && self.size == metadata.size
    }

    pub fn matches(&self, metadata: &FileMetadata) -> (r: bool)
        ensures
            r == self.fits(*metadata),
    {
        self.last_modified == metadata.modified && self.size == metadata.size
    }
}

/// The entry in stored bytes: the seconds and nanoseconds since the Unix epoch at which the file was
/// last modified, its size and its hash; nothing where the bytes are no entry.
pub uninterp spec fn entry_in(bytes: Seq<u8>) -> Option<(u64, u32, u64, Seq<u8>)>;

/// The bytes under which an entry is stored.
pub uninterp spec fn entry_bytes(secs: u64, nanos: u32, size: u64, hash: Seq<u8>) -> Option<Seq<u8>>;

/// `wincode::deserialize` of a time since the Unix epoch, a size and a hash. A second has less than a
/// billion nanoseconds.
#[verifier::external_body]
fn read_entry(bytes: &Vec<u8>) -> (r: Option<(u64, u32, u64, [u8; 32])>)
    ensures
        (match r {
            Some(e) => Some((e.0, e.1, e.2, e.3@)),
            None => None,
        }) == entry_in(bytes@),
        (r matches Some(e) ==> 1_000_000_000 > e.1),
{
    let entry: (Duration, u64, [u8; 32]) = wincode::deserialize(bytes).ok()?;
    Some((entry.0.as_secs(), entry.0.subsec_nanos(), entry.1, entry.2))
}

/// `wincode::serialize` of a time since the Unix epoch, a size and a hash, which all have a fixed
/// size: it succeeds, and what it gives reads back as what it was given.
#[verifier::external_body]
fn write_entry(secs: u64, nanos: u32, size: u64, hash: &[u8; 32]) -> (r: Option<Vec<u8>>)
    requires
        nanos < 1_000_000_000,
    ensures
        (match r {
            Some(b) => Some(b@),
            None => None,
        }) == entry_bytes(secs, nanos, size, hash@),
        r is Some,
        (r matches Some(b) ==> entry_in(b@) == Some((secs, nanos, size, hash@))),
{
    wincode::serialize(&(Duration::new(secs, nanos), size, *hash)).ok()
}

/// The state of a file and its hash that stored bytes tell; nothing where they are no entry, or its
/// time is none that a file can have.
pub open spec fn stored_entry(bytes: Seq<u8>) -> Option<(FileMetadata, Seq<u8>)> {
    match entry_in(bytes) {
        Some((secs, nanos, size, hash)) => if secs <= i64::MAX {
            Some((FileMetadata { modified: Modified { secs: secs as i64, nanos }, size }, hash))
        } else {
            None
        },
        None => None,
    }
}

impl FileEntry {
    /// The entry in stored bytes.
    pub fn from_bytes(bytes: &Vec<u8>) -> (r: Result<FileEntry, InvalidIndex>)
        ensures
            match stored_entry(bytes@) {
                Some((metadata, hash)) => r matches Ok(e) && e.last_modified == metadata.modified
                    && e.size == metadata.size && e.hash@ == hash,
                None => r is Err,
            },
    {
        match read_entry(bytes) {
            Some((secs, nanos, size, hash)) => if secs <= i64::MAX as u64 {
                let last_modified = Modified { secs: secs as i64, nanos };
                Ok(FileEntry { last_modified, size, hash: FileHash { bytes: hash } })
            } else {
                Err(InvalidIndex)
            },
            None => Err(InvalidIndex),
        }
    }

    /// The bytes under which the entry is stored. A file that was last modified before the Unix epoch
    /// cannot be stored.
    pub fn to_bytes(&self) -> (r: Result<Vec<u8>, UnstorableTime>)
        ensures
            if 0 <= self.last_modified.secs && self.last_modified.nanos < 1_000_000_000 {
                r matches Ok(b) && Some(b@) == entry_bytes(
                    self.last_modified.secs as u64,
                    self.last_modified.nanos,
                    self.size,
                    self.hash@,
                ) && stored_entry(b@) == Some(
                    (FileMetadata { modified: self.last_modified, size: self.size }, self.hash@),
                )
            } else {
                r is Err
            },
    {
        let time = self.last_modified;
        if time.secs < 0 || time.nanos >= 1_000_000_000 {
            return Err(UnstorableTime);
        }
        match write_entry(time.secs as u64, time.nanos, self.size, &self.hash.bytes) {
            Some(bytes) => Ok(bytes),
            None => Err(UnstorableTime),
        }
    }
}

/// The version of the index's layout.
pub const INDEX_VERSION: u8 = 48;

/// The version under which the index was last written, as it stands in the store.
pub fn current_version() -> (r: Vec<u8>)
    ensures
        r@ == seq![INDEX_VERSION],
{
    let r: Vec<u8> = vec![INDEX_VERSION];
    assert(r@ == seq![INDEX_VERSION]);
    r
}

/// Whether the stored index has to be thrown away: it was written under another version.
pub fn is_stale(stored: Option<&Vec<u8>>) -> (r: bool)
    ensures
        r == match stored {
            Some(version) => version@ != seq![INDEX_VERSION],
            None => false,
        },
{
    match stored {
        Some(version) => {
            let fresh = version.len() == 1 && version[0] == INDEX_VERSION;
            proof {
                let current = seq![INDEX_VERSION];
                if fresh {
                    assert(version@ =~= current);
                } else if version@ == current {
                    assert(version@[0] == current[0]);
                }
            }
            !fresh
        },
        None => false,
    }
}

/// How the store of the index is opened.
#[derive(Clone, Copy, Debug, PartialEq, Eq, Structural)]
pub enum IndexStart {
    /// As it stands, or as a new one where there is none.
    Open,
    /// As a new one, in place of an empty file.
    Replace,
}

/// What stands in the place of the index is no index.
#[derive(Clone, Copy, Debug, PartialEq, Eq, Structural)]
pub struct InvalidIndex;

/// The time at which a file was last modified cannot be stored.
#[derive(Clone, Copy, Debug, PartialEq, Eq, Structural)]
pub struct UnstorableTime;

/// The hash in the index of a file in the given state, from what is stored for the file.
pub open spec fn kept_hash(stored: Option<Seq<u8>>, metadata: FileMetadata) -> Result<
    Option<Seq<u8>>,
    InvalidIndex,
> {
    match stored {
        None => Ok(None),
        Some(bytes) => match stored_entry(bytes) {
            None => Err(InvalidIndex),
            Some((state, hash)) => if state == metadata {
                Ok(Some(hash))
            } else {
                Ok(None)
            },
        },
    }
}

/// Keeps the index of file hashes.
#[derive(Clone, Copy, Debug)]
pub struct FileSystemIndex;

impl FileSystemIndex {
    /// How the store of the index is opened. `file` has the size of the plain file in its place, where
    /// there is one: an empty file is an empty index, and any other is no index.
    pub fn new(file: Option<u64>) -> (r: Result<IndexStart, InvalidIndex>)
        ensures
            r == match file {
                None => Ok::<IndexStart, InvalidIndex>(IndexStart::Open),
                Some(size) => if size == 0 {
                    Ok(IndexStart::Replace)
                } else {
                    Err(InvalidIndex)
                },
            },
    {
        match file {
            None => Ok(IndexStart::Open),
            Some(0) => Ok(IndexStart::Replace),
            Some(_) => Err(InvalidIndex),
        }
    }

    /// The hash in the index, where there is an entry and it is for the file as it is. Without it the
    /// file has to be hashed.
    pub fn cached_hash(entry: Option<&FileEntry>, metadata: &FileMetadata) -> (r: Option<FileHash>)
        ensures
            r == match entry {
                Some(e) => if e.fits(*metadata) {
                    Some(e.hash)
                } else {
                    None
                },
                None => None,
            },
    {
        match entry {
            Some(entry) => if entry.matches(metadata) {
                Some(entry.hash())
            } else {
                None
            },
            None => None,
        }
    }

    /// The hash in stored bytes, where they are for the file as it is.
    pub fn hash_in_store(stored: &Vec<u8>, metadata: &FileMetadata) -> (r: Result<
        Option<FileHash>,
        InvalidIndex,
    >)
        ensures
            match stored_entry(stored@) {
                None => r == Err::<Option<FileHash>, _>(InvalidIndex),
                Some((state, hash)) => if state == *metadata {
                    r matches Ok(Some(h)) && h@ == hash
                } else {
                    r == Ok::<_, InvalidIndex>(None::<FileHash>)
                },
            },
    {
        match FileEntry::from_bytes(stored) {
            Ok(entry) => Ok(Self::cached_hash(Some(&entry), metadata)),
            Err(_) => Err(InvalidIndex),
        }
    }

    /// The hash of a file in the index, from what is stored for the file, if anything is. Without it
    /// the file has to be hashed.
    pub fn get_hash(stored: Option<&Vec<u8>>, metadata: &FileMetadata) -> (r: Result<
        Option<FileHash>,
        InvalidIndex,
    >)
        ensures
            match kept_hash(
                match stored {
                    Some(bytes) => Some(bytes@),
                    None => None,
                },
                *metadata,
            ) {
                Err(e) => r == Err::<Option<FileHash>, _>(e),
                Ok(None) => r == Ok::<_, InvalidIndex>(None::<FileHash>),
                Ok(Some(hash)) => r matches Ok(Some(h)) && h@ == hash,
            },
    {
        match stored {
            Some(bytes) => Self::hash_in_store(bytes, metadata),
            None => Ok(None),
        }
    }

    /// What is stored for a file once it was hashed.
    pub fn entry_to_store(metadata: &FileMetadata, hash: FileHash) -> (r: Result<
        Vec<u8>,
        UnstorableTime,
    >)
        ensures
            if 0 <= metadata.modified.secs && metadata.modified.nanos < 1_000_000_000 {
                r matches Ok(b) && Some(b@) == entry_bytes(
                    metadata.modified.secs as u64,
                    metadata.modified.nanos,
                    metadata.size,
                    hash@,
                ) && stored_entry(b@) == Some((*metadata, hash@))
            } else {
                r is Err
            },
    {
        FileEntry::from_metadata(metadata, hash).to_bytes()
    }
}

/// A file was asked for: its path, its state and its bytes then, and the hash that was given.
pub struct HashCall {
    pub path: Seq<u8>,
    pub metadata: FileMetadata,
    pub content: Seq<u8>,
    pub hash: Seq<u8>,
}

/// What a call that succeeds gives and leaves in the store: the stored hash, where it is for the file
/// as it is; else the hash of the file's bytes, which is stored.
pub open spec fn is_call(
    store: Map<Seq<u8>, Seq<u8>>,
    call: HashCall,
    after: Map<Seq<u8>, Seq<u8>>,
) -> bool {
    if store.contains_key(call.path) && (stored_entry(store[call.path]) matches Some(e) && e.0
        == call.metadata) {
        after == store && stored_entry(store[call.path]) == Some((call.metadata, call.hash))
    } else {
        call.hash == blake3_hash(call.content) && after.contains_key(call.path) && after
            == store.insert(call.path, after[call.path]) && stored_entry(after[call.path]) == Some(
            (call.metadata, call.hash),
        )
    }
}

/// The calls were made one after the other on the store, which stands as `stores` says before each
/// and after the last. Opening the store anew in between leaves it as it stands.
pub open spec fn is_run(stores: Seq<Map<Seq<u8>, Seq<u8>>>, calls: Seq<HashCall>) -> bool {
    stores.len() == calls.len() + 1 && forall|k: int|
        0 <= k < calls.len() ==> is_call(stores[k], #[trigger] calls[k], stores[k + 1])
}

/// A file whose time and size are the same was not modified: it has the same bytes.
pub open spec fn unmodified_alike(calls: Seq<HashCall>) -> bool {
    forall|j: int, k: int|
        0 <= j < calls.len() && 0 <= k < calls.len() && (#[trigger] calls[j]).path == (
        #[trigger] calls[k]).path && calls[j].metadata == calls[k].metadata ==> calls[j].content
            == calls[k].content
}

/// Whatever is stored for a file is the hash of the bytes that it had in one of the calls before.
spec fn stores_what_was(store: Map<Seq<u8>, Seq<u8>>, calls: Seq<HashCall>) -> bool {
    forall|path: Seq<u8>| #[trigger]
        store.contains_key(path) ==> exists|j: int|
            0 <= j < calls.len() && (#[trigger] calls[j]).path == path && stored_entry(store[path])
                == Some((calls[j].metadata, blake3_hash(calls[j].content)))
}

/// Every call gives the hash of the file's bytes: the first for a file, every later one, one after
/// other files were hashed, and one on a store that was opened anew.
pub proof fn hashes_stay_right(stores: Seq<Map<Seq<u8>, Seq<u8>>>, calls: Seq<HashCall>, k: int)
    requires
        is_run(stores, calls),
        unmodified_alike(calls),
        stores[0] == Map::<Seq<u8>, Seq<u8>>::empty(),
        0 <= k < calls.len(),
    ensures
        calls[k].hash == blake3_hash(calls[k].content),
{
    lemma_stores_what_was(stores, calls, k);
    let call = calls[k];
    assert(is_call(stores[k], call, stores[k + 1]));
    let before = calls.take(k);
    if stores[k].contains_key(call.path) {
        let j = choose|j: int|
            0 <= j < before.len() && (#[trigger] before[j]).path == call.path && stored_entry(
                stores[k][call.path],
            ) == Some((before[j].metadata, blake3_hash(before[j].content)));
        assert(before[j] == calls[j]);
    }
}

proof fn lemma_stores_what_was(
    stores: Seq<Map<Seq<u8>, Seq<u8>>>,
    calls: Seq<HashCall>,
    k: int,
)
    requires
        is_run(stores, calls),
        stores[0] == Map::<Seq<u8>, Seq<u8>>::empty(),
        0 <= k <= calls.len(),
    ensures
        stores_what_was(stores[k], calls.take(k)),
    decreases k,
{
    if k > 0 {
        lemma_stores_what_was(stores, calls, k - 1);
        let call = calls[k - 1];
        assert(is_call(stores[k - 1], call, stores[k]));
        let before = calls.take(k - 1);
        let now = calls.take(k);
        assert forall|path: Seq<u8>| #[trigger] stores[k].contains_key(path) implies exists|j: int|
            0 <= j < now.len() && (#[trigger] now[j]).path == path && stored_entry(stores[k][path])
                == Some((now[j].metadata, blake3_hash(now[j].content))) by {
            if path == call.path && stores[k] != stores[k - 1] {
                assert(now[k - 1] == call);
            } else if stores[k - 1].contains_key(path) && stores[k][path] == stores[k - 1][path] {
                let j = choose|j: int|
                    0 <= j < before.len() && (#[trigger] before[j]).path == path && stored_entry(
                        stores[k - 1][path],
                    ) == Some((before[j].metadata, blake3_hash(before[j].content)));
                assert(now[j] == before[j]);
            } else {
                assert(now[k - 1] == call);
            }
        }
    }
}

/// Hashing one file leaves what is stored for the others as it is.
pub proof fn other_files_stay(
    store: Map<Seq<u8>, Seq<u8>>,
    call: HashCall,
    after: Map<Seq<u8>, Seq<u8>>,
    other: Seq<u8>,
)
    requires
        is_call(store, call, after),
        other != call.path,
    ensures
        after.contains_key(other) == store.contains_key(other),
        store.contains_key(other) ==> after[other] == store[other],
{
}

/// The hash that was stored for a file is given as long as the file's time and size stay as they
/// were, and not any more once one of them changed.
pub proof fn stored_hash_lasts(stored: FileMetadata, now: FileMetadata, hash: FileHash)
    ensures
        (FileEntry { last_modified: stored.modified, size: stored.size, hash }).fits(now) <==> stored
            == now,
{
}


/// Stored bytes tell the time, the size and the hash that they hold, unless the time is none that a
/// file can have.
pub proof fn stored_bytes_tell_the_file(
    bytes: Seq<u8>,
    secs: u64,
    nanos: u32,
    size: u64,
    hash: Seq<u8>,
)
    ensures
        entry_in(bytes) is None ==> stored_entry(bytes) is None,
        entry_in(bytes) == Some((secs, nanos, size, hash)) && secs > i64::MAX ==> stored_entry(
            bytes,
        ) is None,
        entry_in(bytes) == Some((secs, nanos, size, hash)) && secs <= i64::MAX ==> stored_entry(
            bytes,
        ) == Some(
            (FileMetadata { modified: Modified { secs: secs as i64, nanos }, size }, hash),
        ),
{
}

/// A stored hash is given for the file as it was stored: for another time or size it is not, and
/// bytes that are no entry are an error, where no bytes are none.
pub proof fn stored_hashes_are_given(
    bytes: Seq<u8>,
    stored: FileMetadata,
    hash: Seq<u8>,
    now: FileMetadata,
)
    ensures
        kept_hash(None, now) == Ok::<_, InvalidIndex>(None::<Seq<u8>>),
        stored_entry(bytes) is None ==> kept_hash(Some(bytes), now) is Err,
        stored_entry(bytes) == Some((stored, hash)) && stored == now ==> kept_hash(
            Some(bytes),
            now,
        ) == Ok::<_, InvalidIndex>(Some(hash)),
        stored_entry(bytes) == Some((stored, hash)) && (stored.modified != now.modified
            || stored.size != now.size) ==> kept_hash(Some(bytes), now) == Ok::<_, InvalidIndex>(
            None::<Seq<u8>>,
        ),
        INDEX_VERSION == 48,
{
}

} // verus!
