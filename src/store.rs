use vstd::prelude::*;
use crate::digest::{Digest, hex_of, sha256_of};
use crate::layout::{join, join_path};

verus! {

/// What reading a file gave.
pub enum ReadOutcome {
    /// The file's contents.
    Read { bytes: Vec<u8> },
    /// There is no such file.
    NotFound,
    /// Any other I/O failure.
    Failed { message: String },
}

/// A failure of the store other than a missing blob.
pub enum StoreError {
    Io { message: String },
}

/// A content-addressed blob store in a directory: each payload lives in
/// `root/<hex digest of the payload>`.
pub struct FilesystemDB {
    pub root: String,
}

/// A model of a directory tree: file path to contents.
pub type Disk = Map<Seq<char>, Seq<u8>>;

/// Where a blob with digest `key` is kept.
pub open spec fn entry_path_spec(root: Seq<char>, key: Seq<u8>) -> Seq<char> {
    join(root, hex_of(key))
}

/// The disk after storing `v`: its blob file holds it verbatim.
pub open spec fn insert_into(disk: Disk, root: Seq<char>, v: Seq<u8>) -> Disk {
    disk.insert(entry_path_spec(root, sha256_of(v)), v)
}

/// What looking up `key` finds on `disk`.
pub open spec fn lookup_in(disk: Disk, root: Seq<char>, key: Seq<u8>) -> Option<Seq<u8>> {
    if disk.contains_key(entry_path_spec(root, key)) {
        Some(disk[entry_path_spec(root, key)])
    } else {
        None
    }
}

pub open spec fn read_outcome_on(disk: Disk, path: Seq<char>, read: ReadOutcome) -> bool {
    match read {
        ReadOutcome::Read { bytes } => disk.contains_key(path) && disk[path] == bytes@,
        ReadOutcome::NotFound => !disk.contains_key(path),
        ReadOutcome::Failed { .. } => true,
    }
}

impl FilesystemDB {
    pub fn new(root: String) -> (r: FilesystemDB)
        ensures
            r.root@ == root@,
    {
        FilesystemDB { root }
    }

    /// The file that holds the blob with this digest.
    pub fn entry_path(&self, key: &Digest) -> (r: String)
        ensures
            r@ == entry_path_spec(self.root@, key.bytes@),
    {
        let hex = key.to_hex();
        join_path(self.root.as_str(), hex.as_str())
    }

    /// The key under which `value` is stored and the file to write it to
    /// (overwriting is harmless: the same content gives the same path).
    pub fn insert(&self, value: &[u8]) -> (r: (Digest, String))
        ensures
            r.0.bytes@ == sha256_of(value@),
            r.1@ == entry_path_spec(self.root@, sha256_of(value@)),
    {
        let key = Digest::from_bytes(value);
        let path = self.entry_path(&key);
        (key, path)
    }

    /// The result of a lookup, given what reading the blob's file gave: a
    /// missing file is an absent blob, never an error; any other read
    /// failure is an error.
    pub fn lookup(read: ReadOutcome) -> (r: Result<Option<Vec<u8>>, StoreError>)
        ensures
            read matches ReadOutcome::Read { bytes } ==> r matches Ok(Some(b)) && b@ == bytes@,
            read is NotFound ==> r matches Ok(None),
            read matches ReadOutcome::Failed { message } ==> r matches Err(StoreError::Io { message: m }) && m@ == message@,
    {
        match read {
            ReadOutcome::Read { bytes } => Ok(Some(bytes)),
            ReadOutcome::NotFound => Ok(None),
            ReadOutcome::Failed { message } => Err(StoreError::Io { message }),
        }
    }
}

/// Content-addressed round trip: after a payload is stored, looking up the
/// key that storing it gave finds exactly that payload, whatever the
/// directory held before.
pub proof fn lemma_round_trip(disk: Disk, root: Seq<char>, v: Seq<u8>)
    ensures
        lookup_in(insert_into(disk, root, v), root, sha256_of(v)) == Some(v),
{
}

/// A lookup of a key whose blob was never stored finds nothing, and reading
/// its missing file yields an absent result rather than an error.
pub proof fn lemma_lookup_miss(disk: Disk, root: Seq<char>, key: Seq<u8>, read: ReadOutcome)
    requires
        !disk.contains_key(entry_path_spec(root, key)),
        read_outcome_on(disk, entry_path_spec(root, key), read),
        !(read is Failed),
    ensures
        lookup_in(disk, root, key) is None,
        read is NotFound,
{
}

} // verus!
