use vstd::prelude::*;
use crate::krate::Krate;
use crate::layout::{join, join_path};
use crate::store::{FilesystemDB, ReadOutcome};

verus! {

/// Why a package could not be fetched.
pub enum FetchError {
    /// The store holds no archive for the package.
    NotFound,
    /// The store could not be read.
    Io { message: String },
}

/// A storage backend in a local directory: each package's archive lives in
/// `root/<local identifier>`, and content-addressed blobs in the same
/// directory are served by `db`.
pub struct FSBackend {
    pub root: String,
    pub db: FilesystemDB,
}

impl FSBackend {
    /// A backend over the directory `root`, which the caller has created.
    pub fn new(root: String) -> (r: FSBackend)
        ensures
            r.root@ == root@,
            r.db.root@ == root@,
    {
        let db = FilesystemDB::new(root.clone());
        FSBackend { root, db }
    }

    /// The file that holds the archive of `krate`.
    pub fn fetch_path(&self, krate: &Krate) -> (r: String)
        ensures
            r@ == join(self.root@, krate.local_id_spec()),
    {
        let id = krate.local_id();
        join_path(self.root.as_str(), id.as_str())
    }

    /// The result of a fetch, given what reading the archive's file gave.
    pub fn fetch(read: ReadOutcome) -> (r: Result<Vec<u8>, FetchError>)
        ensures
            read matches ReadOutcome::Read { bytes } ==> r matches Ok(b) && b@ == bytes@,
            read is NotFound ==> r matches Err(FetchError::NotFound),
            read matches ReadOutcome::Failed { message } ==> r matches Err(FetchError::Io { message: m }) && m@ == message@,
    {
        match read {
            ReadOutcome::Read { bytes } => Ok(bytes),
            ReadOutcome::NotFound => Err(FetchError::NotFound),
            ReadOutcome::Failed { message } => Err(FetchError::Io { message }),
        }
    }
}

} // verus!
