//! File storage on the local disk: where a file goes and its public URL.
use vstd::prelude::*;
use vstd::string::StringExecFns;
use crate::input_types::id_types::{uuid_display, uuid_random, uuid_to_string};
use crate::text::{concat2, concat3, to_owned_string, trim_end_char, trim_end_char_string};

verus! {

/// Why a storage operation failed.
#[derive(Debug, Clone, PartialEq)]
pub enum StorageError {
    /// No file at this path.
    NotFound(String),
    /// The path is not acceptable.
    InvalidPath(String),
    /// The storage backend failed (its message).
    Backend(String),
    /// A file operation failed (its message).
    Io(String),
}

/// The message of a storage error, as its display shows it.
pub open spec fn storage_error_text(e: StorageError) -> Seq<char> {
    match e {
        StorageError::NotFound(p) => "Not found: "@ + p@,
        StorageError::InvalidPath(p) => "Invalid path: "@ + p@,
        StorageError::Backend(m) => "Backend error: "@ + m@,
        StorageError::Io(m) => "IO error: "@ + m@,
    }
}

impl StorageError {
    /// The message shown for this error.
    pub fn message(&self) -> (r: String)
        ensures
            r@ == storage_error_text(*self),
    {
        match self {
            StorageError::NotFound(p) => concat2("Not found: ", p.as_str()),
            StorageError::InvalidPath(p) => concat2("Invalid path: ", p.as_str()),
            StorageError::Backend(m) => concat2("Backend error: ", m.as_str()),
            StorageError::Io(m) => concat2("IO error: ", m.as_str()),
        }
    }
}

/// Files kept in a directory on the local disk, served under a base URL.
#[derive(Debug, Clone)]
pub struct LocalStorage {
    base_dir: String,
    base_url: String,
}

/// The relative path of a stored file: the prefix without trailing `/`,
/// then `/`, the file's id and `.` with the extension.
pub open spec fn stored_name(prefix: Seq<char>, id: u128, ext: Seq<char>) -> Seq<char> {
    trim_end_char(prefix, '/') + seq!['/'] + uuid_display(id) + seq!['.'] + ext
}

impl LocalStorage {
    /// The directory on disk.
    pub closed spec fn dir(&self) -> Seq<char> {
        self.base_dir@
    }

    /// The base URL, without trailing `/`.
    pub closed spec fn url_base(&self) -> Seq<char> {
        self.base_url@
    }

    /// A storage in `base_dir`, served under `base_url` (its trailing `/` dropped).
    pub fn new(base_dir: &str, base_url: &str) -> (r: Self)
        ensures
            r.dir() == base_dir@,
            r.url_base() == trim_end_char(base_url@, '/'),
    {
        LocalStorage {
            base_dir: to_owned_string(base_dir),
            base_url: trim_end_char_string(base_url, '/'),
        }
    }

    /// The directory on disk.
    pub fn base_dir(&self) -> (r: &str)
        ensures
            r@ == self.dir(),
    {
        self.base_dir.as_str()
    }

    /// The public URL of a stored file: the base URL, `/` and its path.
    pub fn url(&self, path: &str) -> (r: String)
        ensures
            r@ == self.url_base() + seq!['/'] + path@,
    {
        let r = concat3(self.base_url.as_str(), "/", path);
        proof {
            reveal_strlit("/");
        }
        r
    }

    /// The relative path of a file with the id `id` (see `stored_name`).
    pub fn file_name_with(prefix: &str, id: u128, ext: &str) -> (r: String)
        ensures
            r@ == stored_name(prefix@, id, ext@),
    {
        let mut r = trim_end_char_string(prefix, '/');
        r.push('/');
        let u = uuid_to_string(id);
        r.append(u.as_str());
        r.push('.');
        r.append(ext);
        r
    }

    /// The relative path of a new file: a fresh random id (see `stored_name`).
    pub fn file_name(prefix: &str, ext: &str) -> (r: String)
        ensures
            exists|id: u128| r@ == #[trigger] stored_name(prefix@, id, ext@),
    {
        let id = uuid_random();
        LocalStorage::file_name_with(prefix, id, ext)
    }
}

} // verus!
