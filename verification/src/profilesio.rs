//! Where a snapshot of the profiles is kept.
//!
//! A snapshot file holds the bytes of [`crate::profiles::Profiles::encode`]
//! and nothing else: no header, no checksum. Reading and writing the file is
//! left to the caller; this type only says which file it is.

use std::path::PathBuf;

use vstd::prelude::*;

verus! {

/// `std::path::PathBuf`: a path is kept and handed back, never looked into.
#[verifier::external_type_specification]
#[verifier::external_body]
pub struct ExPathBuf(PathBuf);

/// A snapshot file, named by its path.
pub struct ProfilesDump {
    path: PathBuf,
}

impl ProfilesDump {
    /// The path of the file.
    pub closed spec fn spec_path(&self) -> PathBuf {
        self.path
    }

    /// The snapshot file at `path`. Nothing is opened or created.
    pub fn new(path: PathBuf) -> (dump: ProfilesDump)
        ensures
            dump.spec_path() == path,
    {
        ProfilesDump { path }
    }

    /// The path of the file.
    pub fn path(&self) -> (path: &PathBuf)
        ensures
            *path == self.spec_path(),
    {
        &self.path
    }
}

} // verus!
