//! Where the bridge state is kept on disk. Reading and writing the file is
//! left to the caller; this module names the file and the ways that can fail.
use std::path::{Path, PathBuf};

use vstd::prelude::*;

use crate::boundary::{join_path, path_joined};

verus! {

const DEFAULT_FILE_NAME: &'static str = "crew_glue_state.v1.json";

#[derive(Debug)]
pub enum StateStoreError {
    CreateDir(PathBuf, std::io::Error),
    ReadFile(PathBuf, std::io::Error),
    WriteFile(PathBuf, std::io::Error),
    ParseFile(PathBuf, serde_json::Error),
    SerializeFile(PathBuf, serde_json::Error),
}

/// File-backed storage for a user's glue state.
#[derive(Clone, Debug)]
pub struct StateStore {
    path: PathBuf,
}

impl StateStore {
    /// The file that this store reads and writes.
    pub closed spec fn file(self) -> PathBuf {
        self.path
    }

    pub fn new(path: PathBuf) -> (s: Self)
        ensures
            s.file() == path,
    {
        Self { path }
    }

    /// A store for the default state file inside `dir`.
    pub fn in_dir(dir: &Path) -> (s: Self)
        ensures
            s.file() == path_joined(dir, "crew_glue_state.v1.json"@),
    {
        Self::new(join_path(dir, DEFAULT_FILE_NAME))
    }

    /// The file that this store reads and writes. (A `&PathBuf` dereferences to the
    /// `&Path` that callers use; `Path` itself is opaque to the proofs here.)
    pub fn path(&self) -> (r: &PathBuf)
        ensures
            *r == self.file(),
    {
        &self.path
    }
}

} // verus!
