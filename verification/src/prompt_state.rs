//! Where the snapshot of a registry is kept on stable storage.

use crate::digest::{hash_instruction_content, text_digest};
use vstd::prelude::*;
use vstd::string::*;

verus! {

/// A place below the configuration root: a directory for the kind of
/// record, in it a directory for the project, in it the file of a session.
#[derive(Debug, PartialEq, Eq)]
pub struct StoragePath {
    pub namespace: String,
    pub shard: String,
    pub file_name: String,
}

/// The mathematical value of a [`StoragePath`].
pub struct StoragePathView {
    pub namespace: Seq<char>,
    pub shard: Seq<char>,
    pub file_name: Seq<char>,
}

impl View for StoragePath {
    type V = StoragePathView;

    open spec fn view(&self) -> StoragePathView {
        StoragePathView {
            namespace: self.namespace@,
            shard: self.shard@,
            file_name: self.file_name@,
        }
    }
}

/// The directory of snapshots below the configuration root.
pub open spec fn snapshot_namespace() -> Seq<char> {
    "prompt-state"@
}

/// What follows the session id in the name of a snapshot file.
pub open spec fn snapshot_extension() -> Seq<char> {
    ".json"@
}

/// The name of the directory that belongs to a project: the digest of the
/// project's path, which is short and safe as a file name whatever the
/// path holds. It keeps nothing secret.
pub fn hash_project_path(path: &str) -> (shard: String)
    ensures
        shard@ == text_digest(path@),
        shard@.len() == 64,
{
    hash_instruction_content(path)
}

/// Where the snapshot of the session `session_id` of the project at
/// `project_path` is kept.
pub fn snapshot_path(project_path: &str, session_id: &str) -> (path: StoragePath)
    ensures
        path@ == (StoragePathView {
            namespace: snapshot_namespace(),
            shard: text_digest(project_path@),
            file_name: session_id@ + snapshot_extension(),
        }),
{
    let mut file_name = session_id.to_owned();
    file_name.append(".json");
    StoragePath {
        namespace: "prompt-state".to_owned(),
        shard: hash_project_path(project_path),
        file_name,
    }
}

} // verus!
