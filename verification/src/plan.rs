//! Filesystem operations that the store's transitions call for. The model
//! inside this crate only records which rendition files exist; a caller that
//! keeps a real directory tree executes these operations, in order, to keep
//! it in step with the model.

use vstd::prelude::*;

verus! {

/// One filesystem operation of a transition plan.
///
/// Staging paths are `{stagingRoot}/{id}_p{rendition}.jpg`; permanent paths
/// are `{permanentRoot}/{prefix}/{id}_p{rendition}.jpg` where `prefix` is the
/// first two characters of the identifier.
#[derive(Debug)]
pub enum FileOp {
    /// Best-effort delete of a rendition file under the staging root.
    DeleteStaging { id: String, rendition: u32 },
    /// Delete of a rendition file under the permanent root.
    DeletePermanent { id: String, rendition: u32 },
    /// Create the permanent shard directory named by `prefix` if missing.
    EnsureShardDir { prefix: String },
    /// Move one rendition file from the staging root to the permanent root.
    Promote { id: String, rendition: u32 },
}

/// The mathematical value of a `FileOp`.
#[verifier::ext_equal]
pub enum OpModel {
    DeleteStaging { id: Seq<char>, rendition: u32 },
    DeletePermanent { id: Seq<char>, rendition: u32 },
    EnsureShardDir { prefix: Seq<char> },
    Promote { id: Seq<char>, rendition: u32 },
}

impl View for FileOp {
    type V = OpModel;

    open spec fn view(&self) -> OpModel {
        match self {
            FileOp::DeleteStaging { id, rendition } => (OpModel::DeleteStaging {
                id: id@,
                rendition: *rendition,
            }),
            FileOp::DeletePermanent { id, rendition } => (OpModel::DeletePermanent {
                id: id@,
                rendition: *rendition,
            }),
            FileOp::EnsureShardDir { prefix } => (OpModel::EnsureShardDir { prefix: prefix@ }),
            FileOp::Promote { id, rendition } => (OpModel::Promote {
                id: id@,
                rendition: *rendition,
            }),
        }
    }
}

/// The deep view of an operation vector.
pub open spec fn ops_model(v: Seq<FileOp>) -> Seq<OpModel> {
    v.map_values(|op: FileOp| op@)
}

} // verus!
