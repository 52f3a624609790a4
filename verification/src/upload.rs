//! Upload processing: decode an inbound JPEG payload, generate a fresh opaque
//! identifier, render every configured size, record the staging-ledger entry,
//! and run the garbage-collection sweep, all as one step. The caller writes
//! the returned rendition images to the staging paths and executes the
//! returned sweep plan, inside the same transaction that carries the ledger
//! row.

use vstd::prelude::*;
use vstd::string::StrSliceExecFns;
use crate::codec::b64_decoded;
use crate::codec::base64_decode;
use crate::error::StoreError;
use crate::gc::gc_op_seq;
use crate::gc::surviving_gc_files;
use crate::gc::surviving_gc_ledger;
use crate::ids::generate_asset_id;
use crate::imaging::decode_jpeg;
use crate::imaging::jpeg_decodes;
use crate::imaging::render_renditions;
use crate::plan::FileOp;
use crate::plan::ops_model;
use crate::reconcile::files_for;
use crate::store::AssetStore;
use crate::store::FileRef;
use crate::store::StagingEntry;
use crate::store::StagingEntryModel;
use crate::store::files_model;
use crate::store::ledger_model;
use crate::validator::valid_asset_id;

verus! {

/// The marker every upload payload must start with.
pub open spec fn data_uri_prefix() -> Seq<char> {
    "data:image/jpeg;base64,"@
}

/// A payload is well-formed when it starts with the JPEG data-URI marker.
pub open spec fn well_formed_payload(s: Seq<char>) -> bool {
    s.len() >= 23 && s.subrange(0, 23) == data_uri_prefix()
}

/// The base64 body of a well-formed payload: everything after the marker.
pub open spec fn payload_body(s: Seq<char>) -> Seq<char> {
    s.subrange(23, s.len() as int)
}

/// What an accepted upload hands back to the caller.
#[derive(Debug)]
pub struct UploadOutcome {
    /// The freshly generated asset identifier.
    pub temp_id: String,
    /// The rendition images to write to the staging paths: index 0 the
    /// original, index `i + 1` the resize to the `i`-th configured size.
    pub renditions: Vec<image::DynamicImage>,
    /// The sweep plan: best-effort staging deletions of expired uploads.
    pub gc_plan: Vec<FileOp>,
}

fn files_for_vec(id: &String, rendition_count: u32) -> (r: Vec<FileRef>)
    ensures
        files_model(r@) == files_for(id@, rendition_count),
{
    let mut r: Vec<FileRef> = Vec::new();
    let mut p: u32 = 0;
    proof {
        assert(files_model(r@) =~= files_for(id@, rendition_count).take(0));
    }
    while p < rendition_count
        invariant
            0 <= p <= rendition_count,
            files_model(r@) == files_for(id@, rendition_count).take(p as int),
        decreases rendition_count - p,
    {
        let ghost r0 = r@;
        let f = FileRef { id: id.clone(), rendition: p };
        proof {
            assert(f@ == files_for(id@, rendition_count)[p as int]);
        }
        r.push(f);
        proof {
            let ff = files_for(id@, rendition_count);
            assert(files_model(r@) =~= files_model(r0).push(f@));
            assert(ff.take(p as int + 1) =~= ff.take(p as int).push(ff[p as int]));
        }
        p += 1;
    }
    proof {
        assert(files_for(id@, rendition_count).take(rendition_count as int) =~= files_for(
            id@,
            rendition_count,
        ));
    }
    r
}

impl AssetStore {
    /// Process one upload at time `now`.
    ///
    /// The payload must carry the JPEG data-URI marker (else `Validation`,
    /// nothing mutated), its body must be valid base64 and the bytes must
    /// decode as a JPEG (else `Decode`, nothing mutated). On success a fresh
    /// identifier of the canonical shape is generated, one rendition per
    /// configured size plus the original is rendered, the staging files and
    /// the ledger entry are recorded, and the garbage-collection sweep runs
    /// over the updated ledger. Attachment rows and permanent files are never
    /// touched.
    pub fn upload(&mut self, payload: &str, sizes: &Vec<(u32, u32)>, now: u64) -> (r: Result<
        UploadOutcome,
        StoreError,
    >)
        requires
            sizes@.len() + 1 <= u32::MAX as int,
        ensures
            r is Err ==> *final(self) == *old(self),
            (r == Err::<UploadOutcome, StoreError>(StoreError::Validation)) <==> !well_formed_payload(
                payload@,
            ),
            (r is Ok) <==> (well_formed_payload(payload@) && b64_decoded(payload_body(payload@))
                is Some && jpeg_decodes(b64_decoded(payload_body(payload@))->0)),
            r is Err ==> r->Err_0 == StoreError::Validation || r->Err_0 == StoreError::Decode,
            r is Ok ==> ({
                let id = r->Ok_0.temp_id@;
                let rc = (sizes@.len() + 1) as u32;
                let mid_ledger = old(self)@.staging_ledger.push(
                    StagingEntryModel { id, timestamp: now },
                );
                &&& valid_asset_id(id)
                &&& r->Ok_0.renditions@.len() == sizes@.len() + 1
                &&& final(self)@.staging_ledger == surviving_gc_ledger(mid_ledger, now)
                &&& final(self)@.staging_files == surviving_gc_files(
                    old(self)@.staging_files + files_for(id, rc),
                    mid_ledger,
                    now,
                    rc,
                )
                &&& final(self)@.permanent_files == old(self)@.permanent_files
                &&& final(self)@.attachments == old(self)@.attachments
                &&& ops_model(r->Ok_0.gc_plan@) == gc_op_seq(mid_ledger, now, rc)
            }),
    {
        let len = payload.unicode_len();
        if len < 23 {
            return Err(StoreError::Validation);
        }
        let prefix = payload.substring_char(0, 23).to_owned();
        let expected = "data:image/jpeg;base64,".to_owned();
        if prefix != expected {
            return Err(StoreError::Validation);
        }
        let body = payload.substring_char(23, len);

        let bytes = match base64_decode(body) {
            Some(b) => b,
            None => {
                return Err(StoreError::Decode);
            },
        };
        let img = match decode_jpeg(&bytes) {
            Some(im) => im,
            None => {
                return Err(StoreError::Decode);
            },
        };

        let temp_id = generate_asset_id();
        let renditions = render_renditions(img, sizes);
        let rendition_count = sizes.len() as u32 + 1;

        let mut fresh_files = files_for_vec(&temp_id, rendition_count);
        self.staging_files.append(&mut fresh_files);
        self.staging_ledger.push(StagingEntry { id: temp_id.clone(), timestamp: now });
        proof {
            assert(files_model(self.staging_files@) =~= old(self)@.staging_files + files_for(
                temp_id@,
                rendition_count,
            ));
            assert(ledger_model(self.staging_ledger@) =~= old(self)@.staging_ledger.push(
                StagingEntryModel { id: temp_id@, timestamp: now },
            ));
        }
        let gc_plan = self.sweep(now, rendition_count);

        Ok(UploadOutcome { temp_id, renditions, gc_plan })
    }
}

} // verus!
