//! Staging garbage collection: sweep the ledger for entries older than the
//! retention window, best-effort delete their rendition files, and drop the
//! expired rows. The sweep runs at the tail of every upload, never on a
//! timer, so an orphaned staged asset can outlive the window if no further
//! upload ever happens; that laziness is a deliberate property, not a defect.

use vstd::prelude::*;
use crate::plan::FileOp;
use crate::plan::OpModel;
use crate::plan::ops_model;
use crate::store::AssetStore;
use crate::store::FileRef;
use crate::store::FileRefModel;
use crate::store::StagingEntry;
use crate::store::StagingEntryModel;
use crate::store::files_model;
use crate::store::ledger_model;

verus! {

/// The retention window of the staging ledger, in seconds: one day.
pub const RETENTION_SECS: u64 = 86400;

/// A ledger entry is expired once a full retention window has passed since it
/// was created.
pub open spec fn entry_expired(timestamp: u64, now: u64) -> bool {
    timestamp + RETENTION_SECS < now
}

/// Whether the ledger holds an expired entry for asset `id`.
pub open spec fn expired_id(ledger: Seq<StagingEntryModel>, now: u64, id: Seq<char>) -> bool {
    exists|i: int|
        0 <= i < ledger.len() && #[trigger] ledger[i].id == id && entry_expired(
            ledger[i].timestamp,
            now,
        )
}

/// The ledger after a sweep: exactly the entries that are not yet expired.
pub open spec fn surviving_gc_ledger(ledger: Seq<StagingEntryModel>, now: u64) -> Seq<
    StagingEntryModel,
>
    decreases ledger.len(),
{
    if ledger.len() == 0 {
        Seq::empty()
    } else if entry_expired(ledger.last().timestamp, now) {
        surviving_gc_ledger(ledger.drop_last(), now)
    } else {
        surviving_gc_ledger(ledger.drop_last(), now).push(ledger.last())
    }
}

/// The staging files after a sweep: the renditions of every expired asset are
/// gone, everything else is untouched.
pub open spec fn surviving_gc_files(
    files: Seq<FileRefModel>,
    ledger: Seq<StagingEntryModel>,
    now: u64,
    rendition_count: u32,
) -> Seq<FileRefModel>
    decreases files.len(),
{
    if files.len() == 0 {
        Seq::empty()
    } else if expired_id(ledger, now, files.last().id) && files.last().rendition
        < rendition_count {
        surviving_gc_files(files.drop_last(), ledger, now, rendition_count)
    } else {
        surviving_gc_files(files.drop_last(), ledger, now, rendition_count).push(files.last())
    }
}

/// The staging deletions for one expired asset.
pub open spec fn gc_ops_for(id: Seq<char>, rendition_count: u32) -> Seq<OpModel> {
    Seq::new(rendition_count as nat, |r: int| OpModel::DeleteStaging { id, rendition: r as u32 })
}

/// The file-operation plan of a sweep: all renditions of every expired entry,
/// in ledger order. Each deletion is best-effort; a missing file is not an
/// error.
pub open spec fn gc_op_seq(ledger: Seq<StagingEntryModel>, now: u64, rendition_count: u32) -> Seq<
    OpModel,
>
    decreases ledger.len(),
{
    if ledger.len() == 0 {
        Seq::empty()
    } else if entry_expired(ledger.last().timestamp, now) {
        gc_op_seq(ledger.drop_last(), now, rendition_count) + gc_ops_for(
            ledger.last().id,
            rendition_count,
        )
    } else {
        gc_op_seq(ledger.drop_last(), now, rendition_count)
    }
}

/// Whether a full retention window has passed since `timestamp`.
pub fn is_expired(timestamp: u64, now: u64) -> (b: bool)
    ensures
        b == entry_expired(timestamp, now),
{
    if now > RETENTION_SECS {
        timestamp < now - RETENTION_SECS
    } else {
        false
    }
}

fn ledger_has_expired(ledger: &Vec<StagingEntry>, now: u64, id: &String) -> (b: bool)
    ensures
        b == expired_id(ledger_model(ledger@), now, id@),
{
    let mut i: usize = 0;
    while i < ledger.len()
        invariant
            0 <= i <= ledger@.len(),
            forall|j: int|
                0 <= j < i ==> !(#[trigger] ledger_model(ledger@)[j].id == id@ && entry_expired(
                    ledger_model(ledger@)[j].timestamp,
                    now,
                )),
        decreases ledger@.len() - i,
    {
        if ledger[i].id == *id && is_expired(ledger[i].timestamp, now) {
            proof {
                assert(ledger_model(ledger@)[i as int].id == id@);
            }
            return true;
        }
        i += 1;
    }
    false
}

fn gc_files_surviving(
    files: &Vec<FileRef>,
    ledger: &Vec<StagingEntry>,
    now: u64,
    rendition_count: u32,
) -> (r: Vec<FileRef>)
    ensures
        files_model(r@) == surviving_gc_files(
            files_model(files@),
            ledger_model(ledger@),
            now,
            rendition_count,
        ),
{
    let mut r: Vec<FileRef> = Vec::new();
    let mut i: usize = 0;
    proof {
        assert(files_model(files@).take(0) =~= Seq::<FileRefModel>::empty());
        assert(files_model(r@) =~= surviving_gc_files(
            files_model(files@).take(0),
            ledger_model(ledger@),
            now,
            rendition_count,
        ));
    }
    while i < files.len()
        invariant
            0 <= i <= files@.len(),
            files_model(r@) == surviving_gc_files(
                files_model(files@).take(i as int),
                ledger_model(ledger@),
                now,
                rendition_count,
            ),
        decreases files@.len() - i,
    {
        let expired = ledger_has_expired(ledger, now, &files[i].id);
        if !(expired && files[i].rendition < rendition_count) {
            let f = files[i].clone();
            r.push(f);
        }
        proof {
            let m = files_model(files@);
            assert(m.take(i as int + 1).drop_last() =~= m.take(i as int));
            assert(m.take(i as int + 1).last() == files@[i as int]@);
            assert(files_model(r@) =~= surviving_gc_files(
                m.take(i as int + 1),
                ledger_model(ledger@),
                now,
                rendition_count,
            ));
        }
        i += 1;
    }
    proof {
        assert(files_model(files@).take(files@.len() as int) =~= files_model(files@));
    }
    r
}

impl AssetStore {
    /// Sweep the staging ledger at time `now`: drop every entry older than
    /// the retention window and plan the deletion of its rendition files. The
    /// attachment rows and the permanent files are untouched. The caller
    /// performs the returned deletions best-effort: a failure there is logged
    /// and swallowed, never surfaced.
    pub fn sweep(&mut self, now: u64, rendition_count: u32) -> (ops: Vec<FileOp>)
        ensures
            final(self)@.staging_ledger == surviving_gc_ledger(old(self)@.staging_ledger, now),
            final(self)@.staging_files == surviving_gc_files(
                old(self)@.staging_files,
                old(self)@.staging_ledger,
                now,
                rendition_count,
            ),
            final(self)@.permanent_files == old(self)@.permanent_files,
            final(self)@.attachments == old(self)@.attachments,
            ops_model(ops@) == gc_op_seq(old(self)@.staging_ledger, now, rendition_count),
    {
        let files = gc_files_surviving(&self.staging_files, &self.staging_ledger, now,
            rendition_count);

        let mut kept: Vec<StagingEntry> = Vec::new();
        let mut ops: Vec<FileOp> = Vec::new();
        let mut i: usize = 0;
        proof {
            assert(ledger_model(self.staging_ledger@).take(0) =~= Seq::<StagingEntryModel>::empty());
            assert(ledger_model(kept@) =~= surviving_gc_ledger(
                ledger_model(self.staging_ledger@).take(0),
                now,
            ));
            assert(ops_model(ops@) =~= gc_op_seq(
                ledger_model(self.staging_ledger@).take(0),
                now,
                rendition_count,
            ));
        }
        while i < self.staging_ledger.len()
            invariant
                0 <= i <= self.staging_ledger@.len(),
                *self == *old(self),
                ledger_model(kept@) == surviving_gc_ledger(
                    ledger_model(self.staging_ledger@).take(i as int),
                    now,
                ),
                ops_model(ops@) == gc_op_seq(
                    ledger_model(self.staging_ledger@).take(i as int),
                    now,
                    rendition_count,
                ),
            decreases self.staging_ledger@.len() - i,
        {
            let ghost m = ledger_model(self.staging_ledger@);
            let ghost before = ops_model(ops@);
            let entry = self.staging_ledger[i].clone();
            if is_expired(entry.timestamp, now) {
                let mut p: u32 = 0;
                while p < rendition_count
                    invariant
                        0 <= p <= rendition_count,
                        0 <= i < m.len(),
                        entry@ == m[i as int],
                        before == gc_op_seq(m.take(i as int), now, rendition_count),
                        entry_expired(m[i as int].timestamp, now),
                        ops_model(ops@) == before + gc_ops_for(m[i as int].id, rendition_count)
                            .take(p as int),
                    decreases rendition_count - p,
                {
                    let id = entry.id.clone();
                    let ghost ops0 = ops@;
                    let op = FileOp::DeleteStaging { id, rendition: p };
                    proof {
                        assert(op@ == gc_ops_for(m[i as int].id, rendition_count)[p as int]);
                    }
                    ops.push(op);
                    proof {
                        let gof = gc_ops_for(m[i as int].id, rendition_count);
                        assert(ops_model(ops@) =~= ops_model(ops0).push(op@));
                        assert(gof.take(p as int + 1) =~= gof.take(p as int).push(gof[p as int]));
                        assert(ops_model(ops@) =~= before + gof.take(p as int + 1));
                    }
                    p += 1;
                }
                proof {
                    assert(gc_ops_for(m[i as int].id, rendition_count).take(
                        rendition_count as int,
                    ) =~= gc_ops_for(m[i as int].id, rendition_count));
                }
            } else {
                kept.push(entry);
            }
            proof {
                assert(m.take(i as int + 1).drop_last() =~= m.take(i as int));
                assert(m.take(i as int + 1).last() == m[i as int]);
                assert(ledger_model(kept@) =~= surviving_gc_ledger(m.take(i as int + 1), now));
                assert(ops_model(ops@) =~= gc_op_seq(m.take(i as int + 1), now, rendition_count));
            }
            i += 1;
        }
        proof {
            let m = ledger_model(self.staging_ledger@);
            assert(m.take(m.len() as int) =~= m);
        }
        self.staging_ledger = kept;
        self.staging_files = files;
        ops
    }
}

} // verus!
