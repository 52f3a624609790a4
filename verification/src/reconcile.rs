//! Attachment reconciliation: given an owner's current ordered identifier
//! list and a client-supplied replacement, validate the replacement, drop the
//! assets it no longer references, promote the staged assets it newly
//! references, and rewrite the owner's attachment rows so that the stored
//! order exactly mirrors the new list. The caller runs the returned file
//! operations, in order, against its real directory tree, inside the same
//! transaction that carries the row changes.

use vstd::prelude::*;
use vstd::string::StrSliceExecFns;
use crate::error::StoreError;
use crate::plan::FileOp;
use crate::plan::OpModel;
use crate::plan::ops_model;
use crate::store::AssetStore;
use crate::store::AttachmentRow;
use crate::store::FileRef;
use crate::store::FileRefModel;
use crate::store::RowModel;
use crate::store::StagingEntry;
use crate::store::StagingEntryModel;
use crate::store::id_views;
use crate::store::ledger_model;
use crate::store::files_model;
use crate::store::rows_model;
use crate::validator::is_valid_asset_id;
use crate::validator::valid_asset_id;

verus! {

/// Every identifier in the list has the canonical shape.
pub open spec fn all_valid(ids: Seq<Seq<char>>) -> bool {
    forall|i: int| 0 <= i < ids.len() ==> valid_asset_id(#[trigger] ids[i])
}

/// An identifier that the new list references but the old one did not:
/// reconciliation promotes it out of staging.
pub open spec fn promoted(old: Seq<Seq<char>>, new: Seq<Seq<char>>, id: Seq<char>) -> bool {
    new.contains(id) && !old.contains(id)
}

/// An identifier that the old list referenced but the new one does not:
/// reconciliation deletes its permanent files.
pub open spec fn dropped(old: Seq<Seq<char>>, new: Seq<Seq<char>>, id: Seq<char>) -> bool {
    old.contains(id) && !new.contains(id)
}

/// The attachment rows that do not belong to `owner_id`, order kept.
pub open spec fn rows_without(rows: Seq<RowModel>, owner_id: u32) -> Seq<RowModel>
    decreases rows.len(),
{
    if rows.len() == 0 {
        Seq::empty()
    } else if rows.last().owner_id == owner_id {
        rows_without(rows.drop_last(), owner_id)
    } else {
        rows_without(rows.drop_last(), owner_id).push(rows.last())
    }
}

/// The rewritten rows of one owner: one row per identifier of the new list,
/// ranked by its zero-based position there.
pub open spec fn new_rows(owner_id: u32, new: Seq<Seq<char>>) -> Seq<RowModel> {
    Seq::new(new.len(), |i: int| RowModel { owner_id, asset_id: new[i], order: i as u32 })
}

/// The ledger after reconciliation: every entry of a promoted asset is gone.
pub open spec fn surviving_ledger(
    ledger: Seq<StagingEntryModel>,
    old: Seq<Seq<char>>,
    new: Seq<Seq<char>>,
) -> Seq<StagingEntryModel>
    decreases ledger.len(),
{
    if ledger.len() == 0 {
        Seq::empty()
    } else if promoted(old, new, ledger.last().id) {
        surviving_ledger(ledger.drop_last(), old, new)
    } else {
        surviving_ledger(ledger.drop_last(), old, new).push(ledger.last())
    }
}

/// The staging files after reconciliation: the renditions of promoted assets
/// have moved out.
pub open spec fn surviving_staging_files(
    files: Seq<FileRefModel>,
    old: Seq<Seq<char>>,
    new: Seq<Seq<char>>,
    rendition_count: u32,
) -> Seq<FileRefModel>
    decreases files.len(),
{
    if files.len() == 0 {
        Seq::empty()
    } else if promoted(old, new, files.last().id) && files.last().rendition < rendition_count {
        surviving_staging_files(files.drop_last(), old, new, rendition_count)
    } else {
        surviving_staging_files(files.drop_last(), old, new, rendition_count).push(files.last())
    }
}

/// The permanent files kept by reconciliation: the renditions of dropped
/// assets are deleted, everything else is untouched.
pub open spec fn surviving_permanent_files(
    files: Seq<FileRefModel>,
    old: Seq<Seq<char>>,
    new: Seq<Seq<char>>,
    rendition_count: u32,
) -> Seq<FileRefModel>
    decreases files.len(),
{
    if files.len() == 0 {
        Seq::empty()
    } else if dropped(old, new, files.last().id) && files.last().rendition < rendition_count {
        surviving_permanent_files(files.drop_last(), old, new, rendition_count)
    } else {
        surviving_permanent_files(files.drop_last(), old, new, rendition_count).push(files.last())
    }
}

/// All renditions of one asset.
pub open spec fn files_for(id: Seq<char>, rendition_count: u32) -> Seq<FileRefModel> {
    Seq::new(rendition_count as nat, |r: int| FileRefModel { id, rendition: r as u32 })
}

/// The permanent files that reconciliation adds: all renditions of every
/// promoted asset, in the order of the new list.
pub open spec fn promoted_file_seq(
    old: Seq<Seq<char>>,
    new: Seq<Seq<char>>,
    rendition_count: u32,
) -> Seq<FileRefModel>
    decreases new.len(),
{
    if new.len() == 0 {
        Seq::empty()
    } else if old.contains(new.last()) {
        promoted_file_seq(old, new.drop_last(), rendition_count)
    } else {
        promoted_file_seq(old, new.drop_last(), rendition_count) + files_for(
            new.last(),
            rendition_count,
        )
    }
}

/// The permanent deletions for one dropped asset.
pub open spec fn delete_ops_for(id: Seq<char>, rendition_count: u32) -> Seq<OpModel> {
    Seq::new(rendition_count as nat, |r: int| OpModel::DeletePermanent { id, rendition: r as u32 })
}

/// The operations that promote one asset: make its shard directory, then move
/// every rendition from staging to permanent.
pub open spec fn promote_ops_for(id: Seq<char>, rendition_count: u32) -> Seq<OpModel> {
    seq![OpModel::EnsureShardDir { prefix: id.subrange(0, 2) }] + Seq::new(
        rendition_count as nat,
        |r: int| OpModel::Promote { id, rendition: r as u32 },
    )
}

/// The file deletions of a reconciliation: all renditions of every dropped
/// asset, in the order of the old list.
pub open spec fn drop_op_seq(
    old: Seq<Seq<char>>,
    new: Seq<Seq<char>>,
    rendition_count: u32,
) -> Seq<OpModel>
    decreases old.len(),
{
    if old.len() == 0 {
        Seq::empty()
    } else if new.contains(old.last()) {
        drop_op_seq(old.drop_last(), new, rendition_count)
    } else {
        drop_op_seq(old.drop_last(), new, rendition_count) + delete_ops_for(
            old.last(),
            rendition_count,
        )
    }
}

/// The promotions of a reconciliation, in the order of the new list.
pub open spec fn promote_op_seq(
    old: Seq<Seq<char>>,
    new: Seq<Seq<char>>,
    rendition_count: u32,
) -> Seq<OpModel>
    decreases new.len(),
{
    if new.len() == 0 {
        Seq::empty()
    } else if old.contains(new.last()) {
        promote_op_seq(old, new.drop_last(), rendition_count)
    } else {
        promote_op_seq(old, new.drop_last(), rendition_count) + promote_ops_for(
            new.last(),
            rendition_count,
        )
    }
}

/// The whole file-operation plan of a reconciliation: first the deletions of
/// dropped assets, then the promotions of newly referenced ones.
pub open spec fn reconcile_ops(
    old: Seq<Seq<char>>,
    new: Seq<Seq<char>>,
    rendition_count: u32,
) -> Seq<OpModel> {
    drop_op_seq(old, new, rendition_count) + promote_op_seq(old, new, rendition_count)
}

/// Whether `ids` holds an identifier whose characters are those of `x`.
fn ids_contain(ids: &Vec<String>, x: &String) -> (b: bool)
    ensures
        b == id_views(ids@).contains(x@),
{
    let mut i: usize = 0;
    while i < ids.len()
        invariant
            0 <= i <= ids@.len(),
            forall|j: int| 0 <= j < i ==> id_views(ids@)[j] != x@,
        decreases ids@.len() - i,
    {
        if ids[i] == *x {
            proof {
                assert(id_views(ids@)[i as int] == x@);
            }
            return true;
        }
        i += 1;
    }
    false
}

fn rows_without_owner(rows: &Vec<AttachmentRow>, owner_id: u32) -> (r: Vec<AttachmentRow>)
    ensures
        rows_model(r@) == rows_without(rows_model(rows@), owner_id),
{
    let mut r: Vec<AttachmentRow> = Vec::new();
    let mut i: usize = 0;
    proof {
        assert(rows_model(rows@).take(0) =~= Seq::<RowModel>::empty());
        assert(rows_model(r@) =~= rows_without(rows_model(rows@).take(0), owner_id));
    }
    while i < rows.len()
        invariant
            0 <= i <= rows@.len(),
            rows_model(r@) == rows_without(rows_model(rows@).take(i as int), owner_id),
        decreases rows@.len() - i,
    {
        let keep = rows[i].owner_id != owner_id;
        if keep {
            let row = rows[i].clone();
            r.push(row);
        }
        proof {
            let m = rows_model(rows@);
            assert(m.take(i as int + 1).drop_last() =~= m.take(i as int));
            assert(m.take(i as int + 1).last() == rows@[i as int]@);
            assert(rows_model(r@) =~= rows_without(m.take(i as int + 1), owner_id));
        }
        i += 1;
    }
    proof {
        assert(rows_model(rows@).take(rows@.len() as int) =~= rows_model(rows@));
    }
    r
}

fn build_rows(owner_id: u32, new_ids: &Vec<String>) -> (r: Vec<AttachmentRow>)
    requires
        new_ids@.len() <= u32::MAX as int,
    ensures
        rows_model(r@) == new_rows(owner_id, id_views(new_ids@)),
{
    let mut r: Vec<AttachmentRow> = Vec::new();
    let mut i: usize = 0;
    while i < new_ids.len()
        invariant
            0 <= i <= new_ids@.len() <= u32::MAX as int,
            rows_model(r@).len() == i,
            forall|k: int|
                0 <= k < i ==> rows_model(r@)[k] == (RowModel {
                    owner_id,
                    asset_id: id_views(new_ids@)[k],
                    order: k as u32,
                }),
        decreases new_ids@.len() - i,
    {
        let id = new_ids[i].clone();
        let ghost r0 = r@;
        let row = AttachmentRow { owner_id, asset_id: id, order: i as u32 };
        proof {
            assert(row.asset_id@ == new_ids@[i as int]@);
            assert(row@ == (RowModel {
                owner_id,
                asset_id: id_views(new_ids@)[i as int],
                order: i as u32,
            }));
        }
        r.push(row);
        proof {
            assert forall|k: int| 0 <= k < i + 1 implies rows_model(r@)[k] == (RowModel {
                owner_id,
                asset_id: id_views(new_ids@)[k],
                order: k as u32,
            }) by {
                if k < i {
                    assert(rows_model(r0)[k] == (RowModel {
                        owner_id,
                        asset_id: id_views(new_ids@)[k],
                        order: k as u32,
                    }));
                    assert(rows_model(r@)[k] == rows_model(r0)[k]);
                } else {
                    assert(rows_model(r@)[k] == row@);
                }
            }
        }
        i += 1;
    }
    proof {
        assert(rows_model(r@) =~= new_rows(owner_id, id_views(new_ids@)));
    }
    r
}

fn ledger_surviving(
    ledger: &Vec<StagingEntry>,
    old_ids: &Vec<String>,
    new_ids: &Vec<String>,
) -> (r: Vec<StagingEntry>)
    ensures
        ledger_model(r@) == surviving_ledger(
            ledger_model(ledger@),
            id_views(old_ids@),
            id_views(new_ids@),
        ),
{
    let mut r: Vec<StagingEntry> = Vec::new();
    let mut i: usize = 0;
    proof {
        assert(ledger_model(ledger@).take(0) =~= Seq::<StagingEntryModel>::empty());
        assert(ledger_model(r@) =~= surviving_ledger(
            ledger_model(ledger@).take(0),
            id_views(old_ids@),
            id_views(new_ids@),
        ));
    }
    while i < ledger.len()
        invariant
            0 <= i <= ledger@.len(),
            ledger_model(r@) == surviving_ledger(
                ledger_model(ledger@).take(i as int),
                id_views(old_ids@),
                id_views(new_ids@),
            ),
        decreases ledger@.len() - i,
    {
        let in_new = ids_contain(new_ids, &ledger[i].id);
        let in_old = ids_contain(old_ids, &ledger[i].id);
        if !(in_new && !in_old) {
            let e = ledger[i].clone();
            r.push(e);
        }
        proof {
            let m = ledger_model(ledger@);
            assert(m.take(i as int + 1).drop_last() =~= m.take(i as int));
            assert(m.take(i as int + 1).last() == ledger@[i as int]@);
            assert(ledger_model(r@) =~= surviving_ledger(
                m.take(i as int + 1),
                id_views(old_ids@),
                id_views(new_ids@),
            ));
        }
        i += 1;
    }
    proof {
        assert(ledger_model(ledger@).take(ledger@.len() as int) =~= ledger_model(ledger@));
    }
    r
}

fn staging_files_surviving(
    files: &Vec<FileRef>,
    old_ids: &Vec<String>,
    new_ids: &Vec<String>,
    rendition_count: u32,
) -> (r: Vec<FileRef>)
    ensures
        files_model(r@) == surviving_staging_files(
            files_model(files@),
            id_views(old_ids@),
            id_views(new_ids@),
            rendition_count,
        ),
{
    let mut r: Vec<FileRef> = Vec::new();
    let mut i: usize = 0;
    proof {
        assert(files_model(files@).take(0) =~= Seq::<FileRefModel>::empty());
        assert(files_model(r@) =~= surviving_staging_files(
            files_model(files@).take(0),
            id_views(old_ids@),
            id_views(new_ids@),
            rendition_count,
        ));
    }
    while i < files.len()
        invariant
            0 <= i <= files@.len(),
            files_model(r@) == surviving_staging_files(
                files_model(files@).take(i as int),
                id_views(old_ids@),
                id_views(new_ids@),
                rendition_count,
            ),
        decreases files@.len() - i,
    {
        let in_new = ids_contain(new_ids, &files[i].id);
        let in_old = ids_contain(old_ids, &files[i].id);
        if !(in_new && !in_old && files[i].rendition < rendition_count) {
            let f = files[i].clone();
            r.push(f);
        }
        proof {
            let m = files_model(files@);
            assert(m.take(i as int + 1).drop_last() =~= m.take(i as int));
            assert(m.take(i as int + 1).last() == files@[i as int]@);
            assert(files_model(r@) =~= surviving_staging_files(
                m.take(i as int + 1),
                id_views(old_ids@),
                id_views(new_ids@),
                rendition_count,
            ));
        }
        i += 1;
    }
    proof {
        assert(files_model(files@).take(files@.len() as int) =~= files_model(files@));
    }
    r
}

fn permanent_files_surviving(
    files: &Vec<FileRef>,
    old_ids: &Vec<String>,
    new_ids: &Vec<String>,
    rendition_count: u32,
) -> (r: Vec<FileRef>)
    ensures
        files_model(r@) == surviving_permanent_files(
            files_model(files@),
            id_views(old_ids@),
            id_views(new_ids@),
            rendition_count,
        ),
{
    let mut r: Vec<FileRef> = Vec::new();
    let mut i: usize = 0;
    proof {
        assert(files_model(files@).take(0) =~= Seq::<FileRefModel>::empty());
        assert(files_model(r@) =~= surviving_permanent_files(
            files_model(files@).take(0),
            id_views(old_ids@),
            id_views(new_ids@),
            rendition_count,
        ));
    }
    while i < files.len()
        invariant
            0 <= i <= files@.len(),
            files_model(r@) == surviving_permanent_files(
                files_model(files@).take(i as int),
                id_views(old_ids@),
                id_views(new_ids@),
                rendition_count,
            ),
        decreases files@.len() - i,
    {
        let in_old = ids_contain(old_ids, &files[i].id);
        let in_new = ids_contain(new_ids, &files[i].id);
        if !(in_old && !in_new && files[i].rendition < rendition_count) {
            let f = files[i].clone();
            r.push(f);
        }
        proof {
            let m = files_model(files@);
            assert(m.take(i as int + 1).drop_last() =~= m.take(i as int));
            assert(m.take(i as int + 1).last() == files@[i as int]@);
            assert(files_model(r@) =~= surviving_permanent_files(
                m.take(i as int + 1),
                id_views(old_ids@),
                id_views(new_ids@),
                rendition_count,
            ));
        }
        i += 1;
    }
    proof {
        assert(files_model(files@).take(files@.len() as int) =~= files_model(files@));
    }
    r
}

fn promoted_files_vec(
    old_ids: &Vec<String>,
    new_ids: &Vec<String>,
    rendition_count: u32,
) -> (r: Vec<FileRef>)
    ensures
        files_model(r@) == promoted_file_seq(
            id_views(old_ids@),
            id_views(new_ids@),
            rendition_count,
        ),
{
    let mut r: Vec<FileRef> = Vec::new();
    let mut i: usize = 0;
    proof {
        assert(id_views(new_ids@).take(0) =~= Seq::<Seq<char>>::empty());
        assert(files_model(r@) =~= promoted_file_seq(
            id_views(old_ids@),
            id_views(new_ids@).take(0),
            rendition_count,
        ));
    }
    while i < new_ids.len()
        invariant
            0 <= i <= new_ids@.len(),
            files_model(r@) == promoted_file_seq(
                id_views(old_ids@),
                id_views(new_ids@).take(i as int),
                rendition_count,
            ),
        decreases new_ids@.len() - i,
    {
        let ghost o = id_views(old_ids@);
        let ghost n = id_views(new_ids@);
        let ghost before = files_model(r@);
        if !ids_contain(old_ids, &new_ids[i]) {
            let mut p: u32 = 0;
            while p < rendition_count
                invariant
                    0 <= p <= rendition_count,
                    i < new_ids@.len(),
                    before == promoted_file_seq(o, n.take(i as int), rendition_count),
                    !o.contains(n[i as int]),
                    n[i as int] == new_ids@[i as int]@,
                    files_model(r@) == before + files_for(n[i as int], rendition_count).take(
                        p as int,
                    ),
                decreases rendition_count - p,
            {
                let id = new_ids[i].clone();
                let ghost r0 = r@;
                let f = FileRef { id, rendition: p };
                proof {
                    assert(f@ == files_for(n[i as int], rendition_count)[p as int]);
                }
                r.push(f);
                proof {
                    let ff = files_for(n[i as int], rendition_count);
                    assert(files_model(r@) =~= files_model(r0).push(f@));
                    assert(ff.take(p as int + 1) =~= ff.take(p as int).push(ff[p as int]));
                    assert(files_model(r@) =~= before + ff.take(p as int + 1));
                }
                p += 1;
            }
            proof {
                assert(files_for(n[i as int], rendition_count).take(rendition_count as int)
                    =~= files_for(n[i as int], rendition_count));
            }
        }
        proof {
            assert(n.take(i as int + 1).drop_last() =~= n.take(i as int));
            assert(n.take(i as int + 1).last() == n[i as int]);
            assert(files_model(r@) =~= promoted_file_seq(
                o,
                n.take(i as int + 1),
                rendition_count,
            ));
        }
        i += 1;
    }
    proof {
        assert(id_views(new_ids@).take(new_ids@.len() as int) =~= id_views(new_ids@));
    }
    r
}

fn drop_ops_vec(old_ids: &Vec<String>, new_ids: &Vec<String>, rendition_count: u32) -> (r: Vec<
    FileOp,
>)
    ensures
        ops_model(r@) == drop_op_seq(id_views(old_ids@), id_views(new_ids@), rendition_count),
{
    let mut r: Vec<FileOp> = Vec::new();
    let mut i: usize = 0;
    proof {
        assert(id_views(old_ids@).take(0) =~= Seq::<Seq<char>>::empty());
        assert(ops_model(r@) =~= drop_op_seq(
            id_views(old_ids@).take(0),
            id_views(new_ids@),
            rendition_count,
        ));
    }
    while i < old_ids.len()
        invariant
            0 <= i <= old_ids@.len(),
            ops_model(r@) == drop_op_seq(
                id_views(old_ids@).take(i as int),
                id_views(new_ids@),
                rendition_count,
            ),
        decreases old_ids@.len() - i,
    {
        let ghost o = id_views(old_ids@);
        let ghost n = id_views(new_ids@);
        let ghost before = ops_model(r@);
        if !ids_contain(new_ids, &old_ids[i]) {
            let mut p: u32 = 0;
            while p < rendition_count
                invariant
                    0 <= p <= rendition_count,
                    i < old_ids@.len(),
                    before == drop_op_seq(o.take(i as int), n, rendition_count),
                    !n.contains(o[i as int]),
                    o[i as int] == old_ids@[i as int]@,
                    ops_model(r@) == before + delete_ops_for(o[i as int], rendition_count).take(
                        p as int,
                    ),
                decreases rendition_count - p,
            {
                let id = old_ids[i].clone();
                let ghost r0 = r@;
                let op = FileOp::DeletePermanent { id, rendition: p };
                proof {
                    assert(op@ == delete_ops_for(o[i as int], rendition_count)[p as int]);
                }
                r.push(op);
                proof {
                    let dof = delete_ops_for(o[i as int], rendition_count);
                    assert(ops_model(r@) =~= ops_model(r0).push(op@));
                    assert(dof.take(p as int + 1) =~= dof.take(p as int).push(dof[p as int]));
                    assert(ops_model(r@) =~= before + dof.take(p as int + 1));
                }
                p += 1;
            }
            proof {
                assert(delete_ops_for(o[i as int], rendition_count).take(rendition_count as int)
                    =~= delete_ops_for(o[i as int], rendition_count));
            }
        }
        proof {
            assert(o.take(i as int + 1).drop_last() =~= o.take(i as int));
            assert(o.take(i as int + 1).last() == o[i as int]);
            assert(ops_model(r@) =~= drop_op_seq(o.take(i as int + 1), n, rendition_count));
        }
        i += 1;
    }
    proof {
        assert(id_views(old_ids@).take(old_ids@.len() as int) =~= id_views(old_ids@));
    }
    r
}

fn promote_ops_vec(old_ids: &Vec<String>, new_ids: &Vec<String>, rendition_count: u32) -> (r: Vec<
    FileOp,
>)
    requires
        all_valid(id_views(new_ids@)),
    ensures
        ops_model(r@) == promote_op_seq(id_views(old_ids@), id_views(new_ids@), rendition_count),
{
    let mut r: Vec<FileOp> = Vec::new();
    let mut i: usize = 0;
    proof {
        assert(id_views(new_ids@).take(0) =~= Seq::<Seq<char>>::empty());
        assert(ops_model(r@) =~= promote_op_seq(
            id_views(old_ids@),
            id_views(new_ids@).take(0),
            rendition_count,
        ));
    }
    while i < new_ids.len()
        invariant
            0 <= i <= new_ids@.len(),
            all_valid(id_views(new_ids@)),
            ops_model(r@) == promote_op_seq(
                id_views(old_ids@),
                id_views(new_ids@).take(i as int),
                rendition_count,
            ),
        decreases new_ids@.len() - i,
    {
        let ghost o = id_views(old_ids@);
        let ghost n = id_views(new_ids@);
        let ghost before = ops_model(r@);
        if !ids_contain(old_ids, &new_ids[i]) {
            proof {
                assert(valid_asset_id(n[i as int]));
            }
            let prefix = new_ids[i].as_str().substring_char(0, 2).to_owned();
            r.push(FileOp::EnsureShardDir { prefix });
            proof {
                assert(ops_model(r@) =~= before + promote_ops_for(
                    n[i as int],
                    rendition_count,
                ).take(1));
            }
            let mut p: u32 = 0;
            while p < rendition_count
                invariant
                    0 <= p <= rendition_count,
                    i < new_ids@.len(),
                    before == promote_op_seq(o, n.take(i as int), rendition_count),
                    !o.contains(n[i as int]),
                    n[i as int] == new_ids@[i as int]@,
                    ops_model(r@) == before + promote_ops_for(n[i as int], rendition_count).take(
                        1 + p as int,
                    ),
                decreases rendition_count - p,
            {
                let id = new_ids[i].clone();
                let ghost r0 = r@;
                let op = FileOp::Promote { id, rendition: p };
                proof {
                    assert(op@ == promote_ops_for(n[i as int], rendition_count)[1 + p as int]);
                }
                r.push(op);
                proof {
                    let pof = promote_ops_for(n[i as int], rendition_count);
                    assert(ops_model(r@) =~= ops_model(r0).push(op@));
                    assert(pof.take(1 + p as int + 1) =~= pof.take(1 + p as int).push(
                        pof[1 + p as int],
                    ));
                    assert(ops_model(r@) =~= before + pof.take(1 + p as int + 1));
                }
                p += 1;
            }
            proof {
                assert(promote_ops_for(n[i as int], rendition_count).take(
                    1 + rendition_count as int,
                ) =~= promote_ops_for(n[i as int], rendition_count));
            }
        }
        proof {
            assert(n.take(i as int + 1).drop_last() =~= n.take(i as int));
            assert(n.take(i as int + 1).last() == n[i as int]);
            assert(ops_model(r@) =~= promote_op_seq(o, n.take(i as int + 1), rendition_count));
        }
        i += 1;
    }
    proof {
        assert(id_views(new_ids@).take(new_ids@.len() as int) =~= id_views(new_ids@));
    }
    r
}

impl AssetStore {
    /// Reconcile the attachments of one owner.
    ///
    /// `old_ids` is the owner's currently attached identifier list, in rank
    /// order, as the caller fetched it; `new_ids` is the client-supplied
    /// replacement, which may reorder, add, remove or keep any subset. Every
    /// new identifier is validated first; on the first failure nothing is
    /// mutated and no file operation is returned. On success the owner's rows
    /// exactly mirror `new_ids`, dropped assets lose their permanent
    /// renditions, newly referenced assets move out of staging and lose their
    /// ledger entry, and the returned plan holds exactly the file operations
    /// of those two steps, deletions first. Assets kept by both lists are
    /// untouched on disk.
    ///
    /// The caller must not repeat an identifier in `new_ids`: the attachment
    /// table keys rows by owner and asset, and a repeat would violate that
    /// constraint, not reach this algorithm.
    pub fn reconcile(
        &mut self,
        owner_id: u32,
        old_ids: &Vec<String>,
        new_ids: &Vec<String>,
        rendition_count: u32,
    ) -> (r: Result<Vec<FileOp>, StoreError>)
        requires
            new_ids@.len() <= u32::MAX as int,
            id_views(new_ids@).no_duplicates(),
        ensures
            (r is Ok) <==> all_valid(id_views(new_ids@)),
            r is Err ==> r == Err::<Vec<FileOp>, StoreError>(StoreError::Validation) && *final(self)
                == *old(self),
            r is Ok ==> ({
                let o = id_views(old_ids@);
                let n = id_views(new_ids@);
                &&& final(self)@.attachments == rows_without(old(self)@.attachments, owner_id)
                    + new_rows(owner_id, n)
                &&& final(self)@.staging_ledger == surviving_ledger(
                    old(self)@.staging_ledger,
                    o,
                    n,
                )
                &&& final(self)@.staging_files == surviving_staging_files(
                    old(self)@.staging_files,
                    o,
                    n,
                    rendition_count,
                )
                &&& final(self)@.permanent_files == surviving_permanent_files(
                    old(self)@.permanent_files,
                    o,
                    n,
                    rendition_count,
                ) + promoted_file_seq(o, n, rendition_count)
                &&& ops_model(r->Ok_0@) == reconcile_ops(o, n, rendition_count)
            }),
    {
        let mut i: usize = 0;
        while i < new_ids.len()
            invariant
                0 <= i <= new_ids@.len(),
                forall|j: int| 0 <= j < i ==> valid_asset_id(#[trigger] id_views(new_ids@)[j]),
            decreases new_ids@.len() - i,
        {
            if !is_valid_asset_id(new_ids[i].as_str()) {
                proof {
                    assert(!valid_asset_id(id_views(new_ids@)[i as int]));
                }
                return Err(StoreError::Validation);
            }
            i += 1;
        }
        proof {
            assert(all_valid(id_views(new_ids@)));
        }

        let kept_rows = rows_without_owner(&self.attachments, owner_id);
        let mut owner_rows = build_rows(owner_id, new_ids);
        let mut rows = kept_rows;
        rows.append(&mut owner_rows);

        let mut ops = drop_ops_vec(old_ids, new_ids, rendition_count);
        let mut promotions = promote_ops_vec(old_ids, new_ids, rendition_count);
        ops.append(&mut promotions);

        let ledger = ledger_surviving(&self.staging_ledger, old_ids, new_ids);
        let staging = staging_files_surviving(
            &self.staging_files,
            old_ids,
            new_ids,
            rendition_count,
        );
        let mut permanent = permanent_files_surviving(
            &self.permanent_files,
            old_ids,
            new_ids,
            rendition_count,
        );
        let mut promoted_fs = promoted_files_vec(old_ids, new_ids, rendition_count);
        permanent.append(&mut promoted_fs);

        proof {
            let o = id_views(old_ids@);
            let n = id_views(new_ids@);
            assert(rows_model(rows@) =~= rows_without(rows_model(old(self).attachments@), owner_id)
                + new_rows(owner_id, n));
            assert(files_model(permanent@) =~= surviving_permanent_files(
                files_model(old(self).permanent_files@),
                o,
                n,
                rendition_count,
            ) + promoted_file_seq(o, n, rendition_count));
            assert(ops_model(ops@) =~= reconcile_ops(o, n, rendition_count));
        }

        self.attachments = rows;
        self.staging_ledger = ledger;
        self.staging_files = staging;
        self.permanent_files = permanent;
        Ok(ops)
    }
}

} // verus!
