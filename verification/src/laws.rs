//! The laws of the store, proved once and for all inputs: idempotent
//! reconciliation, exact row rewriting, kept assets untouched on disk,
//! promotion clearing the staging area, and garbage collection removing
//! exactly the expired entries.

use vstd::prelude::*;
use crate::gc::entry_expired;
use crate::gc::expired_id;
use crate::gc::surviving_gc_files;
use crate::gc::surviving_gc_ledger;
use crate::plan::OpModel;
use crate::reconcile::delete_ops_for;
use crate::reconcile::drop_op_seq;
use crate::reconcile::dropped;
use crate::reconcile::files_for;
use crate::reconcile::new_rows;
use crate::reconcile::promote_op_seq;
use crate::reconcile::promote_ops_for;
use crate::reconcile::promoted;
use crate::reconcile::promoted_file_seq;
use crate::reconcile::reconcile_ops;
use crate::reconcile::rows_without;
use crate::reconcile::surviving_ledger;
use crate::reconcile::surviving_permanent_files;
use crate::reconcile::surviving_staging_files;
use crate::store::FileRefModel;
use crate::store::RowModel;
use crate::store::StagingEntryModel;
use crate::store::StoreModel;
use crate::store::contiguous_ranks;
use crate::store::has_file;
use crate::store::has_file_of;
use crate::store::ledger_has;
use crate::store::owner_ids;
use crate::store::rows_for_owner;

verus! {

proof fn lemma_drop_op_seq_subset(old: Seq<Seq<char>>, new: Seq<Seq<char>>, rendition_count: u32)
    requires
        forall|i: int| 0 <= i < old.len() ==> new.contains(#[trigger] old[i]),
    ensures
        drop_op_seq(old, new, rendition_count) == Seq::<OpModel>::empty(),
    decreases old.len(),
{
    if old.len() > 0 {
        assert(new.contains(old[old.len() - 1]));
        lemma_drop_op_seq_subset(old.drop_last(), new, rendition_count);
    }
}

proof fn lemma_promote_op_seq_subset(
    old: Seq<Seq<char>>,
    new: Seq<Seq<char>>,
    rendition_count: u32,
)
    requires
        forall|i: int| 0 <= i < new.len() ==> old.contains(#[trigger] new[i]),
    ensures
        promote_op_seq(old, new, rendition_count) == Seq::<OpModel>::empty(),
    decreases new.len(),
{
    if new.len() > 0 {
        assert(old.contains(new[new.len() - 1]));
        lemma_promote_op_seq_subset(old, new.drop_last(), rendition_count);
    }
}

proof fn lemma_promoted_file_seq_subset(
    old: Seq<Seq<char>>,
    new: Seq<Seq<char>>,
    rendition_count: u32,
)
    requires
        forall|i: int| 0 <= i < new.len() ==> old.contains(#[trigger] new[i]),
    ensures
        promoted_file_seq(old, new, rendition_count) == Seq::<FileRefModel>::empty(),
    decreases new.len(),
{
    if new.len() > 0 {
        assert(old.contains(new[new.len() - 1]));
        lemma_promoted_file_seq_subset(old, new.drop_last(), rendition_count);
    }
}

proof fn lemma_surviving_ledger_self(ledger: Seq<StagingEntryModel>, ids: Seq<Seq<char>>)
    ensures
        surviving_ledger(ledger, ids, ids) == ledger,
    decreases ledger.len(),
{
    if ledger.len() > 0 {
        lemma_surviving_ledger_self(ledger.drop_last(), ids);
        assert(!promoted(ids, ids, ledger.last().id));
        assert(surviving_ledger(ledger, ids, ids) =~= ledger);
    }
}

proof fn lemma_surviving_staging_files_self(
    files: Seq<FileRefModel>,
    ids: Seq<Seq<char>>,
    rendition_count: u32,
)
    ensures
        surviving_staging_files(files, ids, ids, rendition_count) == files,
    decreases files.len(),
{
    if files.len() > 0 {
        lemma_surviving_staging_files_self(files.drop_last(), ids, rendition_count);
        assert(!promoted(ids, ids, files.last().id));
        assert(surviving_staging_files(files, ids, ids, rendition_count) =~= files);
    }
}

proof fn lemma_surviving_permanent_files_self(
    files: Seq<FileRefModel>,
    ids: Seq<Seq<char>>,
    rendition_count: u32,
)
    ensures
        surviving_permanent_files(files, ids, ids, rendition_count) == files,
    decreases files.len(),
{
    if files.len() > 0 {
        lemma_surviving_permanent_files_self(files.drop_last(), ids, rendition_count);
        assert(surviving_permanent_files(files, ids, ids, rendition_count) =~= files);
    }
}

proof fn lemma_rows_for_owner_concat(a: Seq<RowModel>, b: Seq<RowModel>, owner_id: u32)
    ensures
        rows_for_owner(a + b, owner_id) == rows_for_owner(a, owner_id) + rows_for_owner(
            b,
            owner_id,
        ),
    decreases b.len(),
{
    if b.len() == 0 {
        assert(a + b =~= a);
        assert(rows_for_owner(a, owner_id) + rows_for_owner(b, owner_id) =~= rows_for_owner(
            a,
            owner_id,
        ));
    } else {
        lemma_rows_for_owner_concat(a, b.drop_last(), owner_id);
        assert((a + b).drop_last() =~= a + b.drop_last());
        assert((a + b).last() == b.last());
        if b.last().owner_id == owner_id {
            assert(rows_for_owner(a, owner_id) + rows_for_owner(b, owner_id) =~= (rows_for_owner(
                a,
                owner_id,
            ) + rows_for_owner(b.drop_last(), owner_id)).push(b.last()));
        }
    }
}

proof fn lemma_rows_without_vs_owner(rows: Seq<RowModel>, owner_id: u32, other: u32)
    ensures
        rows_for_owner(rows_without(rows, owner_id), owner_id) == Seq::<RowModel>::empty(),
        other != owner_id ==> rows_for_owner(rows_without(rows, owner_id), other)
            == rows_for_owner(rows, other),
    decreases rows.len(),
{
    if rows.len() > 0 {
        lemma_rows_without_vs_owner(rows.drop_last(), owner_id, other);
        if rows.last().owner_id != owner_id {
            let w = rows_without(rows.drop_last(), owner_id);
            assert(w.push(rows.last()).drop_last() =~= w);
            assert(w.push(rows.last()).last() == rows.last());
        }
    }
}

proof fn lemma_new_rows_owner(owner_id: u32, ids: Seq<Seq<char>>, other: u32)
    ensures
        rows_for_owner(new_rows(owner_id, ids), owner_id) == new_rows(owner_id, ids),
        other != owner_id ==> rows_for_owner(new_rows(owner_id, ids), other) == Seq::<
            RowModel,
        >::empty(),
    decreases ids.len(),
{
    if ids.len() > 0 {
        lemma_new_rows_owner(owner_id, ids.drop_last(), other);
        assert(new_rows(owner_id, ids).drop_last() =~= new_rows(owner_id, ids.drop_last()));
        assert(new_rows(owner_id, ids).last() == (RowModel {
            owner_id,
            asset_id: ids.last(),
            order: (ids.len() - 1) as u32,
        }));
        assert(rows_for_owner(new_rows(owner_id, ids), owner_id) =~= new_rows(owner_id, ids));
    } else {
        assert(new_rows(owner_id, ids) =~= Seq::<RowModel>::empty());
    }
}

proof fn lemma_rows_for_owner_fields(rows: Seq<RowModel>, owner_id: u32)
    ensures
        forall|k: int|
            0 <= k < rows_for_owner(rows, owner_id).len() ==> (#[trigger] rows_for_owner(
                rows,
                owner_id,
            )[k]).owner_id == owner_id,
    decreases rows.len(),
{
    if rows.len() > 0 {
        lemma_rows_for_owner_fields(rows.drop_last(), owner_id);
        let prev = rows_for_owner(rows.drop_last(), owner_id);
        let cur = rows_for_owner(rows, owner_id);
        assert forall|k: int| 0 <= k < cur.len() implies (#[trigger] cur[k]).owner_id
            == owner_id by {
            if k < prev.len() {
                assert(cur[k] == prev[k]);
            } else {
                assert(cur[k] == rows.last());
            }
        }
    }
}

/// Diff correctness, row part: after reconciliation the stored rows of the
/// reconciled owner are exactly one row per identifier of the new list,
/// ranked by position — so the stored identifier list mirrors the new list,
/// and stays free of repeats whenever the new list is — and every other
/// owner's rows are untouched.
pub proof fn lemma_reconcile_rows(
    attachments: Seq<RowModel>,
    owner_id: u32,
    new: Seq<Seq<char>>,
    other: u32,
)
    ensures
        rows_for_owner(rows_without(attachments, owner_id) + new_rows(owner_id, new), owner_id)
            == new_rows(owner_id, new),
        owner_ids(rows_without(attachments, owner_id) + new_rows(owner_id, new), owner_id) == new,
        other != owner_id ==> rows_for_owner(
            rows_without(attachments, owner_id) + new_rows(owner_id, new),
            other,
        ) == rows_for_owner(attachments, other),
{
    assert(new_rows(owner_id, new).map_values(|r: RowModel| r.asset_id) =~= new);
    lemma_rows_for_owner_concat(
        rows_without(attachments, owner_id),
        new_rows(owner_id, new),
        owner_id,
    );
    lemma_rows_for_owner_concat(rows_without(attachments, owner_id), new_rows(owner_id, new), other);
    lemma_rows_without_vs_owner(attachments, owner_id, other);
    lemma_new_rows_owner(owner_id, new, other);
    assert(Seq::<RowModel>::empty() + new_rows(owner_id, new) =~= new_rows(owner_id, new));
    if other != owner_id {
        assert(rows_for_owner(attachments, other) + Seq::<RowModel>::empty() =~= rows_for_owner(
            attachments,
            other,
        ));
    }
}

/// Reconciliation establishes the rank invariant: afterwards the reconciled
/// owner's rows carry the ranks `0, 1, ...` in storage order, and any other
/// owner that had contiguous ranks still has them.
pub proof fn lemma_reconcile_keeps_ranks(
    attachments: Seq<RowModel>,
    owner_id: u32,
    new: Seq<Seq<char>>,
    other: u32,
)
    ensures
        contiguous_ranks(rows_without(attachments, owner_id) + new_rows(owner_id, new), owner_id),
        other != owner_id && contiguous_ranks(attachments, other) ==> contiguous_ranks(
            rows_without(attachments, owner_id) + new_rows(owner_id, new),
            other,
        ),
{
    lemma_reconcile_rows(attachments, owner_id, new, other);
    let final_rows = rows_without(attachments, owner_id) + new_rows(owner_id, new);
    assert forall|k: int|
        0 <= k < rows_for_owner(final_rows, owner_id).len() implies (#[trigger] rows_for_owner(
        final_rows,
        owner_id,
    )[k]).order == k as u32 by {
        assert(rows_for_owner(final_rows, owner_id)[k] == new_rows(owner_id, new)[k]);
    }
}

/// Idempotence: reconciling an owner against its own current attachment list
/// plans no file operation and leaves every component of the store — ledger,
/// staging files, permanent files, the owner's rows and everyone else's —
/// exactly as it was.
pub proof fn lemma_reconcile_idempotent(
    s: StoreModel,
    owner_id: u32,
    ids: Seq<Seq<char>>,
    rendition_count: u32,
    other: u32,
)
    requires
        ids == owner_ids(s.attachments, owner_id),
        contiguous_ranks(s.attachments, owner_id),
    ensures
        reconcile_ops(ids, ids, rendition_count) == Seq::<OpModel>::empty(),
        surviving_ledger(s.staging_ledger, ids, ids) == s.staging_ledger,
        surviving_staging_files(s.staging_files, ids, ids, rendition_count) == s.staging_files,
        surviving_permanent_files(s.permanent_files, ids, ids, rendition_count)
            + promoted_file_seq(ids, ids, rendition_count) == s.permanent_files,
        rows_for_owner(rows_without(s.attachments, owner_id) + new_rows(owner_id, ids), owner_id)
            == rows_for_owner(s.attachments, owner_id),
        other != owner_id ==> rows_for_owner(
            rows_without(s.attachments, owner_id) + new_rows(owner_id, ids),
            other,
        ) == rows_for_owner(s.attachments, other),
{
    lemma_drop_op_seq_subset(ids, ids, rendition_count);
    lemma_promote_op_seq_subset(ids, ids, rendition_count);
    lemma_promoted_file_seq_subset(ids, ids, rendition_count);
    assert(reconcile_ops(ids, ids, rendition_count) =~= Seq::<OpModel>::empty());
    lemma_surviving_ledger_self(s.staging_ledger, ids);
    lemma_surviving_staging_files_self(s.staging_files, ids, rendition_count);
    lemma_surviving_permanent_files_self(s.permanent_files, ids, rendition_count);
    assert(surviving_permanent_files(s.permanent_files, ids, ids, rendition_count)
        + promoted_file_seq(ids, ids, rendition_count) =~= s.permanent_files);
    lemma_reconcile_rows(s.attachments, owner_id, ids, other);
    lemma_rows_for_owner_fields(s.attachments, owner_id);
    assert(new_rows(owner_id, ids) =~= rows_for_owner(s.attachments, owner_id));
}

/// Whether a file operation reads or writes a file of asset `id`. Making the
/// shard directory touches no file.
pub open spec fn op_touches(op: OpModel, id: Seq<char>) -> bool {
    match op {
        OpModel::DeleteStaging { id: oid, rendition } => oid == id,
        OpModel::DeletePermanent { id: oid, rendition } => oid == id,
        OpModel::EnsureShardDir { prefix } => false,
        OpModel::Promote { id: oid, rendition } => oid == id,
    }
}

proof fn lemma_drop_ops_touch(old: Seq<Seq<char>>, new: Seq<Seq<char>>, rendition_count: u32, id: Seq<char>)
    requires
        new.contains(id),
    ensures
        forall|j: int|
            0 <= j < drop_op_seq(old, new, rendition_count).len() ==> !op_touches(
                #[trigger] drop_op_seq(old, new, rendition_count)[j],
                id,
            ),
    decreases old.len(),
{
    if old.len() > 0 {
        lemma_drop_ops_touch(old.drop_last(), new, rendition_count, id);
        let prev = drop_op_seq(old.drop_last(), new, rendition_count);
        let cur = drop_op_seq(old, new, rendition_count);
        assert forall|j: int| 0 <= j < cur.len() implies !op_touches(#[trigger] cur[j], id) by {
            if j < prev.len() {
                assert(cur[j] == prev[j]);
            } else {
                assert(!new.contains(old.last()));
                assert(old.last() != id);
                assert(cur[j] == delete_ops_for(old.last(), rendition_count)[j - prev.len()]);
            }
        }
    }
}

proof fn lemma_promote_ops_touch(
    old: Seq<Seq<char>>,
    new: Seq<Seq<char>>,
    rendition_count: u32,
    id: Seq<char>,
)
    requires
        old.contains(id),
    ensures
        forall|j: int|
            0 <= j < promote_op_seq(old, new, rendition_count).len() ==> !op_touches(
                #[trigger] promote_op_seq(old, new, rendition_count)[j],
                id,
            ),
    decreases new.len(),
{
    if new.len() > 0 {
        lemma_promote_ops_touch(old, new.drop_last(), rendition_count, id);
        let prev = promote_op_seq(old, new.drop_last(), rendition_count);
        let cur = promote_op_seq(old, new, rendition_count);
        assert forall|j: int| 0 <= j < cur.len() implies !op_touches(#[trigger] cur[j], id) by {
            if j < prev.len() {
                assert(cur[j] == prev[j]);
            } else {
                assert(!old.contains(new.last()));
                assert(new.last() != id);
                assert(cur[j] == promote_ops_for(new.last(), rendition_count)[j - prev.len()]);
            }
        }
    }
}

/// No redundant move: an asset referenced by both the old and the new list is
/// untouched on disk — no operation of the reconciliation plan deletes or
/// moves one of its files.
pub proof fn lemma_kept_assets_untouched(
    old: Seq<Seq<char>>,
    new: Seq<Seq<char>>,
    rendition_count: u32,
    id: Seq<char>,
)
    requires
        old.contains(id),
        new.contains(id),
    ensures
        forall|j: int|
            0 <= j < reconcile_ops(old, new, rendition_count).len() ==> !op_touches(
                #[trigger] reconcile_ops(old, new, rendition_count)[j],
                id,
            ),
{
    lemma_drop_ops_touch(old, new, rendition_count, id);
    lemma_promote_ops_touch(old, new, rendition_count, id);
}

proof fn lemma_surviving_ledger_no_promoted(
    ledger: Seq<StagingEntryModel>,
    old: Seq<Seq<char>>,
    new: Seq<Seq<char>>,
    id: Seq<char>,
)
    requires
        promoted(old, new, id),
    ensures
        forall|i: int|
            0 <= i < surviving_ledger(ledger, old, new).len() ==> (#[trigger] surviving_ledger(
                ledger,
                old,
                new,
            )[i]).id != id,
    decreases ledger.len(),
{
    if ledger.len() > 0 {
        lemma_surviving_ledger_no_promoted(ledger.drop_last(), old, new, id);
        let prev = surviving_ledger(ledger.drop_last(), old, new);
        let cur = surviving_ledger(ledger, old, new);
        assert forall|i: int| 0 <= i < cur.len() implies (#[trigger] cur[i]).id != id by {
            if i < prev.len() {
                assert(cur[i] == prev[i]);
            } else {
                assert(cur[i] == ledger.last());
                assert(!promoted(old, new, ledger.last().id));
            }
        }
    }
}

proof fn lemma_surviving_staging_no_promoted(
    files: Seq<FileRefModel>,
    old: Seq<Seq<char>>,
    new: Seq<Seq<char>>,
    rendition_count: u32,
    id: Seq<char>,
)
    requires
        promoted(old, new, id),
        forall|j: int|
            0 <= j < files.len() ==> ((#[trigger] files[j]).id == id ==> files[j].rendition
                < rendition_count),
    ensures
        forall|i: int|
            0 <= i < surviving_staging_files(files, old, new, rendition_count).len() ==> (
            #[trigger] surviving_staging_files(files, old, new, rendition_count)[i]).id != id,
    decreases files.len(),
{
    if files.len() > 0 {
        lemma_surviving_staging_no_promoted(files.drop_last(), old, new, rendition_count, id);
        let prev = surviving_staging_files(files.drop_last(), old, new, rendition_count);
        let cur = surviving_staging_files(files, old, new, rendition_count);
        assert forall|i: int| 0 <= i < cur.len() implies (#[trigger] cur[i]).id != id by {
            if i < prev.len() {
                assert(cur[i] == prev[i]);
            } else {
                assert(cur[i] == files.last());
                assert(files[files.len() - 1] == files.last());
            }
        }
    }
}

/// Promotion clears staging: after reconciliation a newly referenced asset
/// has no ledger entry and no staging file left. (A staging file's rendition
/// index is always below the rendition count: uploads write exactly those.)
pub proof fn lemma_promotion_clears_staging(
    ledger: Seq<StagingEntryModel>,
    files: Seq<FileRefModel>,
    old: Seq<Seq<char>>,
    new: Seq<Seq<char>>,
    rendition_count: u32,
    id: Seq<char>,
)
    requires
        promoted(old, new, id),
        forall|j: int|
            0 <= j < files.len() ==> ((#[trigger] files[j]).id == id ==> files[j].rendition
                < rendition_count),
    ensures
        !ledger_has(surviving_ledger(ledger, old, new), id),
        !has_file_of(surviving_staging_files(files, old, new, rendition_count), id),
{
    lemma_surviving_ledger_no_promoted(ledger, old, new, id);
    lemma_surviving_staging_no_promoted(files, old, new, rendition_count, id);
}

/// Garbage collection is exact on the ledger: a sweep at time `now` keeps an
/// entry if and only if the ledger held it and it was not yet expired.
pub proof fn lemma_gc_ledger_exact(ledger: Seq<StagingEntryModel>, now: u64)
    ensures
        forall|e: StagingEntryModel| #[trigger]
            surviving_gc_ledger(ledger, now).contains(e) <==> (ledger.contains(e)
                && !entry_expired(e.timestamp, now)),
    decreases ledger.len(),
{
    if ledger.len() > 0 {
        lemma_gc_ledger_exact(ledger.drop_last(), now);
        assert forall|e: StagingEntryModel| #[trigger]
            surviving_gc_ledger(ledger, now).contains(e) implies (ledger.contains(e)
            && !entry_expired(e.timestamp, now)) by {
            if surviving_gc_ledger(ledger, now).contains(e) {
                let s = surviving_gc_ledger(ledger, now);
                let i = choose|i: int| 0 <= i < s.len() && s[i] == e;
                if entry_expired(ledger.last().timestamp, now) {
                    assert(surviving_gc_ledger(ledger.drop_last(), now).contains(e));
                    assert(ledger.drop_last().contains(e));
                    let j = choose|j: int|
                        0 <= j < ledger.drop_last().len() && ledger.drop_last()[j] == e;
                    assert(ledger[j] == e);
                } else {
                    let prev = surviving_gc_ledger(ledger.drop_last(), now);
                    if i < prev.len() {
                        assert(prev.contains(e));
                        let j = choose|j: int|
                            0 <= j < ledger.drop_last().len() && ledger.drop_last()[j] == e;
                        assert(ledger[j] == e);
                    } else {
                        assert(e == ledger.last());
                        assert(ledger[ledger.len() - 1] == e);
                    }
                }
            }
        }
        assert forall|e: StagingEntryModel|
            (ledger.contains(e) && !entry_expired(e.timestamp, now)) implies #[trigger]
            surviving_gc_ledger(ledger, now).contains(e) by {
            if ledger.contains(e) && !entry_expired(e.timestamp, now) {
                let j = choose|j: int| 0 <= j < ledger.len() && ledger[j] == e;
                let prev = surviving_gc_ledger(ledger.drop_last(), now);
                if j < ledger.len() - 1 {
                    assert(ledger.drop_last()[j] == e);
                    assert(ledger.drop_last().contains(e));
                    assert(prev.contains(e));
                    let k = choose|k: int| 0 <= k < prev.len() && prev[k] == e;
                    if !entry_expired(ledger.last().timestamp, now) {
                        assert(surviving_gc_ledger(ledger, now)[k] == e);
                    }
                } else {
                    assert(e == ledger.last());
                    let s = surviving_gc_ledger(ledger, now);
                    assert(s[s.len() - 1] == e);
                }
            }
        }
    }
}

proof fn lemma_gc_files_no_expired(
    files: Seq<FileRefModel>,
    ledger: Seq<StagingEntryModel>,
    now: u64,
    rendition_count: u32,
    id: Seq<char>,
)
    requires
        expired_id(ledger, now, id),
        forall|j: int|
            0 <= j < files.len() ==> ((#[trigger] files[j]).id == id ==> files[j].rendition
                < rendition_count),
    ensures
        forall|i: int|
            0 <= i < surviving_gc_files(files, ledger, now, rendition_count).len() ==> (
            #[trigger] surviving_gc_files(files, ledger, now, rendition_count)[i]).id != id,
    decreases files.len(),
{
    if files.len() > 0 {
        lemma_gc_files_no_expired(files.drop_last(), ledger, now, rendition_count, id);
        let prev = surviving_gc_files(files.drop_last(), ledger, now, rendition_count);
        let cur = surviving_gc_files(files, ledger, now, rendition_count);
        assert forall|i: int| 0 <= i < cur.len() implies (#[trigger] cur[i]).id != id by {
            if i < prev.len() {
                assert(cur[i] == prev[i]);
            } else {
                assert(cur[i] == files.last());
                assert(files[files.len() - 1] == files.last());
            }
        }
    }
}

/// Garbage collection clears expired assets: after a sweep no staging file of
/// an asset with an expired ledger entry remains, while files of assets
/// without an expired entry are all kept.
pub proof fn lemma_gc_files_exact(
    files: Seq<FileRefModel>,
    ledger: Seq<StagingEntryModel>,
    now: u64,
    rendition_count: u32,
    id: Seq<char>,
)
    requires
        forall|j: int|
            0 <= j < files.len() ==> ((#[trigger] files[j]).id == id ==> files[j].rendition
                < rendition_count),
    ensures
        expired_id(ledger, now, id) ==> !has_file_of(
            surviving_gc_files(files, ledger, now, rendition_count),
            id,
        ),
        !expired_id(ledger, now, id) ==> forall|j: int|
            0 <= j < files.len() && (#[trigger] files[j]).id == id ==> surviving_gc_files(
                files,
                ledger,
                now,
                rendition_count,
            ).contains(files[j]),
    decreases files.len(),
{
    if expired_id(ledger, now, id) {
        lemma_gc_files_no_expired(files, ledger, now, rendition_count, id);
    } else {
        if files.len() > 0 {
            lemma_gc_files_exact(files.drop_last(), ledger, now, rendition_count, id);
            assert forall|j: int|
                0 <= j < files.len() && (#[trigger] files[j]).id == id implies surviving_gc_files(
                files,
                ledger,
                now,
                rendition_count,
            ).contains(files[j]) by {
                let s = surviving_gc_files(files, ledger, now, rendition_count);
                let prev = surviving_gc_files(files.drop_last(), ledger, now, rendition_count);
                if j < files.len() - 1 {
                    assert(files.drop_last()[j] == files[j]);
                    assert(prev.contains(files[j]));
                    let k = choose|k: int| 0 <= k < prev.len() && prev[k] == files[j];
                    if expired_id(ledger, now, files.last().id) && files.last().rendition
                        < rendition_count {
                        assert(s[k] == files[j]);
                    } else {
                        assert(s[k] == files[j]);
                    }
                } else {
                    assert(files[j] == files.last());
                    assert(s[s.len() - 1] == files[j]);
                }
            }
        }
    }
}

/// Every attached asset, of every owner, has all of its permanent renditions
/// on file.
pub open spec fn attachment_files_ok(
    rows: Seq<RowModel>,
    files: Seq<FileRefModel>,
    rendition_count: u32,
) -> bool {
    forall|k: int, p: u32|
        0 <= k < rows.len() && p < rendition_count ==> #[trigger] has_file(
            files,
            rows[k].asset_id,
            p,
        )
}

/// No asset is attached to two different owners: every upload mints a fresh
/// random identifier, and a save attaches it to one record.
pub open spec fn assets_unshared(rows: Seq<RowModel>) -> bool {
    forall|i: int, j: int|
        0 <= i < rows.len() && 0 <= j < rows.len() && (#[trigger] rows[i]).asset_id == (
        #[trigger] rows[j]).asset_id ==> rows[i].owner_id == rows[j].owner_id
}

proof fn lemma_rows_for_owner_membership(rows: Seq<RowModel>, owner_id: u32, k: int)
    requires
        0 <= k < rows_for_owner(rows, owner_id).len(),
    ensures
        rows.contains(rows_for_owner(rows, owner_id)[k]),
    decreases rows.len(),
{
    let prev = rows_for_owner(rows.drop_last(), owner_id);
    let cur = rows_for_owner(rows, owner_id);
    if k < prev.len() {
        lemma_rows_for_owner_membership(rows.drop_last(), owner_id, k);
        assert(cur[k] == prev[k]);
        let j = choose|j: int| 0 <= j < rows.drop_last().len() && rows.drop_last()[j] == prev[k];
        assert(rows[j] == cur[k]);
    } else {
        assert(cur[k] == rows.last());
        assert(rows[rows.len() - 1] == cur[k]);
    }
}

proof fn lemma_rows_without_membership(rows: Seq<RowModel>, owner_id: u32, k: int)
    requires
        0 <= k < rows_without(rows, owner_id).len(),
    ensures
        rows.contains(rows_without(rows, owner_id)[k]),
        rows_without(rows, owner_id)[k].owner_id != owner_id,
    decreases rows.len(),
{
    let prev = rows_without(rows.drop_last(), owner_id);
    let cur = rows_without(rows, owner_id);
    if k < prev.len() {
        lemma_rows_without_membership(rows.drop_last(), owner_id, k);
        assert(cur[k] == prev[k]);
        let j = choose|j: int| 0 <= j < rows.drop_last().len() && rows.drop_last()[j] == prev[k];
        assert(rows[j] == cur[k]);
    } else {
        assert(cur[k] == rows.last());
        assert(rows[rows.len() - 1] == cur[k]);
    }
}

proof fn lemma_surviving_permanent_keeps(
    files: Seq<FileRefModel>,
    old: Seq<Seq<char>>,
    new: Seq<Seq<char>>,
    rendition_count: u32,
    f: FileRefModel,
)
    requires
        files.contains(f),
        !dropped(old, new, f.id),
    ensures
        surviving_permanent_files(files, old, new, rendition_count).contains(f),
    decreases files.len(),
{
    let j = choose|j: int| 0 <= j < files.len() && files[j] == f;
    let prev = surviving_permanent_files(files.drop_last(), old, new, rendition_count);
    let cur = surviving_permanent_files(files, old, new, rendition_count);
    if j < files.len() - 1 {
        assert(files.drop_last()[j] == f);
        assert(files.drop_last().contains(f));
        lemma_surviving_permanent_keeps(files.drop_last(), old, new, rendition_count, f);
        let k = choose|k: int| 0 <= k < prev.len() && prev[k] == f;
        assert(cur[k] == f);
    } else {
        assert(f == files.last());
        assert(cur[cur.len() - 1] == f);
    }
}

proof fn lemma_promoted_file_seq_has(
    old: Seq<Seq<char>>,
    new: Seq<Seq<char>>,
    rendition_count: u32,
    id: Seq<char>,
    p: u32,
)
    requires
        new.contains(id),
        !old.contains(id),
        p < rendition_count,
    ensures
        has_file(promoted_file_seq(old, new, rendition_count), id, p),
    decreases new.len(),
{
    let base = promoted_file_seq(old, new.drop_last(), rendition_count);
    let cur = promoted_file_seq(old, new, rendition_count);
    if new.last() == id {
        assert(cur == base + files_for(id, rendition_count));
        assert(cur[base.len() + p as int] == files_for(id, rendition_count)[p as int]);
        assert(cur[base.len() + p as int] == (FileRefModel { id, rendition: p }));
    } else {
        let j = choose|j: int| 0 <= j < new.len() && new[j] == id;
        assert(j < new.len() - 1);
        assert(new.drop_last()[j] == id);
        assert(new.drop_last().contains(id));
        lemma_promoted_file_seq_has(old, new.drop_last(), rendition_count, id, p);
        let k = choose|k: int|
            0 <= k < base.len() && base[k] == (FileRefModel { id, rendition: p });
        assert(cur[k] == (FileRefModel { id, rendition: p }));
    }
}

/// The attachment invariant survives reconciliation: when every attached
/// asset of every owner has all its permanent renditions on file, no asset is
/// shared between two owners, and the old list is the reconciled owner's
/// current one, then after the reconciliation every attached asset of every
/// owner still has all its renditions.
pub proof fn lemma_reconcile_preserves_attachment_files(
    s: StoreModel,
    owner_id: u32,
    old: Seq<Seq<char>>,
    new: Seq<Seq<char>>,
    rendition_count: u32,
)
    requires
        attachment_files_ok(s.attachments, s.permanent_files, rendition_count),
        assets_unshared(s.attachments),
        old == owner_ids(s.attachments, owner_id),
    ensures
        attachment_files_ok(
            rows_without(s.attachments, owner_id) + new_rows(owner_id, new),
            surviving_permanent_files(s.permanent_files, old, new, rendition_count)
                + promoted_file_seq(old, new, rendition_count),
            rendition_count,
        ),
{
    let w = rows_without(s.attachments, owner_id);
    let final_rows = w + new_rows(owner_id, new);
    let kept = surviving_permanent_files(s.permanent_files, old, new, rendition_count);
    let moved = promoted_file_seq(old, new, rendition_count);
    assert forall|k: int, p: u32|
        0 <= k < final_rows.len() && p < rendition_count implies #[trigger] has_file(
        kept + moved,
        final_rows[k].asset_id,
        p,
    ) by {
        let asset = final_rows[k].asset_id;
        if k < w.len() {
            // a row of another owner: its asset is not in the old list (no
            // sharing), so none of its files is dropped
            assert(final_rows[k] == w[k]);
            lemma_rows_without_membership(s.attachments, owner_id, k);
            let j = choose|j: int| 0 <= j < s.attachments.len() && s.attachments[j] == w[k];
            assert(has_file(s.permanent_files, s.attachments[j].asset_id, p));
            if dropped(old, new, asset) {
                let t = choose|t: int| 0 <= t < old.len() && old[t] == asset;
                assert(old[t] == rows_for_owner(s.attachments, owner_id)[t].asset_id);
                lemma_rows_for_owner_membership(s.attachments, owner_id, t);
                lemma_rows_for_owner_fields(s.attachments, owner_id);
                let orow = rows_for_owner(s.attachments, owner_id)[t];
                let u = choose|u: int|
                    0 <= u < s.attachments.len() && s.attachments[u] == orow;
                assert(s.attachments[j].asset_id == s.attachments[u].asset_id);
                assert(false);
            }
            let ff = FileRefModel { id: asset, rendition: p };
            let fj = choose|fj: int|
                0 <= fj < s.permanent_files.len() && s.permanent_files[fj] == ff;
            assert(s.permanent_files.contains(ff));
            lemma_surviving_permanent_keeps(s.permanent_files, old, new, rendition_count, ff);
            let kk = choose|kk: int| 0 <= kk < kept.len() && kept[kk] == ff;
            assert((kept + moved)[kk] == ff);
        } else {
            // a row of the reconciled owner: its asset is either kept, and
            // its old files survive, or newly promoted, and its files were
            // just moved in
            assert(final_rows[k] == new_rows(owner_id, new)[k - w.len()]);
            assert(asset == new[k - w.len()]);
            assert(new.contains(asset));
            if old.contains(asset) {
                let t = choose|t: int| 0 <= t < old.len() && old[t] == asset;
                assert(old[t] == rows_for_owner(s.attachments, owner_id)[t].asset_id);
                lemma_rows_for_owner_membership(s.attachments, owner_id, t);
                let orow = rows_for_owner(s.attachments, owner_id)[t];
                let u = choose|u: int|
                    0 <= u < s.attachments.len() && s.attachments[u] == orow;
                assert(has_file(s.permanent_files, s.attachments[u].asset_id, p));
                assert(!dropped(old, new, asset));
                let ff = FileRefModel { id: asset, rendition: p };
                let fj = choose|fj: int|
                    0 <= fj < s.permanent_files.len() && s.permanent_files[fj] == ff;
                assert(s.permanent_files.contains(ff));
                lemma_surviving_permanent_keeps(
                    s.permanent_files,
                    old,
                    new,
                    rendition_count,
                    ff,
                );
                let kk = choose|kk: int| 0 <= kk < kept.len() && kept[kk] == ff;
                assert((kept + moved)[kk] == ff);
            } else {
                lemma_promoted_file_seq_has(old, new, rendition_count, asset, p);
                let ff = FileRefModel { id: asset, rendition: p };
                let kk = choose|kk: int| 0 <= kk < moved.len() && moved[kk] == ff;
                assert((kept + moved)[kept.len() + kk] == ff);
            }
        }
    }
}

} // verus!
