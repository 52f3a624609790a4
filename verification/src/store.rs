//! The state that the asset subsystem owns, modelled as plain values: the
//! staging ledger table, the per-owner attachment rows, and the rendition
//! files under the staging and permanent roots. A caller that keeps real
//! tables and directories mirrors every transition of this model; the model
//! is what the contracts of upload, reconciliation and garbage collection
//! speak about.

use vstd::prelude::*;

verus! {

/// One row of the staging ledger: an uploaded-but-not-yet-attached asset and
/// the second it was uploaded at.
pub struct StagingEntry {
    pub id: String,
    pub timestamp: u64,
}

/// The mathematical value of a `StagingEntry`.
#[verifier::ext_equal]
pub struct StagingEntryModel {
    pub id: Seq<char>,
    pub timestamp: u64,
}

impl View for StagingEntry {
    type V = StagingEntryModel;

    open spec fn view(&self) -> StagingEntryModel {
        StagingEntryModel { id: self.id@, timestamp: self.timestamp }
    }
}

impl Clone for StagingEntry {
    fn clone(&self) -> (r: Self)
        ensures
            r == *self,
    {
        StagingEntry { id: self.id.clone(), timestamp: self.timestamp }
    }
}

/// One attachment row: owner, asset and zero-based display rank.
pub struct AttachmentRow {
    pub owner_id: u32,
    pub asset_id: String,
    pub order: u32,
}

/// The mathematical value of an `AttachmentRow`.
#[verifier::ext_equal]
pub struct RowModel {
    pub owner_id: u32,
    pub asset_id: Seq<char>,
    pub order: u32,
}

impl View for AttachmentRow {
    type V = RowModel;

    open spec fn view(&self) -> RowModel {
        RowModel { owner_id: self.owner_id, asset_id: self.asset_id@, order: self.order }
    }
}

impl Clone for AttachmentRow {
    fn clone(&self) -> (r: Self)
        ensures
            r == *self,
    {
        AttachmentRow {
            owner_id: self.owner_id,
            asset_id: self.asset_id.clone(),
            order: self.order,
        }
    }
}

/// One rendition file of an asset, in either the staging or the permanent
/// area; which area is decided by which field of the store holds it.
pub struct FileRef {
    pub id: String,
    pub rendition: u32,
}

/// The mathematical value of a `FileRef`.
#[verifier::ext_equal]
pub struct FileRefModel {
    pub id: Seq<char>,
    pub rendition: u32,
}

impl View for FileRef {
    type V = FileRefModel;

    open spec fn view(&self) -> FileRefModel {
        FileRefModel { id: self.id@, rendition: self.rendition }
    }
}

impl Clone for FileRef {
    fn clone(&self) -> (r: Self)
        ensures
            r == *self,
    {
        FileRef { id: self.id.clone(), rendition: self.rendition }
    }
}

/// The whole subsystem state.
pub struct AssetStore {
    /// The staging ledger (one row per staged upload).
    pub staging_ledger: Vec<StagingEntry>,
    /// Rendition files present under the staging root.
    pub staging_files: Vec<FileRef>,
    /// Rendition files present under the permanent root.
    pub permanent_files: Vec<FileRef>,
    /// Attachment rows, all owners together.
    pub attachments: Vec<AttachmentRow>,
}

/// The mathematical value of an `AssetStore`.
#[verifier::ext_equal]
pub struct StoreModel {
    pub staging_ledger: Seq<StagingEntryModel>,
    pub staging_files: Seq<FileRefModel>,
    pub permanent_files: Seq<FileRefModel>,
    pub attachments: Seq<RowModel>,
}

/// The deep view of a ledger vector.
pub open spec fn ledger_model(v: Seq<StagingEntry>) -> Seq<StagingEntryModel> {
    v.map_values(|e: StagingEntry| e@)
}

/// The deep view of a file vector.
pub open spec fn files_model(v: Seq<FileRef>) -> Seq<FileRefModel> {
    v.map_values(|f: FileRef| f@)
}

/// The deep view of a row vector.
pub open spec fn rows_model(v: Seq<AttachmentRow>) -> Seq<RowModel> {
    v.map_values(|r: AttachmentRow| r@)
}

/// The views of a list of identifiers.
pub open spec fn id_views(v: Seq<String>) -> Seq<Seq<char>> {
    v.map_values(|s: String| s@)
}

impl View for AssetStore {
    type V = StoreModel;

    open spec fn view(&self) -> StoreModel {
        StoreModel {
            staging_ledger: ledger_model(self.staging_ledger@),
            staging_files: files_model(self.staging_files@),
            permanent_files: files_model(self.permanent_files@),
            attachments: rows_model(self.attachments@),
        }
    }
}

/// Whether some file of asset `id` is present in `files`.
pub open spec fn has_file_of(files: Seq<FileRefModel>, id: Seq<char>) -> bool {
    exists|i: int| 0 <= i < files.len() && #[trigger] files[i].id == id
}

/// Whether rendition `r` of asset `id` is present in `files`.
pub open spec fn has_file(files: Seq<FileRefModel>, id: Seq<char>, r: u32) -> bool {
    exists|i: int|
        0 <= i < files.len() && #[trigger] files[i] == (FileRefModel { id, rendition: r })
}

/// Whether the ledger holds an entry for asset `id`.
pub open spec fn ledger_has(ledger: Seq<StagingEntryModel>, id: Seq<char>) -> bool {
    exists|i: int| 0 <= i < ledger.len() && #[trigger] ledger[i].id == id
}

/// The rows of one owner, in storage order.
pub open spec fn rows_for_owner(rows: Seq<RowModel>, owner_id: u32) -> Seq<RowModel>
    decreases rows.len(),
{
    if rows.len() == 0 {
        Seq::empty()
    } else if rows.last().owner_id == owner_id {
        rows_for_owner(rows.drop_last(), owner_id).push(rows.last())
    } else {
        rows_for_owner(rows.drop_last(), owner_id)
    }
}

/// The identifiers one owner has attached, in rank order (assuming the rank
/// invariant below).
pub open spec fn owner_ids(rows: Seq<RowModel>, owner_id: u32) -> Seq<Seq<char>> {
    rows_for_owner(rows, owner_id).map_values(|r: RowModel| r.asset_id)
}

/// The attachment table's rank invariant for one owner: the owner's rows
/// carry the ranks `0, 1, ...` in storage order. Reconciliation establishes
/// this and keeps it.
pub open spec fn contiguous_ranks(rows: Seq<RowModel>, owner_id: u32) -> bool {
    forall|k: int|
        0 <= k < rows_for_owner(rows, owner_id).len() ==> (#[trigger] rows_for_owner(
            rows,
            owner_id,
        )[k]).order == k as u32
}

fn vec_has_file(files: &Vec<FileRef>, id: &String, rendition: u32) -> (b: bool)
    ensures
        b == has_file(files_model(files@), id@, rendition),
{
    let mut i: usize = 0;
    while i < files.len()
        invariant
            0 <= i <= files@.len(),
            forall|j: int|
                0 <= j < i ==> files_model(files@)[j] != (FileRefModel { id: id@, rendition }),
        decreases files@.len() - i,
    {
        if files[i].id == *id && files[i].rendition == rendition {
            proof {
                assert(files_model(files@)[i as int] == (FileRefModel { id: id@, rendition }));
            }
            return true;
        }
        i += 1;
    }
    false
}

impl AssetStore {
    /// How many entries the staging ledger holds.
    pub fn ledger_len(&self) -> (r: usize)
        ensures
            r == self@.staging_ledger.len(),
    {
        self.staging_ledger.len()
    }

    /// Whether the staging ledger holds an entry for `id`.
    pub fn ledger_contains(&self, id: &String) -> (b: bool)
        ensures
            b == ledger_has(self@.staging_ledger, id@),
    {
        let mut i: usize = 0;
        while i < self.staging_ledger.len()
            invariant
                0 <= i <= self.staging_ledger@.len(),
                forall|j: int| 0 <= j < i ==> ledger_model(self.staging_ledger@)[j].id != id@,
            decreases self.staging_ledger@.len() - i,
        {
            if self.staging_ledger[i].id == *id {
                proof {
                    assert(ledger_model(self.staging_ledger@)[i as int].id == id@);
                }
                return true;
            }
            i += 1;
        }
        false
    }

    /// Whether rendition `rendition` of asset `id` is present under the
    /// staging root.
    pub fn has_staging_file(&self, id: &String, rendition: u32) -> (b: bool)
        ensures
            b == has_file(self@.staging_files, id@, rendition),
    {
        vec_has_file(&self.staging_files, id, rendition)
    }

    /// Whether rendition `rendition` of asset `id` is present under the
    /// permanent root.
    pub fn has_permanent_file(&self, id: &String, rendition: u32) -> (b: bool)
        ensures
            b == has_file(self@.permanent_files, id@, rendition),
    {
        vec_has_file(&self.permanent_files, id, rendition)
    }

    /// How many attachment rows `owner_id` has.
    pub fn attachment_count(&self, owner_id: u32) -> (r: usize)
        ensures
            r == rows_for_owner(self@.attachments, owner_id).len(),
    {
        let mut count: usize = 0;
        let mut i: usize = 0;
        proof {
            assert(rows_model(self.attachments@).take(0) =~= Seq::<RowModel>::empty());
        }
        while i < self.attachments.len()
            invariant
                0 <= i <= self.attachments@.len(),
                count <= i,
                count == rows_for_owner(
                    rows_model(self.attachments@).take(i as int),
                    owner_id,
                ).len(),
            decreases self.attachments@.len() - i,
        {
            if self.attachments[i].owner_id == owner_id {
                count += 1;
            }
            proof {
                let m = rows_model(self.attachments@);
                assert(m.take(i as int + 1).drop_last() =~= m.take(i as int));
                assert(m.take(i as int + 1).last() == self.attachments@[i as int]@);
            }
            i += 1;
        }
        proof {
            let m = rows_model(self.attachments@);
            assert(m.take(m.len() as int) =~= m);
        }
        count
    }

    /// The identifiers attached to `owner_id`, in storage order: rank order,
    /// under the table's rank invariant.
    pub fn attached_ids(&self, owner_id: u32) -> (r: Vec<String>)
        ensures
            id_views(r@) == owner_ids(rows_model(self.attachments@), owner_id),
    {
        let mut r: Vec<String> = Vec::new();
        let mut i: usize = 0;
        proof {
            assert(rows_model(self.attachments@).take(0) =~= Seq::<RowModel>::empty());
            assert(id_views(r@) =~= owner_ids(
                rows_model(self.attachments@).take(0),
                owner_id,
            ));
        }
        while i < self.attachments.len()
            invariant
                0 <= i <= self.attachments@.len(),
                id_views(r@) == owner_ids(
                    rows_model(self.attachments@).take(i as int),
                    owner_id,
                ),
            decreases self.attachments@.len() - i,
        {
            let ghost r0 = r@;
            if self.attachments[i].owner_id == owner_id {
                r.push(self.attachments[i].asset_id.clone());
            }
            proof {
                let m = rows_model(self.attachments@);
                assert(m.take(i as int + 1).drop_last() =~= m.take(i as int));
                assert(m.take(i as int + 1).last() == self.attachments@[i as int]@);
                let prev = rows_for_owner(m.take(i as int), owner_id);
                let cur = rows_for_owner(m.take(i as int + 1), owner_id);
                if self.attachments@[i as int]@.owner_id == owner_id {
                    assert(cur == prev.push(m.take(i as int + 1).last()));
                    assert(r@ == r0.push(self.attachments@[i as int].asset_id));
                    assert(id_views(r@) =~= id_views(r0).push(
                        m.take(i as int + 1).last().asset_id,
                    ));
                    assert(owner_ids(m.take(i as int + 1), owner_id) =~= owner_ids(
                        m.take(i as int),
                        owner_id,
                    ).push(m.take(i as int + 1).last().asset_id));
                    assert(id_views(r@) =~= owner_ids(m.take(i as int + 1), owner_id));
                } else {
                    assert(cur == prev);
                    assert(id_views(r@) =~= owner_ids(m.take(i as int + 1), owner_id));
                }
            }
            i += 1;
        }
        proof {
            let m = rows_model(self.attachments@);
            assert(m.take(m.len() as int) =~= m);
        }
        r
    }

    /// An empty store: no staged uploads, no files, no attachment rows.
    pub fn new() -> (r: AssetStore)
        ensures
            r@.staging_ledger == Seq::<StagingEntryModel>::empty(),
            r@.staging_files == Seq::<FileRefModel>::empty(),
            r@.permanent_files == Seq::<FileRefModel>::empty(),
            r@.attachments == Seq::<RowModel>::empty(),
    {
        let r = AssetStore {
            staging_ledger: Vec::new(),
            staging_files: Vec::new(),
            permanent_files: Vec::new(),
            attachments: Vec::new(),
        };
        proof {
            assert(r@.staging_ledger =~= Seq::<StagingEntryModel>::empty());
            assert(r@.staging_files =~= Seq::<FileRefModel>::empty());
            assert(r@.permanent_files =~= Seq::<FileRefModel>::empty());
            assert(r@.attachments =~= Seq::<RowModel>::empty());
        }
        r
    }
}

} // verus!
