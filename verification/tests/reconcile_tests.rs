use graffiti_store::AssetStore;
use graffiti_store::AttachmentRow;
use graffiti_store::FileOp;
use graffiti_store::FileRef;
use graffiti_store::StagingEntry;
use graffiti_store::StoreError;

fn id_of(c: char) -> String {
    std::iter::repeat(c).take(64).collect()
}

/// A store where `owner` has `ids` attached in order, with all their
/// permanent rendition files present.
fn store_with_attached(owner: u32, ids: &[String], renditions: u32) -> AssetStore {
    let mut store = AssetStore::new();
    for (k, id) in ids.iter().enumerate() {
        store.attachments.push(AttachmentRow {
            owner_id: owner,
            asset_id: id.clone(),
            order: k as u32,
        });
        for p in 0..renditions {
            store.permanent_files.push(FileRef { id: id.clone(), rendition: p });
        }
    }
    store
}

#[test]
fn diff_correctness_drop_and_reorder() {
    let a = id_of('a');
    let b = id_of('b');
    let c = id_of('c');
    let owner = 1u32;
    let old = vec![a.clone(), b.clone(), c.clone()];
    let mut store = store_with_attached(owner, &old, 3);
    let new = vec![c.clone(), a.clone()];

    let ops = store.reconcile(owner, &old, &new, 3).unwrap();

    assert_eq!(store.attached_ids(owner), vec![c.clone(), a.clone()]);
    assert_eq!(store.attachment_count(owner), 2);
    for p in 0..3 {
        assert!(!store.has_permanent_file(&b, p));
        assert!(store.has_permanent_file(&a, p));
        assert!(store.has_permanent_file(&c, p));
    }
    // the plan deletes b's three renditions and nothing else
    assert_eq!(ops.len(), 3);
    for (p, op) in ops.iter().enumerate() {
        match op {
            FileOp::DeletePermanent { id, rendition } => {
                assert_eq!(id, &b);
                assert_eq!(*rendition, p as u32);
            },
            _ => panic!("unexpected operation in a pure-drop plan"),
        }
    }
}

#[test]
fn idempotent_reconcile_plans_nothing() {
    let a = id_of('a');
    let b = id_of('b');
    let owner = 9u32;
    let ids = vec![a.clone(), b.clone()];
    let mut store = store_with_attached(owner, &ids, 3);
    store.staging_ledger.push(StagingEntry { id: id_of('d'), timestamp: 5 });

    let ops = store.reconcile(owner, &ids, &ids, 3).unwrap();

    assert!(ops.is_empty());
    assert_eq!(store.attached_ids(owner), ids);
    assert_eq!(store.ledger_len(), 1);
    for p in 0..3 {
        assert!(store.has_permanent_file(&a, p));
        assert!(store.has_permanent_file(&b, p));
    }
    // the rows carry the same ranks as before
    assert_eq!(store.attachments.len(), 2);
    assert_eq!(store.attachments[0].order, 0);
    assert_eq!(store.attachments[1].order, 1);
}

#[test]
fn fail_fast_validation_mutates_nothing() {
    let a = id_of('a');
    let owner = 4u32;
    let old = vec![a.clone()];
    let mut store = store_with_attached(owner, &old, 3);
    let bad = vec![a.clone(), "not-a-valid-id".to_string()];

    let r = store.reconcile(owner, &old, &bad, 3);

    assert_eq!(r.unwrap_err(), StoreError::Validation);
    assert_eq!(store.attached_ids(owner), old);
    for p in 0..3 {
        assert!(store.has_permanent_file(&a, p));
    }
}

#[test]
fn uppercase_id_is_rejected() {
    let mut store = AssetStore::new();
    let bad: String = "A".repeat(64);
    let r = store.reconcile(2, &vec![], &vec![bad], 3);
    assert_eq!(r.unwrap_err(), StoreError::Validation);
    assert_eq!(store.attachment_count(2), 0);
}

#[test]
fn promotion_clears_staging_and_plans_moves() {
    let x = id_of('e');
    let owner = 7u32;
    let mut store = AssetStore::new();
    store.staging_ledger.push(StagingEntry { id: x.clone(), timestamp: 100 });
    for p in 0..3 {
        store.staging_files.push(FileRef { id: x.clone(), rendition: p });
    }

    let ops = store.reconcile(owner, &vec![], &vec![x.clone()], 3).unwrap();

    assert!(!store.ledger_contains(&x));
    for p in 0..3 {
        assert!(!store.has_staging_file(&x, p));
        assert!(store.has_permanent_file(&x, p));
    }
    assert_eq!(store.attached_ids(owner), vec![x.clone()]);
    assert_eq!(ops.len(), 4);
    match &ops[0] {
        FileOp::EnsureShardDir { prefix } => assert_eq!(prefix, "ee"),
        _ => panic!("a promotion starts by making the shard directory"),
    }
    for p in 0..3u32 {
        match &ops[1 + p as usize] {
            FileOp::Promote { id, rendition } => {
                assert_eq!(id, &x);
                assert_eq!(*rendition, p);
            },
            _ => panic!("a promotion moves each rendition"),
        }
    }
}

#[test]
fn kept_assets_are_untouched() {
    let a = id_of('a');
    let b = id_of('b');
    let owner = 3u32;
    let old = vec![a.clone(), b.clone()];
    let mut store = store_with_attached(owner, &old, 2);
    let new = vec![b.clone(), a.clone()];

    let ops = store.reconcile(owner, &old, &new, 2).unwrap();

    // pure reorder: no file operation at all
    assert!(ops.is_empty());
    assert_eq!(store.attached_ids(owner), new);
    assert_eq!(store.attachments[0].order, 0);
    assert_eq!(store.attachments[1].order, 1);
}

#[test]
fn other_owners_are_untouched() {
    let a = id_of('a');
    let b = id_of('b');
    let mut store = store_with_attached(1, &[a.clone()], 2);
    store.attachments.push(AttachmentRow { owner_id: 2, asset_id: b.clone(), order: 0 });
    for p in 0..2 {
        store.permanent_files.push(FileRef { id: b.clone(), rendition: p });
    }

    store.reconcile(1, &vec![a.clone()], &vec![], 2).unwrap();

    assert_eq!(store.attachment_count(1), 0);
    assert_eq!(store.attached_ids(2), vec![b.clone()]);
    for p in 0..2 {
        assert!(!store.has_permanent_file(&a, p));
        assert!(store.has_permanent_file(&b, p));
    }
}
