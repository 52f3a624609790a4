use graffiti_store::AssetStore;
use graffiti_store::FileOp;
use graffiti_store::FileRef;
use graffiti_store::StagingEntry;

fn id_of(c: char) -> String {
    std::iter::repeat(c).take(64).collect()
}

const NOW: u64 = 1_700_000_000;

#[test]
fn sweep_removes_expired_and_keeps_fresh() {
    let stale = id_of('1');
    let fresh = id_of('2');
    let mut store = AssetStore::new();
    // 25 hours old: expired; 1 hour old: kept
    store.staging_ledger.push(StagingEntry { id: stale.clone(), timestamp: NOW - 25 * 3600 });
    store.staging_ledger.push(StagingEntry { id: fresh.clone(), timestamp: NOW - 3600 });
    for p in 0..3 {
        store.staging_files.push(FileRef { id: stale.clone(), rendition: p });
        store.staging_files.push(FileRef { id: fresh.clone(), rendition: p });
    }

    let ops = store.sweep(NOW, 3);

    assert!(!store.ledger_contains(&stale));
    assert!(store.ledger_contains(&fresh));
    assert_eq!(store.ledger_len(), 1);
    for p in 0..3 {
        assert!(!store.has_staging_file(&stale, p));
        assert!(store.has_staging_file(&fresh, p));
    }
    assert_eq!(ops.len(), 3);
    for (p, op) in ops.iter().enumerate() {
        match op {
            FileOp::DeleteStaging { id, rendition } => {
                assert_eq!(id, &stale);
                assert_eq!(*rendition, p as u32);
            },
            _ => panic!("a sweep only deletes staging files"),
        }
    }
}

#[test]
fn sweep_boundary_is_strictly_older_than_the_window() {
    let at_window = id_of('3');
    let just_over = id_of('4');
    let mut store = AssetStore::new();
    store.staging_ledger.push(StagingEntry { id: at_window.clone(), timestamp: NOW - 86400 });
    store.staging_ledger.push(StagingEntry { id: just_over.clone(), timestamp: NOW - 86401 });

    let ops = store.sweep(NOW, 3);

    // exactly 24h old survives; one second older does not
    assert!(store.ledger_contains(&at_window));
    assert!(!store.ledger_contains(&just_over));
    assert_eq!(ops.len(), 3);
}

#[test]
fn sweep_of_empty_store_plans_nothing() {
    let mut store = AssetStore::new();
    let ops = store.sweep(NOW, 3);
    assert!(ops.is_empty());
    assert_eq!(store.ledger_len(), 0);
}
