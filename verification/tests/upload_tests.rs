use graffiti_store::AssetStore;
use graffiti_store::StagingEntry;
use graffiti_store::FileRef;
use graffiti_store::StoreError;
use graffiti_store::is_valid_asset_id;

const NOW: u64 = 1_700_000_000;

/// A small JPEG payload in the data-URI form the upload endpoint receives.
fn jpeg_payload(width: u32, height: u32) -> String {
    let img = image::DynamicImage::ImageRgb8(image::RgbImage::new(width, height));
    let mut buf: Vec<u8> = Vec::new();
    img.write_to(&mut std::io::Cursor::new(&mut buf), image::ImageOutputFormat::Jpeg(90))
        .unwrap();
    format!("data:image/jpeg;base64,{}", base64::encode(&buf))
}

#[test]
fn upload_scenario_small_jpeg() {
    let mut store = AssetStore::new();
    let payload = jpeg_payload(10, 10);
    let sizes = vec![(4u32, 4u32)];

    let outcome = store.upload(&payload, &sizes, NOW).unwrap();

    assert_eq!(outcome.temp_id.len(), 64);
    assert!(is_valid_asset_id(&outcome.temp_id));
    assert_eq!(outcome.renditions.len(), 2);
    assert!(outcome.gc_plan.is_empty());
    assert!(store.ledger_contains(&outcome.temp_id));
    assert!(store.has_staging_file(&outcome.temp_id, 0));
    assert!(store.has_staging_file(&outcome.temp_id, 1));
    assert!(!store.has_staging_file(&outcome.temp_id, 2));
}

#[test]
fn upload_rejects_wrong_prefix() {
    let mut store = AssetStore::new();
    let r = store.upload("data:image/png;base64,AAAA", &vec![(4, 4)], NOW);
    assert_eq!(r.unwrap_err(), StoreError::Validation);
    let r = store.upload("", &vec![(4, 4)], NOW);
    assert_eq!(r.unwrap_err(), StoreError::Validation);
    assert_eq!(store.ledger_len(), 0);
}

#[test]
fn upload_rejects_bad_base64() {
    let mut store = AssetStore::new();
    let r = store.upload("data:image/jpeg;base64,!!!not-base64!!!", &vec![(4, 4)], NOW);
    assert_eq!(r.unwrap_err(), StoreError::Decode);
    assert_eq!(store.ledger_len(), 0);
}

#[test]
fn upload_rejects_bytes_that_are_not_a_jpeg() {
    let mut store = AssetStore::new();
    let not_jpeg = base64::encode(b"plainly not an image");
    let payload = format!("data:image/jpeg;base64,{}", not_jpeg);
    let r = store.upload(&payload, &vec![(4, 4)], NOW);
    assert_eq!(r.unwrap_err(), StoreError::Decode);
    assert_eq!(store.ledger_len(), 0);
}

#[test]
fn upload_sweeps_expired_staging() {
    let stale: String = "f".repeat(64);
    let mut store = AssetStore::new();
    store.staging_ledger.push(StagingEntry { id: stale.clone(), timestamp: NOW - 25 * 3600 });
    store.staging_files.push(FileRef { id: stale.clone(), rendition: 0 });

    let payload = jpeg_payload(8, 8);
    let outcome = store.upload(&payload, &vec![(4, 4)], NOW).unwrap();

    assert!(!store.ledger_contains(&stale));
    assert!(!store.has_staging_file(&stale, 0));
    assert!(store.ledger_contains(&outcome.temp_id));
    assert!(!outcome.gc_plan.is_empty());
}

#[test]
fn attach_then_detach_scenario() {
    // upload one image, attach it to graffiti 7, then save with no images:
    // the rows and the permanent files must both be gone.
    let mut store = AssetStore::new();
    let payload = jpeg_payload(10, 10);
    let outcome = store.upload(&payload, &vec![(4, 4)], NOW).unwrap();
    let temp_id = outcome.temp_id;

    store.reconcile(7, &vec![], &vec![temp_id.clone()], 2).unwrap();
    assert_eq!(store.attached_ids(7), vec![temp_id.clone()]);
    assert!(store.has_permanent_file(&temp_id, 0));
    assert!(store.has_permanent_file(&temp_id, 1));
    assert!(!store.ledger_contains(&temp_id));
    assert!(!store.has_staging_file(&temp_id, 0));
    assert!(!store.has_staging_file(&temp_id, 1));

    store.reconcile(7, &vec![temp_id.clone()], &vec![], 2).unwrap();
    assert_eq!(store.attachment_count(7), 0);
    assert!(!store.has_permanent_file(&temp_id, 0));
    assert!(!store.has_permanent_file(&temp_id, 1));
}

#[test]
fn identical_uploads_get_distinct_ids() {
    let mut store = AssetStore::new();
    let payload = jpeg_payload(10, 10);
    let first = store.upload(&payload, &vec![(4, 4)], NOW).unwrap();
    let second = store.upload(&payload, &vec![(4, 4)], NOW).unwrap();
    assert_ne!(first.temp_id, second.temp_id);
    assert_eq!(store.ledger_len(), 2);
}
