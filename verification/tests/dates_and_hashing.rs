use snapshoot::dates::{SnapDate, SnapshotBaseFolder};
use snapshoot::engine::SnapshotProcess;
use snapshoot::errors::SnapError;

fn date(y: u32, m: u32, d: u32) -> SnapDate {
    SnapDate::new(y, m, d).unwrap()
}

#[test]
fn today_folder_is_the_dashed_date_under_the_destination() {
    let resolver = SnapshotBaseFolder::default();
    let d = date(2026, 10, 12);
    assert_eq!(resolver.create_today("/backups", &d), "/backups/2026-10-12");
}

#[test]
fn date_parts_are_zero_padded() {
    let resolver = SnapshotBaseFolder::default();
    let d = date(3, 1, 5);
    assert_eq!(resolver.create_today("/b", &d), "/b/0003-01-05");
}

#[test]
fn trailing_slash_in_the_base_is_kept_single() {
    let resolver = SnapshotBaseFolder::default();
    let d = date(2026, 10, 12);
    assert_eq!(resolver.create_today("/backups/", &d), "/backups/2026-10-12");
}

#[test]
fn yesterday_crosses_month_and_year_boundaries() {
    let resolver = SnapshotBaseFolder::default();
    assert_eq!(
        resolver.get_yesterday("/b", &date(2026, 10, 12)),
        Ok("/b/2026-10-11".to_string())
    );
    assert_eq!(
        resolver.get_yesterday("/b", &date(2026, 1, 1)),
        Ok("/b/2025-12-31".to_string())
    );
    assert_eq!(
        resolver.get_yesterday("/b", &date(2026, 5, 1)),
        Ok("/b/2026-04-30".to_string())
    );
}

#[test]
fn yesterday_knows_leap_years() {
    let resolver = SnapshotBaseFolder::default();
    assert_eq!(
        resolver.get_yesterday("/b", &date(2024, 3, 1)),
        Ok("/b/2024-02-29".to_string())
    );
    assert_eq!(
        resolver.get_yesterday("/b", &date(2023, 3, 1)),
        Ok("/b/2023-02-28".to_string())
    );
    assert_eq!(
        resolver.get_yesterday("/b", &date(2000, 3, 1)),
        Ok("/b/2000-02-29".to_string())
    );
    assert_eq!(
        resolver.get_yesterday("/b", &date(1900, 3, 1)),
        Ok("/b/1900-02-28".to_string())
    );
}

#[test]
fn calendar_underflow_is_an_error() {
    let resolver = SnapshotBaseFolder::default();
    assert_eq!(
        resolver.get_yesterday("/b", &date(0, 1, 1)),
        Err(SnapError::DateComputationError)
    );
}

#[test]
fn impossible_dates_are_rejected() {
    assert_eq!(SnapDate::new(2026, 2, 30), None);
    assert_eq!(SnapDate::new(2026, 13, 1), None);
    assert_eq!(SnapDate::new(2026, 1, 0), None);
    assert_eq!(SnapDate::new(10000, 1, 1), None);
    assert!(SnapDate::new(2024, 2, 29).is_some());
    assert_eq!(SnapDate::new(2023, 2, 29), None);
}

#[test]
fn digest_determinism() {
    let p = SnapshotProcess::default();
    // the same bytes in two different buffers hash alike
    let here = b"hello".to_vec();
    let there = b"hello".to_vec();
    assert!(p.same_hash(&here, &there));
    // a single-byte difference changes the digest
    assert!(!p.same_hash(b"hello", b"hello!"));
    assert!(!p.same_hash(b"hellp", b"hello"));
}

#[test]
fn sha256_known_vectors() {
    let p = SnapshotProcess::default();
    let hashes = p.calculate_hashes_in_parallel(&vec![b"abc".to_vec(), Vec::new()]);
    // the digests come back in input order
    assert_eq!(
        hashes[0],
        "ba7816bf8f01cfea414140de5dae2223b00361a396177a9cb410ff61f20015ad"
    );
    assert_eq!(
        hashes[1],
        "e3b0c44298fc1c149afbf4c8996fb92427ae41e4649b934ca495991b7852b855"
    );
}
