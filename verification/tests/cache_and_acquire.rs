//! The snapshot cache's dedup-lock discipline and the acquisition cycle's
//! decisions on concrete runs.

use tw_nhi_icc_service::acquire::{
    assemble_snapshot, enumeration_buffer_size, on_enumeration_failure, process_reader,
    select_accepted, CycleDecision, ReaderReport,
};
use tw_nhi_icc_service::cache::SnapshotCache;
use tw_nhi_icc_service::errors::TransportError;
use tw_nhi_icc_service::json::snapshot_to_json;

fn valid_buffer() -> Vec<u8> {
    let mut data = Vec::new();
    data.extend_from_slice(b"000000000001");
    let mut name = [0u8; 20];
    name[..4].copy_from_slice(b"WANG");
    data.extend_from_slice(&name);
    data.extend_from_slice(b"A123456789");
    data.extend_from_slice(b"1120520");
    data.push(b'M');
    data.extend_from_slice(b"1010101");
    data
}

#[test]
fn fresh_cache_serves_empty_array() {
    let cache = SnapshotCache::new();
    assert_eq!(cache.read(), "[]");
}

#[test]
fn only_one_claim_succeeds_until_release() {
    let mut cache = SnapshotCache::new();
    assert!(cache.try_claim());
    // Every further fetch falls through to the cached payload.
    assert!(!cache.try_claim());
    assert!(!cache.try_claim());
    assert_eq!(cache.read(), "[]");
    cache.release();
    assert!(cache.try_claim());
    cache.release();
}

#[test]
fn publish_replaces_payload_whole() {
    let mut cache = SnapshotCache::new();
    assert!(cache.try_claim());
    cache.publish(String::from("[1]"));
    assert_eq!(cache.read(), "[1]");
    cache.release();
    // A later read still sees the published payload.
    assert_eq!(cache.read(), "[1]");
}

#[test]
fn release_without_publish_keeps_previous_payload() {
    let mut cache = SnapshotCache::new();
    assert!(cache.try_claim());
    cache.publish(String::from("[2]"));
    cache.release();
    // A hard-failed cycle claims and releases without publishing.
    assert!(cache.try_claim());
    cache.release();
    assert_eq!(cache.read(), "[2]");
}

#[test]
fn select_status_words() {
    assert!(select_accepted(&[144, 0]));
    assert!(!select_accepted(&[144]));
    assert!(!select_accepted(&[0x6A, 0x82]));
    assert!(!select_accepted(&[144, 0, 0]));
    assert!(!select_accepted(&[]));
}

#[test]
fn enumeration_buffer_has_floor() {
    assert_eq!(enumeration_buffer_size(0), 4096);
    assert_eq!(enumeration_buffer_size(4095), 4096);
    assert_eq!(enumeration_buffer_size(4096), 4096);
    assert_eq!(enumeration_buffer_size(100000), 100000);
}

#[test]
fn enumeration_failure_retries_once() {
    assert_eq!(on_enumeration_failure(false), CycleDecision::RetryEstablish);
    assert_eq!(on_enumeration_failure(true), CycleDecision::Abort);
}

#[test]
fn soft_transport_errors() {
    assert!(TransportError::NoSmartcard.is_soft());
    assert!(TransportError::RemovedCard.is_soft());
    assert!(!TransportError::Other.is_soft());
}

#[test]
fn reader_with_card_contributes_record() {
    let report = ReaderReport::ReadData(valid_buffer());
    let card = process_reader("Reader A", &report).unwrap();
    assert_eq!(card.reader_name.as_deref(), Some("Reader A"));
    assert_eq!(card.card_no, "000000000001");
}

#[test]
fn failed_readers_contribute_nothing() {
    assert!(process_reader("r", &ReaderReport::ConnectFailed(TransportError::NoSmartcard)).is_none());
    assert!(process_reader("r", &ReaderReport::ConnectFailed(TransportError::Other)).is_none());
    assert!(process_reader("r", &ReaderReport::TransmitFailed(TransportError::Other)).is_none());
    assert!(process_reader("r", &ReaderReport::UnsupportedCard).is_none());
    assert!(process_reader("r", &ReaderReport::ReadData(vec![0u8; 10])).is_none());
}

#[test]
fn snapshot_keeps_enumeration_order_and_skips_failures() {
    let reports = vec![
        (String::from("first"), ReaderReport::ReadData(valid_buffer())),
        (String::from("broken"), ReaderReport::ConnectFailed(TransportError::NoSmartcard)),
        (String::from("second"), ReaderReport::ReadData(valid_buffer())),
        (String::from("foreign"), ReaderReport::UnsupportedCard),
    ];
    let snapshot = assemble_snapshot(&reports);
    assert_eq!(snapshot.len(), 2);
    assert_eq!(snapshot[0].reader_name.as_deref(), Some("first"));
    assert_eq!(snapshot[1].reader_name.as_deref(), Some("second"));
}

#[test]
fn empty_enumeration_yields_empty_array() {
    let reports: Vec<(String, ReaderReport)> = Vec::new();
    let snapshot = assemble_snapshot(&reports);
    assert!(snapshot.is_empty());
    assert_eq!(snapshot_to_json(&snapshot), "[]");
}
