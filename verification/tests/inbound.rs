//! The messages of the wristband.
use ebooksync::inbound::extract_payload_text;
use ebooksync::inbound::extract_version;
use ebooksync::inbound::handshake_count;
use ebooksync::inbound::message_tag;
use ebooksync::inbound::read_message;
use ebooksync::inbound::Reply;
use serde_json::Value;

fn value(s: &str) -> Value {
    serde_json::from_str(s).unwrap()
}

#[test]
fn events_are_unwrapped() {
    assert_eq!(extract_payload_text("timer_hide_message"), "timer_hide_message");
    assert_eq!(extract_payload_text("{\"payloadText\":\"a\",\"payload\":\"b\"}"), "a");
    assert_eq!(extract_payload_text("{\"payload\":\"b\"}"), "b");
    assert_eq!(extract_payload_text("{\"payload\":{\"tag\":\"file\"}}"), "{\"tag\":\"file\"}");
    assert_eq!(extract_payload_text("{\"payloadText\":1}"), "{\"payloadText\":1}");
    assert_eq!(extract_payload_text("{\"payload\":null}"), "null");
    assert_eq!(extract_payload_text("[1,"), "[1,");
}

#[test]
fn versions_are_read_in_every_form() {
    assert_eq!(extract_version(&value("{\"version\":126510}")), Some(126510));
    assert_eq!(extract_version(&value("{\"version\":-3}")), Some(-3));
    assert_eq!(extract_version(&value("{\"version\":126510.9}")), Some(126510));
    assert_eq!(extract_version(&value("{\"version\":-2.9}")), Some(-2));
    assert_eq!(extract_version(&value("{\"version\":1e300}")), Some(i64::MAX));
    assert_eq!(extract_version(&value("{\"version\":18446744073709551615}")), Some(i64::MAX));
    assert_eq!(extract_version(&value("{\"version\":\" 126400 \"}")), Some(126400));
    assert_eq!(extract_version(&value("{\"version\":\"v1\"}")), None);
    assert_eq!(extract_version(&value("{\"version\":true}")), None);
    assert_eq!(extract_version(&value("{}")), None);
}

#[test]
fn tags_and_counts_are_read() {
    let m = value("{\"tag\":\"__hs__\",\"count\":1}");
    assert_eq!(message_tag(&m), "__hs__");
    assert_eq!(handshake_count(&m), 1);
    assert_eq!(message_tag(&value("[]")), "");
    assert_eq!(handshake_count(&value("{\"count\":\"1\"}")), 0);
    assert_eq!(handshake_count(&value("{\"count\":-1}")), 0);
}

#[test]
fn book_status_is_read() {
    let m = value(
        "{\"tag\":\"file\",\"data\":{\"type\":\"book_status\",\"syncedChapters\":[0,\"x\",2,-1,3.5,7],\"hasCover\":true}}",
    );
    match read_message(&m) {
        Reply::BookStatus { synced, has_cover } => {
            assert_eq!(synced, vec![0, 2, 7]);
            assert!(has_cover);
        }
        _ => panic!("not a status"),
    }
    match read_message(&value("{\"type\":\"book_status\"}")) {
        Reply::BookStatus { synced, has_cover } => {
            assert!(synced.is_empty());
            assert!(!has_cover);
        }
        _ => panic!("not a status"),
    }
}

#[test]
fn storage_info_is_read() {
    let m = value(
        "{\"type\":\"storage_info\",\"product\":\"Band\",\"totalStorage\":100,\"actualAvailable\":0,\"availableStorage\":40}",
    );
    match read_message(&m) {
        Reply::StorageInfo { product, total, avail } => {
            assert_eq!(product.unwrap(), "Band");
            assert_eq!((total, avail), (100, 40));
        }
        _ => panic!("not a storage"),
    }
    let m = value("{\"type\":\"storage_info\",\"actualAvailable\":7,\"availableStorage\":40}");
    match read_message(&m) {
        Reply::StorageInfo { product, total, avail } => {
            assert!(product.is_none());
            assert_eq!((total, avail), (0, 7));
        }
        _ => panic!("not a storage"),
    }
}

#[test]
fn settings_are_read_as_texts() {
    let m = value(
        "{\"type\":\"settings_data\",\"settings\":{\"a\":\"x\",\"b\":null,\"c\":30,\"d\":true,\"e\":\"\",\"f\":[1,2]}}",
    );
    match read_message(&m) {
        Reply::SettingsData { values, count } => {
            assert_eq!(count, 6);
            assert_eq!(values.get("a").unwrap(), "x");
            assert!(values.get("b").is_none());
            assert_eq!(values.get("c").unwrap(), "30");
            assert_eq!(values.get("d").unwrap(), "true");
            assert!(values.get("e").is_none());
            assert_eq!(values.get("f").unwrap(), "[1,2]");
        }
        _ => panic!("no settings"),
    }
    match read_message(&value("{\"type\":\"settings_data\",\"settings\":3}")) {
        Reply::SettingsData { values: _, count } => assert_eq!(count, 0),
        _ => panic!("no settings"),
    }
}

#[test]
fn answers_during_a_transfer_are_read() {
    let kind = |t: &str| read_message(&value(&format!("{{\"data\":{{\"type\":\"{}\",\"count\":4}}}}", t)));
    assert!(matches!(kind("ready"), Reply::Ready { start_from: 4 }));
    assert!(matches!(kind("next_chunk"), Reply::NextChunk));
    assert!(matches!(kind("chapter_chunk_complete"), Reply::ChapterChunkComplete));
    assert!(matches!(kind("chapter_saved"), Reply::ChapterSaved));
    assert!(matches!(kind("cover_chunk_received"), Reply::CoverAcked));
    assert!(matches!(kind("cover_ready"), Reply::CoverAcked));
    assert!(matches!(kind("cover_saved"), Reply::Other));
    assert!(matches!(kind("transfer_finished"), Reply::TransferFinished));
    assert!(matches!(kind("cancel"), Reply::Cancel));
    assert!(matches!(kind("success"), Reply::Success { message: None }));
    assert!(matches!(kind("unheard_of"), Reply::Other));
    match read_message(&value("{\"type\":\"error\",\"message\":\"full\"}")) {
        Reply::Error { message } => assert_eq!(message.unwrap(), "full"),
        _ => panic!("no error"),
    }
}
