//! The messages to the wristband, as it reads them.
use ebooksync::protocol::base64_encode;
use ebooksync::protocol::cancel;
use ebooksync::protocol::handshake;
use ebooksync::protocol::plus_chapter_chunk;
use ebooksync::protocol::plus_chapter_complete;
use ebooksync::protocol::plus_cover_chunk;
use ebooksync::protocol::plus_cover_transfer_complete;
use ebooksync::protocol::plus_get_book_status;
use ebooksync::protocol::plus_get_settings;
use ebooksync::protocol::plus_get_storage_info;
use ebooksync::protocol::plus_set_setting;
use ebooksync::protocol::plus_start_transfer;
use ebooksync::protocol::plus_transfer_complete;
use ebooksync::protocol::SENDER_VERSION;
use ebooksync::protocol::TAG_HANDSHAKE;
use serde_json::Value;

#[test]
fn base64_matches_known_vectors() {
    assert_eq!(base64_encode(b""), "");
    assert_eq!(base64_encode(b"f"), "Zg==");
    assert_eq!(base64_encode(b"fo"), "Zm8=");
    assert_eq!(base64_encode(b"foo"), "Zm9v");
    assert_eq!(base64_encode(b"foob"), "Zm9vYg==");
    assert_eq!(base64_encode(b"fooba"), "Zm9vYmE=");
    assert_eq!(base64_encode(b"foobar"), "Zm9vYmFy");
    assert_eq!(base64_encode(&[0x00, 0xFF]), "AP8=");
}

#[test]
fn handshake_version_is_lifted() {
    let v: Value = serde_json::from_str(&handshake(0, None)).unwrap();
    assert_eq!(v["version"], Value::from(SENDER_VERSION));
    assert_eq!(v["tag"], Value::from(TAG_HANDSHAKE));

    let v2: Value = serde_json::from_str(&handshake(1, Some(260_510))).unwrap();
    assert_eq!(v2["version"], Value::from(260_510));

    let v3: Value = serde_json::from_str(&handshake(1, Some(1))).unwrap();
    assert_eq!(v3["version"], Value::from(SENDER_VERSION));
}

#[test]
fn start_transfer_carries_meta() {
    let v: Value =
        serde_json::from_str(&plus_start_transfer("a.txt", 12, 3000, 3, true, Some("作者"), Some("简介")))
            .unwrap();
    assert_eq!(v["stat"], Value::from("startTransfer"));
    assert_eq!(v["total"], Value::from(12));
    assert_eq!(v["startFrom"], Value::from(3));
    assert_eq!(v["hasCover"], Value::from(true));
    assert_eq!(v["author"], Value::from("作者"));
    assert_eq!(v["summary"], Value::from("简介"));
}

#[test]
fn start_transfer_omits_empty_meta() {
    let s = plus_start_transfer("a.txt", 1, 10, 0, false, None, Some(""));
    assert!(!s.contains("author"));
    assert!(!s.contains("summary"));
    assert!(s.contains("hasCover"));
}

fn read(s: &str) -> Value {
    serde_json::from_str(s).unwrap()
}

#[test]
fn chunks_carry_json_in_their_data() {
    let m = read(&plus_chapter_chunk(3, "第四章 \"引号\"", 12, "正文\n\t\\", 1, 4));
    assert_eq!(m["tag"], Value::from("file"));
    assert_eq!(m["stat"], Value::from("d"));
    assert_eq!(m["count"], Value::from(3));
    let data = read(m["data"].as_str().unwrap());
    assert_eq!(data["index"], Value::from(3));
    assert_eq!(data["name"], Value::from("第四章 \"引号\""));
    assert_eq!(data["wordCount"], Value::from(12));
    assert_eq!(data["content"], Value::from("正文\n\t\\"));
    assert_eq!(data["chunkNum"], Value::from(1));
    assert_eq!(data["totalChunks"], Value::from(4));
}

#[test]
fn plain_actions_have_a_tag_and_a_name() {
    for (text, stat) in [
        (plus_transfer_complete(), "transfer_complete"),
        (plus_get_storage_info(), "get_storage_info"),
        (plus_cover_transfer_complete(), "cover_transfer_complete"),
        (cancel(), "cancel"),
    ] {
        let m = read(&text);
        assert_eq!(m["tag"], Value::from("file"));
        assert_eq!(m["stat"], Value::from(stat));
        assert_eq!(m.as_object().unwrap().len(), 2);
    }
}

#[test]
fn questions_and_writes_carry_their_arguments() {
    let m = read(&plus_chapter_complete(7));
    assert_eq!((&m["stat"], &m["count"]), (&Value::from("chapter_complete"), &Value::from(7)));
    let m = read(&plus_get_book_status("书.txt"));
    assert_eq!(m["filename"], Value::from("书.txt"));
    let m = read(&plus_get_settings(&["A", "B"]));
    assert_eq!(m["keys"], Value::from(vec!["A", "B"]));
    let m = read(&plus_set_setting("EBOOK_FONT", "32"));
    assert_eq!(m["stat"], Value::from("set_settings"));
    assert_eq!(m["settings"]["EBOOK_FONT"], Value::from("32"));
    let m = read(&plus_cover_chunk(2, 5, "QUJD"));
    assert_eq!(m["stat"], Value::from("cover_chunk"));
    assert_eq!(m["chunkIndex"], Value::from(2));
    assert_eq!(m["totalChunks"], Value::from(5));
    assert_eq!(m["data"], Value::from("QUJD"));
}

fn decode(s: &str) -> Vec<u8> {
    let digit = |c: u8| -> u32 {
        match c {
            b'A'..=b'Z' => (c - b'A') as u32,
            b'a'..=b'z' => (c - b'a') as u32 + 26,
            b'0'..=b'9' => (c - b'0') as u32 + 52,
            b'+' => 62,
            b'/' => 63,
            _ => 0,
        }
    };
    let mut out = Vec::new();
    for q in s.as_bytes().chunks(4) {
        let n = q.iter().fold(0, |n, c| n * 64 + digit(*c));
        let pad = q.iter().filter(|c| **c == b'=').count();
        out.extend_from_slice(&n.to_be_bytes()[1..4 - pad]);
    }
    out
}

#[test]
fn base64_can_be_decoded() {
    for len in 0..300usize {
        let data: Vec<u8> = (0..len).map(|i| (i * 73 + len * 31) as u8).collect();
        let text = base64_encode(&data);
        assert_eq!(text.len(), (len + 2) / 3 * 4);
        assert_eq!(decode(&text), data);
    }
}
