//! Sessions: what is sent, in which order.
use ebooksync::chapters::SplitOptions;
use ebooksync::session::build_session;
use ebooksync::session::chunk_string;
use ebooksync::session::Job;
use ebooksync::session::PlusJob;
use ebooksync::session::QueryKind;
use ebooksync::session::Retry;
use ebooksync::session::Session;
use ebooksync::session::Upload;

const BOOK: &str = "第一章 a\n1\n第二章 b\n2\n第三章 c\n3";

fn upload(text: &str, skip: bool, synced: Vec<usize>) -> Upload {
    Upload {
        file_name: "b.txt".to_string(),
        text: text.to_string(),
        size: text.len(),
        split: SplitOptions::default(),
        author: "作者".to_string(),
        summary: String::new(),
        cover: None,
        skip_synced: skip,
        synced,
    }
}

fn job(session: &Session) -> &PlusJob {
    match &session.job {
        Job::Plus(t) => t,
        Job::Query(_) => panic!("no book"),
    }
}

fn built(up: Upload) -> Session {
    match build_session("addr".to_string(), up) {
        Ok(s) => s,
        Err(e) => panic!("{}", e),
    }
}

fn refused(up: Upload) -> &'static str {
    match build_session("addr".to_string(), up) {
        Ok(_) => panic!("a session was built"),
        Err(e) => e,
    }
}

#[test]
fn all_chapters_are_sent_where_none_is_skipped() {
    let s = built(upload(BOOK, false, vec![0, 1, 2]));
    let t = job(&s);
    assert_eq!(t.send_order, vec![0, 1, 2]);
    assert_eq!(t.chapters.len(), 3);
    assert_eq!(t.total_words, 15);
    assert_eq!(t.session_text(), "[分章] 3 章（发 3 章），共 15 字");
    assert!(s.pending_start && !s.handshake_complete);
    assert_eq!(s.device_addr(), "addr");
    assert!(s.is_transfer());
    assert_eq!(s.query_kind(), None);
}

#[test]
fn chapters_on_the_wristband_are_skipped() {
    let s = built(upload(BOOK, true, vec![2, 0, 99, 2]));
    assert_eq!(job(&s).send_order, vec![1]);
}

#[test]
fn sessions_that_cannot_be_built_say_why() {
    assert_eq!(refused(upload("", false, vec![])), "文件为空");
    let mut up = upload(BOOK, false, vec![]);
    up.size = 0;
    assert_eq!(refused(up), "文件为空");
    assert_eq!(refused(upload(BOOK, true, vec![0, 1, 2])), "所有章节都已同步，无需重复发送");
}

#[test]
fn covers_are_cut_into_chunks() {
    let mut up = upload(BOOK, false, vec![]);
    let bytes: Vec<u8> = (0..20000u32).map(|i| (i % 251) as u8).collect();
    up.cover = Some(bytes.clone());
    let s = built(up);
    let t = job(&s);
    assert_eq!(t.cover_chunks.len(), 4);
    assert!(t.cover_chunks[..3].iter().all(|c| c.len() == 8192));
    assert_eq!(t.cover_chunks.concat(), ebooksync::base64::base64_encode(&bytes));
    assert_eq!(t.session_text(), "[分章] 3 章（发 3 章），共 15 字，封面 4 块");

    let mut up = upload(BOOK, false, vec![]);
    up.cover = Some(vec![]);
    assert!(job(&built(up)).cover_chunks.is_empty());
}

#[test]
fn runs_of_characters_cut_anywhere_between_characters() {
    assert!(chunk_string("", 3).is_empty());
    assert_eq!(chunk_string("abcdefg", 3), vec!["abc", "def", "g"]);
    assert_eq!(chunk_string("中文字", 3), vec!["中文字"]);
    assert_eq!(chunk_string("中文字符", 2), vec!["中文", "字符"]);
}

#[test]
fn a_job_begins_with_the_first_answered_handshake() {
    let mut s = built(upload(BOOK, false, vec![]));
    assert!(!s.handshake_progress(0));
    assert!(!s.handshake_complete);
    assert!(s.handshake_progress(1));
    assert!(s.handshake_complete && !s.pending_start);
    assert!(!s.handshake_progress(2));
}

#[test]
fn refusals_are_forgiven_three_times() {
    let mut s = built(upload(BOOK, false, vec![]));
    assert_eq!(s.bump_retry(), Retry::Plus);
    assert_eq!(s.bump_retry(), Retry::Plus);
    assert_eq!(s.bump_retry(), Retry::Plus);
    assert_eq!(s.bump_retry(), Retry::Fail);
    let mut q = Session {
        device_addr: "addr".to_string(),
        job: Job::Query(QueryKind::Status),
        pending_start: true,
        handshake_complete: false,
    };
    assert_eq!(q.bump_retry(), Retry::Fail);
    assert!(q.has_room());
}

#[test]
fn counters_at_their_end_leave_no_room() {
    let mut s = built(upload(BOOK, false, vec![]));
    assert!(s.has_room());
    if let Job::Plus(t) = &mut s.job {
        t.pos = usize::MAX;
    }
    assert!(!s.has_room());
}
