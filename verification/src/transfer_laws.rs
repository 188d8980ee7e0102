//! What holds of a transfer from the click that begins it: what is sent is what the
//! window shows.
use crate::base64;
use crate::chapters;
use crate::laws;
use crate::protocol;
use crate::session;
use crate::session::JobView;
use crate::session::PlusJobView;
use crate::session::SessionView;
use crate::session::UploadView;
use crate::state::AfterSend;
use crate::state::EffectView;
use crate::state::Gauge;
use crate::state::PurposeView;
use crate::state::Tone;
use crate::state::UiView;
use crate::text;
use crate::transfer;
use vstd::prelude::*;

verus! {

// ---------------------------------------------------------------- what the window holds

/// Nothing of the book and its options differs.
pub open spec fn same_book_data(a: UiView, b: UiView) -> bool {
    &&& a.file_name == b.file_name
    &&& a.file_text == b.file_text
    &&& a.file_size_bytes == b.file_size_bytes
    &&& a.split == b.split
    &&& a.author == b.author
    &&& a.summary == b.summary
    &&& a.cover_name == b.cover_name
    &&& a.cover_bytes == b.cover_bytes
    &&& a.skip_synced == b.skip_synced
    &&& a.chapter_estimate == b.chapter_estimate
}

/// The estimate is the number of chapters, and of their words, that the book comes to
/// with the options of the window.
pub open spec fn estimate_is_true(s: UiView) -> bool {
    match (s.file_text, s.file_name) {
        (Some(book), Some(name)) => ({
            let cs = chapters::book_chapters(book, name, s.split);
            cs.len() <= usize::MAX && chapters::total_words(cs) <= usize::MAX ==> (
            s.chapter_estimate matches Some((n, words)) && n == cs.len() && words
                == chapters::total_words(cs))
        }),
        _ => s.chapter_estimate is None,
    }
}

/// The upload is the book and everything that the window holds for it.
pub open spec fn is_upload_of(up: UploadView, s: UiView, name: Seq<char>, book: Seq<char>) -> bool {
    &&& up.file_name == name
    &&& up.text == book
    &&& up.size == s.file_size_bytes
    &&& up.split.mode == s.split.mode
    &&& up.split.words_per_chapter == s.split.words_per_chapter
    &&& up.split.keyword == s.split.keyword
    &&& up.author == s.author
    &&& up.summary == s.summary
    &&& up.cover == s.cover_bytes
    &&& up.skip_synced == s.skip_synced
    &&& up.synced == s.band.synced_chapters
}

/// The effect asks for a connection to send the book of the window.
pub open spec fn connects_for(e: EffectView, s: UiView, name: Seq<char>, book: Seq<char>) -> bool {
    e matches EffectView::Connect(PurposeView::Send(up)) && is_upload_of(up, s, name, book)
}

/// A click on send, with a book picked and nothing going on, asks for a connection for
/// that book with all options and data of the window, and watches over the link.
pub proof fn a_click_on_send_takes_the_window_as_it_is(
    s: UiView,
    name: Seq<char>,
    book: Seq<char>,
    now: u64,
)
    requires
        !s.busy(),
        s.file_name == Some(name),
        s.file_text == Some(book),
    ensures
        ({
            let after = s.clicked("send_file"@, now);
            &&& connects_for(after.outbox.last(), s, name, book)
            &&& after.is_sending && !after.is_querying
            &&& same_book_data(after, s)
            &&& after.band == s.band
            &&& after.session == s.session
            &&& after.progress == (Gauge { percent: 0, bar: 0 })
            &&& after.reconnect_attempts == 0
            &&& !after.handling_offline
            &&& after.offline_strikes == 0
            &&& after.last_inbound_at == Some(now)
            &&& after.watchdog_timer_id is Some
            &&& after.disconnect_action == s.disconnect_action
            &&& after.status_message == Some("准备发送中..."@)
            &&& after.phase_text == Some("准备连接手环"@)
            &&& after.speed_text is None
        }),
{
    lemma_send_name();
    reveal(UiView::launched);
    reveal(UiView::saying);
    reveal(UiView::watched);
    reveal(UiView::without_watchdog);
    reveal(UiView::without_hide_timer);
    reveal(UiView::clearing);
    reveal(UiView::timing);
    reveal(UiView::drawn);
}

/// Without a book, a click on send asks for one, and nothing is sent.
pub proof fn a_click_on_send_needs_a_book(s: UiView, now: u64)
    requires
        !s.busy(),
        s.file_name is None || s.file_text is None,
    ensures
        ({
            let after = s.clicked("send_file"@, now);
            &&& after.status_message == Some("请先选择文件"@)
            &&& !after.is_sending
            &&& laws::same_work(after, s)
            &&& forall|i: int|
                s.outbox.len() <= i < after.outbox.len() ==> !(#[trigger] after.outbox[i] is Connect)
        }),
{
    lemma_send_name();
    reveal(UiView::saying);
    reveal(UiView::hiding);
    reveal(UiView::without_hide_timer);
    reveal(UiView::clearing);
    reveal(UiView::timing);
    reveal(UiView::drawn);
}

/// The button that sends is told from the one that picks.
proof fn lemma_send_name()
    ensures
        "send_file"@ != "pick_file"@,
{
    reveal_strlit("send_file");
    reveal_strlit("pick_file");
    assert("send_file"@[0] == 's' && "pick_file"@[0] == 'p');
}

// ---------------------------------------------------------------- the session of a book

/// The job sends the chapters of the upload that the wristband does not have, or all
/// of them where none is to be skipped, each once and in order.
pub open spec fn sends_what_is_missing(t: PlusJobView, up: UploadView) -> bool {
    &&& forall|i: int, j: int|
        0 <= i < j < t.send_order.len() ==> (#[trigger] t.send_order[i]) < (
        #[trigger] t.send_order[j])
    &&& forall|x: usize| #[trigger]
        t.send_order.contains(x) <==> x < t.chapters.len() && !(up.skip_synced
            && up.synced.contains(x))
}

/// The job carries the cover of the upload in base64, in chunks of 8192 characters,
/// the last one shorter perhaps.
pub open spec fn carries_the_cover(t: PlusJobView, up: UploadView) -> bool {
    &&& up.cover is None ==> t.cover_chunks.len() == 0
    &&& up.cover matches Some(bytes) ==> text::concat(t.cover_chunks) == base64::encoded(bytes)
    &&& forall|i: int|
        0 <= i < t.cover_chunks.len() ==> 0 < (#[trigger] t.cover_chunks[i]).len() <= 8192
    &&& forall|i: int|
        0 <= i < t.cover_chunks.len() - 1 ==> (#[trigger] t.cover_chunks[i]).len() == 8192
}

/// The session that is built for an upload carries its data: the title, the author
/// and the summary word for word, the chapters that the split of the upload gives, and
/// the cover; it begins at the start and waits for a handshake.
pub proof fn a_session_carries_its_upload(addr: Seq<char>, up: UploadView)
    requires
        chapters::book_chapters(up.text, up.file_name, up.split).len() <= usize::MAX,
    ensures
        session::session_of(addr, up) matches Ok(s) ==> ({
            &&& s.device_addr == addr
            &&& s.pending_start && !s.handshake_complete
            &&& s.job matches JobView::Plus(t) && ({
                &&& t.file_name == up.file_name
                &&& t.author == up.author
                &&& t.summary == up.summary
                &&& t.chapters == chapters::book_chapters(up.text, up.file_name, up.split)
                &&& t.total_words == chapters::total_words(t.chapters)
                &&& t.pos == 0 && t.chunk_idx == 0 && t.chunk_texts.len() == 0
                &&& t.cover_idx == 0 && !t.cover_done
                &&& t.retries == 0 && t.last_chunk_time is None
                &&& sends_what_is_missing(t, up)
                &&& carries_the_cover(t, up)
            })
        }),
{
    let cs = chapters::book_chapters(up.text, up.file_name, up.split);
    session::only_missing_chapters_are_sent(cs.len(), up.skip_synced, up.synced);
    if let Some(bytes) = up.cover {
        session::runs_restore_the_text(base64::encoded(bytes), 8192);
    }
}

/// A session is refused exactly where the book is empty, and where the wristband has
/// every chapter of it already.
pub proof fn why_a_session_is_refused(addr: Seq<char>, up: UploadView)
    requires
        chapters::book_chapters(up.text, up.file_name, up.split).len() <= usize::MAX,
    ensures
        ({
            let empty = up.size == 0 || up.text.len() == 0;
            let all_there = up.skip_synced && forall|x: usize|
                x < chapters::book_chapters(up.text, up.file_name, up.split).len()
                    ==> #[trigger] up.synced.contains(x);
            &&& empty ==> session::session_of(addr, up) == Err::<SessionView, Seq<char>>(
                "文件为空"@,
            )
            &&& !empty && all_there ==> session::session_of(addr, up) == Err::<
                SessionView,
                Seq<char>,
            >("所有章节都已同步，无需重复发送"@)
            &&& !empty && !all_there ==> session::session_of(addr, up) is Ok
        }),
{
    let cs = chapters::book_chapters(up.text, up.file_name, up.split);
    let order = session::unsynced(cs.len(), up.skip_synced, up.synced);
    chapters::chapters_are_numbered(up.text, up.file_name, up.split);
    session::only_missing_chapters_are_sent(cs.len(), up.skip_synced, up.synced);
    if order.len() == 0 {
        assert forall|x: usize| x < cs.len() implies #[trigger] up.synced.contains(x) by {
            assert(!order.contains(x));
        }
        assert(!order.contains(0));
    } else {
        let x = order[0];
        assert(order.contains(x));
    }
}

/// When the connection for a book stands, the session is the one for its upload, and
/// the first handshake goes out after a while; where there can be no session, the
/// transfer ends and says why.
pub proof fn a_connection_begins_the_session(s: UiView, up: UploadView, addr: Seq<char>, now: u64)
    ensures
        ({
            let after = s.connected(PurposeView::Send(up), Ok(addr), now);
            match session::session_of(addr, up) {
                Ok(session) => {
                    &&& after.session == Some(session)
                    &&& after.last_device_addr == Some(addr)
                    &&& after.last_inbound_at == Some(now)
                    &&& after.handshake_timer_id == Some(s.next_timer)
                    &&& after.outbox.contains(
                        EffectView::SetTimer {
                            token: s.next_timer,
                            delay_ms: 1500,
                            tag: "timer_start_handshake"@,
                        },
                    )
                    &&& after.is_sending == s.is_sending
                    &&& same_book_data(after, s)
                    &&& crate::click_laws::logged(after, "[连接] 等待手环端响应"@)
                    &&& session.job matches JobView::Plus(t) ==> exists|stamp: Seq<char>|
                        after.log[after.log.len() - 2] == #[trigger] (stamp + session::session_line(
                            t,
                        ))
                },
                Err(why) => laws::idle(after) && after.status_message == Some(why),
            }
        }),
{
    reveal(UiView::send_connected);
    match session::session_of(addr, up) {
        Ok(session) => {
            reveal(UiView::logging);
            reveal(UiView::handshake_in);
            reveal(UiView::timing);
            reveal(UiView::drawn);
            let after = s.connected(PurposeView::Send(up), Ok(addr), now);
            let s1 = UiView { last_device_addr: Some(addr), last_inbound_at: Some(now), ..s };
            let line = session::session_line(session.job->Plus_0);
            crate::click_laws::lemma_logged(s1, line, now);
            let s2 = UiView { session: Some(session), ..s1.logging(line, now) }.handshake_in(1500);
            crate::click_laws::lemma_logged(s2, "[连接] 等待手环端响应"@, now);
            assert(after.log[after.log.len() - 2] == s1.logging(line, now).log.last());
            assert(after.outbox[s.outbox.len() as int] == (EffectView::SetTimer {
                token: s.next_timer,
                delay_ms: 1500,
                tag: "timer_start_handshake"@,
            }));
        },
        Err(why) => {
            laws::a_failure_ends_the_work(
                UiView { last_device_addr: Some(addr), last_inbound_at: Some(now), ..s },
                why,
                now,
            );
        },
    }
}

/// Why a connection could not be made is said, and ends the work.
pub proof fn a_failed_connection_ends_the_work(
    s: UiView,
    up: UploadView,
    kind: session::QueryKind,
    with_book: bool,
    why: Seq<char>,
    now: u64,
)
    ensures
        laws::idle(s.connected(PurposeView::Send(up), Err(why), now)),
        s.connected(PurposeView::Send(up), Err(why), now).status_message == Some(why),
        laws::idle(s.connected(PurposeView::Query { kind, with_book }, Err(why), now)),
        s.connected(PurposeView::Query { kind, with_book }, Err(why), now).status_message == Some(
            why,
        ),
{
    laws::a_failure_ends_the_work(s, why, now);
}

/// The effect is the message that starts a transfer of the book with what the window
/// holds of it.
pub open spec fn starts_the_book(
    e: EffectView,
    s: UiView,
    name: Seq<char>,
    book: Seq<char>,
    addr: Seq<char>,
    first: nat,
) -> bool {
    let cs = chapters::book_chapters(book, name, s.split);
    e == (EffectView::SendChecked {
        addr,
        payload: protocol::wire(
            protocol::start_transfer_members(
                name,
                cs.len(),
                chapters::total_words(cs),
                first,
                s.cover_bytes matches Some(bytes) && bytes.len() > 0,
                Some(s.author),
                Some(s.summary),
            ),
        ),
        then: AfterSend::MarkActivity,
    })
}

/// The number is that of the first of so many chapters that is sent: none before it
/// is, as the wristband has them and they are skipped.
pub open spec fn first_missing(s: UiView, chapters: nat, first: nat) -> bool {
    &&& first < chapters
    &&& !(s.skip_synced && s.band.synced_chapters.contains(first as usize))
    &&& forall|x: usize|
        x < first ==> s.skip_synced && #[trigger] s.band.synced_chapters.contains(x)
}

/// From the click on send to the first handshake of the wristband: the transfer starts
/// with the chapters, the author, the summary and the cover of the window, from the
/// first chapter that is missing; it has as many chapters and words as the window
/// estimates.
pub proof fn the_transfer_starts_with_what_the_window_holds(
    s: UiView,
    name: Seq<char>,
    book: Seq<char>,
    addr: Seq<char>,
    version: Option<i64>,
    now: u64,
)
    requires
        !s.busy(),
        s.file_name == Some(name),
        s.file_text == Some(book),
        s.file_size_bytes > 0,
        book.len() > 0,
        chapters::book_chapters(book, name, s.split).len() <= usize::MAX,
        exists|x: usize|
            x < chapters::book_chapters(book, name, s.split).len() && !(s.skip_synced
                && #[trigger] s.band.synced_chapters.contains(x)),
    ensures
        ({
            let clicked = s.clicked("send_file"@, now);
            clicked.outbox.last() matches EffectView::Connect(purpose) && ({
                let shaken = clicked.connected(purpose, Ok(addr), now).shaken(1, version, now);
                let cs = chapters::book_chapters(book, name, s.split);
                &&& shaken.job() matches Some(t) && t.chapters == cs && t.file_name == name && t.author
                    == s.author && t.summary == s.summary && (estimate_is_true(s)
                    && chapters::total_words(cs) <= usize::MAX ==> (s.chapter_estimate matches Some(
                    (n, words),
                ) && n == t.chapters.len() && words == t.total_words))
                &&& exists|first: nat| #[trigger]
                    starts_the_book(shaken.outbox.last(), s, name, book, addr, first)
                        && first_missing(s, cs.len(), first)
            })
        }),
{
    a_click_on_send_takes_the_window_as_it_is(s, name, book, now);
    let clicked = s.clicked("send_file"@, now);
    let purpose = clicked.outbox.last()->Connect_0;
    let up = purpose->Send_0;
    assert(up.split =~= s.split);
    let cs = chapters::book_chapters(book, name, s.split);
    a_session_carries_its_upload(addr, up);
    why_a_session_is_refused(addr, up);
    assert(session::session_of(addr, up) is Ok) by {
        let x = choose|x: usize|
            x < cs.len() && !(s.skip_synced && #[trigger] s.band.synced_chapters.contains(x));
        assert(!(up.skip_synced && up.synced.contains(x)));
    }
    a_connection_begins_the_session(clicked, up, addr, now);
    let connected = clicked.connected(purpose, Ok(addr), now);
    let session = session::session_of(addr, up)->Ok_0;
    let t = session.job->Plus_0;
    session::new_sessions_are_valid(addr, up);
    let shaken = connected.shaken(1, version, now);
    a_handshake_starts_the_transfer_where_it_is(connected, session, t, 1, version, now);
    laws::a_transfer_goes_on_where_it_was(t);
    lemma_cover_there(up);
    let first = t.send_order[0];
    lemma_first_missing(s, t, up);
    assert(starts_the_book(shaken.outbox.last(), s, name, book, addr, first as nat));
    assert(clicked.outbox.last() == EffectView::Connect(purpose));
    assert(shaken.job() == Some(t));
}

/// The first chapter in the order of sending is the first that is missing.
proof fn lemma_first_missing(s: UiView, t: PlusJobView, up: UploadView)
    requires
        sends_what_is_missing(t, up),
        t.send_order.len() > 0,
        up.skip_synced == s.skip_synced,
        up.synced == s.band.synced_chapters,
    ensures
        first_missing(s, t.chapters.len(), t.send_order[0] as nat),
{
    let first = t.send_order[0];
    assert(t.send_order.contains(first));
    assert forall|x: usize| x < first as nat implies s.skip_synced
        && #[trigger] s.band.synced_chapters.contains(x) by {
        if !(s.skip_synced && s.band.synced_chapters.contains(x)) {
            assert(t.send_order.contains(x));
            let i = choose|i: int| 0 <= i < t.send_order.len() && t.send_order[i] == x;
            if i > 0 {
                assert(t.send_order[0] < t.send_order[i]);
            }
        }
    }
    if first > 0 {
        assert(s.band.synced_chapters.contains(0usize));
    }
}

/// There are chunks of a cover exactly where the cover has bytes.
proof fn lemma_cover_there(up: UploadView)
    ensures
        session::cover_chunks(up.cover).len() > 0 <==> (up.cover matches Some(bytes) && bytes.len()
            > 0),
{
    if let Some(bytes) = up.cover {
        base64::encoded_length(bytes);
    }
}

/// The handshake that begins a transfer, the first time or again after a lost link, is
/// followed by the message that starts it: from the chapter where the transfer is, with
/// the cover announced only where it is still to be sent. Where every chapter was saved,
/// the end of the book is sent in its place.
pub proof fn a_handshake_starts_the_transfer_where_it_is(
    s: UiView,
    session: SessionView,
    t: PlusJobView,
    count: usize,
    version: Option<i64>,
    now: u64,
)
    requires
        s.session == Some(session),
        session.pending_start,
        session.job == JobView::Plus(t),
        t.wf(),
        count > 0,
    ensures
        s.shaken(count, version, now).job() == Some(t),
        s.shaken(count, version, now).outbox.last() == (EffectView::SendChecked {
            addr: session.device_addr,
            payload: protocol::wire(
                if t.pos < t.send_order.len() {
                    protocol::start_transfer_members(
                        t.file_name,
                        t.chapters.len(),
                        chapters::total_words(t.chapters),
                        t.send_order[t.pos as int] as nat,
                        !t.cover_done && t.cover_chunks.len() > 0,
                        Some(t.author),
                        Some(t.summary),
                    )
                } else {
                    protocol::action("transfer_complete"@)
                },
            ),
            then: AfterSend::MarkActivity,
        }),
        s.shaken(count, version, now).status_message == Some("已连接，开始传输..."@),
        s.shaken(count, version, now).phase_text == Some("已连接，开始传输"@),
{
    let before = crate::state_laws::lemma_shaken_begins(s, session, count, version, now);
    lemma_begun(before, session.shaken(count as nat), t, now);
}

proof fn lemma_begun(s: UiView, session: SessionView, t: PlusJobView, now: u64)
    requires
        s.session == Some(session),
        session.job == JobView::Plus(t),
        t.wf(),
    ensures
        s.begun(now).job() == Some(t),
        s.begun(now).status_message == Some("已连接，开始传输..."@),
        s.begun(now).phase_text == Some("已连接，开始传输"@),
        s.begun(now).outbox.last() == (EffectView::SendChecked {
            addr: session.device_addr,
            payload: protocol::wire(
                if t.pos < t.send_order.len() {
                    protocol::start_transfer_members(
                        t.file_name,
                        t.chapters.len(),
                        chapters::total_words(t.chapters),
                        t.send_order[t.pos as int] as nat,
                        !t.cover_done && t.cover_chunks.len() > 0,
                        Some(t.author),
                        Some(t.summary),
                    )
                } else {
                    protocol::action("transfer_complete"@)
                },
            ),
            then: AfterSend::MarkActivity,
        }),
{
    let s1 = UiView { phase_text: Some("已连接，开始传输"@), ..s };
    let said = s1.saying("已连接，开始传输..."@, Tone::Neutral, false);
    let shown = said.drawn();
    assert(shown.session == s.session && shown.phase_text == s1.phase_text && shown.status_message
        == Some("已连接，开始传输..."@)) by {
        reveal(UiView::saying);
        reveal(UiView::without_hide_timer);
        reveal(UiView::clearing);
        reveal(UiView::drawn);
    }
    assert(s.begun(now) == shown.transfer_started()) by {
        reveal(UiView::begun);
    }
    let started = shown.transfer_started();
    assert(started.session == shown.session && started.phase_text == shown.phase_text
        && started.status_message == shown.status_message) by {
        reveal(UiView::transfer_started);
    }
    laws::a_transfer_begins_at_the_present_chapter(shown, t);
}

/// A transfer that lost its link goes on where it was once the link stands again: the
/// wristband is told to begin with the chapter that was not saved yet.
pub proof fn a_transfer_goes_on_after_a_lost_link(
    s: UiView,
    t: PlusJobView,
    reason: Seq<char>,
    addr: Seq<char>,
    version: Option<i64>,
    now: u64,
)
    requires
        s.is_sending,
        !s.handling_offline,
        s.disconnect_action == crate::state::DisconnectAction::Retry,
        s.reconnect_attempts < 3,
        s.job() == Some(t),
        t.wf(),
        t.pos < t.send_order.len(),
    ensures
        ({
            let back = s.lost(reason, now).connected(PurposeView::Reconnect, Ok(addr), now);
            let after = back.shaken(1, version, now);
            &&& after.outbox.last() == (EffectView::SendChecked {
                addr: s.session->0.device_addr,
                payload: protocol::wire(
                    protocol::start_transfer_members(
                        t.file_name,
                        t.chapters.len(),
                        chapters::total_words(t.chapters),
                        t.send_order[t.pos as int] as nat,
                        !t.cover_done && t.cover_chunks.len() > 0,
                        Some(t.author),
                        Some(t.summary),
                    ),
                ),
                then: AfterSend::MarkActivity,
            })
            &&& after.job() matches Some(u) && u.pos == t.pos && u.chapters == t.chapters
                && u.send_order == t.send_order && u.cover_done == t.cover_done
            &&& after.is_sending && !after.handling_offline
        }),
{
    laws::a_lost_link_is_tried_a_few_times(s, reason, now);
    let lost = s.lost(reason, now);
    let session = s.session->0;
    laws::a_rewound_session_stays_in_place(session);
    crate::query_laws::a_link_that_stands_again(lost, addr, now);
    let back = lost.connected(PurposeView::Reconnect, Ok(addr), now);
    let u = PlusJobView {
        cover_idx: if t.cover_done {
            t.cover_idx
        } else {
            0
        },
        ..t
    };
    let again = SessionView {
        pending_start: true,
        handshake_complete: false,
        job: JobView::Plus(u),
        ..session
    };
    assert(back.session == Some(again));
    assert(u.chapter() == t.chapter());
    assert(u.wf());
    a_handshake_starts_the_transfer_where_it_is(back, again, u, 1, version, now);
    crate::state_laws::a_handshake_leaves_the_window_alone(back, 1, version, now);
    crate::state_laws::a_handshake_keeps_the_link(back, 1, version, now);
}

// ---------------------------------------------------------------- a chunk on its way

/// The chunk that waits to be measured is for the wristband, and tells the host what
/// its speed and progress are measured by: its bytes, when the one before it was
/// ready, its place among the chunks and that of its chapter among the chapters.
pub proof fn a_chunk_says_how_far_the_transfer_is(s: UiView, t: PlusJobView, now: u64)
    requires
        s.job() == Some(t),
        t.wf(),
        t.pos < t.send_order.len(),
        t.chunk_texts.len() > 0,
        t.chunk_idx < t.chunk_texts.len(),
    ensures
        s.emitted(now).outbox.last() matches EffectView::Measure(out) && ({
            &&& out.addr == s.address()
            &&& out.bytes == vstd::utf8::encode_utf8(t.chunk_texts[t.chunk_idx as int]).len()
            &&& out.since == t.last_chunk_time
            &&& out.now == now
            &&& out.pos == t.pos && out.chapters == t.send_order.len()
            &&& out.chunk == t.chunk_idx && out.chunks == t.chunk_texts.len()
            &&& out.phase == "第 "@ + text::decimal(t.pos + 1) + "/"@ + text::decimal(
                t.send_order.len(),
            ) + " 章 · "@ + t.chapters[t.send_order[t.pos as int] as int].name + " ("@
                + text::decimal(t.chunk_texts.len()) + " 块)"@
            &&& out.message == protocol::wire(
                protocol::chunk_members(
                    t.send_order[t.pos as int] as nat,
                    t.chapters[t.send_order[t.pos as int] as int].name,
                    t.chapters[t.send_order[t.pos as int] as int].word_count,
                    t.chunk_texts[t.chunk_idx as int],
                    t.chunk_idx,
                    t.chunk_texts.len(),
                ),
            )
        }),
        s.emitted(now).job() == Some(PlusJobView { last_chunk_time: Some(now), ..t }),
        s.emitted(now).outbox.len() == s.outbox.len() + 1,
{
    reveal(UiView::emitted);
    text::lemma_text_bytes_encode(t.chunk_texts[t.chunk_idx as int]);
    laws::a_transfer_goes_on_where_it_was(t);
}

/// A chunk that was measured goes out as it is to where it was meant for, and the
/// window shows the progress, at most a hundred percent, and the speed.
pub proof fn a_measured_chunk_goes_out(
    s: UiView,
    out: crate::state::OutChunkView,
    speed: Option<usize>,
    gauge: Gauge,
)
    ensures
        ({
            let after = s.measured(out, speed, gauge);
            &&& after.outbox.last() == (EffectView::SendChecked {
                addr: out.addr,
                payload: out.message,
                then: AfterSend::Render,
            })
            &&& gauge.percent <= 100 && gauge.bar <= 240 ==> after.progress == gauge
            &&& after.progress.percent <= 100 && after.progress.bar <= 240
            &&& gauge.percent > 100 ==> after.progress.percent == 100
            &&& gauge.bar > 240 ==> after.progress.bar == 240
            &&& after.phase_text == Some(out.phase)
            &&& speed is None ==> after.speed_text is None
            &&& speed matches Some(n) ==> after.speed_text == Some(
                crate::display::size_text(n as nat) + "/s"@,
            )
            &&& after.status_message == Some(
                "发送中 "@ + text::decimal(after.progress.percent as nat) + "%"@,
            )
            &&& after.session == s.session
        }),
{
    reveal(UiView::measured);
    reveal(UiView::saying);
    reveal(UiView::without_hide_timer);
    reveal(UiView::clearing);
}

/// When the wristband has all chunks of a chapter, the end of that chapter is sent.
pub proof fn a_received_chapter_is_closed(s: UiView, t: PlusJobView, now: u64)
    requires
        s.job() == Some(t),
        t.wf(),
        t.pos < t.send_order.len(),
    ensures
        s.replied(crate::inbound::ReplyView::ChapterChunkComplete, now) == s.with(
            EffectView::SendChecked {
                addr: s.address(),
                payload: protocol::wire(
                    protocol::chapter_complete_members(t.send_order[t.pos as int] as nat),
                ),
                then: AfterSend::Nothing,
            },
        ),
{
    reveal(UiView::replied);
    reveal(UiView::chapter_received);
    laws::a_transfer_goes_on_where_it_was(t);
}

/// Where every chapter was saved, there is no chapter to close.
pub proof fn nothing_is_left_to_close(s: UiView, t: PlusJobView, now: u64)
    requires
        s.job() == Some(t),
        t.pos >= t.send_order.len(),
    ensures
        s.replied(crate::inbound::ReplyView::ChapterChunkComplete, now) == s,
{
    reveal(UiView::replied);
    reveal(UiView::chapter_received);
}

/// The answers of the wristband during a transfer are taken for what they are.
pub proof fn answers_move_the_transfer(
    s: UiView,
    n: usize,
    message: Option<Seq<char>>,
    now: u64,
)
    requires
        s.job() is Some,
        !s.is_querying,
    ensures
        s.replied(crate::inbound::ReplyView::Ready { start_from: n }, now) == s.ready(n, now),
        s.replied(crate::inbound::ReplyView::NextChunk, now) == s.next_chunk(now),
        s.replied(crate::inbound::ReplyView::ChapterSaved, now) == s.chapter_saved(now),
        s.replied(crate::inbound::ReplyView::CoverAcked, now) == s.cover_acked(now),
        s.replied(crate::inbound::ReplyView::TransferFinished, now) == s.succeeded(now),
        s.replied(crate::inbound::ReplyView::Error { message }, now) == s.refused(message, now),
        s.replied(crate::inbound::ReplyView::Other, now) == s,
        laws::idle(s.replied(crate::inbound::ReplyView::Cancel, now)),
        s.replied(crate::inbound::ReplyView::Cancel, now).status_message == Some(
            "传输已被手环取消"@,
        ),
{
    reveal(UiView::replied);
    reveal(UiView::cancelled_remotely);
    laws::lemma_called_off(s, "传输已被手环取消"@, "[中断] 手环端已取消"@, now);
}

/// Without a session that sends a book, no answer of a transfer changes anything.
pub proof fn no_transfer_no_answers(s: UiView, n: usize, now: u64)
    requires
        s.job() is None,
    ensures
        s.replied(crate::inbound::ReplyView::Ready { start_from: n }, now) == s,
        s.replied(crate::inbound::ReplyView::NextChunk, now) == s,
        s.replied(crate::inbound::ReplyView::ChapterChunkComplete, now) == s,
        s.replied(crate::inbound::ReplyView::ChapterSaved, now) == s,
        s.replied(crate::inbound::ReplyView::CoverAcked, now) == s,
        s.replied(crate::inbound::ReplyView::TransferFinished, now) == s,
        s.replied(crate::inbound::ReplyView::Cancel, now) == s,
{
    reveal(UiView::replied);
}

/// A wristband that is ready while a cover is still to be sent gets the next chunk of
/// the cover, and the transfer is at the chapter that it named.
pub proof fn a_ready_wristband_gets_the_cover_first(
    s: UiView,
    t: PlusJobView,
    number: usize,
    now: u64,
)
    requires
        t.wf(),
        s.job() == Some(t),
        !t.cover_done,
        t.cover_idx < t.cover_chunks.len(),
    ensures
        ({
            let after = s.ready(number, now);
            &&& after.job() == Some(t.moved(t.place(number as nat)))
            &&& !after.handling_offline
            &&& after.outbox.last() == (EffectView::SendChecked {
                addr: s.address(),
                payload: protocol::wire(
                    protocol::cover_chunk_members(
                        t.cover_idx,
                        t.cover_chunks.len(),
                        t.cover_chunks[t.cover_idx as int],
                    ),
                ),
                then: AfterSend::Render,
            })
        }),
{
    reveal(UiView::ready);
    reveal(UiView::covering);
    reveal(UiView::saying);
    reveal(UiView::without_hide_timer);
    reveal(UiView::clearing);
}

/// The place of a chapter is where the order of sending has it; a chapter that is not
/// sent, or no chapter, stands for the first.
pub proof fn the_place_of_a_chapter(t: PlusJobView, number: nat, p: int)
    requires
        t.wf(),
    ensures
        0 <= p < t.send_order.len() && t.send_order[p] == number ==> t.place(number) == p,
        (forall|i: int| 0 <= i < t.send_order.len() ==> #[trigger] t.send_order[i] != number)
            ==> t.place(number) == 0,
        ({
            let u = t.moved(number);
            &&& u.pos == number && u.chunk_idx == 0 && u.chunk_texts.len() == 0 && u.retries == 0
            &&& u.chapters == t.chapters && u.send_order == t.send_order
            &&& u.cover_idx == t.cover_idx && u.cover_done == t.cover_done && u.cover_chunks
                == t.cover_chunks
            &&& u.file_name == t.file_name && u.author == t.author && u.summary == t.summary
            &&& u.total_words == t.total_words && u.last_chunk_time == t.last_chunk_time
        }),
{
    if 0 <= p < t.send_order.len() && t.send_order[p] == number {
        let u = PlusJobView { pos: p as nat, chunk_texts: Seq::empty(), ..t };
        laws::a_transfer_goes_on_where_it_was(u);
        assert(u.chapter().index == number);
        lemma_same_place(t, u, number, 0);
    }
    if forall|i: int| 0 <= i < t.send_order.len() ==> #[trigger] t.send_order[i] != number {
        lemma_no_place(t, number, 0);
    }
}

proof fn lemma_same_place(t: PlusJobView, u: PlusJobView, number: nat, from: nat)
    requires
        u.chapters == t.chapters,
        u.send_order == t.send_order,
        from <= t.send_order.len(),
    ensures
        transfer::place_from(t, number, from) == transfer::place_from(u, number, from),
    decreases t.send_order.len() - from,
{
    if from < t.send_order.len() {
        lemma_same_place(t, u, number, from + 1);
    }
}

proof fn lemma_no_place(t: PlusJobView, number: nat, from: nat)
    requires
        t.wf(),
        from <= t.send_order.len(),
        forall|i: int| 0 <= i < t.send_order.len() ==> #[trigger] t.send_order[i] != number,
    ensures
        transfer::place_from(t, number, from) == t.send_order.len(),
    decreases t.send_order.len() - from,
{
    if from < t.send_order.len() {
        let i = t.send_order[from as int] as int;
        assert(t.send_order[from as int] < t.chapters.len());
        assert(t.chapters[i].index == i);
        lemma_no_place(t, number, from + 1);
    }
}

/// After the last chunk of the cover its end is sent, and at once the text: the first
/// chunk of the chapter where the transfer is.
pub proof fn the_text_follows_the_cover(s: UiView, t: PlusJobView, now: u64)
    requires
        t.wf(),
        s.job() == Some(t),
        t.cover_chunks.len() > 0,
        t.cover_idx + 1 >= t.cover_chunks.len(),
        t.pos < t.send_order.len(),
        t.chunk_texts.len() == 0,
        t.chunk_idx == 0,
    ensures
        ({
            let after = s.cover_acked(now);
            &&& laws::at_chunk(after, t, t.pos, 0)
            &&& after.outbox.len() == s.outbox.len() + 2
            &&& after.outbox[s.outbox.len() as int] == (EffectView::Send {
                addr: s.address(),
                payload: protocol::wire(protocol::action("cover_transfer_complete"@)),
            })
            &&& after.job() matches Some(u) && u.cover_done
            &&& after.phase_text == Some("发送正文"@)
            &&& crate::click_laws::logged(after, "[封面] 发送完成"@)
        }),
{
    reveal(UiView::cover_acked);
    reveal(UiView::covering);
    reveal(UiView::covered);
    reveal(UiView::logging);
    reveal(UiView::emitted);
    let u = PlusJobView { cover_idx: t.cover_idx + 1, retries: 0, cover_done: true, ..t };
    let s1 = s.with_job(PlusJobView { cover_idx: t.cover_idx + 1, retries: 0, ..t });
    let s2 = UiView {
        phase_text: Some("发送正文"@),
        ..s1.with_job(u).with(
            EffectView::Send {
                addr: s.address(),
                payload: protocol::wire(protocol::action("cover_transfer_complete"@)),
            },
        ).logging("[封面] 发送完成"@, now)
    };
    crate::click_laws::lemma_logged(
        s1.with_job(u).with(
            EffectView::Send {
                addr: s.address(),
                payload: protocol::wire(protocol::action("cover_transfer_complete"@)),
            },
        ),
        "[封面] 发送完成"@,
        now,
    );
    laws::lemma_chunks_at(t, t.pos);
    laws::lemma_emits(s2, t, u, now);
}

/// What is sent again after a refusal is the message that was refused: the same chunk
/// of the same chapter, or the same chunk of the cover.
pub proof fn a_refused_chunk_goes_out_again(
    s: UiView,
    t: PlusJobView,
    message: Option<Seq<char>>,
    now: u64,
)
    requires
        s.job() == Some(t),
        t.wf(),
        t.retries < 3,
    ensures
        !t.cover_done && t.cover_idx < t.cover_chunks.len() ==> s.refused(
            message,
            now,
        ).outbox.last() == (EffectView::SendChecked {
            addr: s.address(),
            payload: protocol::wire(
                protocol::cover_chunk_members(
                    t.cover_idx,
                    t.cover_chunks.len(),
                    t.cover_chunks[t.cover_idx as int],
                ),
            ),
            then: AfterSend::Render,
        }),
        (t.cover_done || t.cover_chunks.len() == 0) && t.pos < t.send_order.len() && t.chunk_idx
            < t.chunk_texts.len() ==> (s.refused(message, now).outbox.last() matches EffectView::Measure(
            out,
        ) && out.addr == s.address() && out.pos == t.pos && out.chunk == t.chunk_idx && out.message
            == protocol::wire(
            protocol::chunk_members(
                t.send_order[t.pos as int] as nat,
                t.chapters[t.send_order[t.pos as int] as int].name,
                t.chapters[t.send_order[t.pos as int] as int].word_count,
                t.chunk_texts[t.chunk_idx as int],
                t.chunk_idx,
                t.chunk_texts.len(),
            ),
        )),
{
    three_refusals_are_borne(s, t, message, now);
    let u = PlusJobView { retries: t.retries + 1, ..t };
    if !t.cover_done && t.cover_idx < t.cover_chunks.len() {
        reveal(UiView::covering);
        reveal(UiView::saying);
        reveal(UiView::without_hide_timer);
        reveal(UiView::clearing);
    }
    if (t.cover_done || t.cover_chunks.len() == 0) && t.pos < t.send_order.len() && t.chunk_idx
        < t.chunk_texts.len() {
        assert(u.chapter() == t.chapter());
        a_chunk_says_how_far_the_transfer_is(s.with_job(u), u, now);
    }
}

/// Where all chunks of a chapter are out, its end is sent; where none was made yet, the
/// first one is.
pub proof fn a_chapter_goes_out_from_its_first_chunk_to_its_end(
    s: UiView,
    t: PlusJobView,
    now: u64,
)
    requires
        s.job() == Some(t),
        t.wf(),
        t.pos < t.send_order.len(),
    ensures
        t.chunk_texts.len() > 0 && t.chunk_idx >= t.chunk_texts.len() ==> s.emitted(now) == s.with(
            EffectView::SendChecked {
                addr: s.address(),
                payload: protocol::wire(
                    protocol::chapter_complete_members(t.send_order[t.pos as int] as nat),
                ),
                then: AfterSend::Render,
            },
        ),
        t.chunk_texts.len() == 0 && t.chunk_idx == 0 ==> laws::at_chunk(
            s.emitted(now),
            t,
            t.pos,
            0,
        ) && s.emitted(now).outbox.len() == s.outbox.len() + 1,
{
    laws::a_transfer_goes_on_where_it_was(t);
    laws::lemma_chunks_at(t, t.pos);
    if t.chunk_texts.len() == 0 && t.chunk_idx == 0 {
        laws::lemma_emits(s, t, t, now);
    }
    reveal(UiView::emitted);
}

/// A wristband that is ready has the link stand again, whatever is sent then.
pub proof fn a_ready_wristband_is_there(s: UiView, number: usize, now: u64)
    ensures
        !s.ready(number, now).handling_offline,
        s.ready(number, now).reconnect_attempts == s.reconnect_attempts,
        s.ready(number, now).is_sending == s.is_sending,
{
    reveal(UiView::ready);
    if let Some(t) = s.job() {
        let s1 = UiView { handling_offline: false, ..s }.with_job(
            t.moved(t.place(number as nat)),
        );
        lemma_link_kept(s1, now);
        lemma_link_kept(UiView { phase_text: Some("发送封面"@), ..s1 }, now);
    }
}

proof fn lemma_link_kept(s: UiView, now: u64)
    ensures
        s.emitted(now).handling_offline == s.handling_offline,
        s.emitted(now).reconnect_attempts == s.reconnect_attempts,
        s.emitted(now).is_sending == s.is_sending,
        s.covering(now).handling_offline == s.handling_offline,
        s.covering(now).reconnect_attempts == s.reconnect_attempts,
        s.covering(now).is_sending == s.is_sending,
{
    reveal(UiView::emitted);
    reveal(UiView::covering);
    reveal(UiView::covered);
    reveal(UiView::logging);
    reveal(UiView::saying);
    reveal(UiView::without_hide_timer);
    reveal(UiView::clearing);
}

/// After the last chapter the end of the book is sent, and the progress is full.
pub proof fn the_end_of_the_book_is_sent(s: UiView, t: PlusJobView, now: u64)
    requires
        s.job() == Some(t),
        t.pos >= t.send_order.len(),
    ensures
        ({
            let after = s.emitted(now);
            &&& after.outbox.last() == (EffectView::SendChecked {
                addr: s.address(),
                payload: protocol::wire(protocol::action("transfer_complete"@)),
                then: AfterSend::Render,
            })
            &&& after.progress == (Gauge { percent: 100, bar: 240 })
            &&& after.session == s.session
        }),
{
    reveal(UiView::emitted);
    reveal(UiView::saying);
    reveal(UiView::without_hide_timer);
    reveal(UiView::clearing);
}

/// The chunks of a chapter have at most 16384 bytes each.
pub proof fn chunks_of_a_chapter_are_limited(t: PlusJobView, i: int)
    requires
        t.wf(),
        t.pos < t.send_order.len(),
        0 <= i < t.filled().chunk_texts.len(),
    ensures
        vstd::utf8::encode_utf8(t.filled().chunk_texts[i]).len() <= 16384,
        text::concat(t.filled().chunk_texts) == t.chapters[t.send_order[t.pos as int] as int].content,
        i + 1 < t.filled().chunk_texts.len() ==> vstd::utf8::encode_utf8(
            t.filled().chunk_texts[i].push(t.filled().chunk_texts[i + 1][0]),
        ).len() > 16384,
{
    crate::chapter_laws::chunks_are_as_long_as_they_can_be(t.chapter().content, 16384, i);
}

/// A message that went out has the window drawn, counts as a sign of life, or needs
/// nothing more; one that did not is a lost link.
pub proof fn what_follows_a_message(s: UiView, then: AfterSend, now: u64)
    ensures
        s.sent(AfterSend::Nothing, true, now) == s,
        s.sent(AfterSend::Render, true, now) == s.drawn(),
        s.sent(AfterSend::MarkActivity, true, now) == (UiView { last_inbound_at: Some(now), ..s }),
        s.sent(then, false, now) == s.lost("发送失败"@, now),
{
    reveal(UiView::sent);
}

// ---------------------------------------------------------------- limits

/// A refused message is sent again three times in a row, and not a fourth time.
pub proof fn three_refusals_are_borne(
    s: UiView,
    t: PlusJobView,
    message: Option<Seq<char>>,
    now: u64,
)
    requires
        s.job() == Some(t),
        t.wf(),
    ensures
        t.retries < 3 ==> s.refused(message, now) == s.with_job(
            PlusJobView { retries: t.retries + 1, ..t },
        ).continued(now),
        t.retries == 3 ==> laws::idle(s.refused(message, now)) && s.refused(
            message,
            now,
        ).status_message == Some(
            "传输出错："@ + (match message {
                Some(m) => m,
                None => "传输出错"@,
            }),
        ),
        t.retries <= 3,
{
    laws::a_refused_message_is_sent_again(s, t, message, now);
    reveal(UiView::refused);
    if t.retries == 3 {
        laws::a_failure_ends_the_work(
            UiView { session: None, ..s },
            "传输出错："@ + crate::view::text_or(message, "传输出错"@),
            now,
        );
    }
}

/// The count of refusals begins anew with every message that the wristband takes.
pub proof fn refusals_are_counted_anew(s: UiView, t: PlusJobView, now: u64)
    requires
        s.job() == Some(t),
        t.wf(),
    ensures
        s.next_chunk(now).job() matches Some(u) && u.retries == 0,
        s.cover_acked(now).job() matches Some(u) && u.retries == 0,
        s.chapter_saved(now).job() matches Some(u) && u.retries == 0,
{
    reveal(UiView::next_chunk);
    reveal(UiView::cover_acked);
    reveal(UiView::chapter_saved);
    reveal(UiView::emitted);
    reveal(UiView::covering);
    reveal(UiView::covered);
    reveal(UiView::logging);
    reveal(UiView::saying);
    reveal(UiView::without_hide_timer);
    reveal(UiView::clearing);
}

/// A lost link is connected again three times, each time a second and a half later,
/// and then the transfer fails.
pub proof fn three_attempts_to_connect(s: UiView, reason: Seq<char>, now: u64)
    requires
        s.is_sending,
        !s.handling_offline,
        s.disconnect_action == crate::state::DisconnectAction::Retry,
    ensures
        ({
            let after = s.lost(reason, now);
            if s.reconnect_attempts < 3 {
                &&& after.is_sending && after.handling_offline
                &&& after.reconnect_attempts == s.reconnect_attempts + 1
                &&& after.session == transfer::rewound(s.session)
                &&& after.reconnect_timer_id matches Some(token) && after.outbox.contains(
                    EffectView::SetTimer {
                        token,
                        delay_ms: 1500,
                        tag: "timer_reconnect_attempt"@,
                    },
                )
            } else {
                laws::idle(after)
            }
        }),
{
    laws::a_lost_link_is_tried_a_few_times(s, reason, now);
    if s.reconnect_attempts < 3 {
        reveal(UiView::lost);
        reveal(UiView::retrying);
        reveal(UiView::reconnecting);
        reveal(UiView::without_watchdog);
        reveal(UiView::without_reconnect_timer);
        reveal(UiView::clearing);
        reveal(UiView::timing);
        reveal(UiView::drawn);
        reveal(UiView::logging);
        reveal(UiView::saying);
        reveal(UiView::without_hide_timer);
        let after = s.lost(reason, now);
        let n = after.outbox.len() as int;
        let timer = EffectView::SetTimer {
            token: after.reconnect_timer_id->0,
            delay_ms: 1500,
            tag: "timer_reconnect_attempt"@,
        };
        if s.root_element_id is Some {
            assert(after.outbox[n - 2] == timer);
        } else {
            assert(after.outbox[n - 1] == timer);
        }
    }
}

} // verus!
