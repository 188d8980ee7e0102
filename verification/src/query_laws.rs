//! What holds of connections, handshakes and questions, and of a new window.
use crate::chapters::SplitMode;
use crate::click_laws::logged;
use crate::click_laws::substance;
use crate::inbound::ReplyView;
use crate::laws;
use crate::protocol;
use crate::queries;
use crate::session::JobView;
use crate::session::QueryKind;
use crate::session::SessionView;
use crate::setting_laws;
use crate::settings;
use crate::state;
use crate::state::BandView;
use crate::state::DisconnectAction;
use crate::state::EffectView;
use crate::state::Gauge;
use crate::state::Panel;
use crate::state::PurposeView;
use crate::state::Tone;
use crate::state::UiView;
use crate::text;
use vstd::prelude::*;

verus! {

// ---------------------------------------------------------------- a new window

/// A new window has no book, shows the part for sending, splits automatically, skips
/// what the wristband has, connects again when a link is lost, and is at rest.
pub proof fn a_new_window_is_at_rest()
    ensures
        ({
            let s = state::initial_state();
            &&& s.panel == Panel::Send
            &&& s.file_name is None && s.file_text is None && s.file_size_bytes == 0
            &&& s.cover_name is None && s.cover_bytes is None
            &&& s.author.len() == 0 && s.summary.len() == 0
            &&& s.split.mode == SplitMode::Auto
            &&& s.split.words_per_chapter == 5000
            &&& s.split.keyword.len() == 0
            &&& s.skip_synced
            &&& s.chapter_estimate is None
            &&& s.disconnect_action == DisconnectAction::Retry
            &&& s.progress == (Gauge { percent: 0, bar: 0 })
            &&& s.status_message is None
            &&& s.log.len() == 0 && s.outbox.len() == 0
            &&& s.peer_version is None && s.last_device_addr is None && s.root_element_id is None
            &&& !s.band.status_known && !s.band.storage_known && !s.band.settings_loaded
                && !s.band.has_cover && s.band.product is None && s.band.synced_chapters.len() == 0
            &&& forall|k: Seq<char>| !#[trigger] s.band.settings.contains_key(k)
            &&& laws::idle(s)
        }),
{
}

/// The ends of the progress.
pub proof fn the_ends_of_the_progress()
    ensures
        Gauge::nothing() == (Gauge { percent: 0, bar: 0 }),
        Gauge::all() == (Gauge { percent: 100, bar: 240 }),
{
}

/// Two timers in a row are told apart by their tokens, and a timer that is set is
/// asked of the host with its delay and its tag.
pub proof fn timers_have_tokens(s: UiView, delay: u64, tag: Seq<char>)
    ensures
        s.timing(delay, tag).next_timer != s.next_timer,
        s.timing(delay, tag).outbox == s.outbox.push(
            EffectView::SetTimer { token: s.next_timer, delay_ms: delay, tag },
        ),
        s.clearing(Some(delay)).outbox == s.outbox.push(EffectView::ClearTimer(delay)),
        s.clearing(None) == s,
{
    reveal(UiView::timing);
    reveal(UiView::clearing);
}

/// A message that is to go away does so after three seconds; one that is to stay
/// takes the timer of the one before it away.
pub proof fn a_message_is_shown(s: UiView, message: Seq<char>, tone: Tone)
    ensures
        ({
            let after = s.saying(message, tone, true);
            &&& after.status_message == Some(message)
            &&& after.status_tone == tone
            &&& after.hide_message_timer_id == Some(s.next_timer)
            &&& after.outbox.last() == (EffectView::SetTimer {
                token: s.next_timer,
                delay_ms: 3000,
                tag: "timer_hide_message"@,
            })
            &&& substance(after) == substance(s)
        }),
        ({
            let after = s.saying(message, tone, false);
            &&& after.status_message == Some(message)
            &&& after.status_tone == tone
            &&& after.hide_message_timer_id is None
            &&& s.hide_message_timer_id matches Some(t) ==> after.outbox.last()
                == EffectView::ClearTimer(t)
            &&& s.hide_message_timer_id is None ==> after.outbox == s.outbox
            &&& substance(after) == substance(s)
        }),
{
    reveal(UiView::saying);
    reveal(UiView::hiding);
    reveal(UiView::without_hide_timer);
    reveal(UiView::clearing);
    reveal(UiView::timing);
}

/// A line of the log begins with the time since the start, in minutes and seconds.
pub proof fn a_line_of_the_log_has_its_time(s: UiView, message: Seq<char>, now: u64)
    requires
        s.log.len() < 120,
    ensures
        ({
            let start = match s.started_at {
                Some(t) => t,
                None => now,
            };
            let after = s.logging(message, now);
            &&& after.started_at == Some(start)
            &&& after.log.len() == s.log.len() + 1
            &&& after.log.drop_last() == s.log
            &&& now >= start ==> after.log.last() == "["@ + crate::display::clock(
                ((now - start) / 1_000_000_000) as nat,
            ) + "] "@ + message
            &&& now < start ==> after.log.last() == "["@ + "00:00"@ + "] "@ + message
        }),
{
    reveal(UiView::logging);
    let after = s.logging(message, now);
    assert(after.log.drop_last() =~= s.log);
}

/// The log keeps a hundred and twenty lines: the oldest goes when one more comes.
pub proof fn a_full_log_drops_its_oldest_line(s: UiView, message: Seq<char>, now: u64)
    requires
        s.log.len() == 120,
    ensures
        s.logging(message, now).log.len() == 120,
        s.logging(message, now).log.drop_last() == s.log.skip(1),
{
    reveal(UiView::logging);
    let after = s.logging(message, now);
    assert(after.log.drop_last() =~= s.log.skip(1));
}

// ---------------------------------------------------------------- connections

/// A device is still connected where some device is, and it is among them where its
/// address is known.
pub proof fn when_a_device_is_still_connected(devices: Seq<Seq<char>>, addr: Seq<char>)
    ensures
        queries::still_connected(devices, addr) <==> (devices.len() > 0 && (addr.len() == 0
            || exists|i: int| 0 <= i < devices.len() && #[trigger] devices[i] == addr)),
{
}

/// The connection for a question begins a session that asks it, and the first
/// handshake goes out after a while.
pub proof fn a_connection_begins_the_question(
    s: UiView,
    kind: QueryKind,
    with_book: bool,
    addr: Seq<char>,
    now: u64,
)
    ensures
        ({
            let after = s.connected(PurposeView::Query { kind, with_book }, Ok(addr), now);
            &&& after.session matches Some(session) && session.device_addr == addr && session.job
                == JobView::Query(kind) && session.pending_start && !session.handshake_complete
            &&& after.last_device_addr == Some(addr)
            &&& after.handshake_timer_id == Some(s.next_timer)
            &&& after.outbox[s.outbox.len() as int] == (EffectView::SetTimer {
                token: s.next_timer,
                delay_ms: 1200,
                tag: "timer_start_handshake"@,
            })
            &&& after.is_querying == s.is_querying && after.pending_writes == s.pending_writes
                && after.band == s.band
            &&& logged(
                after,
                match kind {
                    QueryKind::Status => if with_book {
                        "[设备] 查询存储"@ + "与书籍同步状态"@
                    } else {
                        "[设备] 查询存储"@
                    },
                    QueryKind::Settings => "[设备] 读取手环阅读设置"@,
                },
            )
        }),
{
    reveal(UiView::query_connected);
    reveal(UiView::handshake_in);
    reveal(UiView::timing);
    reveal(UiView::drawn);
    reveal(UiView::logging);
    let line = queries::query_line(kind, with_book);
    let s1 = UiView {
        last_device_addr: Some(addr),
        session: Some(queries::asking(addr, kind)),
        ..s
    }.handshake_in(1200);
    crate::click_laws::lemma_logged(s1, line, now);
}

/// A link that stands again goes on with the transfer: nothing of the session changes,
/// the handshake begins anew, and the watch goes on.
pub proof fn a_link_that_stands_again(s: UiView, addr: Seq<char>, now: u64)
    ensures
        ({
            let after = s.connected(PurposeView::Reconnect, Ok(addr), now);
            &&& after.session == s.session
            &&& !after.handling_offline
            &&& after.offline_strikes == 0
            &&& after.last_device_addr == Some(addr)
            &&& after.last_inbound_at == Some(now)
            &&& after.reconnect_attempts == s.reconnect_attempts
            &&& after.is_sending == s.is_sending
            &&& after.progress == s.progress
            &&& after.phase_text == Some("重连成功，恢复传输"@)
            &&& logged(after, "[掉线] 已重新连接，等待手环响应"@)
            &&& after.handshake_timer_id == Some(s.next_timer)
            &&& after.outbox[s.outbox.len() as int] == (EffectView::SetTimer {
                token: s.next_timer,
                delay_ms: 1500,
                tag: "timer_start_handshake"@,
            })
            &&& after.watchdog_timer_id matches Some(token) && after.outbox.contains(
                EffectView::SetTimer { token, delay_ms: 1000, tag: "timer_transfer_watchdog"@ },
            )
        }),
{
    reveal(UiView::reconnected);
    reveal(UiView::handshake_in);
    reveal(UiView::watched);
    reveal(UiView::without_watchdog);
    reveal(UiView::clearing);
    reveal(UiView::timing);
    reveal(UiView::drawn);
    reveal(UiView::logging);
    let after = s.connected(PurposeView::Reconnect, Ok(addr), now);
    crate::click_laws::lemma_logged(
        UiView {
            handling_offline: false,
            offline_strikes: 0,
            last_device_addr: Some(addr),
            last_inbound_at: Some(now),
            phase_text: Some("重连成功，恢复传输"@),
            ..s
        },
        "[掉线] 已重新连接，等待手环响应"@,
        now,
    );
    let n = s.outbox.len() as int;
    let e = EffectView::SetTimer {
        token: after.watchdog_timer_id->0,
        delay_ms: 1000,
        tag: "timer_transfer_watchdog"@,
    };
    if s.watchdog_timer_id is Some {
        assert(after.outbox[n + 2] == e);
    } else {
        assert(after.outbox[n + 1] == e);
    }
}

// ---------------------------------------------------------------- handshakes

/// The version that counts is the highest that the wristband gave.
pub proof fn the_highest_version_counts(known: i64, given: i64)
    ensures
        queries::highest(Some(known), Some(given)) == Some(
            if known > given {
                known
            } else {
                given
            },
        ),
        queries::highest(None, Some(given)) == Some(given),
        queries::highest(Some(known), None) == Some(known),
        queries::highest(None, None) is None,
{
}

/// A handshake with a count completes the handshake of a session that waits for it,
/// and begins its job; one without a count does neither.
pub proof fn a_counted_handshake_begins_the_job(session: SessionView, count: nat)
    ensures
        session.pending_start && !session.handshake_complete ==> (session.starts(count) <==> count
            > 0),
        !session.pending_start ==> !session.starts(count),
        session.shaken(count).handshake_complete <==> session.handshake_complete || count > 0,
        session.starts(count) ==> !session.shaken(count).pending_start,
        !session.starts(count) ==> session.shaken(count).pending_start == session.pending_start,
{
}

/// The session of a question, about to begin.
pub open spec fn about_to_ask(s: UiView, kind: QueryKind, addr: Seq<char>) -> bool {
    s.session matches Some(session) && session.device_addr == addr && session.job
        == JobView::Query(kind) && session.pending_start && !session.handshake_complete
}

/// The question about the state asks for the storage, and about the book where there is
/// one; it waits for as many answers as it asks, at most five seconds.
pub proof fn the_question_about_the_state(
    s: UiView,
    addr: Seq<char>,
    version: Option<i64>,
    now: u64,
)
    requires
        about_to_ask(s, QueryKind::Status, addr),
    ensures
        ({
            let after = s.shaken(1, version, now);
            let n = after.outbox.len() as int;
            let storage = EffectView::Send {
                addr,
                payload: protocol::wire(protocol::action("get_storage_info"@)),
            };
            &&& after.outbox.last() matches EffectView::SetTimer { token, delay_ms, tag }
                && delay_ms == 5000 && tag == "timer_query_timeout"@ && after.query_timer_id
                == Some(token)
            &&& s.file_name is None ==> after.query_expect == 1 && after.outbox[n - 2] == storage
            &&& s.file_name matches Some(name) ==> after.query_expect == 2 && after.outbox[n - 3]
                == storage && after.outbox[n - 2] == (EffectView::Send {
                addr,
                payload: protocol::wire(protocol::book_status_members(name)),
            })
            &&& after.phase_text == Some("读取中"@)
        }),
{
    reveal(UiView::shaken);
    reveal(UiView::begun);
    reveal(UiView::asked);
    reveal(UiView::asked_status);
    reveal(UiView::query_timed);
    reveal(UiView::timing);
    reveal(UiView::without_handshake_timer);
    reveal(UiView::clearing);
    reveal(UiView::logging);
    reveal(UiView::drawn);
}

/// The question about the settings asks for all of them by their keys; where changed
/// settings wait, these are written in its place. Either way one answer is waited for.
pub proof fn the_question_about_the_settings(
    s: UiView,
    addr: Seq<char>,
    version: Option<i64>,
    now: u64,
)
    requires
        about_to_ask(s, QueryKind::Settings, addr),
    ensures
        ({
            let after = s.shaken(1, version, now);
            let n = after.outbox.len() as int;
            let w = s.pending_writes.len() as int;
            &&& after.outbox.last() matches EffectView::SetTimer { token, delay_ms, tag }
                && delay_ms == 5000 && tag == "timer_query_timeout"@ && after.query_timer_id
                == Some(token)
            &&& after.query_expect == 1
            &&& after.pending_writes.len() == 0
            &&& w == 0 ==> after.outbox[n - 2] == (EffectView::Send {
                addr,
                payload: protocol::wire(
                    protocol::get_settings_members(setting_laws::all_keys()),
                ),
            })
            &&& forall|i: int|
                #![trigger s.pending_writes[i]]
                0 <= i < w ==> after.outbox[n - 1 - w + i] == (EffectView::Send {
                    addr,
                    payload: protocol::wire(
                        protocol::set_setting_members(
                            s.pending_writes[i].0,
                            s.pending_writes[i].1,
                        ),
                    ),
                })
        }),
{
    setting_laws::there_are_no_other_settings(Seq::empty());
    reveal(UiView::shaken);
    reveal(UiView::begun);
    reveal(UiView::asked);
    reveal(UiView::query_timed);
    reveal(UiView::timing);
    reveal(UiView::without_handshake_timer);
    reveal(UiView::clearing);
    reveal(UiView::logging);
    reveal(UiView::drawn);
    let session = s.session->0;
    let s1 = UiView {
        session: Some(session.shaken(1)),
        peer_version: queries::highest(s.peer_version, version),
        ..s
    }.without_handshake_timer().greeting(session.device_addr, 2);
    let s2 = UiView { phase_text: Some("已连接"@), ..s1 }.logging(
        "[连接] 已连接手环"@,
        now,
    ).drawn();
    assert(s2.pending_writes == s.pending_writes);
    if s.pending_writes.len() == 0 {
        reveal(UiView::asked_settings);
    } else {
        laws::waiting_settings_are_written_in_order(s2, addr, 0);
        let asked = s2.asked_settings(addr);
        let after = s.shaken(1, version, now);
        assert(after.outbox.len() == asked.outbox.len() + 1);
        assert forall|i: int|
            #![trigger s.pending_writes[i]]
            0 <= i < s.pending_writes.len() implies after.outbox[after.outbox.len() - 1
            - s.pending_writes.len() + i] == (EffectView::Send {
            addr,
            payload: protocol::wire(
                protocol::set_setting_members(s.pending_writes[i].0, s.pending_writes[i].1),
            ),
        }) by {
            laws::waiting_settings_are_written_in_order(s2, addr, i);
        }
    }
}

// ---------------------------------------------------------------- answers

/// Which chapters and whether a cover are on the wristband is known once it said so.
pub proof fn the_state_of_the_book_is_known(
    s: UiView,
    synced: Seq<usize>,
    has_cover: bool,
    now: u64,
)
    ensures
        s.replied(ReplyView::BookStatus { synced, has_cover }, now).band == (BandView {
            status_known: true,
            synced_chapters: synced,
            has_cover,
            ..s.band
        }),
{
    reveal(UiView::replied);
    reveal(UiView::status_given);
    reveal(UiView::logging);
    let line = "[设备] 已同步 "@ + text::decimal(synced.len()) + " 章"@ + crate::view::cover_remark(
        has_cover,
    );
    let s1 = UiView {
        band: BandView { status_known: true, synced_chapters: synced, has_cover, ..s.band },
        ..s
    };
    laws::lemma_settled_band(s1.logging(line, now));
}

/// The model and the storage of the wristband are known once it said so.
pub proof fn the_storage_is_known(
    s: UiView,
    product: Option<Seq<char>>,
    total: u64,
    avail: u64,
    now: u64,
)
    ensures
        s.replied(ReplyView::StorageInfo { product, total, avail }, now).band == (BandView {
            storage_known: true,
            product,
            storage_total: total,
            storage_avail: avail,
            ..s.band
        }),
{
    reveal(UiView::replied);
    reveal(UiView::storage_given);
    reveal(UiView::logging);
    let line = "[设备] "@ + crate::view::text_or(product, "手环"@) + " 可用 "@
        + crate::view::storage_size(avail) + " / "@ + crate::view::storage_size(total);
    let s1 = UiView {
        band: BandView {
            storage_known: true,
            product,
            storage_total: total,
            storage_avail: avail,
            ..s.band
        },
        ..s
    };
    laws::lemma_settled_band(s1.logging(line, now));
}

/// The settings that the wristband gives are known, and the others stay.
pub proof fn the_settings_are_known(
    s: UiView,
    values: Map<Seq<char>, Seq<char>>,
    count: nat,
    key: Seq<char>,
    now: u64,
)
    ensures
        ({
            let after = s.replied(ReplyView::SettingsData { values, count }, now);
            &&& after.band.settings_loaded
            &&& after.setting_text(key) == (if values.contains_key(key) {
                values[key]
            } else {
                s.setting_text(key)
            })
            &&& after.band.synced_chapters == s.band.synced_chapters
        }),
{
    reveal(UiView::replied);
    setting_laws::given_settings_are_known(s, values, count, key, now);
    laws::lemma_settings_given(s, values, count, now);
}

/// Every answer that a question waits for counts, of whatever kind; with the last one
/// the question is over.
pub proof fn answers_settle_the_question(
    s: UiView,
    synced: Seq<usize>,
    has_cover: bool,
    message: Option<Seq<char>>,
    now: u64,
)
    requires
        s.is_querying,
        !s.is_sending,
    ensures
        ({
            let status = s.replied(ReplyView::BookStatus { synced, has_cover }, now);
            let done = s.replied(ReplyView::Success { message }, now);
            &&& s.query_expect > 1 ==> status.query_expect == s.query_expect - 1
                && status.is_querying && done.query_expect == s.query_expect - 1 && done.is_querying
            &&& s.query_expect == 1 ==> laws::idle(status) && laws::idle(done)
                && status.status_message == Some("手环信息已更新"@) && done.status_message == Some(
                "手环信息已更新"@,
            )
        }),
{
    reveal(UiView::replied);
    reveal(UiView::status_given);
    reveal(UiView::logging);
    let line = "[设备] 已同步 "@ + text::decimal(synced.len()) + " 章"@ + crate::view::cover_remark(
        has_cover,
    );
    let s1 = UiView {
        band: BandView { status_known: true, synced_chapters: synced, has_cover, ..s.band },
        ..s
    }.logging(line, now);
    let s2 = s.logging("[设置] "@ + crate::view::text_or(message, "设置已更新"@), now);
    laws::a_question_ends_with_its_last_answer(s1);
    laws::a_question_ends_with_its_last_answer(s2);
    if s.query_expect == 1 {
        laws::lemma_settled_message(s1);
        laws::lemma_settled_message(s2);
    }
}

/// An error that answers a question ends it, and is shown.
pub proof fn an_error_ends_the_question(s: UiView, message: Option<Seq<char>>, now: u64)
    requires
        s.is_querying,
    ensures
        ({
            let after = s.replied(ReplyView::Error { message }, now);
            &&& laws::idle(after)
            &&& after.status_message == Some(
                "手环返回："@ + (match message {
                    Some(m) => m,
                    None => "手环返回错误"@,
                }),
            )
        }),
{
    reveal(UiView::replied);
    laws::a_failure_ends_the_work(
        s,
        "手环返回："@ + crate::view::text_or(message, "手环返回错误"@),
        now,
    );
}

// ---------------------------------------------------------------- lost links

/// What is said when the link stays lost: how often it was tried, and what may help
/// where it was a matter of time.
pub proof fn what_is_said_of_a_link_that_stays_lost(s: UiView, reason: Seq<char>, now: u64)
    requires
        s.is_sending,
        !s.handling_offline,
        s.disconnect_action == DisconnectAction::Retry,
        s.reconnect_attempts >= 3,
    ensures
        s.lost(reason, now).status_message == Some(
            reason + "，已重连 "@ + text::decimal(3) + " 次仍失败"@ + (if exists|
                a: Seq<char>,
                b: Seq<char>,
            | reason == #[trigger] (a + "超时"@ + b) {
                "，请确认手环端应用已打开并停留在前台"@
            } else {
                ""@
            }),
        ),
{
    reveal(UiView::lost);
    reveal(UiView::retrying);
    reveal(UiView::without_watchdog);
    reveal(UiView::clearing);
    let s1 = UiView { handling_offline: true, ..s }.without_watchdog();
    laws::a_failure_ends_the_work(
        UiView { handling_offline: false, reconnect_attempts: 0, ..s1 },
        reason + "，已重连 "@ + text::decimal(3) + " 次仍失败"@ + crate::transfer::give_up_hint(
            reason,
        ),
        now,
    );
    crate::text_laws::a_text_within_a_text(reason, "超时"@);
}

/// While attempts are left, the window says which one it is.
pub proof fn what_is_said_of_an_attempt(s: UiView, reason: Seq<char>, now: u64)
    requires
        s.is_sending,
        !s.handling_offline,
        s.disconnect_action == DisconnectAction::Retry,
        s.reconnect_attempts < 3,
    ensures
        ({
            let count = text::decimal(s.reconnect_attempts + 1) + "/"@ + text::decimal(3);
            let after = s.lost(reason, now);
            &&& after.status_message == Some(reason + "，正在重连 "@ + count)
            &&& after.phase_text == Some("重新连接 ("@ + count + ")"@)
            &&& logged(after, "[掉线] "@ + reason + "，第 "@ + count + " 次尝试重连"@)
        }),
{
    reveal(UiView::lost);
    reveal(UiView::retrying);
    reveal(UiView::reconnecting);
    reveal(UiView::without_watchdog);
    reveal(UiView::without_reconnect_timer);
    reveal(UiView::clearing);
    reveal(UiView::timing);
    reveal(UiView::drawn);
    reveal(UiView::saying);
    reveal(UiView::without_hide_timer);
    let count = text::decimal(s.reconnect_attempts + 1) + "/"@ + text::decimal(3);
    let s1 = UiView {
        reconnect_attempts: s.reconnect_attempts + 1,
        session: crate::transfer::rewound(s.session),
        phase_text: Some("重新连接 ("@ + count + ")"@),
        ..UiView { handling_offline: true, ..s }.without_watchdog()
    }.saying(reason + "，正在重连 "@ + count, Tone::Neutral, false);
    let line = "[掉线] "@ + reason + "，第 "@ + count + " 次尝试重连"@;
    crate::click_laws::lemma_logged(s1, line, now);
    assert(s1.logging(line, now).phase_text == s1.phase_text) by {
        reveal(UiView::logging);
    }
}

/// A transfer that is called off because of a lost link is called off at the wristband
/// too, where its address is known.
pub proof fn the_wristband_is_told(s: UiView, reason: Seq<char>, now: u64)
    requires
        s.is_sending,
        !s.handling_offline,
        s.disconnect_action == DisconnectAction::Cancel,
        s.address().len() > 0,
    ensures
        s.lost(reason, now).outbox.contains(
            EffectView::Send {
                addr: s.address(),
                payload: protocol::wire(protocol::action("cancel"@)),
            },
        ),
        s.cancel_refresh_timer_id is None ==> ({
            let after = s.lost(reason, now);
            after.cancel_refresh_timer_id matches Some(token) && after.outbox.contains(
                EffectView::SetTimer { token, delay_ms: 900, tag: "timer_refresh_after_cancel"@ },
            )
        }),
{
    reveal(UiView::lost);
    reveal(UiView::called_off);
    reveal(UiView::without_watchdog);
    reveal(UiView::clearing);
    let s1 = UiView { handling_offline: true, ..s }.without_watchdog();
    let e = EffectView::Send {
        addr: s.address(),
        payload: protocol::wire(protocol::action("cancel"@)),
    };
    let s2 = UiView { handling_offline: false, reconnect_attempts: 0, ..s1.with(e) };
    let message = reason + "，已取消传输"@;
    let line = "[掉线] "@ + reason + "，按设置取消传输"@;
    laws::lemma_outbox_kept(s2, message, line, now);
    let after = s.lost(reason, now);
    let n = s1.outbox.len() as int;
    assert(s2.outbox[n] == e);
    assert(after.outbox[n] == e);
    if s.cancel_refresh_timer_id is None {
        reveal(UiView::refresh_later);
        reveal(UiView::timing);
        reveal(UiView::drawn);
        reveal(UiView::saying);
        reveal(UiView::hiding);
        reveal(UiView::without_hide_timer);
        reveal(UiView::logging);
        reveal(UiView::finished);
        reveal(UiView::without_handshake_timer);
        reveal(UiView::without_query_timer);
        reveal(UiView::without_reconnect_timer);
        let m = after.outbox.len() as int;
        let timer = EffectView::SetTimer {
            token: after.cancel_refresh_timer_id->0,
            delay_ms: 900,
            tag: "timer_refresh_after_cancel"@,
        };
        if s.root_element_id is Some {
            assert(after.outbox[m - 2] == timer);
        } else {
            assert(after.outbox[m - 1] == timer);
        }
    }
}

} // verus!
