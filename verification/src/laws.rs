//! What holds of transfers, queries and the window as a whole.
use crate::chapters;
use crate::inbound::ReplyView;
use crate::protocol;
use crate::queries;
use crate::session::JobView;
use crate::session::PlusJobView;
use crate::session::QueryKind;
use crate::session::Retry;
use crate::session::SessionView;
use crate::session::MAX_RETRY;
use crate::session::PLUS_CHUNK_BYTES;
use crate::settings;
use crate::settings::SettingView;
use crate::state::AfterSend;
use crate::state::DisconnectAction;
use crate::state::EffectView;
use crate::state::Gauge;
use crate::state::UiView;
use crate::state::MAX_LOG_LINES;
use crate::state::MAX_RECONNECT;
use crate::text;
use crate::transfer;
use crate::ui;
use crate::view;
use vstd::prelude::*;

verus! {

// ---------------------------------------------------------------- small steps keep the rest

/// The parts of the state that messages, log lines and timers leave alone.
pub open spec fn same_work(a: UiView, b: UiView) -> bool {
    &&& a.session == b.session
    &&& a.is_sending == b.is_sending
    &&& a.is_querying == b.is_querying
    &&& a.handling_offline == b.handling_offline
    &&& a.reconnect_attempts == b.reconnect_attempts
    &&& a.offline_strikes == b.offline_strikes
    &&& a.disconnect_action == b.disconnect_action
    &&& a.progress == b.progress
    &&& a.query_expect == b.query_expect
    &&& a.pending_writes == b.pending_writes
    &&& a.band == b.band
    &&& a.last_device_addr == b.last_device_addr
    &&& a.last_inbound_at == b.last_inbound_at
    &&& a.peer_version == b.peer_version
    &&& a.root_element_id == b.root_element_id
    &&& a.file_name == b.file_name
    &&& a.file_text == b.file_text
    &&& a.file_size_bytes == b.file_size_bytes
    &&& a.cover_name == b.cover_name
    &&& a.cover_bytes == b.cover_bytes
    &&& a.author == b.author
    &&& a.summary == b.summary
    &&& a.split == b.split
    &&& a.skip_synced == b.skip_synced
    &&& a.phase_text == b.phase_text
    &&& a.panel == b.panel
}

proof fn lemma_steps(s: UiView, message: Seq<char>, tone: crate::state::Tone, hide: bool, now: u64)
    ensures
        same_work(s.saying(message, tone, hide), s),
        same_work(s.logging(message, now), s),
        same_work(s.drawn(), s),
        same_work(s.refresh_later(), s),
        same_work(s.reconnecting(), s),
        s.reconnecting().reconnect_timer_id is Some,
        s.saying(message, tone, hide).status_message == Some(message),
        s.drawn().reconnect_timer_id == s.reconnect_timer_id,
        s.saying(message, tone, hide).reconnect_timer_id == s.reconnect_timer_id,
        s.logging(message, now).reconnect_timer_id == s.reconnect_timer_id,
{
    reveal(UiView::saying);
    reveal(UiView::logging);
    reveal(UiView::drawn);
    reveal(UiView::refresh_later);
    reveal(UiView::reconnecting);
    reveal(UiView::hiding);
    reveal(UiView::timing);
    reveal(UiView::clearing);
    reveal(UiView::without_hide_timer);
    reveal(UiView::without_reconnect_timer);
}

/// Nothing is going on.
pub open spec fn idle(s: UiView) -> bool {
    &&& !s.busy()
    &&& s.session is None
    &&& s.pending_writes.len() == 0
    &&& s.query_expect == 0
    &&& !s.handling_offline
    &&& s.reconnect_attempts == 0
    &&& s.offline_strikes == 0
    &&& s.speed_text is None
    &&& s.phase_text is None
    &&& s.handshake_timer_id is None
    &&& s.query_timer_id is None
    &&& s.watchdog_timer_id is None
    &&& s.reconnect_timer_id is None
}

/// The end of a transfer or a query leaves nothing going on: every timer of it is
/// cleared at the host, and the progress stays or is taken back.
pub proof fn the_end_leaves_nothing_running(s: UiView, clear_progress: bool)
    ensures
        idle(s.finished(clear_progress)),
        s.finished(clear_progress).progress == (if clear_progress {
            Gauge::nothing()
        } else {
            s.progress
        }),
        s.handshake_timer_id matches Some(t) ==> s.finished(clear_progress).outbox.contains(
            EffectView::ClearTimer(t),
        ),
        s.query_timer_id matches Some(t) ==> s.finished(clear_progress).outbox.contains(
            EffectView::ClearTimer(t),
        ),
        s.watchdog_timer_id matches Some(t) ==> s.finished(clear_progress).outbox.contains(
            EffectView::ClearTimer(t),
        ),
        s.reconnect_timer_id matches Some(t) ==> s.finished(clear_progress).outbox.contains(
            EffectView::ClearTimer(t),
        ),
{
    reveal(UiView::finished);
    reveal(UiView::clearing);
    reveal(UiView::without_handshake_timer);
    reveal(UiView::without_query_timer);
    reveal(UiView::without_watchdog);
    reveal(UiView::without_reconnect_timer);
    broadcast use vstd::seq_lib::group_seq_properties;

    let end = s.finished(clear_progress);
    let n0 = s.outbox.len() as int;
    let n1 = n0 + if s.handshake_timer_id is Some {
        1int
    } else {
        0
    };
    let n2 = n1 + if s.query_timer_id is Some {
        1int
    } else {
        0
    };
    let n3 = n2 + if s.watchdog_timer_id is Some {
        1int
    } else {
        0
    };
    if let Some(t) = s.handshake_timer_id {
        assert(end.outbox[n0] == EffectView::ClearTimer(t));
    }
    if let Some(t) = s.query_timer_id {
        assert(end.outbox[n1] == EffectView::ClearTimer(t));
    }
    if let Some(t) = s.watchdog_timer_id {
        assert(end.outbox[n2] == EffectView::ClearTimer(t));
    }
    if let Some(t) = s.reconnect_timer_id {
        assert(end.outbox[n3] == EffectView::ClearTimer(t));
    }
}

/// What is drawn or hidden after the end does not bring anything back.
proof fn lemma_idle_after(s: UiView, now: u64)
    requires
        idle(s),
    ensures
        idle(s.drawn()),
        idle(s.refresh_later()),
{
    reveal(UiView::drawn);
    reveal(UiView::refresh_later);
    reveal(UiView::timing);
}

/// A failure ends what is going on, and says why.
pub proof fn a_failure_ends_the_work(s: UiView, message: Seq<char>, now: u64)
    ensures
        idle(s.failed(message, now)),
        s.failed(message, now).status_message == Some(message),
        s.failed(message, now).progress == Gauge::nothing(),
{
    reveal(UiView::failed);
    lemma_steps(s, message, crate::state::Tone::Error, true, now);
    let said = s.saying(message, crate::state::Tone::Error, true);
    let logged = said.logging("[错误] "@ + message, now);
    lemma_message_kept(said, "[错误] "@ + message, now);
    the_end_leaves_nothing_running(logged, true);
    lemma_idle_after(logged.finished(true), now);
    lemma_message_finished(logged, true);
}

/// What is called off with a message leaves nothing going on.
pub(crate) proof fn lemma_called_off(s: UiView, message: Seq<char>, line: Seq<char>, now: u64)
    ensures
        ({
            let after = s.saying(message, crate::state::Tone::Neutral, true).logging(
                line,
                now,
            ).finished(true).drawn();
            idle(after) && after.status_message == Some(message)
        }),
{
    lemma_steps(s, message, crate::state::Tone::Neutral, true, now);
    let said = s.saying(message, crate::state::Tone::Neutral, true);
    lemma_message_kept(said, line, now);
    let logged = said.logging(line, now);
    the_end_leaves_nothing_running(logged, true);
    lemma_idle_after(logged.finished(true), now);
    lemma_message_finished(logged, true);
}

/// What is not answered leaves nothing going on.
pub(crate) proof fn lemma_unanswered(s: UiView, message: Seq<char>, line: Seq<char>, now: u64)
    ensures
        ({
            let after = s.saying(message, crate::state::Tone::Error, true).logging(
                line,
                now,
            ).finished(true).drawn();
            idle(after) && after.status_message == Some(message)
        }),
{
    lemma_steps(s, message, crate::state::Tone::Error, true, now);
    let said = s.saying(message, crate::state::Tone::Error, true);
    lemma_message_kept(said, line, now);
    let logged = said.logging(line, now);
    the_end_leaves_nothing_running(logged, true);
    lemma_idle_after(logged.finished(true), now);
    lemma_message_finished(logged, true);
}

/// What is called off, with a look at the wristband later, leaves nothing going on.
pub(crate) proof fn lemma_refreshed(s: UiView, message: Seq<char>, line: Seq<char>, now: u64)
    ensures
        ({
            let after = s.saying(message, crate::state::Tone::Neutral, true).logging(
                line,
                now,
            ).finished(true).refresh_later().drawn();
            idle(after) && after.status_message == Some(message) && after.progress
                == Gauge::nothing()
        }),
{
    lemma_steps(s, message, crate::state::Tone::Neutral, true, now);
    let said = s.saying(message, crate::state::Tone::Neutral, true);
    lemma_message_kept(said, line, now);
    let logged = said.logging(line, now);
    the_end_leaves_nothing_running(logged, true);
    lemma_message_finished(logged, true);
    lemma_idle_after(logged.finished(true), now);
    lemma_idle_after(logged.finished(true).refresh_later(), now);
    let end = logged.finished(true);
    lemma_steps(end, message, crate::state::Tone::Neutral, true, now);
    lemma_steps(end.refresh_later(), message, crate::state::Tone::Neutral, true, now);
}

/// What was asked of the host before is still asked.
pub(crate) proof fn lemma_outbox_grows(s: UiView, message: Seq<char>, line: Seq<char>, now: u64)
    ensures
        ({
            let after = s.saying(message, crate::state::Tone::Neutral, true).logging(
                line,
                now,
            ).finished(true).refresh_later().drawn();
            &&& s.outbox.len() <= after.outbox.len()
            &&& forall|i: int| 0 <= i < s.outbox.len() ==> #[trigger] after.outbox[i] == s.outbox[i]
        }),
{
    reveal(UiView::saying);
    reveal(UiView::hiding);
    reveal(UiView::without_hide_timer);
    reveal(UiView::clearing);
    reveal(UiView::timing);
    reveal(UiView::logging);
    reveal(UiView::finished);
    reveal(UiView::without_handshake_timer);
    reveal(UiView::without_query_timer);
    reveal(UiView::without_watchdog);
    reveal(UiView::without_reconnect_timer);
    reveal(UiView::refresh_later);
    reveal(UiView::drawn);
}

/// What was asked of the host before is still asked.
pub(crate) proof fn lemma_outbox_kept(s: UiView, message: Seq<char>, line: Seq<char>, now: u64)
    ensures
        ({
            let after = s.saying(message, crate::state::Tone::Error, true).logging(
                line,
                now,
            ).finished(true).refresh_later().drawn();
            &&& s.outbox.len() <= after.outbox.len()
            &&& forall|i: int| 0 <= i < s.outbox.len() ==> #[trigger] after.outbox[i] == s.outbox[i]
        }),
{
    reveal(UiView::saying);
    reveal(UiView::hiding);
    reveal(UiView::without_hide_timer);
    reveal(UiView::clearing);
    reveal(UiView::timing);
    reveal(UiView::logging);
    reveal(UiView::finished);
    reveal(UiView::without_handshake_timer);
    reveal(UiView::without_query_timer);
    reveal(UiView::without_watchdog);
    reveal(UiView::without_reconnect_timer);
    reveal(UiView::refresh_later);
    reveal(UiView::drawn);
}

/// What the last answer says.
pub(crate) proof fn lemma_settled_message(s: UiView)
    requires
        s.is_querying,
        s.query_expect == 1,
    ensures
        s.settled().status_message == Some("手环信息已更新"@),
{
    reveal(UiView::settled);
    let said = UiView { query_expect: 0, ..s }.without_query_timer().saying(
        "手环信息已更新"@,
        crate::state::Tone::Success,
        true,
    );
    lemma_steps(
        UiView { query_expect: 0, ..s }.without_query_timer(),
        "手环信息已更新"@,
        crate::state::Tone::Success,
        true,
        0,
    );
    lemma_message_finished(UiView { phase_text: None, ..said }, false);
}

proof fn lemma_message_kept(s: UiView, line: Seq<char>, now: u64)
    ensures
        s.logging(line, now).status_message == s.status_message,
        s.logging(line, now).status_tone == s.status_tone,
        s.drawn().status_message == s.status_message,
        s.drawn().progress == s.progress,
{
    reveal(UiView::logging);
    reveal(UiView::drawn);
}

proof fn lemma_message_finished(s: UiView, clear: bool)
    ensures
        s.finished(clear).status_message == s.status_message,
        s.finished(clear).drawn().status_message == s.status_message,
        s.finished(clear).drawn().progress == s.finished(clear).progress,
        s.finished(clear).refresh_later().drawn().status_message == s.status_message,
{
    reveal(UiView::finished);
    reveal(UiView::drawn);
    reveal(UiView::refresh_later);
    reveal(UiView::timing);
    reveal(UiView::clearing);
    reveal(UiView::without_handshake_timer);
    reveal(UiView::without_query_timer);
    reveal(UiView::without_watchdog);
    reveal(UiView::without_reconnect_timer);
}

// ---------------------------------------------------------------- the log

/// The log keeps its last lines: it never grows past its limit, the new line is the
/// last, and what stays of the others is their end, in order.
pub proof fn the_log_keeps_its_last_lines(s: UiView, message: Seq<char>, now: u64)
    requires
        s.log.len() <= MAX_LOG_LINES,
    ensures
        ({
            let log = s.logging(message, now).log;
            &&& 0 < log.len() <= MAX_LOG_LINES
            &&& log.drop_last() == s.log.skip(s.log.len() - (log.len() - 1))
            &&& s.log.len() < MAX_LOG_LINES ==> log.drop_last() == s.log
            &&& exists|start: u64|
                #![auto]
                log.last() == "["@ + crate::state::stamp(start, now) + "] "@ + message
        }),
{
    reveal(UiView::logging);
    let log = s.logging(message, now).log;
    let start = match s.started_at {
        Some(t) => t,
        None => now,
    };
    assert(log.last() == "["@ + crate::state::stamp(start, now) + "] "@ + message);
    assert(log.drop_last() =~= s.log.skip(s.log.len() - (log.len() - 1)));
    if s.log.len() < MAX_LOG_LINES {
        assert(log.drop_last() =~= s.log);
    }
}

// ---------------------------------------------------------------- lost links

/// A link that is being dealt with is not dealt with twice, and where nothing is
/// being sent a lost link changes nothing but the watch.
pub proof fn a_lost_link_is_dealt_with_once(s: UiView, reason: Seq<char>, now: u64)
    ensures
        s.is_sending && s.handling_offline ==> s.lost(reason, now) == s,
        !s.is_sending ==> s.lost(reason, now) == s.without_watchdog(),
{
    reveal(UiView::lost);
}

/// With the choice to connect again, a lost link is tried a limited number of times
/// since a chapter was last saved: each time the session is kept, waits for a new
/// handshake and stays at its chapter; after the last the transfer is over.
pub proof fn a_lost_link_is_tried_a_few_times(s: UiView, reason: Seq<char>, now: u64)
    requires
        s.is_sending,
        !s.handling_offline,
        s.disconnect_action == DisconnectAction::Retry,
    ensures
        ({
            let after = s.lost(reason, now);
            if s.reconnect_attempts < MAX_RECONNECT {
                &&& after.is_sending && after.handling_offline
                &&& after.reconnect_attempts == s.reconnect_attempts + 1
                &&& after.reconnect_timer_id is Some
                &&& after.session == transfer::rewound(s.session)
                &&& after.progress == s.progress
            } else {
                idle(after)
            }
        }),
{
    reveal(UiView::lost);
    reveal(UiView::without_watchdog);
    reveal(UiView::clearing);
    let s1 = UiView { handling_offline: true, ..s }.without_watchdog();
    lemma_retrying(s1, reason, now);
}

/// An attempt to connect that fails counts as one of the few.
pub proof fn a_failed_attempt_counts(s: UiView, reason: Seq<char>, now: u64)
    ensures
        ({
            let after = s.connected(crate::state::PurposeView::Reconnect, Err(reason), now);
            if s.reconnect_attempts < MAX_RECONNECT {
                &&& after.reconnect_attempts == s.reconnect_attempts + 1
                &&& after.is_sending == s.is_sending
                &&& after.session == transfer::rewound(s.session)
                &&& after.reconnect_timer_id is Some
            } else {
                idle(after)
            }
        }),
{
    lemma_retrying(s, reason, now);
}

proof fn lemma_retrying(s: UiView, reason: Seq<char>, now: u64)
    ensures
        ({
            let after = s.retrying(reason, now);
            if s.reconnect_attempts < MAX_RECONNECT {
                &&& after.is_sending == s.is_sending
                &&& after.handling_offline == s.handling_offline
                &&& after.reconnect_attempts == s.reconnect_attempts + 1
                &&& after.reconnect_timer_id is Some
                &&& after.session == transfer::rewound(s.session)
                &&& after.progress == s.progress
            } else {
                idle(after)
            }
        }),
{
    reveal(UiView::retrying);
    let most = text::decimal(MAX_RECONNECT as nat);
    let attempts = s.reconnect_attempts + 1;
    if attempts > MAX_RECONNECT {
        a_failure_ends_the_work(
            UiView { handling_offline: false, reconnect_attempts: 0, ..s },
            reason + "，已重连 "@ + most + " 次仍失败"@ + transfer::give_up_hint(reason),
            now,
        );
    } else {
        let count = text::decimal(attempts) + "/"@ + most;
        let s1 = UiView {
            reconnect_attempts: attempts,
            session: transfer::rewound(s.session),
            phase_text: Some("重新连接 ("@ + count + ")"@),
            ..s
        };
        let message = reason + "，正在重连 "@ + count;
        let line = "[掉线] "@ + reason + "，第 "@ + count + " 次尝试重连"@;
        lemma_steps(s1, message, crate::state::Tone::Neutral, false, now);
        let s2 = s1.saying(message, crate::state::Tone::Neutral, false);
        lemma_steps(s2, line, crate::state::Tone::Neutral, false, now);
        let s3 = s2.logging(line, now);
        lemma_steps(s3, line, crate::state::Tone::Neutral, false, now);
        lemma_steps(s3.reconnecting(), line, crate::state::Tone::Neutral, false, now);
    }
}

/// With the choice to call off, a lost link ends the transfer at once: the wristband
/// is told where its address is known.
pub proof fn a_lost_link_can_end_the_transfer(s: UiView, reason: Seq<char>, now: u64)
    requires
        s.is_sending,
        !s.handling_offline,
        s.disconnect_action == DisconnectAction::Cancel,
    ensures
        idle(s.lost(reason, now)),
        s.lost(reason, now).status_message == Some(reason + "，已取消传输"@),
{
    reveal(UiView::lost);
    reveal(UiView::without_watchdog);
    reveal(UiView::clearing);
    reveal(UiView::called_off);
    let s1 = UiView { handling_offline: true, ..s }.without_watchdog();
    let s2 = if s1.address().len() > 0 {
        s1.with(
            EffectView::Send {
                addr: s1.address(),
                payload: protocol::wire(protocol::action("cancel"@)),
            },
        )
    } else {
        s1
    };
    let s3 = UiView { handling_offline: false, reconnect_attempts: 0, ..s2 };
    let message = reason + "，已取消传输"@;
    let line = "[掉线] "@ + reason + "，按设置取消传输"@;
    lemma_steps(s3, message, crate::state::Tone::Error, true, now);
    let s4 = s3.saying(message, crate::state::Tone::Error, true);
    lemma_message_kept(s4, line, now);
    let s5 = s4.logging(line, now);
    the_end_leaves_nothing_running(s5, true);
    lemma_message_finished(s5, true);
    lemma_idle_after(s5.finished(true), now);
    lemma_idle_after(s5.finished(true).refresh_later(), now);
}

/// A message that could not be sent during a transfer is a lost link.
pub proof fn an_unsent_message_is_a_lost_link(s: UiView, then: AfterSend, now: u64)
    ensures
        s.sent(then, false, now) == s.lost("发送失败"@, now),
{
    reveal(UiView::sent);
}

/// One look that misses the device is not enough while answers come in time; a
/// second one in a row is. A look that finds it starts the count again.
pub proof fn the_device_must_be_missed_twice(s: UiView, stalled: bool, now: u64)
    requires
        s.is_sending,
        s.offline_strikes == 0,
    ensures
        ({
            let once = s.link_seen(false, false, now);
            &&& same_work(UiView { offline_strikes: 0, ..once }, s)
            &&& once.offline_strikes == 1
            &&& once.watchdog_timer_id is Some
            &&& once.link_seen(false, stalled, now) == (UiView {
                offline_strikes: 2,
                ..once
            }).lost("设备连接已断开"@, now)
            &&& once.link_seen(true, false, now).offline_strikes == 0
        }),
{
    reveal(UiView::link_seen);
    reveal(UiView::watched);
    reveal(UiView::without_watchdog);
    reveal(UiView::clearing);
    reveal(UiView::timing);
}

/// An overdue answer alone is a lost link, whether the device is connected or not:
/// the watch notices it, and then the transfer is called off or connected again, as
/// chosen.
pub proof fn an_overdue_answer_is_a_lost_link(s: UiView, connected: bool, now: u64)
    requires
        s.is_sending,
        !s.handling_offline,
        ui::stalled(s.last_inbound_at, now),
    ensures
        s.watching(now).outbox.last() == (EffectView::CheckLink {
            addr: s.address(),
            stalled: true,
        }),
        ({
            let after = s.link_seen(connected, true, now);
            match s.disconnect_action {
                DisconnectAction::Cancel => idle(after),
                DisconnectAction::Retry => if s.reconnect_attempts < MAX_RECONNECT {
                    &&& after.is_sending && after.handling_offline
                    &&& after.reconnect_attempts == s.reconnect_attempts + 1
                    &&& after.reconnect_timer_id is Some
                    &&& after.session == transfer::rewound(s.session)
                } else {
                    idle(after)
                },
            }
        }),
{
    reveal(UiView::link_seen);
    let counted = UiView {
        offline_strikes: if connected {
            0
        } else {
            s.offline_strikes + 1
        },
        ..s
    };
    match s.disconnect_action {
        DisconnectAction::Cancel => {
            a_lost_link_can_end_the_transfer(counted, "设备连接已断开"@, now);
            a_lost_link_can_end_the_transfer(counted, ui::stall_reason(), now);
        },
        DisconnectAction::Retry => {
            a_lost_link_is_tried_a_few_times(counted, "设备连接已断开"@, now);
            a_lost_link_is_tried_a_few_times(counted, ui::stall_reason(), now);
        },
    }
}

// ---------------------------------------------------------------- going on after a lost link

/// A session that waits for a new handshake is where it was: the same chapters, the
/// same position and the same chunk; a cover that was sent whole is not sent again.
pub proof fn a_rewound_session_stays_in_place(s: SessionView)
    ensures
        transfer::rewound(Some(s)) matches Some(r) && r.pending_start && !r.handshake_complete
            && r.device_addr == s.device_addr && match s.job {
            JobView::Plus(t) => r.job matches JobView::Plus(u) && u.pos == t.pos && u.chunk_idx
                == t.chunk_idx && u.send_order == t.send_order && u.chapters == t.chapters
                && u.cover_done == t.cover_done && u.cover_chunks == t.cover_chunks && (
            t.cover_done ==> u == t) && (!t.cover_done ==> u.cover_idx == 0),
            JobView::Query(k) => r.job == JobView::Query(k),
        },
{
}

/// The chapter that a transfer asks to start from is the one it is at: where the
/// wristband answers with that number, the transfer goes on at the same position.
pub proof fn a_transfer_goes_on_where_it_was(t: PlusJobView)
    requires
        t.wf(),
        t.pos < t.send_order.len(),
    ensures
        t.chapter().index == t.send_order[t.pos as int],
        t.place(t.chapter().index) == t.pos,
{
    let number = t.chapter().index;
    assert(t.send_order[t.pos as int] < t.chapters.len());
    lemma_place(t, number, 0);
}

proof fn lemma_place(t: PlusJobView, number: nat, from: nat)
    requires
        t.wf(),
        from <= t.pos < t.send_order.len(),
        number == t.send_order[t.pos as int],
    ensures
        transfer::place_from(t, number, from) == t.pos,
    decreases t.pos - from,
{
    let i = t.send_order[from as int] as int;
    assert(t.send_order[from as int] < t.chapters.len());
    assert(t.chapters[i].index == i);
    if from < t.pos {
        assert(t.send_order[from as int] < t.send_order[t.pos as int]);
        lemma_place(t, number, from + 1);
    }
}

/// The message that begins a transfer describes the whole book, starts from the
/// present chapter, and announces a cover only where one is still to be sent. Where
/// every chapter was saved, only the end is sent.
pub proof fn a_transfer_begins_at_the_present_chapter(s: UiView, t: PlusJobView)
    requires
        s.job() == Some(t),
        t.wf(),
    ensures
        ({
            let sent = s.transfer_started().outbox.last();
            sent == (EffectView::SendChecked {
                addr: s.session->0.device_addr,
                payload: protocol::wire(
                    if t.pos < t.send_order.len() {
                        protocol::start_transfer_members(
                            t.file_name,
                            t.chapters.len(),
                            chapters::total_words(t.chapters),
                            t.send_order[t.pos as int] as nat,
                            !t.cover_done && t.cover_chunks.len() > 0,
                            Some(t.author),
                            Some(t.summary),
                        )
                    } else {
                        protocol::action("transfer_complete"@)
                    },
                ),
                then: AfterSend::MarkActivity,
            })
        }),
{
    reveal(UiView::transfer_started);
    if t.pos < t.send_order.len() {
        a_transfer_goes_on_where_it_was(t);
    }
}

// ---------------------------------------------------------------- chunks

/// The chunks of a chapter make up its content, none is longer than the budget, and
/// the message of each one says which chunk of how many it is.
pub proof fn the_chunks_make_up_the_chapter(t: PlusJobView, i: nat)
    requires
        t.wf(),
        t.pos < t.send_order.len(),
        i < t.filled().chunk_texts.len(),
    ensures
        text::concat(t.filled().chunk_texts) == t.chapter().content,
        text::text_bytes(t.filled().chunk_texts[i as int]) <= PLUS_CHUNK_BYTES,
        (PlusJobView { chunk_idx: i, ..t.filled() }).chunk_message() == protocol::chunk_members(
            t.send_order[t.pos as int] as nat,
            t.chapter().name,
            t.chapter().word_count,
            t.filled().chunk_texts[i as int],
            i,
            t.filled().chunk_texts.len(),
        ),
{
    let content = t.chapter().content;
    let all = chapters::chunks_of(content, PLUS_CHUNK_BYTES as nat);
    chapters::chunks_exist(content, PLUS_CHUNK_BYTES as nat);
    chapters::chunks_restore_the_content(all, content, PLUS_CHUNK_BYTES as nat);
    chapters::chunks_fit_the_budget(all, content, PLUS_CHUNK_BYTES as nat, i as int);
    text::lemma_text_bytes_encode(all[i as int]);
    a_transfer_goes_on_where_it_was(t);
}

/// Each answer that asks for the next chunk moves on by one; where all chunks of the
/// chapter are out, the end of the chapter is sent, and no chunk.
pub proof fn the_next_chunk_follows(s: UiView, t: PlusJobView, now: u64)
    requires
        s.job() == Some(t),
        t.wf(),
        t.pos < t.send_order.len(),
        t.chunk_texts.len() > 0,
    ensures
        s.next_chunk(now).outbox.len() == s.outbox.len() + 1,
        if t.chunk_idx + 1 < t.chunk_texts.len() {
            s.next_chunk(now).outbox.last() matches EffectView::Measure(out) && out.message
                == protocol::wire(
                PlusJobView { chunk_idx: t.chunk_idx + 1, ..t }.chunk_message(),
            ) && out.chunk == t.chunk_idx + 1 && out.pos == t.pos
        } else {
            s.next_chunk(now).outbox.last() == (EffectView::SendChecked {
                addr: s.address(),
                payload: protocol::wire(
                    protocol::chapter_complete_members(t.send_order[t.pos as int] as nat),
                ),
                then: AfterSend::Render,
            })
        },
{
    reveal(UiView::next_chunk);
    reveal(UiView::emitted);
    a_transfer_goes_on_where_it_was(t);
}

/// When a chapter was saved, the next one is sent from its first chunk, or the end
/// of the book after the last; the attempts to connect count anew.
pub proof fn the_next_chapter_follows(s: UiView, t: PlusJobView, now: u64)
    requires
        s.job() == Some(t),
        t.wf(),
        t.pos < t.send_order.len(),
    ensures
        ({
            let after = s.chapter_saved(now);
            let moved = t.moved(t.pos + 1);
            &&& after.reconnect_attempts == 0
            &&& !after.handling_offline
            &&& after.last_inbound_at == Some(now)
            &&& after.job() matches Some(u) && u.pos == t.pos + 1 && u.chunk_idx == 0
            &&& if t.pos + 1 < t.send_order.len() {
                after.outbox.last() matches EffectView::Measure(out) && out.chunk == 0 && out.pos
                    == t.pos + 1 && out.message == protocol::wire(moved.filled().chunk_message())
            } else {
                after.outbox.last() == (EffectView::SendChecked {
                    addr: s.address(),
                    payload: protocol::wire(protocol::action("transfer_complete"@)),
                    then: AfterSend::Render,
                })
            }
        }),
{
    reveal(UiView::chapter_saved);
    reveal(UiView::emitted);
    let moved = t.moved(t.pos + 1);
    let s1 = UiView {
        phase_text: match moved.chapter_phase() {
            Some(phase) => Some(phase),
            None => s.phase_text,
        },
        reconnect_attempts: 0,
        handling_offline: false,
        last_inbound_at: Some(now),
        ..s.with_job(moved)
    };
    if moved.pos < moved.send_order.len() {
        let content = moved.chapter().content;
        chapters::chunks_exist(content, PLUS_CHUNK_BYTES as nat);
        chapters::chunks_restore_the_content(
            chapters::chunks_of(content, PLUS_CHUNK_BYTES as nat),
            content,
            PLUS_CHUNK_BYTES as nat,
        );
    } else {
        let status = "发送中 "@ + text::decimal(100) + "%"@;
        let s2 = UiView { progress: Gauge::all(), speed_text: None, ..s1 };
        lemma_steps(s2, status, crate::state::Tone::Neutral, false, now);
    }
}

/// While the refusals counted are few, a refusal of a message, of the cover or of the
/// text, has it sent again and counts; one more ends the transfer.
pub proof fn a_refused_message_is_sent_again(
    s: UiView,
    t: PlusJobView,
    message: Option<Seq<char>>,
    now: u64,
)
    requires
        s.job() == Some(t),
        t.wf(),
    ensures
        t.retries < MAX_RETRY ==> s.refused(message, now) == s.with_job(
            PlusJobView { retries: t.retries + 1, ..t },
        ).continued(now),
        t.retries < MAX_RETRY ==> (s.refused(message, now).job() matches Some(u) && u.retries
            == t.retries + 1 && same_book(t, u) && u.pos == t.pos && u.cover_idx == t.cover_idx),
        t.retries == MAX_RETRY ==> idle(s.refused(message, now)),
{
    reveal(UiView::refused);
    if t.retries == MAX_RETRY {
        a_failure_ends_the_work(
            UiView { session: None, ..s },
            "传输出错："@ + view::text_or(message, "传输出错"@),
            now,
        );
    } else {
        let u = PlusJobView { retries: t.retries + 1, ..t };
        lemma_continued_keeps_count(s.with_job(u), u, now);
    }
}

/// What goes out leaves the count of refusals and the position as they are.
proof fn lemma_continued_keeps_count(s: UiView, t: PlusJobView, now: u64)
    requires
        s.job() == Some(t),
    ensures
        s.continued(now).job() matches Some(u) && u.retries == t.retries && same_book(t, u)
            && u.pos == t.pos && u.cover_idx == t.cover_idx,
{
    reveal(UiView::covering);
    reveal(UiView::covered);
    reveal(UiView::emitted);
    reveal(UiView::logging);
    reveal(UiView::saying);
    reveal(UiView::without_hide_timer);
    reveal(UiView::clearing);
}

/// The end that the wristband reports leaves nothing going on, and the progress at
/// its full.
pub proof fn a_finished_transfer_is_complete(s: UiView, now: u64)
    ensures
        idle(s.succeeded(now)),
        s.succeeded(now).progress == Gauge::all(),
        s.succeeded(now).status_message == Some("发送成功"@),
{
    reveal(UiView::succeeded);
    let s1 = UiView { progress: Gauge::all(), phase_text: Some("传输完成"@), ..s };
    lemma_steps(s1, "发送成功"@, crate::state::Tone::Success, true, now);
    let s2 = s1.saying("发送成功"@, crate::state::Tone::Success, true);
    lemma_steps(s2, "[完成] 发送成功"@, crate::state::Tone::Success, true, now);
    lemma_message_kept(s2, "[完成] 发送成功"@, now);
    let s3 = s2.logging("[完成] 发送成功"@, now);
    the_end_leaves_nothing_running(s3, false);
    lemma_message_finished(s3, false);
    lemma_idle_after(s3.finished(false), now);
}

// ---------------------------------------------------------------- a whole book

/// What the host measures and when, for one chunk that the wristband takes.
pub struct Ack {
    pub now: u64,
    pub speed: Option<usize>,
    pub gauge: Gauge,
}

/// The state after the chunk that waits was measured and sent and the wristband took
/// it: it asks for the next one, or has the whole chapter and saves it.
pub open spec fn acknowledged(s: UiView, a: Ack) -> UiView {
    match s.outbox.last() {
        EffectView::Measure(out) => {
            let s = s.measured(out, a.speed, a.gauge).sent(AfterSend::Render, true, a.now);
            if out.chunk + 1 < out.chunks {
                s.replied(ReplyView::NextChunk, a.now)
            } else {
                s.replied(ReplyView::ChapterChunkComplete, a.now).sent(
                    AfterSend::Nothing,
                    true,
                    a.now,
                ).replied(ReplyView::ChapterSaved, a.now)
            }
        },
        _ => s,
    }
}

/// The state after the wristband took one chunk after the other.
pub open spec fn after_acks(s: UiView, acks: Seq<Ack>) -> UiView
    decreases acks.len(),
{
    if acks.len() == 0 {
        s
    } else {
        acknowledged(after_acks(s, acks.drop_last()), acks.last())
    }
}

/// The chunks of the chapter at a place in the order of sending.
pub open spec fn chunks_at(t: PlusJobView, p: nat) -> Seq<Seq<char>> {
    chapters::chunks_of(
        t.chapters[t.send_order[p as int] as int].content,
        PLUS_CHUNK_BYTES as nat,
    )
}

/// The number of chunks of the chapters before a place.
pub open spec fn chunks_before(t: PlusJobView, p: nat) -> nat
    decreases p,
{
    if p == 0 {
        0
    } else {
        chunks_before(t, (p - 1) as nat) + chunks_at(t, (p - 1) as nat).len()
    }
}

/// The message of a chunk: the chapter at a place, and the chunk of it.
pub open spec fn message_at(t: PlusJobView, p: nat, i: nat) -> protocol::Members {
    let chapter = t.chapters[t.send_order[p as int] as int];
    protocol::chunk_members(
        t.send_order[p as int] as nat,
        chapter.name,
        chapter.word_count,
        chunks_at(t, p)[i as int],
        i,
        chunks_at(t, p).len(),
    )
}

/// The job sends the same book in the same order.
pub open spec fn same_book(t: PlusJobView, u: PlusJobView) -> bool {
    &&& u.chapters == t.chapters
    &&& u.send_order == t.send_order
}

/// The chunk at the place waits to be measured and sent.
pub open spec fn at_chunk(s: UiView, t: PlusJobView, p: nat, i: nat) -> bool {
    &&& s.job() matches Some(u) && same_book(t, u) && u.pos == p && u.chunk_idx == i
        && u.chunk_texts == chunks_at(t, p)
    &&& s.outbox.last() matches EffectView::Measure(out) && out.message == protocol::wire(
        message_at(t, p, i),
    ) && out.chunk == i && out.chunks == chunks_at(t, p).len()
}

/// The end of the book was sent.
pub open spec fn at_end(s: UiView) -> bool {
    s.outbox.last() matches EffectView::SendChecked { addr, payload, then } && payload
        == protocol::wire(protocol::action("transfer_complete"@))
}

pub(crate) proof fn lemma_chunks_at(t: PlusJobView, p: nat)
    ensures
        chunks_at(t, p).len() > 0,
{
    let content = t.chapters[t.send_order[p as int] as int].content;
    chapters::chunks_exist(content, PLUS_CHUNK_BYTES as nat);
    chapters::chunks_restore_the_content(chunks_at(t, p), content, PLUS_CHUNK_BYTES as nat);
}

/// Measuring and sending a chunk leaves the job as it is.
proof fn lemma_sent_keeps_job(s: UiView, out: crate::state::OutChunkView, a: Ack)
    ensures
        s.measured(out, a.speed, a.gauge).sent(AfterSend::Render, true, a.now).session
            == s.session,
{
    reveal(UiView::measured);
    reveal(UiView::sent);
    reveal(UiView::drawn);
    reveal(UiView::saying);
    reveal(UiView::without_hide_timer);
    reveal(UiView::clearing);
}

/// A job at the start of a chunk sends it.
pub(crate) proof fn lemma_emits(s: UiView, t: PlusJobView, u: PlusJobView, now: u64)
    requires
        t.wf(),
        s.job() == Some(u),
        same_book(t, u),
        u.pos < t.send_order.len(),
        u.chunk_texts.len() == 0 || u.chunk_texts == chunks_at(t, u.pos),
        u.chunk_idx < chunks_at(t, u.pos).len(),
    ensures
        at_chunk(s.emitted(now), t, u.pos, u.chunk_idx),
{
    reveal(UiView::emitted);
    assert(t.send_order[u.pos as int] < t.chapters.len());
}

proof fn lemma_one_ack(s: UiView, t: PlusJobView, p: nat, i: nat, a: Ack)
    requires
        t.wf(),
        p < t.send_order.len(),
        i < chunks_at(t, p).len(),
        at_chunk(s, t, p, i),
    ensures
        ({
            let after = acknowledged(s, a);
            if i + 1 < chunks_at(t, p).len() {
                at_chunk(after, t, p, i + 1)
            } else if p + 1 < t.send_order.len() {
                at_chunk(after, t, p + 1, 0)
            } else {
                at_end(after)
            }
        }),
{
    let out = s.outbox.last()->Measure_0;
    lemma_sent_keeps_job(s, out, a);
    let s1 = s.measured(out, a.speed, a.gauge).sent(AfterSend::Render, true, a.now);
    let u = s1.job()->0;
    reveal(UiView::replied);
    if i + 1 < chunks_at(t, p).len() {
        reveal(UiView::next_chunk);
        let v = PlusJobView { chunk_idx: u.chunk_idx + 1, retries: 0, ..u };
        lemma_emits(s1.with_job(v), t, v, a.now);
    } else {
        reveal(UiView::chapter_received);
        reveal(UiView::sent);
        reveal(UiView::chapter_saved);
        let s2 = s1.replied(ReplyView::ChapterChunkComplete, a.now).sent(
            AfterSend::Nothing,
            true,
            a.now,
        );
        assert(s2.session == s1.session);
        let v = u.moved(u.pos + 1);
        let s3 = UiView {
            phase_text: match v.chapter_phase() {
                Some(phase) => Some(phase),
                None => s2.phase_text,
            },
            reconnect_attempts: 0,
            handling_offline: false,
            last_inbound_at: Some(a.now),
            ..s2.with_job(v)
        };
        if p + 1 < t.send_order.len() {
            lemma_chunks_at(t, p + 1);
            lemma_emits(s3, t, v, a.now);
        } else {
            reveal(UiView::emitted);
        }
    }
}

/// A wristband that takes every chunk gets the whole book: each chapter that is sent,
/// in order, each with all of its chunks, in order; and then the end of the book.
pub proof fn a_willing_wristband_gets_the_whole_book(
    s: UiView,
    t: PlusJobView,
    acks: Seq<Ack>,
    p: nat,
    i: nat,
)
    requires
        t.wf(),
        at_chunk(s, t, 0, 0),
        acks.len() == chunks_before(t, p) + i,
        p < t.send_order.len() && i < chunks_at(t, p).len() || p == t.send_order.len() && i == 0,
    ensures
        p < t.send_order.len() ==> at_chunk(after_acks(s, acks), t, p, i),
        p == t.send_order.len() ==> at_end(after_acks(s, acks)),
    decreases acks.len(),
{
    lemma_chunks_at(t, 0);
    if i > 0 {
        a_willing_wristband_gets_the_whole_book(s, t, acks.drop_last(), p, (i - 1) as nat);
        lemma_one_ack(after_acks(s, acks.drop_last()), t, p, (i - 1) as nat, acks.last());
    } else if p > 0 {
        let q = (p - 1) as nat;
        lemma_chunks_at(t, q);
        let j = (chunks_at(t, q).len() - 1) as nat;
        a_willing_wristband_gets_the_whole_book(s, t, acks.drop_last(), q, j);
        lemma_one_ack(after_acks(s, acks.drop_last()), t, q, j, acks.last());
    }
}

/// When the wristband is ready, the first chunk of the chapter that it names is sent,
/// and nothing before it, where no cover is to be sent.
pub proof fn a_ready_wristband_gets_its_chapter(
    s: UiView,
    t: PlusJobView,
    number: usize,
    now: u64,
)
    requires
        t.wf(),
        s.job() == Some(t),
        !t.cover_pending(),
    ensures
        at_chunk(s.ready(number, now), t, t.place(number as nat), 0),
        s.ready(number, now).outbox.len() == s.outbox.len() + 1,
{
    reveal(UiView::ready);
    reveal(UiView::emitted);
    let u = t.moved(t.place(number as nat));
    lemma_chunks_at(t, u.pos);
    lemma_emits(UiView { handling_offline: false, ..s }.with_job(u), t, u, now);
}

/// The cover goes out chunk by chunk; after its last chunk its end is sent, and the
/// text follows.
pub proof fn the_cover_goes_before_the_text(s: UiView, t: PlusJobView, now: u64)
    requires
        t.wf(),
        s.job() == Some(t),
        t.cover_pending(),
    ensures
        t.cover_idx + 1 < t.cover_chunks.len() ==> ({
            let after = s.cover_acked(now);
            &&& after.job() == Some(PlusJobView { cover_idx: t.cover_idx + 1, retries: 0, ..t })
            &&& after.outbox.last() == (EffectView::SendChecked {
                addr: s.address(),
                payload: protocol::wire(
                    protocol::cover_chunk_members(
                        t.cover_idx + 1,
                        t.cover_chunks.len(),
                        t.cover_chunks[(t.cover_idx + 1) as int],
                    ),
                ),
                then: AfterSend::Render,
            })
        }),
        t.cover_idx + 1 >= t.cover_chunks.len() ==> ({
            let after = s.cover_acked(now);
            &&& after.job() matches Some(u) && u.cover_done && same_book(t, u) && u.pos == t.pos
            &&& after.outbox.contains(
                EffectView::Send {
                    addr: s.address(),
                    payload: protocol::wire(protocol::action("cover_transfer_complete"@)),
                },
            )
        }),
{
    reveal(UiView::cover_acked);
    reveal(UiView::covering);
    let u = PlusJobView { cover_idx: t.cover_idx + 1, retries: 0, ..t };
    let s1 = s.with_job(u);
    if t.cover_idx + 1 < t.cover_chunks.len() {
        let s2 = UiView {
            phase_text: Some(
                "发送封面 "@ + text::decimal(u.cover_idx + 1) + "/"@ + text::decimal(
                    u.cover_chunks.len(),
                ),
            ),
            ..s1
        };
        lemma_steps(s2, "正在发送封面..."@, crate::state::Tone::Neutral, false, now);
    } else {
        reveal(UiView::covered);
        reveal(UiView::logging);
        reveal(UiView::emitted);
        reveal(UiView::saying);
        reveal(UiView::without_hide_timer);
        reveal(UiView::clearing);
        let v = PlusJobView { cover_done: true, ..u };
        let done = EffectView::Send {
            addr: s.address(),
            payload: protocol::wire(protocol::action("cover_transfer_complete"@)),
        };
        let after = s.cover_acked(now);
        assert(after.outbox[s.outbox.len() as int] == done);
    }
}

/// Without a cover there is no step for one: whatever asks for it, the text goes out.
pub proof fn no_cover_no_step_for_it(s: UiView, t: PlusJobView, now: u64)
    requires
        s.job() == Some(t),
        t.cover_chunks.len() == 0,
    ensures
        s.continued(now) == s.emitted(now),
        s.covering(now) == s.emitted(now),
        s.cover_acked(now) == s.with_job(
            PlusJobView { cover_idx: t.cover_idx + 1, retries: 0, ..t },
        ).emitted(now),
{
    reveal(UiView::covering);
    reveal(UiView::cover_acked);
}

// ---------------------------------------------------------------- handshakes

/// A handshake is answered with the next count, up to the second; later ones are
/// not answered, so that the two sides come to rest.
pub proof fn handshakes_come_to_rest(
    s: UiView,
    session: SessionView,
    count: usize,
    version: Option<i64>,
    now: u64,
)
    requires
        s.session == Some(session),
        !session.starts(count as nat),
    ensures
        ({
            let after = s.shaken(count, version, now);
            let cleared = if count > 0 {
                s.without_handshake_timer().outbox
            } else {
                s.outbox
            };
            if count < 2 {
                after.outbox == cleared.push(
                    EffectView::Send {
                        addr: session.device_addr,
                        payload: protocol::wire(
                            protocol::handshake_members(
                                count as nat + 1,
                                queries::highest(s.peer_version, version),
                            ),
                        ),
                    },
                )
            } else {
                after.outbox == cleared
            }
        }),
        s.shaken(count, version, now).peer_version == queries::highest(s.peer_version, version),
{
    reveal(UiView::shaken);
    reveal(UiView::without_handshake_timer);
    reveal(UiView::clearing);
}

// ---------------------------------------------------------------- queries and settings

/// While something is going on, no question begins: only a message is shown.
pub proof fn no_question_while_busy(s: UiView, kind: QueryKind)
    requires
        s.busy(),
    ensures
        same_work(s.querying(kind), s),
        s.querying(kind).status_message == Some("正在忙，请稍候"@),
{
    reveal(UiView::querying);
    let said = s.saying("正在忙，请稍候"@, crate::state::Tone::Neutral, true);
    lemma_steps(s, "正在忙，请稍候"@, crate::state::Tone::Neutral, true, 0);
    lemma_steps(said, "正在忙，请稍候"@, crate::state::Tone::Neutral, true, 0);
    lemma_message_kept(said, ""@, 0);
}

/// While something is going on, no transfer begins.
pub proof fn no_transfer_while_busy(s: UiView, now: u64)
    requires
        s.busy(),
    ensures
        s.send_clicked(now) == s,
{
}

/// A question ends with the last answer that it waits for, and not before.
pub proof fn a_question_ends_with_its_last_answer(s: UiView)
    requires
        s.is_querying,
    ensures
        s.query_expect > 1 ==> s.settled() == (UiView {
            query_expect: (s.query_expect - 1) as u32,
            ..s
        }),
        s.query_expect == 1 ==> idle(s.settled()),
{
    reveal(UiView::settled);
    if s.query_expect == 1 {
        reveal(UiView::without_query_timer);
        let s1 = UiView { query_expect: 0, ..s }.without_query_timer().saying(
            "手环信息已更新"@,
            crate::state::Tone::Success,
            true,
        );
        let s2 = UiView { phase_text: None, ..s1 };
        the_end_leaves_nothing_running(s2, false);
        lemma_idle_after(s2.finished(false), 0);
    }
}

/// The messages that write settings go out in the order in which they waited, one
/// for each, and none waits after that.
pub proof fn waiting_settings_are_written_in_order(s: UiView, addr: Seq<char>, i: int)
    requires
        s.pending_writes.len() > 0,
        0 <= i < s.pending_writes.len(),
    ensures
        ({
            let after = s.asked_settings(addr);
            &&& after.pending_writes.len() == 0
            &&& after.query_expect == 1
            &&& after.outbox.len() == s.outbox.len() + s.pending_writes.len()
            &&& after.outbox[s.outbox.len() + i] == (EffectView::Send {
                addr,
                payload: protocol::wire(
                    protocol::set_setting_members(s.pending_writes[i].0, s.pending_writes[i].1),
                ),
            })
        }),
{
    reveal(UiView::asked_settings);
    lemma_writing(s, addr, s.pending_writes, i);
}

proof fn lemma_writing(
    s: UiView,
    addr: Seq<char>,
    writes: Seq<(Seq<char>, Seq<char>)>,
    i: int,
)
    ensures
        s.writing(addr, writes).outbox.len() == s.outbox.len() + writes.len(),
        0 <= i < writes.len() ==> s.writing(addr, writes).outbox[s.outbox.len() + i] == (
        EffectView::Send {
            addr,
            payload: protocol::wire(protocol::set_setting_members(writes[i].0, writes[i].1)),
        }),
    decreases writes.len(),
{
    if writes.len() > 0 {
        lemma_writing(s, addr, writes.drop_last(), i);
    }
}

/// A setting that was changed has its new value, whatever the wristband knows yet;
/// and the value is on its way or waits for a handshake.
pub proof fn a_changed_setting_is_read_back(
    s: UiView,
    def: SettingView,
    value: Seq<char>,
    now: u64,
)
    ensures
        s.setting_changed(def, value, now).setting_text(def.key) == value,
        ({
            let after = s.setting_changed(def, value, now);
            let write = EffectView::Send {
                addr: s.address(),
                payload: protocol::wire(protocol::set_setting_members(def.key, value)),
            };
            if s.settings_open() {
                after.outbox.contains(write)
            } else {
                after.pending_writes == s.pending_writes.push((def.key, value))
            }
        }),
{
    reveal(UiView::setting_changed);
    reveal(UiView::write_queued);
    let s1 = UiView {
        band: crate::state::BandView {
            settings: s.band.settings.insert(def.key, value),
            ..s.band
        },
        ..s
    };
    let line = "[设置] "@ + def.label + " → "@ + settings::shown_value(def.kind, value);
    lemma_steps(s1, line, crate::state::Tone::Neutral, false, now);
    let s2 = s1.logging(line, now);
    let s3 = UiView { pending_writes: s2.pending_writes.push((def.key, value)), ..s2 };
    lemma_querying_keeps(s3, QueryKind::Settings);
    if s.settings_open() {
        reveal(UiView::logging);
        let write = EffectView::Send {
            addr: s.address(),
            payload: protocol::wire(protocol::set_setting_members(def.key, value)),
        };
        let after = s.setting_changed(def, value, now);
        assert(after.outbox[s.outbox.len() as int] == write);
    }
}

proof fn lemma_querying_keeps(s: UiView, kind: QueryKind)
    ensures
        s.querying(kind).band == s.band,
        s.querying(kind).pending_writes == s.pending_writes,
{
    reveal(UiView::querying);
    if s.busy() {
        no_question_while_busy(s, kind);
    } else {
        reveal(UiView::drawn);
    }
}

/// A change of a setting changes no more of what is known of the wristband.
pub(crate) proof fn lemma_changed_band(s: UiView, def: SettingView, value: Seq<char>, now: u64)
    ensures
        s.setting_changed(def, value, now).band == (crate::state::BandView {
            settings: s.band.settings.insert(def.key, value),
            ..s.band
        }),
{
    reveal(UiView::setting_changed);
    reveal(UiView::write_queued);
    let s1 = UiView {
        band: crate::state::BandView {
            settings: s.band.settings.insert(def.key, value),
            ..s.band
        },
        ..s
    };
    let line = "[设置] "@ + def.label + " → "@ + settings::shown_value(def.kind, value);
    lemma_steps(s1, line, crate::state::Tone::Neutral, false, now);
    let s2 = s1.logging(line, now);
    lemma_querying_keeps(
        UiView { pending_writes: s2.pending_writes.push((def.key, value)), ..s2 },
        QueryKind::Settings,
    );
}

/// An answer that settles a question changes nothing of what is known.
pub(crate) proof fn lemma_settled_band(s: UiView)
    ensures
        s.settled().band == s.band,
{
    reveal(UiView::settled);
    reveal(UiView::without_query_timer);
    reveal(UiView::clearing);
    reveal(UiView::saying);
    reveal(UiView::hiding);
    reveal(UiView::timing);
    reveal(UiView::without_hide_timer);
    reveal(UiView::finished);
    reveal(UiView::without_handshake_timer);
    reveal(UiView::without_watchdog);
    reveal(UiView::without_reconnect_timer);
    reveal(UiView::drawn);
}

/// The settings that were given are known.
pub(crate) proof fn lemma_settings_given(
    s: UiView,
    values: Map<Seq<char>, Seq<char>>,
    count: nat,
    now: u64,
)
    ensures
        s.settings_given(values, count, now).band == (crate::state::BandView {
            settings: s.band.settings.union_prefer_right(values),
            settings_loaded: true,
            ..s.band
        }),
{
    reveal(UiView::settings_given);
    reveal(UiView::logging);
    let s1 = UiView {
        band: crate::state::BandView {
            settings: s.band.settings.union_prefer_right(values),
            settings_loaded: true,
            ..s.band
        },
        ..s
    };
    lemma_settled_band(s1.logging("[设置] 已读取 "@ + text::decimal(count) + " 项"@, now));
}

// ---------------------------------------------------------------- clicks

/// A click on the row of a setting changes that setting: the names of the clicks
/// are told apart.
pub proof fn a_row_changes_its_setting(s: UiView, key: Seq<char>, now: u64)
    ensures
        s.clicked(settings::SETTING_CLICK_PREFIX@ + key, now) == s.setting_cycled(key, now),
        s.clicked(settings::SETTING_INC_PREFIX@ + key, now) == s.setting_stepped(key, true, now),
        s.clicked(settings::SETTING_DEC_PREFIX@ + key, now) == s.setting_stepped(key, false, now),
{
    reveal_strlit("setting:");
    reveal_strlit("set_inc:");
    reveal_strlit("set_dec:");
    let click = settings::SETTING_CLICK_PREFIX@ + key;
    let inc = settings::SETTING_INC_PREFIX@ + key;
    let dec = settings::SETTING_DEC_PREFIX@ + key;
    assert(click.skip(8) =~= key);
    assert(inc.skip(8) =~= key);
    assert(dec.skip(8) =~= key);
    assert(click.take(8) =~= settings::SETTING_CLICK_PREFIX@);
    assert(inc.take(8) =~= settings::SETTING_INC_PREFIX@);
    assert(dec.take(8) =~= settings::SETTING_DEC_PREFIX@);
    assert(click[3] == 't' && inc[3] == '_' && dec[3] == '_' && inc[4] == 'i' && dec[4] == 'd');
    assert(inc.take(8)[3] == '_' && dec.take(8)[3] == '_' && dec.take(8)[4] == 'd');
    lemma_no_button(s, click, now);
    lemma_no_button(s, inc, now);
    lemma_no_button(s, dec, now);
}

proof fn lemma_no_button(s: UiView, event: Seq<char>, now: u64)
    requires
        event.len() > 2,
        event[0] == 's',
        event[1] == 'e',
        event[2] == 't',
    ensures
        s.button_clicked(event, now) is None,
{
    reveal_strlit("pick_file");
    reveal_strlit("send_file");
    reveal_strlit("cancel_send");
    reveal_strlit("pick_cover");
    reveal_strlit("clear_cover");
    reveal_strlit("cycle_split");
    reveal_strlit("words_up");
    reveal_strlit("words_down");
    reveal_strlit("toggle_skip");
    reveal_strlit("panel_send");
    reveal_strlit("panel_device");
    reveal_strlit("panel_log");
    reveal_strlit("refresh_device");
    reveal_strlit("load_settings");
    reveal_strlit("clear_log");
    reveal_strlit("edit_author");
    reveal_strlit("edit_summary");
    reveal_strlit("edit_keyword");
    reveal_strlit("cycle_disconnect");
    assert(view::EVENT_PICK_FILE@[0] == 'p');
    assert(view::EVENT_SEND_FILE@[2] == 'n');
    assert(view::EVENT_CANCEL_SEND@[0] == 'c');
    assert(view::EVENT_PICK_COVER@[0] == 'p');
    assert(view::EVENT_CLEAR_COVER@[0] == 'c');
    assert(view::EVENT_CYCLE_SPLIT@[0] == 'c');
    assert(view::EVENT_WORDS_UP@[0] == 'w');
    assert(view::EVENT_WORDS_DOWN@[0] == 'w');
    assert(view::EVENT_TOGGLE_SKIP@[0] == 't');
    assert(view::EVENT_PANEL_SEND@[0] == 'p');
    assert(view::EVENT_PANEL_DEVICE@[0] == 'p');
    assert(view::EVENT_PANEL_LOG@[0] == 'p');
    assert(view::EVENT_REFRESH_DEVICE@[0] == 'r');
    assert(view::EVENT_LOAD_SETTINGS@[0] == 'l');
    assert(view::EVENT_CLEAR_LOG@[0] == 'c');
    assert(view::EVENT_EDIT_AUTHOR@[0] == 'e');
    assert(view::EVENT_EDIT_SUMMARY@[0] == 'e');
    assert(view::EVENT_EDIT_KEYWORD@[0] == 'e');
    assert(view::EVENT_CYCLE_DISCONNECT@[0] == 'c');
}

} // verus!
