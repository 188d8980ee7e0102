//! What the words of the state mean, and what the steps of a transfer leave alone.
use crate::click_laws;
use crate::click_laws::logged;
use crate::click_laws::substance;
use crate::element::ElementView;
use crate::element::OpView;
use crate::inbound;
use crate::inbound::ReplyView;
use crate::json;
use crate::json::JsonView;
use crate::message_laws::has;
use crate::message_laws::kind_is;
use crate::message_laws::lacks;
use crate::protocol;
use crate::queries;
use crate::session;
use crate::session::JobView;
use crate::session::PlusJobView;
use crate::session::QueryKind;
use crate::session::SessionView;
use crate::settings;
use crate::settings::SettingView;
use crate::state::BandView;
use crate::state::EffectView;
use crate::state::Gauge;
use crate::state::Tone;
use crate::state::UiView;
use crate::text;
use crate::transfer;
use crate::transfer_laws::same_book_data;
use vstd::prelude::*;

verus! {

// ---------------------------------------------------------------- words

/// Something is going on while a book is being sent or a question asked; the address
/// of the wristband is the last one that it had; what is asked of the host comes last.
pub proof fn the_words_of_the_state(s: UiView, e: EffectView, t: PlusJobView, addr: Seq<char>)
    ensures
        s.busy() <==> s.is_sending || s.is_querying,
        s.last_device_addr == Some(addr) ==> s.address() == addr,
        s.last_device_addr is None ==> s.address().len() == 0,
        s.with(e) == (UiView { outbox: s.outbox.push(e), ..s }),
        s.job() == Some(t) <==> (s.session matches Some(session) && session.job == JobView::Plus(t)),
        s.job() is Some ==> s.with_job(t).job() == Some(t) && s.with_job(t) == (UiView {
            session: s.with_job(t).session,
            ..s
        }),
        s.settings_open() <==> (s.session matches Some(session) && session.handshake_complete
            && session.job == JobView::Query(QueryKind::Settings)),
        s.silent() == (UiView { status_message: None, status_tone: Tone::Neutral, ..s }),
        s.session matches Some(session) ==> (session.question() is Some <==> session.job is Query)
            && (session.question() matches Some(k) ==> session.job == JobView::Query(k)),
{
}

/// The counters of a transfer can be raised while they are below the largest number.
pub proof fn when_counters_can_be_raised(s: UiView, t: PlusJobView)
    ensures
        s.job() == Some(t) ==> (s.room() <==> t.pos < usize::MAX && t.chunk_idx < usize::MAX
            && t.cover_idx < usize::MAX),
        s.job() is None ==> s.room(),
{
}

/// A step of a number can be made where its result is a number of 64 bits.
pub proof fn when_a_step_can_be_made(
    s: UiView,
    key: Seq<char>,
    low: int,
    high: int,
    by: int,
    unit: Seq<char>,
    n: i64,
)
    requires
        settings::band_def(key) matches Some(d) && d.kind == (settings::SettingKindView::Int {
            min: low,
            max: high,
            step: by,
            suffix: unit,
        }),
        text::i64_value(s.setting_text(key)) == Some(n),
    ensures
        s.can_step(key, true) <==> i64::MIN <= n + by <= i64::MAX,
        s.can_step(key, false) <==> i64::MIN <= n - by <= i64::MAX,
{
    assert(settings::direction(true) * by == by) by (nonlinear_arith)
        requires
            settings::direction(true) == 1,
    ;
    assert(settings::direction(false) * by == -by) by (nonlinear_arith)
        requires
            settings::direction(false) == -1,
    ;
}

/// Every click but a step that would leave 64 bits can be taken.
pub proof fn when_a_click_can_be_taken(s: UiView, key: Seq<char>, event: Seq<char>)
    ensures
        s.can_click("set_inc:"@ + key) <==> s.can_step(key, true),
        s.can_click("set_dec:"@ + key) <==> s.can_step(key, false),
        !text::starts_with(event, "set_inc:"@) && !text::starts_with(event, "set_dec:"@)
            ==> s.can_click(event),
{
    reveal_strlit("set_inc:");
    reveal_strlit("set_dec:");
    let inc = "set_inc:"@ + key;
    let dec = "set_dec:"@ + key;
    assert(inc.skip(8) =~= key);
    assert(dec.skip(8) =~= key);
    assert(inc.take(8) =~= "set_inc:"@);
    assert(dec.take(8) =~= "set_dec:"@);
    assert(inc.take(8)[4] == 'i' && dec.take(8)[4] == 'd');
}

/// A message is the JSON text of its members.
pub proof fn a_message_is_json(m: protocol::Members)
    ensures
        protocol::wire(m) == json::json_text(JsonView::Object(m)),
{
}

/// What is said of an element is what it is called, and nothing else of the element
/// changes.
pub proof fn styles_are_what_they_are_called(
    e: ElementView,
    n: u32,
    c: Seq<char>,
    d: crate::element::Direction,
    k: ElementView,
)
    ensures
        e.flex() == e.and(OpView::Flex),
        e.flex_direction(d) == e.and(OpView::Flow(d)),
        e.align_center() == e.and(OpView::AlignCenter),
        e.width_full() == e.and(OpView::WidthFull),
        e.disabled() == e.and(OpView::Disabled),
        e.padding(n) == e.and(OpView::Padding(n)),
        e.padding_left(n) == e.and(OpView::PaddingLeft(n)),
        e.padding_right(n) == e.and(OpView::PaddingRight(n)),
        e.padding_top(n) == e.and(OpView::PaddingTop(n)),
        e.padding_bottom(n) == e.and(OpView::PaddingBottom(n)),
        e.margin_right(n) == e.and(OpView::MarginRight(n)),
        e.margin_bottom(n) == e.and(OpView::MarginBottom(n)),
        e.radius(n) == e.and(OpView::Radius(n)),
        e.size(n) == e.and(OpView::Size(n)),
        e.width(n) == e.and(OpView::Width(n)),
        e.height(n) == e.and(OpView::Height(n)),
        e.opacity(n) == e.and(OpView::Opacity(n)),
        e.bg(c) == e.and(OpView::Bg(c)),
        e.text_color(c) == e.and(OpView::TextColor(c)),
        e.transition(c) == e.and(OpView::Transition(c)),
        e.border(n, c) == e.and(OpView::Border(n, c)),
        e.on_click(c) == e.and(OpView::OnClick(c)),
        e.child(k) == e.and(OpView::Child(k)),
        e.and(OpView::Flex) == (ElementView { ops: e.ops.push(OpView::Flex), ..e }),
{
}

// ---------------------------------------------------------------- small steps

/// The end of a transfer or a question leaves the book, the options, what is known of
/// the wristband, the message and the log as they are.
pub proof fn the_end_keeps_the_window(s: UiView, clear: bool)
    ensures
        ({
            let after = s.finished(clear);
            &&& same_book_data(after, s)
            &&& after.band == s.band
            &&& after.disconnect_action == s.disconnect_action
            &&& after.panel == s.panel
            &&& after.root_element_id == s.root_element_id
            &&& after.log == s.log && after.started_at == s.started_at
            &&& after.status_message == s.status_message && after.status_tone == s.status_tone
            &&& after.hide_message_timer_id == s.hide_message_timer_id
            &&& after.cancel_refresh_timer_id == s.cancel_refresh_timer_id
            &&& after.peer_version == s.peer_version
            &&& after.last_device_addr == s.last_device_addr
            &&& after.last_inbound_at == s.last_inbound_at
            &&& after.next_timer == s.next_timer
            &&& forall|i: int|
                s.outbox.len() <= i < after.outbox.len() ==> #[trigger] after.outbox[i] is ClearTimer
        }),
{
    reveal(UiView::finished);
    reveal(UiView::clearing);
    reveal(UiView::without_handshake_timer);
    reveal(UiView::without_query_timer);
    reveal(UiView::without_watchdog);
    reveal(UiView::without_reconnect_timer);
}

/// A line in the log changes nothing but the log and the start of its time.
pub proof fn a_line_changes_the_log_alone(s: UiView, message: Seq<char>, now: u64)
    ensures
        s.logging(message, now) == (UiView {
            log: s.logging(message, now).log,
            started_at: s.logging(message, now).started_at,
            ..s
        }),
        logged(s.logging(message, now), message),
{
    reveal(UiView::logging);
    click_laws::lemma_logged(s, message, now);
}

/// The wristband is looked at nine tenths of a second later, once.
pub proof fn a_look_is_put_off_once(s: UiView)
    ensures
        s.cancel_refresh_timer_id is Some ==> s.refresh_later() == s,
        s.cancel_refresh_timer_id is None ==> s.refresh_later() == (UiView {
            cancel_refresh_timer_id: Some(s.next_timer),
            next_timer: s.refresh_later().next_timer,
            outbox: s.outbox.push(
                EffectView::SetTimer {
                    token: s.next_timer,
                    delay_ms: 900,
                    tag: "timer_refresh_after_cancel"@,
                },
            ),
            ..s
        }),
{
    reveal(UiView::refresh_later);
    reveal(UiView::timing);
}

/// The timers of the state: each is set at the host under its own tag and delay, and
/// takes the place of the one before it.
pub proof fn the_timers_of_the_state(s: UiView, delay: u64)
    ensures
        s.watched().watchdog_timer_id == Some(s.next_timer),
        s.watched().outbox.last() == (EffectView::SetTimer {
            token: s.next_timer,
            delay_ms: 1000,
            tag: "timer_transfer_watchdog"@,
        }),
        s.watchdog_timer_id matches Some(t) ==> s.watched().outbox[s.outbox.len() as int]
            == EffectView::ClearTimer(t),
        s.reconnecting().reconnect_timer_id == Some(s.next_timer),
        s.reconnecting().outbox.last() == (EffectView::SetTimer {
            token: s.next_timer,
            delay_ms: 1500,
            tag: "timer_reconnect_attempt"@,
        }),
        s.reconnect_timer_id matches Some(t) ==> s.reconnecting().outbox[s.outbox.len() as int]
            == EffectView::ClearTimer(t),
        s.handshake_timed().handshake_timer_id == Some(s.next_timer),
        s.handshake_timed().outbox.last() == (EffectView::SetTimer {
            token: s.next_timer,
            delay_ms: 3000,
            tag: "timer_handshake_timeout"@,
        }),
        s.handshake_in(delay).handshake_timer_id == Some(s.next_timer),
        s.handshake_in(delay).outbox.last() == (EffectView::SetTimer {
            token: s.next_timer,
            delay_ms: delay,
            tag: "timer_start_handshake"@,
        }),
        s.query_timed().query_timer_id == Some(s.next_timer),
        s.query_timed().outbox.last() == (EffectView::SetTimer {
            token: s.next_timer,
            delay_ms: 5000,
            tag: "timer_query_timeout"@,
        }),
{
    reveal(UiView::watched);
    reveal(UiView::reconnecting);
    reveal(UiView::handshake_timed);
    reveal(UiView::handshake_in);
    reveal(UiView::query_timed);
    reveal(UiView::timing);
    reveal(UiView::clearing);
    reveal(UiView::without_watchdog);
    reveal(UiView::without_reconnect_timer);
    reveal(UiView::without_handshake_timer);
}

/// A tag that is none of a timer changes nothing.
pub proof fn unknown_timers_do_nothing(s: UiView, tag: Seq<char>, now: u64)
    requires
        tag != "timer_hide_message"@,
        tag != "timer_start_handshake"@,
        tag != "timer_handshake_timeout"@,
        tag != "timer_transfer_watchdog"@,
        tag != "timer_reconnect_attempt"@,
        tag != "timer_refresh_after_cancel"@,
        tag != "timer_query_timeout"@,
    ensures
        s.timed_out(tag, now) == s,
{
}

/// A failure is said in the tone of an error, and stands in the log.
pub proof fn a_failure_is_said_and_logged(s: UiView, message: Seq<char>, now: u64)
    ensures
        s.failed(message, now).status_message == Some(message),
        s.failed(message, now).status_tone == Tone::Error,
        logged(s.failed(message, now), "[错误] "@ + message),
        same_book_data(s.failed(message, now), s),
        s.failed(message, now).band == s.band,
{
    reveal(UiView::failed);
    let said = s.saying(message, Tone::Error, true);
    crate::query_laws::a_message_is_shown(s, message, Tone::Error);
    let told = said.logging("[错误] "@ + message, now);
    a_line_changes_the_log_alone(said, "[错误] "@ + message, now);
    the_end_keeps_the_window(told, true);
    lemma_drawn_alone(told.finished(true));
    assert(same_book_data(substance(said), substance(s)));
    assert(substance(said).band == substance(s).band);
}

proof fn lemma_drawn_alone(s: UiView)
    ensures
        s.drawn() == (UiView { outbox: s.drawn().outbox, ..s }),
{
    reveal(UiView::drawn);
}

// ---------------------------------------------------------------- what a transfer leaves alone

/// The book, the options and what is known of the wristband are the same.
pub open spec fn same_window(a: UiView, b: UiView) -> bool {
    &&& same_book_data(a, b)
    &&& a.band == b.band
    &&& a.disconnect_action == b.disconnect_action
    &&& a.panel == b.panel
    &&& a.root_element_id == b.root_element_id
    &&& a.peer_version == b.peer_version
}

/// Whatever the wristband answers during a transfer, the book in the window, its
/// options and what is known of the wristband stay as they are.
pub proof fn a_transfer_leaves_the_window_alone(s: UiView, n: usize, message: Option<Seq<char>>, now: u64)
    requires
        !s.is_querying,
    ensures
        same_window(s.replied(ReplyView::Ready { start_from: n }, now), s),
        same_window(s.replied(ReplyView::NextChunk, now), s),
        same_window(s.replied(ReplyView::ChapterChunkComplete, now), s),
        same_window(s.replied(ReplyView::ChapterSaved, now), s),
        same_window(s.replied(ReplyView::CoverAcked, now), s),
        same_window(s.replied(ReplyView::TransferFinished, now), s),
        same_window(s.replied(ReplyView::Cancel, now), s),
        same_window(s.replied(ReplyView::Error { message }, now), s),
{
    reveal(UiView::replied);
    lemma_sending_alone(s, now);
    reveal(UiView::ready);
    reveal(UiView::next_chunk);
    reveal(UiView::chapter_received);
    reveal(UiView::chapter_saved);
    reveal(UiView::cover_acked);
    reveal(UiView::refused);
    if let Some(t) = s.job() {
        let moved = t.moved(t.place(n as nat));
        let s1 = UiView { handling_offline: false, ..s }.with_job(moved);
        lemma_sending_alone(s1, now);
        lemma_sending_alone(UiView { phase_text: Some("发送封面"@), ..s1 }, now);
        lemma_sending_alone(
            s.with_job(PlusJobView { chunk_idx: t.chunk_idx + 1, retries: 0, ..t }),
            now,
        );
        lemma_sending_alone(
            s.with_job(PlusJobView { cover_idx: t.cover_idx + 1, retries: 0, ..t }),
            now,
        );
        let next = t.moved(t.pos + 1);
        lemma_sending_alone(
            UiView {
                phase_text: match next.chapter_phase() {
                    Some(phase) => Some(phase),
                    None => s.phase_text,
                },
                reconnect_attempts: 0,
                handling_offline: false,
                last_inbound_at: Some(now),
                ..s.with_job(next)
            },
            now,
        );
        let session = s.session->0;
        lemma_sending_alone(UiView { session: Some(session.refused()), ..s }, now);
        let text = "传输出错："@ + crate::view::text_or(message, "传输出错"@);
        lemma_failed_alone(UiView { session: None, ..s }, text, now);
    }
    lemma_ended_alone(s, now);
}

/// Sending the next message leaves the window alone.
proof fn lemma_sending_alone(s: UiView, now: u64)
    ensures
        same_window(s.emitted(now), s),
        same_window(s.covering(now), s),
        same_window(s.continued(now), s),
{
    reveal(UiView::emitted);
    reveal(UiView::covering);
    reveal(UiView::covered);
    reveal(UiView::logging);
    reveal(UiView::saying);
    reveal(UiView::without_hide_timer);
    reveal(UiView::clearing);
}

proof fn lemma_failed_alone(s: UiView, message: Seq<char>, now: u64)
    ensures
        same_window(s.failed(message, now), s),
{
    reveal(UiView::failed);
    let said = s.saying(message, Tone::Error, true);
    crate::query_laws::a_message_is_shown(s, message, Tone::Error);
    let told = said.logging("[错误] "@ + message, now);
    a_line_changes_the_log_alone(said, "[错误] "@ + message, now);
    the_end_keeps_the_window(told, true);
    lemma_drawn_alone(told.finished(true));
    assert(same_window(substance(said), substance(s)));
}

proof fn lemma_ended_alone(s: UiView, now: u64)
    ensures
        same_window(s.succeeded(now), s),
        same_window(s.cancelled_remotely(now), s),
{
    reveal(UiView::succeeded);
    reveal(UiView::cancelled_remotely);
    let s1 = UiView { progress: Gauge::all(), phase_text: Some("传输完成"@), ..s };
    let said = s1.saying("发送成功"@, Tone::Success, true);
    crate::query_laws::a_message_is_shown(s1, "发送成功"@, Tone::Success);
    let told = said.logging("[完成] 发送成功"@, now);
    a_line_changes_the_log_alone(said, "[完成] 发送成功"@, now);
    the_end_keeps_the_window(told, false);
    lemma_drawn_alone(told.finished(false));
    assert(same_window(substance(said), substance(s1)));
    let said2 = s.saying("传输已被手环取消"@, Tone::Neutral, true);
    crate::query_laws::a_message_is_shown(s, "传输已被手环取消"@, Tone::Neutral);
    let told2 = said2.logging("[中断] 手环端已取消"@, now);
    a_line_changes_the_log_alone(said2, "[中断] 手环端已取消"@, now);
    the_end_keeps_the_window(told2, true);
    lemma_drawn_alone(told2.finished(true));
    assert(same_window(substance(said2), substance(s)));
}

/// The small steps leave the window alone.
proof fn lemma_steps_alone(s: UiView, message: Seq<char>, tone: Tone, hide: bool, now: u64)
    ensures
        same_window(s.saying(message, tone, hide), s),
        same_window(s.logging(message, now), s),
        same_window(s.finished(hide), s),
        same_window(s.drawn(), s),
        same_window(s.refresh_later(), s),
        same_window(s.reconnecting(), s),
        same_window(s.without_watchdog(), s),
{
    crate::query_laws::a_message_is_shown(s, message, tone);
    assert(same_window(substance(s.saying(message, tone, hide)), substance(s)));
    a_line_changes_the_log_alone(s, message, now);
    the_end_keeps_the_window(s, hide);
    lemma_drawn_alone(s);
    a_look_is_put_off_once(s);
    reveal(UiView::reconnecting);
    reveal(UiView::without_reconnect_timer);
    reveal(UiView::without_watchdog);
    reveal(UiView::clearing);
    reveal(UiView::timing);
}

/// A lost link leaves the book, the options and what is known of the wristband as they
/// are, whatever is done about it.
pub proof fn a_lost_link_leaves_the_window_alone(s: UiView, reason: Seq<char>, now: u64)
    ensures
        same_window(s.lost(reason, now), s),
        same_window(s.retrying(reason, now), s),
{
    lemma_retrying_alone(s, reason, now);
    reveal(UiView::lost);
    lemma_steps_alone(s, reason, Tone::Error, true, now);
    let s1 = UiView { handling_offline: true, ..s };
    lemma_steps_alone(s1, reason, Tone::Error, true, now);
    let s2 = s1.without_watchdog();
    lemma_retrying_alone(s2, reason, now);
    lemma_called_off_alone(s2, reason, now);
}

proof fn lemma_retrying_alone(s: UiView, reason: Seq<char>, now: u64)
    ensures
        same_window(s.retrying(reason, now), s),
{
    reveal(UiView::retrying);
    let attempts = s.reconnect_attempts + 1;
    let most = text::decimal(3);
    let count = text::decimal(attempts) + "/"@ + most;
    let s1 = UiView {
        reconnect_attempts: attempts,
        session: transfer::rewound(s.session),
        phase_text: Some("重新连接 ("@ + count + ")"@),
        ..s
    };
    let message = reason + "，正在重连 "@ + count;
    let line = "[掉线] "@ + reason + "，第 "@ + count + " 次尝试重连"@;
    lemma_steps_alone(s1, message, Tone::Neutral, false, now);
    let s2 = s1.saying(message, Tone::Neutral, false);
    lemma_steps_alone(s2, line, Tone::Neutral, false, now);
    let s3 = s2.logging(line, now);
    lemma_steps_alone(s3, line, Tone::Neutral, false, now);
    lemma_steps_alone(s3.reconnecting(), line, Tone::Neutral, false, now);
    lemma_failed_alone(
        UiView { handling_offline: false, reconnect_attempts: 0, ..s },
        reason + "，已重连 "@ + most + " 次仍失败"@ + transfer::give_up_hint(reason),
        now,
    );
}

proof fn lemma_called_off_alone(s: UiView, reason: Seq<char>, now: u64)
    ensures
        same_window(s.called_off(reason, now), s),
{
    reveal(UiView::called_off);
    let told = if s.address().len() > 0 {
        s.with(
            EffectView::Send {
                addr: s.address(),
                payload: protocol::wire(protocol::action("cancel"@)),
            },
        )
    } else {
        s
    };
    let s1 = UiView { handling_offline: false, reconnect_attempts: 0, ..told };
    let message = reason + "，已取消传输"@;
    let line = "[掉线] "@ + reason + "，按设置取消传输"@;
    lemma_steps_alone(s1, message, Tone::Error, true, now);
    let s2 = s1.saying(message, Tone::Error, true);
    lemma_steps_alone(s2, line, Tone::Error, true, now);
    let s3 = s2.logging(line, now);
    lemma_steps_alone(s3, line, Tone::Error, true, now);
    let s4 = s3.finished(true);
    lemma_steps_alone(s4, line, Tone::Error, true, now);
    lemma_steps_alone(s4.refresh_later(), line, Tone::Error, true, now);
}

/// What was asked of the host stays at the front of what is asked.
pub open spec fn grows(a: UiView, b: UiView) -> bool {
    &&& a.outbox.len() <= b.outbox.len()
    &&& forall|i: int| 0 <= i < a.outbox.len() ==> #[trigger] b.outbox[i] == a.outbox[i]
}

/// A handshake says nothing of a link that is lost.
pub proof fn a_handshake_keeps_the_link(
    s: UiView,
    count: usize,
    version: Option<i64>,
    now: u64,
)
    ensures
        s.shaken(count, version, now).handling_offline == s.handling_offline,
        s.shaken(count, version, now).reconnect_attempts == s.reconnect_attempts,
        s.shaken(count, version, now).offline_strikes == s.offline_strikes,
        s.shaken(count, version, now).last_device_addr == s.last_device_addr,
        s.shaken(count, version, now).progress == s.progress,
{
    reveal(UiView::without_handshake_timer);
    reveal(UiView::clearing);
    match s.session {
        Some(session) => lemma_shaken_well(s, session, count, version, now),
        None => {
            reveal(UiView::shaken);
        },
    }
}

/// The state after a job began: only what it asks is new.
spec fn begun_well(a: UiView, b: UiView) -> bool {
    &&& b.handling_offline == a.handling_offline
    &&& b.reconnect_attempts == a.reconnect_attempts
    &&& b.offline_strikes == a.offline_strikes
    &&& b.last_device_addr == a.last_device_addr
    &&& b.progress == a.progress
    &&& same_window(b, a)
    &&& grows(a, b)
    &&& b.session == a.session
    &&& b.handshake_timer_id == a.handshake_timer_id
    &&& b.is_sending == a.is_sending
    &&& b.is_querying == a.is_querying
}

proof fn lemma_asked_well(s: UiView, kind: QueryKind, addr: Seq<char>)
    ensures
        begun_well(s, s.asked(kind, addr)),
{
    reveal(UiView::asked);
    reveal(UiView::query_timed);
    reveal(UiView::timing);
    match kind {
        QueryKind::Status => {
            reveal(UiView::asked_status);
        },
        QueryKind::Settings => {
            reveal(UiView::asked_settings);
            lemma_writing_alone(s, addr, s.pending_writes);
            lemma_writing_grows(s, addr, s.pending_writes);
        },
    }
}

proof fn lemma_begun_well(s: UiView, now: u64)
    ensures
        begun_well(s, s.begun(now)),
{
    reveal(UiView::begun);
    if let Some(session) = s.session {
        match session.question() {
            Some(kind) => {
                let s1 = UiView { phase_text: Some("已连接"@), ..s };
                a_line_changes_the_log_alone(s1, "[连接] 已连接手环"@, now);
                let s2 = s1.logging("[连接] 已连接手环"@, now);
                let s3 = s2.drawn();
                assert(begun_well(s, s3)) by {
                    reveal(UiView::drawn);
                }
                lemma_asked_well(s3, kind, session.device_addr);
            },
            None => {
                reveal(UiView::transfer_started);
                reveal(UiView::saying);
                reveal(UiView::without_hide_timer);
                reveal(UiView::clearing);
                reveal(UiView::drawn);
            },
        }
    }
}

/// The state between a handshake and what it begins.
spec fn answered(s: UiView, session: SessionView, count: usize, version: Option<i64>) -> UiView {
    let s1 = UiView {
        session: Some(session.shaken(count as nat)),
        peer_version: queries::highest(s.peer_version, version),
        ..s
    };
    let s2 = if count > 0 {
        s1.without_handshake_timer()
    } else {
        s1
    };
    if count < 2 {
        s2.greeting(session.device_addr, count as nat + 1)
    } else {
        s2
    }
}

/// A handshake that begins the job of a session begins it after it was answered.
pub(crate) proof fn lemma_shaken_begins(
    s: UiView,
    session: SessionView,
    count: usize,
    version: Option<i64>,
    now: u64,
) -> (before: UiView)
    requires
        s.session == Some(session),
        session.starts(count as nat),
    ensures
        before.session == Some(session.shaken(count as nat)),
        s.shaken(count, version, now) == before.begun(now),
{
    let before = answered(s, session, count, version);
    assert(before.session == Some(session.shaken(count as nat))) by {
        reveal(UiView::without_handshake_timer);
        reveal(UiView::clearing);
    }
    reveal(UiView::shaken);
    before
}

proof fn lemma_shaken_well(
    s: UiView,
    session: SessionView,
    count: usize,
    version: Option<i64>,
    now: u64,
)
    requires
        s.session == Some(session),
    ensures
        begun_well(answered(s, session, count, version), s.shaken(count, version, now)),
        !session.starts(count as nat) ==> s.shaken(count, version, now) == answered(
            s,
            session,
            count,
            version,
        ),
{
    reveal(UiView::shaken);
    lemma_begun_well(answered(s, session, count, version), now);
}

/// A handshake leaves them as they are too, and only the version that the wristband
/// gave is new.
pub proof fn a_handshake_leaves_the_window_alone(
    s: UiView,
    count: usize,
    version: Option<i64>,
    now: u64,
)
    ensures
        same_window(
            UiView { peer_version: s.peer_version, ..s.shaken(count, version, now) },
            s,
        ),
        s.shaken(count, version, now).peer_version == queries::highest(s.peer_version, version),
        s.shaken(count, version, now).is_sending == s.is_sending,
        s.shaken(count, version, now).is_querying == s.is_querying,
{
    reveal(UiView::without_handshake_timer);
    reveal(UiView::clearing);
    match s.session {
        Some(session) => lemma_shaken_well(s, session, count, version, now),
        None => {
            reveal(UiView::shaken);
        },
    }
}

proof fn lemma_writing_alone(s: UiView, addr: Seq<char>, writes: Seq<(Seq<char>, Seq<char>)>)
    ensures
        s.writing(addr, writes) == (UiView { outbox: s.writing(addr, writes).outbox, ..s }),
    decreases writes.len(),
{
    if writes.len() > 0 {
        lemma_writing_alone(s, addr, writes.drop_last());
    }
}

// ---------------------------------------------------------------- handshakes

/// A handshake of the wristband is answered with the next count, before anything else
/// is sent, and from the third on not at all; one with a count takes the timer of the
/// handshake away.
pub proof fn a_handshake_is_answered(
    s: UiView,
    session: SessionView,
    count: usize,
    version: Option<i64>,
    now: u64,
)
    requires
        s.session == Some(session),
    ensures
        ({
            let after = s.shaken(count, version, now);
            let answer = EffectView::Send {
                addr: session.device_addr,
                payload: protocol::wire(
                    protocol::handshake_members(
                        count as nat + 1,
                        queries::highest(s.peer_version, version),
                    ),
                ),
            };
            let n = s.outbox.len() as int;
            let clears = count > 0 && s.handshake_timer_id is Some;
            &&& clears ==> after.outbox[n] == EffectView::ClearTimer(s.handshake_timer_id->0)
            &&& count > 0 ==> after.handshake_timer_id is None
            &&& count < 2 ==> after.outbox[if clears {
                n + 1
            } else {
                n
            }] == answer
            &&& count >= 2 && !session.starts(count as nat) ==> after.outbox.len() == (if clears {
                n + 1
            } else {
                n
            })
            &&& after.session matches Some(u) && u.device_addr == session.device_addr && u.job
                == session.job && u.handshake_complete == (session.handshake_complete || count > 0)
                && u.pending_start == (session.pending_start && !(session.handshake_complete
                || count > 0))
        }),
{
    reveal(UiView::without_handshake_timer);
    reveal(UiView::clearing);
    lemma_shaken_well(s, session, count, version, now);
    let between = answered(s, session, count, version);
    let after = s.shaken(count, version, now);
    let n = s.outbox.len() as int;
    if between.outbox.len() > n {
        assert(after.outbox[n] == between.outbox[n]);
    }
    if between.outbox.len() > n + 1 {
        assert(after.outbox[n + 1] == between.outbox[n + 1]);
    }
}

proof fn lemma_writing_grows(s: UiView, addr: Seq<char>, writes: Seq<(Seq<char>, Seq<char>)>)
    ensures
        s.outbox.len() <= s.writing(addr, writes).outbox.len(),
        forall|i: int|
            0 <= i < s.outbox.len() ==> #[trigger] s.writing(addr, writes).outbox[i]
                == s.outbox[i],
    decreases writes.len(),
{
    if writes.len() > 0 {
        lemma_writing_grows(s, addr, writes.drop_last());
    }
}

// ---------------------------------------------------------------- what is said

/// What the log says of a new session: its chapters, those that are sent, its words,
/// and the chunks of its cover where there are any.
pub proof fn what_is_said_of_a_session(t: PlusJobView)
    ensures
        session::session_line(t) == "[分章] "@ + text::decimal(t.chapters.len()) + " 章（发 "@
            + text::decimal(t.send_order.len()) + " 章），共 "@ + text::decimal(t.total_words)
            + " 字"@ + (if t.cover_chunks.len() > 0 {
            "，封面 "@ + text::decimal(t.cover_chunks.len()) + " 块"@
        } else {
            ""@
        }),
{
    reveal_strlit("");
    assert(session::session_line(t) =~= "[分章] "@ + text::decimal(t.chapters.len()) + " 章（发 "@
        + text::decimal(t.send_order.len()) + " 章），共 "@ + text::decimal(t.total_words) + " 字"@
        + (if t.cover_chunks.len() > 0 {
        "，封面 "@ + text::decimal(t.cover_chunks.len()) + " 块"@
    } else {
        ""@
    }));
}

/// What the window says while a book is being sent: which chapter comes next, and which
/// chunk of the cover is on its way.
pub proof fn what_is_said_of_a_chapter(s: UiView, t: PlusJobView, now: u64)
    requires
        s.job() == Some(t),
        t.wf(),
    ensures
        t.pos + 1 < t.send_order.len() ==> s.chapter_saved(now).phase_text == Some(
            "第 "@ + text::decimal(t.pos + 2) + "/"@ + text::decimal(t.send_order.len()) + " 章 · "@
                + t.chapters[t.send_order[(t.pos + 1) as int] as int].name,
        ),
        t.cover_idx < t.cover_chunks.len() ==> s.covering(now).phase_text == Some(
            "发送封面 "@ + text::decimal(t.cover_idx + 1) + "/"@ + text::decimal(
                t.cover_chunks.len(),
            ),
        ) && s.covering(now).status_message == Some("正在发送封面..."@),
{
    reveal(UiView::chapter_saved);
    reveal(UiView::emitted);
    reveal(UiView::covering);
    reveal(UiView::saying);
    reveal(UiView::without_hide_timer);
    reveal(UiView::clearing);
    if t.pos + 1 < t.send_order.len() {
        let u = t.moved(t.pos + 1);
        crate::chapters::chunks_exist(u.chapter().content, session::PLUS_CHUNK_BYTES as nat);
        crate::chapters::chunks_restore_the_content(
            u.filled().chunk_texts,
            u.chapter().content,
            session::PLUS_CHUNK_BYTES as nat,
        );
    }
}

/// What a look at the link comes to: a device that is there, with no answer overdue,
/// starts the count anew and is looked at again; one that is missed for the first time
/// is looked at again too; one that is missed again is lost, and so is a link whose
/// answer is overdue.
pub proof fn what_a_look_at_the_link_comes_to(s: UiView, stalled: bool, now: u64)
    requires
        s.is_sending,
    ensures
        ({
            let there = UiView { offline_strikes: 0, ..s };
            let missed = UiView { offline_strikes: s.offline_strikes + 1, ..s };
            let overdue = "手环 "@ + text::decimal(3) + " 秒无响应"@;
            &&& s.link_seen(true, false, now) == there.watched()
            &&& s.link_seen(true, true, now) == there.lost(overdue, now)
            &&& s.offline_strikes == 0 ==> s.link_seen(false, false, now) == missed.watched()
            &&& s.offline_strikes == 0 ==> s.link_seen(false, true, now) == missed.lost(overdue, now)
            &&& s.offline_strikes > 0 ==> s.link_seen(false, stalled, now) == missed.lost(
                "设备连接已断开"@,
                now,
            )
        }),
{
    reveal(UiView::link_seen);
}

/// Without a session a handshake tells no more than the version of the wristband.
pub proof fn a_handshake_without_a_session(
    s: UiView,
    count: usize,
    version: Option<i64>,
    now: u64,
)
    requires
        s.session is None,
    ensures
        s.shaken(count, version, now) == (UiView {
            peer_version: queries::highest(s.peer_version, version),
            ..s
        }),
{
    reveal(UiView::shaken);
}

/// What the log says of an answer: the chapters that the wristband has, its storage,
/// the settings that it gave, and that a setting was changed.
pub proof fn what_is_said_of_an_answer(
    s: UiView,
    synced: Seq<usize>,
    has_cover: bool,
    product: Option<Seq<char>>,
    total: u64,
    avail: u64,
    values: Map<Seq<char>, Seq<char>>,
    count: nat,
    now: u64,
)
    ensures
        logged(
            s.replied(ReplyView::BookStatus { synced, has_cover }, now),
            "[设备] 已同步 "@ + text::decimal(synced.len()) + " 章"@ + (if has_cover {
                "，已有封面"@
            } else {
                ""@
            }),
        ),
        logged(
            s.replied(ReplyView::StorageInfo { product, total, avail }, now),
            "[设备] "@ + (match product {
                Some(t) => t,
                None => "手环"@,
            }) + " 可用 "@ + crate::view::storage_size(avail) + " / "@ + crate::view::storage_size(
                total,
            ),
        ),
        logged(
            s.replied(ReplyView::SettingsData { values, count }, now),
            "[设置] 已读取 "@ + text::decimal(count) + " 项"@,
        ),
{
    reveal(UiView::replied);
    reveal(UiView::status_given);
    reveal(UiView::storage_given);
    reveal(UiView::settings_given);
    let line1 = "[设备] 已同步 "@ + text::decimal(synced.len()) + " 章"@
        + crate::view::cover_remark(has_cover);
    let s1 = UiView {
        band: BandView { status_known: true, synced_chapters: synced, has_cover, ..s.band },
        ..s
    };
    click_laws::lemma_logged(s1, line1, now);
    lemma_settled_log(s1.logging(line1, now));
    let line2 = "[设备] "@ + crate::view::text_or(product, "手环"@) + " 可用 "@
        + crate::view::storage_size(avail) + " / "@ + crate::view::storage_size(total);
    let s2 = UiView {
        band: BandView {
            storage_known: true,
            product,
            storage_total: total,
            storage_avail: avail,
            ..s.band
        },
        ..s
    };
    click_laws::lemma_logged(s2, line2, now);
    lemma_settled_log(s2.logging(line2, now));
    let line3 = "[设置] 已读取 "@ + text::decimal(count) + " 项"@;
    let s3 = UiView {
        band: BandView {
            settings: s.band.settings.union_prefer_right(values),
            settings_loaded: true,
            ..s.band
        },
        ..s
    };
    click_laws::lemma_logged(s3, line3, now);
    lemma_settled_log(s3.logging(line3, now));
}

pub(crate) proof fn lemma_settled_log(s: UiView)
    ensures
        s.settled().log == s.log,
{
    reveal(UiView::settled);
    reveal(UiView::without_query_timer);
    reveal(UiView::clearing);
    reveal(UiView::saying);
    reveal(UiView::hiding);
    reveal(UiView::timing);
    reveal(UiView::without_hide_timer);
    reveal(UiView::finished);
    reveal(UiView::without_handshake_timer);
    reveal(UiView::without_watchdog);
    reveal(UiView::without_reconnect_timer);
    reveal(UiView::drawn);
}

/// A changed setting stands in the log with its label and its new value.
pub proof fn what_is_said_of_a_setting(s: UiView, def: SettingView, value: Seq<char>, now: u64)
    ensures
        logged(
            s.setting_changed(def, value, now),
            "[设置] "@ + def.label + " → "@ + settings::shown_value(def.kind, value),
        ),
{
    reveal(UiView::setting_changed);
    reveal(UiView::write_queued);
    reveal(UiView::querying);
    reveal(UiView::saying);
    reveal(UiView::hiding);
    reveal(UiView::timing);
    reveal(UiView::without_hide_timer);
    reveal(UiView::clearing);
    reveal(UiView::drawn);
    let s1 = UiView {
        band: BandView { settings: s.band.settings.insert(def.key, value), ..s.band },
        ..s
    };
    let line = "[设置] "@ + def.label + " → "@ + settings::shown_value(def.kind, value);
    click_laws::lemma_logged(s1, line, now);
}

/// A cover that is too long is named with the limit.
pub proof fn what_is_said_of_a_long_cover(s: UiView, name: Seq<char>, bytes: Seq<u8>, now: u64)
    requires
        bytes.len() > 409600,
    ensures
        s.cover_picked(name, bytes, now).status_message == Some(
            "封面超过 "@ + crate::display::size_text(409600) + "，已忽略"@,
        ),
{
    reveal(UiView::cover_refused);
    let s1 = UiView { cover_name: None, cover_bytes: None, ..s };
    let message = "封面超过 "@ + crate::display::size_text(409600) + "，已忽略"@;
    crate::query_laws::a_message_is_shown(s1, message, Tone::Error);
    lemma_drawn_alone(s1.saying(message, Tone::Error, true));
}

// ---------------------------------------------------------------- odd messages

/// A version out of the range of 64 bits counts as the end that it passes, and the
/// settings of a message without any are none.
pub proof fn odd_messages_are_read(v: JsonView, n: int)
    ensures
        has(v, "version"@, JsonView::Integer(n)) && n > i64::MAX ==> inbound::version_of(v) == Some(
            i64::MAX,
        ),
        has(v, "version"@, JsonView::Integer(n)) && n < i64::MIN ==> inbound::version_of(v) == Some(
            i64::MIN,
        ),
        kind_is(v, "settings_data"@) && lacks(v, "settings"@) ==> (inbound::reply_of(
            v,
        ) matches ReplyView::SettingsData { values, count } && count == 0 && forall|k: Seq<char>|
            !#[trigger] values.contains_key(k)),
        kind_is(v, "book_status"@) && lacks(v, "syncedChapters"@) ==> (inbound::reply_of(
            v,
        ) matches ReplyView::BookStatus { synced, has_cover } && synced.len() == 0),
        lacks(v, "type"@) ==> inbound::reply_of(v) is Other,
{
    crate::message_laws::answers_are_told_by_name(v);
}

/// A session that is not there stays so, and a question stays what it is, when a lost
/// link is dealt with.
pub proof fn nothing_to_rewind(s: SessionView, k: QueryKind)
    ensures
        transfer::rewound(None) is None,
        s.job == JobView::Query(k) ==> (transfer::rewound(Some(s)) matches Some(r) && r.job == s.job
            && r.device_addr == s.device_addr),
{
}

} // verus!
