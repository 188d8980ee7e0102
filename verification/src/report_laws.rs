//! What is said and done beside the main course of things: tones, timers and log lines,
//! answers of every kind, and values that are not what they should be.
use crate::chapters::Chapter;
use crate::chapters::SplitOptions;
use crate::click_laws;
use crate::click_laws::logged;
use crate::inbound;
use crate::inbound::Reply;
use crate::inbound::ReplyView;
use crate::json::JsonView;
use crate::laws;
use crate::message_laws::has;
use crate::message_laws::kind_is;
use crate::message_laws::lacks;
use crate::protocol;
use crate::session::Job;
use crate::session::JobView;
use crate::session::PlusJob;
use crate::session::QueryKind;
use crate::session::Session;
use crate::session::Upload;
use crate::settings::SettingDef;
use crate::settings::SettingKind;
use crate::settings::SettingKindView;
use crate::settings::SettingView;
use crate::state::BandInfo;
use crate::state::BandView;
use crate::state::Effect;
use crate::state::EffectView;
use crate::state::Field;
use crate::state::Gauge;
use crate::state::OutChunk;
use crate::state::Purpose;
use crate::state::PurposeView;
use crate::state::Tone;
use crate::state::UiState;
use crate::state::UiView;
use crate::text;
use vstd::prelude::*;

verus! {

// ---------------------------------------------------------------- names

/// The app on the wristband, by its package and its name.
pub proof fn the_names_of_the_app()
    ensures
        protocol::PACKAGE@ == "com.bandbbs.ebook.plus"@,
        protocol::APP_LABEL@ == "弦电子书"@,
        protocol::APP_HINT@ == "按章节传输，需 V26.5.1+"@,
{
}

// ---------------------------------------------------------------- states as values

/// The state as mathematics holds what the state holds, field by field.
pub proof fn the_state_is_read_field_by_field(s: UiState)
    ensures
        s.file_name matches Some(t) ==> s@.file_name == Some(t@),
        s.file_text matches Some(t) ==> s@.file_text == Some(t@),
        s.file_name is None ==> s@.file_name is None,
        s.file_text is None ==> s@.file_text is None,
        s@.file_size_bytes == s.file_size_bytes,
        s@.split == s.split@,
        s@.author == s.author@,
        s@.summary == s.summary@,
        s.cover_bytes matches Some(b) ==> s@.cover_bytes == Some(b@),
        s.cover_bytes is None ==> s@.cover_bytes is None,
        s@.skip_synced == s.skip_synced,
        s@.chapter_estimate == s.chapter_estimate,
        s@.progress == s.progress,
        s@.panel == s.panel,
        s@.is_sending == s.is_sending,
        s@.is_querying == s.is_querying,
        s.session matches Some(x) ==> s@.session == Some(x@),
        s.session is None ==> s@.session is None,
        s@.band == s.band@,
        s@.disconnect_action == s.disconnect_action,
        s@.reconnect_attempts == s.reconnect_attempts,
        s@.handling_offline == s.handling_offline,
        s@.last_inbound_at == s.last_inbound_at,
        s@.offline_strikes == s.offline_strikes,
        s@.peer_version == s.peer_version,
        s@.query_expect == s.query_expect,
        s.status_message matches Some(t) ==> s@.status_message == Some(t@),
        s@.status_tone == s.status_tone,
        s@.outbox.len() == s.outbox@.len(),
        forall|i: int| 0 <= i < s.outbox@.len() ==> (#[trigger] s@.outbox[i]) == s.outbox@[i]@,
        s@.log.len() == s.log@.len(),
        forall|i: int| 0 <= i < s.log@.len() ==> (#[trigger] s@.log[i]) == s.log@[i]@,
        s@.pending_writes.len() == s.pending_writes@.len(),
        forall|i: int|
            0 <= i < s.pending_writes@.len() ==> (#[trigger] s@.pending_writes[i]) == (
                s.pending_writes@[i].0@,
                s.pending_writes@[i].1@,
            ),
{
}

/// What is known of the wristband, an upload, a job, a chapter and the options of a
/// split are read field by field too.
pub proof fn values_are_read_field_by_field(
    b: BandInfo,
    up: Upload,
    t: PlusJob,
    c: Chapter,
    o: SplitOptions,
)
    ensures
        b@.status_known == b.status_known && b@.storage_known == b.storage_known,
        b@.storage_total == b.storage_total && b@.storage_avail == b.storage_avail,
        b@.synced_chapters == b.synced_chapters@ && b@.has_cover == b.has_cover,
        b@.settings == b.settings@ && b@.settings_loaded == b.settings_loaded,
        up@.file_name == up.file_name@ && up@.text == up.text@ && up@.size == up.size,
        up@.split == up.split@ && up@.author == up.author@ && up@.summary == up.summary@,
        up@.skip_synced == up.skip_synced && up@.synced == up.synced@,
        up.cover matches Some(bytes) ==> up@.cover == Some(bytes@),
        up.cover is None ==> up@.cover is None,
        t@.file_name == t.file_name@ && t@.author == t.author@ && t@.summary == t.summary@,
        t@.send_order == t.send_order@ && t@.pos == t.pos && t@.chunk_idx == t.chunk_idx,
        t@.total_words == t.total_words && t@.cover_idx == t.cover_idx && t@.cover_done
            == t.cover_done,
        t@.retries == t.retries && t@.last_chunk_time == t.last_chunk_time,
        t@.chapters.len() == t.chapters@.len(),
        forall|i: int| 0 <= i < t.chapters@.len() ==> (#[trigger] t@.chapters[i]) == t.chapters@[i]@,
        c@.index == c.index && c@.name == c.name@ && c@.word_count == c.word_count && c@.content
            == c.content@,
        o@.mode == o.mode && o@.words_per_chapter == o.words_per_chapter && o@.keyword
            == o.keyword@,
{
}

/// Lists of values are read one by one, in order.
pub proof fn lists_are_read_in_order(
    cs: Seq<Chapter>,
    defs: Seq<SettingDef>,
    opts: Seq<(&'static str, &'static str)>,
    names: Seq<String>,
    i: int,
)
    ensures
        crate::chapters::chapter_views(cs).len() == cs.len(),
        0 <= i < cs.len() ==> crate::chapters::chapter_views(cs)[i] == cs[i]@,
        crate::settings::setting_views(defs).len() == defs.len(),
        0 <= i < defs.len() ==> crate::settings::setting_views(defs)[i] == defs[i]@,
        crate::settings::option_views(opts).len() == opts.len(),
        0 <= i < opts.len() ==> crate::settings::option_views(opts)[i] == (opts[i].0@, opts[i].1@),
        text::texts(names).len() == names.len(),
        0 <= i < names.len() ==> text::texts(names)[i] == names[i]@,
{
}

/// A setting, a session and a chunk on its way are read field by field.
pub proof fn settings_and_sessions_are_read_field_by_field(
    d: SettingDef,
    s: Session,
    out: OutChunk,
)
    ensures
        d@.key == d.key@ && d@.label == d.label@ && d@.default == d.default@,
        d.kind is Bool <==> d@.kind is Bool,
        d.kind matches SettingKind::Int { min, max, step, suffix } ==> d@.kind == (
        SettingKindView::Int { min: min as int, max: max as int, step: step as int, suffix: suffix@ }),
        d.kind matches SettingKind::Choice(opts) ==> d@.kind == SettingKindView::Choice(
            crate::settings::option_views(opts@),
        ),
        s@.device_addr == s.device_addr@,
        s@.pending_start == s.pending_start && s@.handshake_complete == s.handshake_complete,
        s.job matches Job::Plus(t) ==> s@.job == JobView::Plus(t@),
        s.job matches Job::Query(k) ==> s@.job == JobView::Query(k),
        out@.addr == out.addr@ && out@.message == out.message@ && out@.phase == out.phase@,
        out@.bytes == out.bytes && out@.since == out.since && out@.now == out.now,
        out@.pos == out.pos && out@.chapters == out.chapters,
        out@.chunk == out.chunk && out@.chunks == out.chunks,
{
}

/// What the host has to do is read as it is.
pub proof fn effects_are_read_as_they_are(e: Effect)
    ensures
        e matches Effect::Send { addr, payload } ==> e@ == (EffectView::Send {
            addr: addr@,
            payload: payload@,
        }),
        e matches Effect::SendChecked { addr, payload, then } ==> e@ == (EffectView::SendChecked {
            addr: addr@,
            payload: payload@,
            then,
        }),
        e matches Effect::SetTimer { token, delay_ms, tag } ==> e@ == (EffectView::SetTimer {
            token,
            delay_ms,
            tag: tag@,
        }),
        e matches Effect::ClearTimer(token) ==> e@ == EffectView::ClearTimer(token),
        e matches Effect::Render { root, ui } ==> e@ == (EffectView::Render { root: root@, ui: ui@ }),
        e matches Effect::Connect(Purpose::Send(up)) ==> e@ == EffectView::Connect(
            PurposeView::Send(up@),
        ),
        e matches Effect::Connect(Purpose::Query { kind, with_book }) ==> e@ == EffectView::Connect(
            PurposeView::Query { kind, with_book },
        ),
        e matches Effect::Connect(Purpose::Reconnect) ==> e@ == EffectView::Connect(
            PurposeView::Reconnect,
        ),
        e matches Effect::CheckLink { addr, stalled } ==> e@ == (EffectView::CheckLink {
            addr: addr@,
            stalled,
        }),
        e matches Effect::Prompt { field, title, tip } ==> e@ == (EffectView::Prompt {
            field,
            title: title@,
            tip: tip@,
        }),
        e matches Effect::Measure(out) ==> e@ == EffectView::Measure(out@),
        e is PickFile <==> e@ is PickFile,
        e is PickCover <==> e@ is PickCover,
        e is ProbeDevices <==> e@ is ProbeDevices,
        e is Redraw <==> e@ is Redraw,
{
}

/// An answer is read as it is.
pub proof fn answers_are_read_as_they_are(r: Reply)
    ensures
        r matches Reply::BookStatus { synced, has_cover } ==> r@ == (ReplyView::BookStatus {
            synced: synced@,
            has_cover,
        }),
        r matches Reply::Ready { start_from } ==> r@ == (ReplyView::Ready { start_from }),
        r matches Reply::SettingsData { values, count } ==> r@ == (ReplyView::SettingsData {
            values: values@,
            count: count as nat,
        }),
        r matches Reply::StorageInfo { product, total, avail } ==> (r@ matches ReplyView::StorageInfo {
            product: p,
            total: t,
            avail: a,
        } && t == total && a == avail && (product matches Some(x) ==> p == Some(x@))),
        r is NextChunk <==> r@ is NextChunk,
        r is ChapterChunkComplete <==> r@ is ChapterChunkComplete,
        r is ChapterSaved <==> r@ is ChapterSaved,
        r is CoverAcked <==> r@ is CoverAcked,
        r is TransferFinished <==> r@ is TransferFinished,
        r is Cancel <==> r@ is Cancel,
        r is Success <==> r@ is Success,
        r is Error <==> r@ is Error,
        r is Other <==> r@ is Other,
{
}

/// The outcome of a connection is the address, or why there is none.
pub proof fn an_outcome_is_read_as_it_is(r: Result<String, String>)
    ensures
        r matches Ok(a) ==> crate::queries::outcome(r) == Ok::<Seq<char>, Seq<char>>(a@),
        r matches Err(e) ==> crate::queries::outcome(r) == Err::<Seq<char>, Seq<char>>(e@),
{
}

// ---------------------------------------------------------------- tones and timers

/// The message of a failure goes away by itself.
pub proof fn a_failure_goes_away(s: UiView, message: Seq<char>, now: u64)
    ensures
        s.failed(message, now).hide_message_timer_id is Some,
        s.failed(message, now).status_tone == Tone::Error,
{
    crate::state_laws::a_failure_is_said_and_logged(s, message, now);
    reveal(UiView::failed);
    crate::query_laws::a_message_is_shown(s, message, Tone::Error);
    let said = s.saying(message, Tone::Error, true);
    crate::state_laws::a_line_changes_the_log_alone(said, "[错误] "@ + message, now);
    let told = said.logging("[错误] "@ + message, now);
    crate::state_laws::the_end_keeps_the_window(told, true);
    crate::window_laws::the_window_is_drawn(told.finished(true), Seq::empty());
    reveal(UiView::drawn);
}

/// The end of a transfer is said in the tone of success, stands in the log, and goes
/// away by itself.
pub proof fn a_finished_transfer_is_reported(s: UiView, now: u64)
    ensures
        s.succeeded(now).status_message == Some("发送成功"@),
        s.succeeded(now).status_tone == Tone::Success,
        s.succeeded(now).hide_message_timer_id is Some,
        s.succeeded(now).progress == (Gauge { percent: 100, bar: 240 }),
        logged(s.succeeded(now), "[完成] 发送成功"@),
{
    laws::a_finished_transfer_is_complete(s, now);
    reveal(UiView::succeeded);
    let s1 = UiView { progress: Gauge::all(), phase_text: Some("传输完成"@), ..s };
    crate::query_laws::a_message_is_shown(s1, "发送成功"@, Tone::Success);
    let said = s1.saying("发送成功"@, Tone::Success, true);
    crate::state_laws::a_line_changes_the_log_alone(said, "[完成] 发送成功"@, now);
    let told = said.logging("[完成] 发送成功"@, now);
    crate::state_laws::the_end_keeps_the_window(told, false);
    reveal(UiView::drawn);
}

/// A transfer that was called off with a click is looked after: the wristband is
/// looked at later, and the log says that it was called off.
pub proof fn a_cancelled_transfer_is_looked_after(s: UiView, now: u64)
    requires
        s.busy(),
    ensures
        s.clicked("cancel_send"@, now).cancel_refresh_timer_id is Some,
        logged(s.clicked("cancel_send"@, now), "[操作] 已取消"@),
        s.clicked("cancel_send"@, now).status_tone == Tone::Neutral,
        s.clicked("cancel_send"@, now).file_text == s.file_text,
{
    click_laws::lemma_cancel_name(s, now);
    reveal(UiView::cancelled);
    let told = match s.session {
        Some(session) => s.with(
            EffectView::Send {
                addr: session.device_addr,
                payload: protocol::wire(protocol::action("cancel"@)),
            },
        ),
        None => s,
    };
    crate::query_laws::a_message_is_shown(told, "已取消"@, Tone::Neutral);
    let said = told.saying("已取消"@, Tone::Neutral, true);
    assert(click_laws::substance(said).file_text == click_laws::substance(told).file_text);
    crate::state_laws::a_line_changes_the_log_alone(said, "[操作] 已取消"@, now);
    let line = said.logging("[操作] 已取消"@, now);
    crate::state_laws::the_end_keeps_the_window(line, true);
    crate::state_laws::a_look_is_put_off_once(line.finished(true));
    reveal(UiView::drawn);
}

/// A cover that was taken or taken away stands in the log.
pub proof fn a_cover_is_logged(s: UiView, name: Seq<char>, bytes: Seq<u8>, now: u64)
    ensures
        0 < bytes.len() <= 409600 ==> logged(
            s.cover_picked(name, bytes, now),
            "[封面] "@ + name + " ("@ + crate::display::size_text(bytes.len()) + ")"@,
        ),
        logged(s.cover_cleared(now), "[封面] 已清除"@),
{
    reveal(UiView::cover_taken);
    reveal(UiView::cover_cleared);
    reveal(UiView::drawn);
    let s1 = UiView { cover_name: Some(name), cover_bytes: Some(bytes), ..s };
    let line = "[封面] "@ + name + " ("@ + crate::display::size_text(bytes.len()) + ")"@;
    click_laws::lemma_logged(s1, line, now);
    let s2 = UiView { cover_name: None, cover_bytes: None, ..s };
    click_laws::lemma_logged(s2, "[封面] 已清除"@, now);
}

/// The end of a transfer from the other side, a transfer that is called off for a lost
/// link, and a question without an answer stand in the log.
pub proof fn ends_are_logged(s: UiView, reason: Seq<char>, line: Seq<char>, now: u64)
    ensures
        logged(s.cancelled_remotely(now), "[中断] 手环端已取消"@),
        s.cancelled_remotely(now).status_tone == Tone::Neutral,
        logged(s.called_off(reason, now), "[掉线] "@ + reason + "，按设置取消传输"@),
        s.called_off(reason, now).status_tone == Tone::Error,
        logged(s.unanswered(line, now), line),
        s.unanswered(line, now).status_tone == Tone::Error,
{
    reveal(UiView::cancelled_remotely);
    reveal(UiView::called_off);
    reveal(UiView::unanswered);
    lemma_ended(s, "传输已被手环取消"@, Tone::Neutral, "[中断] 手环端已取消"@, now);
    lemma_ended(s, "手环未响应，请重试"@, Tone::Error, line, now);
    let told = if s.address().len() > 0 {
        s.with(
            EffectView::Send {
                addr: s.address(),
                payload: protocol::wire(protocol::action("cancel"@)),
            },
        )
    } else {
        s
    };
    lemma_ended(
        UiView { handling_offline: false, reconnect_attempts: 0, ..told },
        reason + "，已取消传输"@,
        Tone::Error,
        "[掉线] "@ + reason + "，按设置取消传输"@,
        now,
    );
}

proof fn lemma_ended(s: UiView, message: Seq<char>, tone: Tone, line: Seq<char>, now: u64)
    ensures
        ({
            let end = s.saying(message, tone, true).logging(line, now).finished(true);
            &&& logged(end, line)
            &&& end.status_tone == tone
            &&& logged(end.drawn(), line)
            &&& end.drawn().status_tone == tone
            &&& logged(end.refresh_later().drawn(), line)
            &&& end.refresh_later().drawn().status_tone == tone
        }),
{
    crate::query_laws::a_message_is_shown(s, message, tone);
    let said = s.saying(message, tone, true);
    crate::state_laws::a_line_changes_the_log_alone(said, line, now);
    let told = said.logging(line, now);
    crate::state_laws::the_end_keeps_the_window(told, true);
    crate::state_laws::a_look_is_put_off_once(told.finished(true));
    reveal(UiView::drawn);
}

/// A new question, and a new book, take the message away; what is wrong with a click on
/// send is said in the tone of an error.
pub proof fn old_messages_go(s: UiView, name: Seq<char>, book: Seq<char>, kind: QueryKind, now: u64)
    ensures
        !s.busy() ==> s.querying(kind).status_message is None,
        s.book_picked(name, book, now).status_message is None,
        s.book_picked(name, book, now).phase_text is None,
        s.book_picked(name, book, now).speed_text is None,
        !s.busy() && s.file_name is None ==> s.send_clicked(now).status_tone == Tone::Error,
{
    reveal(UiView::querying);
    reveal(UiView::book_picked);
    reveal(UiView::estimated);
    reveal(UiView::logging);
    reveal(UiView::drawn);
    crate::query_laws::a_message_is_shown(s, "请先选择文件"@, Tone::Error);
}

/// A keyword that was entered stands in the log.
pub proof fn an_entered_keyword_is_logged(s: UiView, input: Seq<char>, now: u64)
    ensures
        logged(
            s.prompted(Field::Keyword, "ok"@, input, now),
            "[分章] 关键字："@ + (if text::trim(input).len() == 0 {
                "未设置"@
            } else {
                text::trim(input)
            }),
        ),
{
    reveal(UiView::entered);
    reveal(UiView::drawn);
    let t = text::trim(input);
    let s1 = UiView {
        split: crate::chapters::SplitOptionsView { keyword: t, ..s.split },
        ..s
    }.estimated();
    click_laws::lemma_logged(s1, "[分章] 关键字："@ + crate::view::text_or_unset(t), now);
}

/// Without a device the log says that the look at it was left out.
pub proof fn a_look_without_a_device_is_logged(s: UiView, now: u64)
    ensures
        logged(s.probed(false, now), "[设备] 未连接，跳过自动刷新"@),
{
    reveal(UiView::probed);
    reveal(UiView::drawn);
    click_laws::lemma_logged(s, "[设备] 未连接，跳过自动刷新"@, now);
}

/// Where nothing is being sent, the watch ends; and without any sign of life yet, no
/// answer is overdue.
pub proof fn the_watch_ends(s: UiView, now: u64)
    ensures
        !s.is_sending ==> s.link_seen(true, false, now) == (UiView { offline_strikes: 0, ..s }),
        s.is_sending && s.last_inbound_at is None ==> s.timed_out(
            "timer_transfer_watchdog"@,
            now,
        ).outbox.last() == (EffectView::CheckLink { addr: s.address(), stalled: false }),
        s.session is None ==> s.timed_out("timer_start_handshake"@, now) == (UiView {
            handshake_timer_id: None,
            ..s
        }),
{
    click_laws::lemma_tags();
    reveal(UiView::link_seen);
    reveal(UiView::handshake_due);
}

// ---------------------------------------------------------------- settings on their way

/// A setting that is changed while nothing is going on has a connection made for it,
/// after which it is written; while a question is being asked, it waits for that; while
/// a book is being sent, the window says that it is busy.
pub proof fn a_changed_setting_is_taken_to_the_wristband(
    s: UiView,
    def: SettingView,
    value: Seq<char>,
    now: u64,
)
    requires
        !s.settings_open(),
    ensures
        ({
            let after = s.setting_changed(def, value, now);
            let n = after.outbox.len() as int;
            &&& after.outbox.last() is Redraw
            &&& !s.busy() ==> after.is_querying && after.outbox[n - 2] == EffectView::Connect(
                PurposeView::Query { kind: QueryKind::Settings, with_book: s.file_name is Some },
            )
            &&& s.is_querying ==> n == s.outbox.len() + 1 && after.is_querying
            &&& s.is_sending && !s.is_querying ==> !after.is_querying && after.status_message
                == Some("正在忙，请稍候"@)
        }),
{
    reveal(UiView::setting_changed);
    reveal(UiView::write_queued);
    reveal(UiView::querying);
    let s1 = UiView {
        band: BandView { settings: s.band.settings.insert(def.key, value), ..s.band },
        ..s
    };
    let line = "[设置] "@ + def.label + " → "@ + crate::settings::shown_value(def.kind, value);
    crate::state_laws::a_line_changes_the_log_alone(s1, line, now);
    let s2 = s1.logging(line, now);
    let s3 = UiView { pending_writes: s2.pending_writes.push((def.key, value)), ..s2 };
    crate::query_laws::a_message_is_shown(s3, "正在忙，请稍候"@, Tone::Neutral);
    assert(click_laws::substance(
        s3.saying("正在忙，请稍候"@, Tone::Neutral, true),
    ).is_querying == s3.is_querying);
    reveal(UiView::drawn);
}

/// A setting that is changed while a session for settings stands goes out at once, and
/// before the window is asked for again.
pub proof fn a_changed_setting_goes_out_at_once(
    s: UiView,
    def: SettingView,
    value: Seq<char>,
    now: u64,
)
    requires
        s.settings_open(),
    ensures
        s.setting_changed(def, value, now).outbox == s.outbox.push(
            EffectView::Send {
                addr: s.address(),
                payload: protocol::wire(protocol::set_setting_members(def.key, value)),
            },
        ).push(EffectView::Redraw),
        s.setting_changed(def, value, now).pending_writes == s.pending_writes,
{
    reveal(UiView::setting_changed);
    reveal(UiView::write_queued);
    reveal(UiView::logging);
}

// ---------------------------------------------------------------- answers of every kind

/// The storage and the settings are answers that a question waits for, as the others.
pub proof fn storage_and_settings_settle_the_question(
    s: UiView,
    product: Option<Seq<char>>,
    total: u64,
    avail: u64,
    values: Map<Seq<char>, Seq<char>>,
    count: nat,
    now: u64,
)
    requires
        s.is_querying,
    ensures
        ({
            let storage = s.replied(ReplyView::StorageInfo { product, total, avail }, now);
            let given = s.replied(ReplyView::SettingsData { values, count }, now);
            &&& s.query_expect > 1 ==> storage.query_expect == s.query_expect - 1
                && storage.is_querying && given.query_expect == s.query_expect - 1
                && given.is_querying
            &&& s.query_expect == 1 ==> laws::idle(storage) && laws::idle(given)
        }),
{
    reveal(UiView::replied);
    reveal(UiView::storage_given);
    reveal(UiView::settings_given);
    reveal(UiView::logging);
    let line2 = "[设备] "@ + crate::view::text_or(product, "手环"@) + " 可用 "@
        + crate::view::storage_size(avail) + " / "@ + crate::view::storage_size(total);
    let s2 = UiView {
        band: BandView {
            storage_known: true,
            product,
            storage_total: total,
            storage_avail: avail,
            ..s.band
        },
        ..s
    }.logging(line2, now);
    let s3 = UiView {
        band: BandView {
            settings: s.band.settings.union_prefer_right(values),
            settings_loaded: true,
            ..s.band
        },
        ..s
    }.logging("[设置] 已读取 "@ + text::decimal(count) + " 项"@, now);
    laws::a_question_ends_with_its_last_answer(s2);
    laws::a_question_ends_with_its_last_answer(s3);
}

/// A success is no answer of a transfer, and without a question or a transfer neither a
/// success nor an error changes anything.
pub proof fn answers_that_nobody_waits_for(s: UiView, message: Option<Seq<char>>, now: u64)
    ensures
        s.is_sending || !s.is_querying ==> s.replied(ReplyView::Success { message }, now) == s,
        !s.is_querying && s.job() is None ==> s.replied(ReplyView::Error { message }, now) == s,
        s.replied(ReplyView::Other, now) == s,
{
    reveal(UiView::replied);
}

/// That a setting was changed stands in the log, in the words of the wristband where it
/// has any.
pub proof fn a_success_is_logged(s: UiView, message: Option<Seq<char>>, now: u64)
    requires
        s.is_querying,
        !s.is_sending,
    ensures
        logged(
            s.replied(ReplyView::Success { message }, now),
            "[设置] "@ + (match message {
                Some(m) => m,
                None => "设置已更新"@,
            }),
        ),
{
    reveal(UiView::replied);
    let line = "[设置] "@ + crate::view::text_or(message, "设置已更新"@);
    click_laws::lemma_logged(s, line, now);
    crate::state_laws::lemma_settled_log(s.logging(line, now));
}

// ---------------------------------------------------------------- values that are not what they should be

/// A count that is no number counts as zero, and a text that should be there and is
/// none is missing.
pub proof fn members_of_the_wrong_kind(v: JsonView, t: Seq<char>, b: bool)
    ensures
        kind_is(v, "ready"@) && has(v, "count"@, JsonView::Text(t)) ==> inbound::reply_of(v) == (
        ReplyView::Ready { start_from: 0 }),
        kind_is(v, "error"@) && has(v, "message"@, JsonView::Bool(b)) ==> inbound::reply_of(v) == (
        ReplyView::Error { message: None }),
        kind_is(v, "success"@) && lacks(v, "message"@) ==> inbound::reply_of(v) == (
        ReplyView::Success { message: None }),
        kind_is(v, "book_status"@) && has(v, "hasCover"@, JsonView::Text(t)) ==> (inbound::reply_of(
            v,
        ) matches ReplyView::BookStatus { synced, has_cover } && !has_cover),
        kind_is(v, "storage_info"@) && lacks(v, "product"@) && lacks(v, "totalStorage"@) && lacks(
            v,
            "actualAvailable"@,
        ) && lacks(v, "availableStorage"@) ==> inbound::reply_of(v) == (ReplyView::StorageInfo {
            product: None,
            total: 0,
            avail: 0,
        }),
{
    crate::message_laws::answers_are_told_by_name(v);
}

/// Among the chapters that the wristband lists, whatever is no number is left out.
pub proof fn only_numbers_are_chapters(items: Seq<JsonView>, x: JsonView, n: usize)
    ensures
        inbound::numbers(Seq::<JsonView>::empty()).len() == 0,
        x == JsonView::Integer(n as int) ==> inbound::numbers(items.push(x)) == inbound::numbers(
            items,
        ).push(n),
        !(x is Integer) ==> inbound::numbers(items.push(x)) == inbound::numbers(items),
{
    assert(items.push(x).drop_last() =~= items);
}

} // verus!
