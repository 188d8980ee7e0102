//! Clicks, timers and messages: where the host comes in.
use crate::chapters;
use crate::display;
use crate::inbound;
use crate::json;
use crate::json::JsonView;
use crate::protocol;
use crate::queries;
use crate::session::QueryKind;
use crate::session::Upload;
use crate::session::UploadView;
use crate::settings;
use crate::settings::SettingDef;
use crate::settings::SettingView;
use crate::state::BandView;
use crate::state::Effect;
use crate::state::EffectView;
use crate::state::Field;
use crate::state::Gauge;
use crate::state::Panel;
use crate::state::Purpose;
use crate::state::PurposeView;
use crate::state::Tone;
use crate::state::UiState;
use crate::state::UiView;
use crate::state::COVER_MAX_BYTES;
use crate::state::OFFLINE_CONFIRM_STRIKES;
use crate::state::SECOND;
use crate::state::STALL_TIMEOUT_SECS;
use crate::state::TIMER_HANDSHAKE_TIMEOUT;
use crate::state::TIMER_HIDE_MESSAGE;
use crate::state::TIMER_QUERY_TIMEOUT;
use crate::state::TIMER_RECONNECT_ATTEMPT;
use crate::state::TIMER_REFRESH_AFTER_CANCEL;
use crate::state::TIMER_START_HANDSHAKE;
use crate::state::TIMER_TRANSFER_WATCHDOG;
use crate::text;
use crate::view;
use vstd::prelude::*;
use vstd::string::StringExecFns;

verus! {

/// The smallest number of words per chapter, and the step by which it changes.
pub const WORDS_STEP: usize = 500;

/// The largest number of words per chapter.
pub const WORDS_MAX: usize = 20000;

/// What the host reports of an element.
#[derive(Clone, Copy, PartialEq, Eq, Debug, Structural)]
pub enum EventType {
    Click,
    Other,
}

// ---------------------------------------------------------------- limits

impl UiView {
    /// The counters of a transfer can be raised once more.
    pub open spec fn room(self) -> bool {
        self.session matches Some(s) ==> s.room()
    }

    /// The setting with the key can be changed by a step within 64 bits.
    pub open spec fn can_step(self, key: Seq<char>, up: bool) -> bool {
        settings::band_def(key) matches Some(def) ==> settings::steppable(
            def,
            self.setting_text(key),
            up,
        )
    }

    /// The click is no step of a number that would leave 64 bits.
    pub open spec fn can_click(self, event: Seq<char>) -> bool {
        &&& text::starts_with(event, settings::SETTING_INC_PREFIX@) ==> self.can_step(
            event.skip(settings::SETTING_INC_PREFIX@.len() as int),
            true,
        )
        &&& text::starts_with(event, settings::SETTING_DEC_PREFIX@) ==> self.can_step(
            event.skip(settings::SETTING_DEC_PREFIX@.len() as int),
            false,
        )
    }
}

impl UiState {
    /// Tells whether the counters of a transfer can be raised once more.
    pub fn has_room(&self) -> (r: bool)
        ensures
            r == self@.room(),
    {
        match &self.session {
            Some(session) => session.has_room(),
            None => true,
        }
    }

    fn steps_fit(&self, key: &str, up: bool) -> (r: bool)
        requires
            self.wf(),
        ensures
            r == self@.can_step(key@, up),
    {
        match settings::band_setting(key) {
            Some(def) => {
                let current = self.read_setting_text(key);
                def.can_step(current.as_str(), up)
            },
            None => true,
        }
    }

    /// Tells whether a click is no step of a number that would leave 64 bits.
    pub fn can_click(&self, event: &str) -> (r: bool)
        requires
            self.wf(),
        ensures
            r == self@.can_click(event@),
    {
        if let Some(key) = text::strip_prefix(event, settings::SETTING_INC_PREFIX) {
            if !self.steps_fit(key.as_str(), true) {
                return false;
            }
        }
        if let Some(key) = text::strip_prefix(event, settings::SETTING_DEC_PREFIX) {
            if !self.steps_fit(key.as_str(), false) {
                return false;
            }
        }
        true
    }
}

// ---------------------------------------------------------------- picking files

/// `String::from_utf8`: the text that the bytes encode, and nothing where they are
/// no UTF-8.
#[verifier::external_body]
fn decode_text(bytes: Vec<u8>) -> (r: Option<String>)
    ensures
        match r {
            Some(t) => vstd::utf8::valid_utf8(bytes@) && t@ == vstd::utf8::decode_utf8(bytes@),
            None => !vstd::utf8::valid_utf8(bytes@),
        },
{
    String::from_utf8(bytes).ok()
}

impl UiView {
    /// A book was picked.
    #[verifier::opaque]
    pub open spec fn book_picked(self, name: Seq<char>, book: Seq<char>, now: u64) -> UiView {
        let size = text::text_bytes(book);
        UiView {
            file_size_bytes: size,
            file_text: Some(book),
            file_name: Some(name),
            progress: Gauge::nothing(),
            speed_text: None,
            phase_text: None,
            band: BandView {
                status_known: false,
                synced_chapters: Seq::empty(),
                ..self.band
            },
            ..self.silent()
        }.logging(
            "[文件] "@ + name + " ("@ + display::size_text(size) + ")"@,
            now,
        ).estimated().drawn().with(EffectView::ProbeDevices)
    }

    /// A file was picked, or none.
    pub open spec fn file_picked(self, name: Seq<char>, bytes: Seq<u8>, now: u64) -> UiView {
        if text::trim(name).len() == 0 && bytes.len() == 0 {
            self
        } else if vstd::utf8::valid_utf8(bytes) {
            self.book_picked(name, vstd::utf8::decode_utf8(bytes), now)
        } else {
            self.saying("文件不是 UTF-8 文本，请另存为 UTF-8 后重试"@, Tone::Error, true).logging(
                "[错误] 文件不是 UTF-8"@,
                now,
            ).drawn()
        }
    }

    /// The devices were reported: the wristband is asked where there is one.
    #[verifier::opaque]
    pub open spec fn probed(self, has_device: bool, now: u64) -> UiView {
        if has_device {
            self.querying(QueryKind::Status)
        } else {
            self.logging("[设备] 未连接，跳过自动刷新"@, now).drawn()
        }
    }

    /// A cover that is too long is not taken.
    #[verifier::opaque]
    pub open spec fn cover_refused(self) -> UiView {
        UiView { cover_name: None, cover_bytes: None, ..self }.saying(
            "封面超过 "@ + display::size_text(COVER_MAX_BYTES as nat) + "，已忽略"@,
            Tone::Error,
            true,
        ).drawn()
    }

    #[verifier::opaque]
    pub open spec fn cover_taken(self, name: Seq<char>, bytes: Seq<u8>, now: u64) -> UiView {
        UiView { cover_name: Some(name), cover_bytes: Some(bytes), ..self }.logging(
            "[封面] "@ + name + " ("@ + display::size_text(bytes.len()) + ")"@,
            now,
        ).silent().drawn()
    }

    /// A cover was picked, or none.
    pub open spec fn cover_picked(self, name: Seq<char>, bytes: Seq<u8>, now: u64) -> UiView {
        if bytes.len() == 0 {
            self
        } else if bytes.len() > COVER_MAX_BYTES {
            self.cover_refused()
        } else {
            self.cover_taken(name, bytes, now)
        }
    }
}

/// The size that the window shows for a book is the number of bytes of its file.
pub proof fn the_size_is_that_of_the_file(bytes: Seq<u8>)
    requires
        vstd::utf8::valid_utf8(bytes),
    ensures
        text::text_bytes(vstd::utf8::decode_utf8(bytes)) == bytes.len(),
{
    vstd::utf8::decode_utf8_encode_utf8(bytes);
    text::lemma_text_bytes_encode(vstd::utf8::decode_utf8(bytes));
}

impl UiState {
    fn handle_pick_file(&mut self)
        requires
            old(self).wf(),
        ensures
            final(self).wf(),
            final(self)@ == (if old(self)@.busy() {
                old(self)@
            } else {
                old(self)@.with(EffectView::PickFile)
            }),
    {
        if !self.busy_now() {
            self.ask(Effect::PickFile);
        }
    }

    fn take_book(&mut self, name: String, book: String, now: u64)
        requires
            old(self).wf(),
        ensures
            final(self).wf(),
            final(self)@ == old(self)@.book_picked(name@, book@, now),
    {
        reveal(UiView::book_picked);
        let size = text::byte_len(book.as_str());
        let mut line = "[文件] ".to_owned();
        line.append(name.as_str());
        line.append(" (");
        line.append(display::format_bytes(size).as_str());
        line.append(")");
        self.file_size_bytes = size;
        self.file_text = Some(book);
        self.file_name = Some(name);
        self.progress = Gauge::empty();
        self.speed_text = None;
        self.phase_text = None;
        self.status_message = None;
        self.status_tone = Tone::Neutral;
        self.band.status_known = false;
        self.band.synced_chapters = Vec::new();
        self.log_line(line.as_str(), now);
        self.recompute_estimate();
        self.render_from_state();
        self.ask(Effect::ProbeDevices);
    }

    /// Takes the file that was picked; an empty name without bytes stands for none.
    pub fn file_picked(&mut self, name: String, bytes: Vec<u8>, now: u64)
        requires
            old(self).wf(),
        ensures
            final(self).wf(),
            final(self)@ == old(self)@.file_picked(name@, bytes@, now),
    {
        if text::trimmed(name.as_str()).as_str().is_empty() && bytes.len() == 0 {
            return;
        }
        match decode_text(bytes) {
            Some(book) => self.take_book(name, book, now),
            None => {
                self.set_status_message(
                    "文件不是 UTF-8 文本，请另存为 UTF-8 后重试",
                    Tone::Error,
                    true,
                );
                self.log_line("[错误] 文件不是 UTF-8", now);
                self.render_from_state();
            },
        }
    }

    /// Asks the wristband, where a device is connected.
    pub fn device_probed(&mut self, devices: &Vec<String>, now: u64)
        requires
            old(self).wf(),
        ensures
            final(self).wf(),
            final(self)@ == old(self)@.probed(devices@.len() > 0, now),
    {
        reveal(UiView::probed);
        if devices.len() == 0 {
            self.log_line("[设备] 未连接，跳过自动刷新", now);
            self.render_from_state();
            return;
        }
        self.start_query(QueryKind::Status);
    }

    fn handle_pick_cover(&mut self)
        requires
            old(self).wf(),
        ensures
            final(self).wf(),
            final(self)@ == (if old(self)@.busy() {
                old(self)@
            } else {
                old(self)@.with(EffectView::PickCover)
            }),
    {
        if !self.busy_now() {
            self.ask(Effect::PickCover);
        }
    }

    fn refuse_cover(&mut self)
        requires
            old(self).wf(),
        ensures
            final(self).wf(),
            final(self)@ == old(self)@.cover_refused(),
    {
        reveal(UiView::cover_refused);
        self.cover_name = None;
        self.cover_bytes = None;
        let mut message = "封面超过 ".to_owned();
        message.append(display::format_bytes(COVER_MAX_BYTES).as_str());
        message.append("，已忽略");
        self.set_status_message(message.as_str(), Tone::Error, true);
        self.render_from_state();
    }

    fn take_cover(&mut self, name: String, bytes: Vec<u8>, now: u64)
        requires
            old(self).wf(),
        ensures
            final(self).wf(),
            final(self)@ == old(self)@.cover_taken(name@, bytes@, now),
    {
        reveal(UiView::cover_taken);
        let mut line = "[封面] ".to_owned();
        line.append(name.as_str());
        line.append(" (");
        line.append(display::format_bytes(bytes.len()).as_str());
        line.append(")");
        self.cover_name = Some(name);
        self.cover_bytes = Some(bytes);
        self.log_line(line.as_str(), now);
        self.status_message = None;
        self.status_tone = Tone::Neutral;
        self.render_from_state();
    }

    /// Takes the cover that was picked; no bytes stand for none.
    pub fn cover_picked(&mut self, name: String, bytes: Vec<u8>, now: u64)
        requires
            old(self).wf(),
        ensures
            final(self).wf(),
            final(self)@ == old(self)@.cover_picked(name@, bytes@, now),
    {
        if bytes.len() == 0 {
            return;
        }
        if bytes.len() > COVER_MAX_BYTES {
            self.refuse_cover();
        } else {
            self.take_cover(name, bytes, now);
        }
    }
}

// ---------------------------------------------------------------- options

impl UiView {
    #[verifier::opaque]
    pub open spec fn cover_cleared(self, now: u64) -> UiView {
        UiView { cover_name: None, cover_bytes: None, ..self }.logging(
            "[封面] 已清除"@,
            now,
        ).drawn()
    }

    /// The next way to split, unless something is going on.
    #[verifier::opaque]
    pub open spec fn split_cycled(self, now: u64) -> UiView {
        if self.busy() {
            self
        } else {
            let mode = self.split.mode.successor();
            UiView {
                split: chapters::SplitOptionsView { mode, ..self.split },
                ..self
            }.logging("[分章] "@ + mode.name(), now).estimated().drawn()
        }
    }

    /// More words per chapter, or fewer, within the limits.
    #[verifier::opaque]
    pub open spec fn words_stepped(self, up: bool) -> UiView {
        let next = if up {
            self.split.words_per_chapter + WORDS_STEP
        } else {
            self.split.words_per_chapter - WORDS_STEP
        };
        UiView {
            split: chapters::SplitOptionsView {
                words_per_chapter: settings::clamp(next, WORDS_STEP as int, WORDS_MAX as int) as nat,
                ..self.split
            },
            ..self
        }.estimated().drawn()
    }

    #[verifier::opaque]
    pub open spec fn disconnect_cycled(self, now: u64) -> UiView {
        let a = self.disconnect_action.other();
        UiView { disconnect_action: a, ..self }.logging(
            "[设置] 掉线处理："@ + a.name() + " · "@ + a.remark(),
            now,
        ).drawn()
    }

    #[verifier::opaque]
    pub open spec fn skip_toggled(self, now: u64) -> UiView {
        UiView { skip_synced: !self.skip_synced, ..self }.logging(
            "[选项] 跳过已同步章节："@ + if self.skip_synced {
                "关"@
            } else {
                "开"@
            },
            now,
        ).drawn()
    }

    /// Another part of the window is shown.
    pub open spec fn panel_shown(self, panel: Panel) -> UiView {
        UiView { panel, ..self }.drawn()
    }

    pub open spec fn log_cleared(self) -> UiView {
        UiView { log: Seq::empty(), ..self }.drawn()
    }

    /// A text was entered.
    #[verifier::opaque]
    pub open spec fn entered(self, field: Field, value: Seq<char>, now: u64) -> UiView {
        match field {
            Field::Author => UiView { author: value, ..self }.drawn(),
            Field::Summary => UiView { summary: value, ..self }.drawn(),
            Field::Keyword => UiView {
                split: chapters::SplitOptionsView { keyword: value, ..self.split },
                ..self
            }.estimated().logging("[分章] 关键字："@ + view::text_or_unset(value), now).drawn(),
        }
    }

    /// A prompt was answered: the text counts, trimmed, where it was confirmed.
    pub open spec fn prompted(
        self,
        field: Field,
        button: Seq<char>,
        input: Seq<char>,
        now: u64,
    ) -> UiView {
        if button == "ok"@ {
            self.entered(field, text::trim(input), now)
        } else {
            self
        }
    }

    /// A text is asked for.
    pub open spec fn prompting(self, field: Field) -> UiView {
        self.with(
            match field {
                Field::Author => EffectView::Prompt {
                    field,
                    title: "作者"@,
                    tip: "留空表示不写入手环书库"@,
                },
                Field::Summary => EffectView::Prompt {
                    field,
                    title: "简介"@,
                    tip: "留空表示不写入手环书库"@,
                },
                Field::Keyword => EffectView::Prompt {
                    field,
                    title: "行首关键字"@,
                    tip: "多个关键字用 | 分隔，例如：卷|###"@,
                },
            },
        )
    }
}

/// The text of a prompt that was answered: trimmed where it was confirmed, none
/// where it was not.
pub fn prompt_text(button: &str, input: &str) -> (r: Option<String>)
    ensures
        match r {
            Some(t) => button@ == "ok"@ && t@ == text::trim(input@),
            None => button@ != "ok"@,
        },
{
    if text::same_text(button, "ok") {
        Some(text::trimmed(input))
    } else {
        None
    }
}

impl UiState {
    fn handle_clear_cover(&mut self, now: u64)
        requires
            old(self).wf(),
        ensures
            final(self).wf(),
            final(self)@ == old(self)@.cover_cleared(now),
    {
        reveal(UiView::cover_cleared);
        self.cover_name = None;
        self.cover_bytes = None;
        self.log_line("[封面] 已清除", now);
        self.render_from_state();
    }

    fn handle_cycle_split(&mut self, now: u64)
        requires
            old(self).wf(),
        ensures
            final(self).wf(),
            final(self)@ == old(self)@.split_cycled(now),
    {
        reveal(UiView::split_cycled);
        if self.busy_now() {
            return;
        }
        self.split.mode = self.split.mode.next();
        let mut line = "[分章] ".to_owned();
        line.append(self.split.mode.label());
        self.log_line(line.as_str(), now);
        self.recompute_estimate();
        self.render_from_state();
    }

    fn handle_words_step(&mut self, up: bool)
        requires
            old(self).wf(),
        ensures
            final(self).wf(),
            final(self)@ == old(self)@.words_stepped(up),
    {
        reveal(UiView::words_stepped);
        let words: usize = self.split.words_per_chapter;
        self.split.words_per_chapter =
        if up {
            if words + WORDS_STEP > WORDS_MAX {
                WORDS_MAX
            } else {
                words + WORDS_STEP
            }
        } else {
            if words < WORDS_STEP + WORDS_STEP {
                WORDS_STEP
            } else {
                words - WORDS_STEP
            }
        };
        self.recompute_estimate();
        self.render_from_state();
    }

    fn handle_cycle_disconnect(&mut self, now: u64)
        requires
            old(self).wf(),
        ensures
            final(self).wf(),
            final(self)@ == old(self)@.disconnect_cycled(now),
    {
        reveal(UiView::disconnect_cycled);
        self.disconnect_action = self.disconnect_action.next();
        let mut line = "[设置] 掉线处理：".to_owned();
        line.append(self.disconnect_action.label());
        line.append(" · ");
        line.append(self.disconnect_action.hint());
        self.log_line(line.as_str(), now);
        self.render_from_state();
    }

    fn handle_toggle_skip(&mut self, now: u64)
        requires
            old(self).wf(),
        ensures
            final(self).wf(),
            final(self)@ == old(self)@.skip_toggled(now),
    {
        reveal(UiView::skip_toggled);
        self.skip_synced = !self.skip_synced;
        let mut line = "[选项] 跳过已同步章节：".to_owned();
        if self.skip_synced {
            line.append("开");
        } else {
            line.append("关");
        }
        self.log_line(line.as_str(), now);
        self.render_from_state();
    }

    fn switch_panel(&mut self, panel: Panel)
        requires
            old(self).wf(),
        ensures
            final(self).wf(),
            final(self)@ == old(self)@.panel_shown(panel),
    {
        self.panel = panel;
        self.render_from_state();
    }

    fn handle_clear_log(&mut self)
        requires
            old(self).wf(),
        ensures
            final(self).wf(),
            final(self)@ == old(self)@.log_cleared(),
    {
        self.log = Vec::new();
        assert(text::texts(self.log@) =~= Seq::<Seq<char>>::empty());
        self.render_from_state();
    }

    fn handle_edit(&mut self, field: Field)
        requires
            old(self).wf(),
        ensures
            final(self).wf(),
            final(self)@ == old(self)@.prompting(field),
    {
        let prompt = match field {
            Field::Author => Effect::Prompt {
                field,
                title: "作者",
                tip: "留空表示不写入手环书库",
            },
            Field::Summary => Effect::Prompt {
                field,
                title: "简介",
                tip: "留空表示不写入手环书库",
            },
            Field::Keyword => Effect::Prompt {
                field,
                title: "行首关键字",
                tip: "多个关键字用 | 分隔，例如：卷|###",
            },
        };
        self.ask(prompt);
    }

    fn enter(&mut self, field: Field, value: String, now: u64)
        requires
            old(self).wf(),
        ensures
            final(self).wf(),
            final(self)@ == old(self)@.entered(field, value@, now),
    {
        reveal(UiView::entered);
        match field {
            Field::Author => {
                self.author = value;
            },
            Field::Summary => {
                self.summary = value;
            },
            Field::Keyword => {
                let mut line = "[分章] 关键字：".to_owned();
                if value.as_str().is_empty() {
                    line.append("未设置");
                } else {
                    line.append(value.as_str());
                }
                self.split.keyword = value;
                self.recompute_estimate();
                self.log_line(line.as_str(), now);
            },
        }
        self.render_from_state();
    }

    /// Takes the answer to a prompt: the button that was clicked, and the text.
    pub fn prompt_answered(&mut self, field: Field, button: &str, input: &str, now: u64)
        requires
            old(self).wf(),
        ensures
            final(self).wf(),
            final(self)@ == old(self)@.prompted(field, button@, input@, now),
    {
        match prompt_text(button, input) {
            Some(value) => self.enter(field, value, now),
            None => {},
        }
    }
}

// ---------------------------------------------------------------- settings

impl UiView {
    /// The settings of the wristband can be written at once.
    pub open spec fn settings_open(self) -> bool {
        self.session matches Some(s) && s.handshake_complete && s.question() == Some(
            QueryKind::Settings,
        )
    }

    /// A setting is written: at once where a session for settings stands, and
    /// otherwise after the handshake of one, which is begun unless something is
    /// being asked already.
    #[verifier::opaque]
    pub open spec fn write_queued(self, key: Seq<char>, value: Seq<char>) -> UiView {
        if self.settings_open() {
            self.with(
                EffectView::Send {
                    addr: self.address(),
                    payload: protocol::wire(protocol::set_setting_members(key, value)),
                },
            )
        } else {
            let s = UiView { pending_writes: self.pending_writes.push((key, value)), ..self };
            if s.is_querying {
                s
            } else {
                s.querying(QueryKind::Settings)
            }
        }
    }

    /// A setting has a new value, which goes to the wristband.
    #[verifier::opaque]
    pub open spec fn setting_changed(self, def: SettingView, value: Seq<char>, now: u64) -> UiView {
        UiView {
            band: BandView { settings: self.band.settings.insert(def.key, value), ..self.band },
            ..self
        }.logging(
            "[设置] "@ + def.label + " → "@ + settings::shown_value(def.kind, value),
            now,
        ).write_queued(def.key, value).with(EffectView::Redraw)
    }

    /// A click on a setting.
    #[verifier::opaque]
    pub open spec fn setting_cycled(self, key: Seq<char>, now: u64) -> UiView {
        match settings::band_def(key) {
            Some(def) => match settings::cycled(def.kind, self.setting_text(key)) {
                Some(value) => self.setting_changed(def, value, now),
                None => self,
            },
            None => self,
        }
    }

    /// A step of a setting.
    #[verifier::opaque]
    pub open spec fn setting_stepped(self, key: Seq<char>, up: bool, now: u64) -> UiView {
        match settings::band_def(key) {
            Some(def) => match settings::stepped(def, self.setting_text(key), up) {
                Some(n) => self.setting_changed(def, text::integer(n), now),
                None => self,
            },
            None => self,
        }
    }
}

impl UiState {
    fn queue_setting_write(&mut self, key: &str, value: &str)
        requires
            old(self).wf(),
        ensures
            final(self).wf(),
            final(self)@ == old(self)@.write_queued(key@, value@),
    {
        reveal(UiView::write_queued);
        let ready = match &self.session {
            Some(session) => session.handshake_complete && match session.query_kind() {
                Some(QueryKind::Settings) => true,
                _ => false,
            },
            None => false,
        };
        if ready {
            let addr = self.last_device_addr();
            self.ask(Effect::Send { addr, payload: protocol::plus_set_setting(key, value) });
            return;
        }
        self.pending_writes.push((key.to_owned(), value.to_owned()));
        assert(self@.pending_writes =~= old(self)@.pending_writes.push((key@, value@)));
        if !self.is_querying {
            self.start_query(QueryKind::Settings);
        }
    }

    fn change_setting(&mut self, def: &SettingDef, value: &str, now: u64)
        requires
            old(self).wf(),
        ensures
            final(self).wf(),
            final(self)@ == old(self)@.setting_changed(def@, value@, now),
    {
        reveal(UiView::setting_changed);
        self.band.settings.insert(def.key, value);
        let mut line = "[设置] ".to_owned();
        line.append(def.label);
        line.append(" → ");
        line.append(def.def_value_text(value).as_str());
        self.log_line(line.as_str(), now);
        self.queue_setting_write(def.key, value);
        self.ask(Effect::Redraw);
    }

    fn handle_setting_cycle(&mut self, key: &str, now: u64)
        requires
            old(self).wf(),
        ensures
            final(self).wf(),
            final(self)@ == old(self)@.setting_cycled(key@, now),
    {
        reveal(UiView::setting_cycled);
        let def = match settings::band_setting(key) {
            Some(def) => def,
            None => {
                return;
            },
        };
        let current = self.read_setting_text(key);
        if let Some(value) = def.next_value(current.as_str()) {
            self.change_setting(&def, value.as_str(), now);
        }
    }

    fn handle_setting_step(&mut self, key: &str, up: bool, now: u64)
        requires
            old(self).wf(),
            old(self)@.can_step(key@, up),
        ensures
            final(self).wf(),
            final(self)@ == old(self)@.setting_stepped(key@, up, now),
    {
        reveal(UiView::setting_stepped);
        let def = match settings::band_setting(key) {
            Some(def) => def,
            None => {
                return;
            },
        };
        let current = self.read_setting_text(key);
        if let Some(n) = def.step_value(current.as_str(), up) {
            let value = text::integer_text(n);
            self.change_setting(&def, value.as_str(), now);
        }
    }
}

// ---------------------------------------------------------------- sending

impl UiView {
    /// The book that would be sent, with what goes along.
    pub open spec fn upload(self) -> UploadView {
        UploadView {
            file_name: self.file_name->0,
            text: self.file_text->0,
            size: self.file_size_bytes,
            split: self.split,
            author: self.author,
            summary: self.summary,
            cover: self.cover_bytes,
            skip_synced: self.skip_synced,
            synced: self.band.synced_chapters,
        }
    }

    /// A transfer begins with a connection.
    #[verifier::opaque]
    pub open spec fn launched(self, now: u64) -> UiView {
        UiView {
            reconnect_attempts: 0,
            handling_offline: false,
            offline_strikes: 0,
            last_inbound_at: Some(now),
            ..UiView {
                is_sending: true,
                progress: Gauge::nothing(),
                speed_text: None,
                phase_text: Some("准备连接手环"@),
                ..self
            }.saying("准备发送中..."@, Tone::Neutral, false)
        }.watched().drawn().with(EffectView::Connect(PurposeView::Send(self.upload())))
    }

    /// A click on the button that sends.
    pub open spec fn send_clicked(self, now: u64) -> UiView {
        if self.busy() {
            self
        } else if self.file_name is Some && self.file_text is Some {
            self.launched(now)
        } else {
            self.saying("请先选择文件"@, Tone::Error, true).drawn()
        }
    }

    /// What is going on is called off.
    #[verifier::opaque]
    pub open spec fn cancelled(self, now: u64) -> UiView {
        if !self.busy() {
            self
        } else {
            let s = match self.session {
                Some(session) => self.with(
                    EffectView::Send {
                        addr: session.device_addr,
                        payload: protocol::wire(protocol::action("cancel"@)),
                    },
                ),
                None => self,
            };
            s.saying("已取消"@, Tone::Neutral, true).logging("[操作] 已取消"@, now).finished(
                true,
            ).refresh_later().drawn()
        }
    }
}

impl UiState {
    fn prepare_upload(&self, name: &String, book: &String) -> (r: Upload)
        requires
            self@.file_name == Some(name@),
            self@.file_text == Some(book@),
        ensures
            r@ == self@.upload(),
    {
        let r = Upload {
            file_name: name.clone(),
            text: book.clone(),
            size: self.file_size_bytes,
            split: self.split.clone(),
            author: self.author.clone(),
            summary: self.summary.clone(),
            cover: match &self.cover_bytes {
                Some(bytes) => Some(copy_bytes(bytes)),
                None => None,
            },
            skip_synced: self.skip_synced,
            synced: copy_numbers(&self.band.synced_chapters),
        };
        r
    }

    fn launch(&mut self, up: Upload, now: u64)
        requires
            old(self).wf(),
            up@ == old(self)@.upload(),
        ensures
            final(self).wf(),
            final(self)@ == old(self)@.launched(now),
    {
        reveal(UiView::launched);
        self.is_sending = true;
        self.progress = Gauge::empty();
        self.speed_text = None;
        self.phase_text = Some("准备连接手环".to_owned());
        self.set_status_message("准备发送中...", Tone::Neutral, false);
        self.reconnect_attempts = 0;
        self.handling_offline = false;
        self.offline_strikes = 0;
        self.last_inbound_at = Some(now);
        self.arm_watchdog();
        self.render_from_state();
        self.ask(Effect::Connect(Purpose::Send(up)));
    }

    fn handle_send_file(&mut self, now: u64)
        requires
            old(self).wf(),
        ensures
            final(self).wf(),
            final(self)@ == old(self)@.send_clicked(now),
    {
        if self.busy_now() {
            return;
        }
        let up = match (&self.file_name, &self.file_text) {
            (Some(name), Some(book)) => Some(self.prepare_upload(name, book)),
            _ => None,
        };
        match up {
            Some(up) => self.launch(up, now),
            None => {
                self.set_status_message("请先选择文件", Tone::Error, true);
                self.render_from_state();
            },
        }
    }

    fn handle_cancel(&mut self, now: u64)
        requires
            old(self).wf(),
        ensures
            final(self).wf(),
            final(self)@ == old(self)@.cancelled(now),
    {
        reveal(UiView::cancelled);
        if !self.busy_now() {
            return;
        }
        let target = match &self.session {
            Some(session) => Some(session.device_addr.clone()),
            None => None,
        };
        if let Some(addr) = target {
            self.ask(Effect::Send { addr, payload: protocol::cancel() });
        }
        self.set_status_message("已取消", Tone::Neutral, true);
        self.log_line("[操作] 已取消", now);
        self.finish_transfer(true);
        self.schedule_cancel_refresh();
        self.render_from_state();
    }
}

fn copy_bytes(v: &Vec<u8>) -> (r: Vec<u8>)
    ensures
        r@ == v@,
{
    let r = v.clone();
    assert(r@ =~= v@);
    r
}

fn copy_numbers(v: &Vec<usize>) -> (r: Vec<usize>)
    ensures
        r@ == v@,
{
    let r = v.clone();
    assert(r@ =~= v@);
    r
}

// ---------------------------------------------------------------- the watch over a transfer

/// There was no sign of life for too long.
pub open spec fn stalled(last: Option<u64>, now: u64) -> bool {
    last matches Some(t) && now >= t && (now - t) / (SECOND as int) >= STALL_TIMEOUT_SECS
}

/// What is said of an answer that is overdue.
pub open spec fn stall_reason() -> Seq<char> {
    "手环 "@ + text::decimal(STALL_TIMEOUT_SECS as nat) + " 秒无响应"@
}

impl UiView {
    /// The watch looks at the link.
    pub open spec fn watching(self, now: u64) -> UiView {
        let s = UiView { watchdog_timer_id: None, ..self };
        if self.is_sending {
            s.with(
                EffectView::CheckLink {
                    addr: self.address(),
                    stalled: stalled(self.last_inbound_at, now),
                },
            )
        } else {
            s
        }
    }

    /// The watch goes on while something is being sent.
    pub open spec fn still_watched(self) -> UiView {
        if self.is_sending {
            self.watched()
        } else {
            self
        }
    }

    /// The link was looked at. It counts as lost where the device was missed more than
    /// once in a row, and where an answer is overdue, be the device there or not.
    #[verifier::opaque]
    pub open spec fn link_seen(self, connected: bool, stalled: bool, now: u64) -> UiView {
        let s = UiView {
            offline_strikes: if connected {
                0
            } else {
                self.offline_strikes + 1
            },
            ..self
        };
        if s.offline_strikes >= OFFLINE_CONFIRM_STRIKES {
            s.lost("设备连接已断开"@, now)
        } else if stalled {
            s.lost(stall_reason(), now)
        } else {
            s.still_watched()
        }
    }

    /// It is time to connect again.
    pub open spec fn reconnect_due(self) -> UiView {
        let s = UiView { reconnect_timer_id: None, ..self };
        if self.is_sending && self.handling_offline {
            s.with(EffectView::Connect(PurposeView::Reconnect))
        } else {
            s
        }
    }
}

impl UiState {
    fn handle_watchdog(&mut self, now: u64)
        requires
            old(self).wf(),
        ensures
            final(self).wf(),
            final(self)@ == old(self)@.watching(now),
    {
        self.watchdog_timer_id = None;
        if !self.is_sending {
            return;
        }
        let stalled = match self.last_inbound_at {
            Some(t) => now >= t && (now - t) / SECOND >= STALL_TIMEOUT_SECS,
            None => false,
        };
        let addr = self.last_device_addr();
        self.ask(Effect::CheckLink { addr, stalled });
    }

    fn keep_watch(&mut self)
        requires
            old(self).wf(),
        ensures
            final(self).wf(),
            final(self)@ == old(self)@.still_watched(),
    {
        if self.is_sending {
            self.arm_watchdog();
        }
    }

    /// Takes the devices that are connected, for the watch over a transfer.
    pub fn link_checked(&mut self, devices: &Vec<String>, addr: &str, stalled: bool, now: u64)
        requires
            old(self).wf(),
            old(self)@.offline_strikes < usize::MAX,
        ensures
            final(self).wf(),
            final(self)@ == old(self)@.link_seen(
                queries::still_connected(text::texts(devices@), addr@),
                stalled,
                now,
            ),
    {
        reveal(UiView::link_seen);
        self.offline_strikes =
        if queries::device_still_connected(devices, addr) {
            0
        } else {
            self.offline_strikes + 1
        };
        if self.offline_strikes >= OFFLINE_CONFIRM_STRIKES {
            self.handle_link_lost("设备连接已断开", now);
        } else if stalled {
            let mut reason = "手环 ".to_owned();
            reason.append(text::decimal_text(STALL_TIMEOUT_SECS).as_str());
            reason.append(" 秒无响应");
            self.handle_link_lost(reason.as_str(), now);
        } else {
            self.keep_watch();
        }
    }

    fn attempt_reconnect(&mut self)
        requires
            old(self).wf(),
        ensures
            final(self).wf(),
            final(self)@ == old(self)@.reconnect_due(),
    {
        self.reconnect_timer_id = None;
        if !self.is_sending || !self.handling_offline {
            return;
        }
        self.ask(Effect::Connect(Purpose::Reconnect));
    }
}

// ---------------------------------------------------------------- timers

impl UiView {
    /// The message goes away.
    pub open spec fn message_hidden(self) -> UiView {
        UiView { hide_message_timer_id: None, ..self.silent() }.drawn()
    }

    /// The first handshake goes out.
    #[verifier::opaque]
    pub open spec fn handshake_due(self) -> UiView {
        let s = UiView { handshake_timer_id: None, ..self };
        match self.session {
            Some(session) => s.handshake_timed().greeting(session.device_addr, 0),
            None => s,
        }
    }

    /// A question was not answered in time.
    #[verifier::opaque]
    pub open spec fn unanswered(self, line: Seq<char>, now: u64) -> UiView {
        self.saying("手环未响应，请重试"@, Tone::Error, true).logging(line, now).finished(
            true,
        ).drawn()
    }

    /// The handshake was not answered in time: during a transfer the link counts as
    /// lost, and a question fails.
    #[verifier::opaque]
    pub open spec fn handshake_overdue(self, now: u64) -> UiView {
        let s = UiView { handshake_timer_id: None, ..self };
        if s.is_sending {
            s.logging("[掉线] 握手超时"@, now).lost("连接超时"@, now)
        } else if s.is_querying {
            s.unanswered("[错误] 握手超时"@, now)
        } else {
            s
        }
    }

    pub open spec fn query_overdue(self, now: u64) -> UiView {
        let s = UiView { query_timer_id: None, ..self };
        if s.is_querying {
            s.unanswered("[错误] 查询超时"@, now)
        } else {
            s
        }
    }

    /// It is time to look at the wristband after a cancelled transfer.
    pub open spec fn refresh_due(self) -> UiView {
        let s = UiView { cancel_refresh_timer_id: None, ..self };
        if s.busy() {
            s
        } else {
            s.with(EffectView::ProbeDevices)
        }
    }

    /// A timer went off.
    pub open spec fn timed_out(self, tag: Seq<char>, now: u64) -> UiView {
        if tag == TIMER_HIDE_MESSAGE@ {
            self.message_hidden()
        } else if tag == TIMER_START_HANDSHAKE@ {
            self.handshake_due()
        } else if tag == TIMER_HANDSHAKE_TIMEOUT@ {
            self.handshake_overdue(now)
        } else if tag == TIMER_TRANSFER_WATCHDOG@ {
            self.watching(now)
        } else if tag == TIMER_RECONNECT_ATTEMPT@ {
            self.reconnect_due()
        } else if tag == TIMER_REFRESH_AFTER_CANCEL@ {
            self.refresh_due()
        } else if tag == TIMER_QUERY_TIMEOUT@ {
            self.query_overdue(now)
        } else {
            self
        }
    }
}

impl UiState {
    fn on_hide_message(&mut self)
        requires
            old(self).wf(),
        ensures
            final(self).wf(),
            final(self)@ == old(self)@.message_hidden(),
    {
        self.status_message = None;
        self.status_tone = Tone::Neutral;
        self.hide_message_timer_id = None;
        self.render_from_state();
    }

    fn on_start_handshake(&mut self)
        requires
            old(self).wf(),
        ensures
            final(self).wf(),
            final(self)@ == old(self)@.handshake_due(),
    {
        reveal(UiView::handshake_due);
        self.handshake_timer_id = None;
        let addr = match &self.session {
            Some(session) => session.device_addr.clone(),
            None => {
                return;
            },
        };
        self.schedule_handshake_timeout();
        self.send_handshake_message(addr, 0);
    }

    fn on_no_answer(&mut self, line: &str, now: u64)
        requires
            old(self).wf(),
        ensures
            final(self).wf(),
            final(self)@ == old(self)@.unanswered(line@, now),
    {
        reveal(UiView::unanswered);
        self.set_status_message("手环未响应，请重试", Tone::Error, true);
        self.log_line(line, now);
        self.finish_transfer(true);
        self.render_from_state();
    }

    fn on_handshake_timeout(&mut self, now: u64)
        requires
            old(self).wf(),
        ensures
            final(self).wf(),
            final(self)@ == old(self)@.handshake_overdue(now),
    {
        reveal(UiView::handshake_overdue);
        self.handshake_timer_id = None;
        if self.is_sending {
            self.log_line("[掉线] 握手超时", now);
            self.handle_link_lost("连接超时", now);
        } else if self.is_querying {
            self.on_no_answer("[错误] 握手超时", now);
        }
    }

    fn on_query_timeout(&mut self, now: u64)
        requires
            old(self).wf(),
        ensures
            final(self).wf(),
            final(self)@ == old(self)@.query_overdue(now),
    {
        self.query_timer_id = None;
        if self.is_querying {
            self.on_no_answer("[错误] 查询超时", now);
        }
    }

    fn on_refresh_after_cancel(&mut self)
        requires
            old(self).wf(),
        ensures
            final(self).wf(),
            final(self)@ == old(self)@.refresh_due(),
    {
        self.cancel_refresh_timer_id = None;
        if !self.busy_now() {
            self.ask(Effect::ProbeDevices);
        }
    }

    /// Takes a timer that went off, by its tag.
    pub fn on_timer(&mut self, tag: &str, now: u64)
        requires
            old(self).wf(),
        ensures
            final(self).wf(),
            final(self)@ == old(self)@.timed_out(tag@, now),
    {
        if text::same_text(tag, TIMER_HIDE_MESSAGE) {
            self.on_hide_message();
        } else if text::same_text(tag, TIMER_START_HANDSHAKE) {
            self.on_start_handshake();
        } else if text::same_text(tag, TIMER_HANDSHAKE_TIMEOUT) {
            self.on_handshake_timeout(now);
        } else if text::same_text(tag, TIMER_TRANSFER_WATCHDOG) {
            self.handle_watchdog(now);
        } else if text::same_text(tag, TIMER_RECONNECT_ATTEMPT) {
            self.attempt_reconnect();
        } else if text::same_text(tag, TIMER_REFRESH_AFTER_CANCEL) {
            self.on_refresh_after_cancel();
        } else if text::same_text(tag, TIMER_QUERY_TIMEOUT) {
            self.on_query_timeout(now);
        }
    }
}

// ---------------------------------------------------------------- clicks

impl UiView {
    /// A click on the row of a setting.
    pub open spec fn setting_clicked(self, event: Seq<char>, now: u64) -> UiView {
        if text::starts_with(event, settings::SETTING_CLICK_PREFIX@) {
            self.setting_cycled(event.skip(settings::SETTING_CLICK_PREFIX@.len() as int), now)
        } else if text::starts_with(event, settings::SETTING_INC_PREFIX@) {
            self.setting_stepped(event.skip(settings::SETTING_INC_PREFIX@.len() as int), true, now)
        } else if text::starts_with(event, settings::SETTING_DEC_PREFIX@) {
            self.setting_stepped(event.skip(settings::SETTING_DEC_PREFIX@.len() as int), false, now)
        } else {
            self
        }
    }

    /// A click on something other than a setting; nothing where it is one.
    pub open spec fn button_clicked(self, event: Seq<char>, now: u64) -> Option<UiView> {
        if event == view::EVENT_PICK_FILE@ {
            Some(
                if self.busy() {
                    self
                } else {
                    self.with(EffectView::PickFile)
                },
            )
        } else if event == view::EVENT_SEND_FILE@ {
            Some(self.send_clicked(now))
        } else if event == view::EVENT_CANCEL_SEND@ {
            Some(self.cancelled(now))
        } else if event == view::EVENT_PICK_COVER@ {
            Some(
                if self.busy() {
                    self
                } else {
                    self.with(EffectView::PickCover)
                },
            )
        } else if event == view::EVENT_CLEAR_COVER@ {
            Some(self.cover_cleared(now))
        } else if event == view::EVENT_CYCLE_SPLIT@ {
            Some(self.split_cycled(now))
        } else if event == view::EVENT_WORDS_UP@ {
            Some(self.words_stepped(true))
        } else if event == view::EVENT_WORDS_DOWN@ {
            Some(self.words_stepped(false))
        } else if event == view::EVENT_TOGGLE_SKIP@ {
            Some(self.skip_toggled(now))
        } else if event == view::EVENT_PANEL_SEND@ {
            Some(self.panel_shown(Panel::Send))
        } else if event == view::EVENT_PANEL_DEVICE@ {
            Some(self.panel_shown(Panel::Device))
        } else if event == view::EVENT_PANEL_LOG@ {
            Some(self.panel_shown(Panel::Log))
        } else if event == view::EVENT_REFRESH_DEVICE@ {
            Some(self.querying(QueryKind::Status))
        } else if event == view::EVENT_LOAD_SETTINGS@ {
            Some(self.querying(QueryKind::Settings))
        } else if event == view::EVENT_CLEAR_LOG@ {
            Some(self.log_cleared())
        } else if event == view::EVENT_EDIT_AUTHOR@ {
            Some(self.prompting(Field::Author))
        } else if event == view::EVENT_EDIT_SUMMARY@ {
            Some(self.prompting(Field::Summary))
        } else if event == view::EVENT_EDIT_KEYWORD@ {
            Some(self.prompting(Field::Keyword))
        } else if event == view::EVENT_CYCLE_DISCONNECT@ {
            Some(self.disconnect_cycled(now))
        } else {
            None
        }
    }

    /// A click.
    pub open spec fn clicked(self, event: Seq<char>, now: u64) -> UiView {
        match self.button_clicked(event, now) {
            Some(s) => s,
            None => self.setting_clicked(event, now),
        }
    }
}

impl UiState {
    fn handle_button(&mut self, event: &str, now: u64) -> (known: bool)
        requires
            old(self).wf(),
        ensures
            final(self).wf(),
            match old(self)@.button_clicked(event@, now) {
                Some(s) => known && final(self)@ == s,
                None => !known && final(self)@ == old(self)@,
            },
    {
        if text::same_text(event, view::EVENT_PICK_FILE) {
            self.handle_pick_file();
        } else if text::same_text(event, view::EVENT_SEND_FILE) {
            self.handle_send_file(now);
        } else if text::same_text(event, view::EVENT_CANCEL_SEND) {
            self.handle_cancel(now);
        } else if text::same_text(event, view::EVENT_PICK_COVER) {
            self.handle_pick_cover();
        } else if text::same_text(event, view::EVENT_CLEAR_COVER) {
            self.handle_clear_cover(now);
        } else if text::same_text(event, view::EVENT_CYCLE_SPLIT) {
            self.handle_cycle_split(now);
        } else if text::same_text(event, view::EVENT_WORDS_UP) {
            self.handle_words_step(true);
        } else if text::same_text(event, view::EVENT_WORDS_DOWN) {
            self.handle_words_step(false);
        } else if text::same_text(event, view::EVENT_TOGGLE_SKIP) {
            self.handle_toggle_skip(now);
        } else if text::same_text(event, view::EVENT_PANEL_SEND) {
            self.switch_panel(Panel::Send);
        } else if text::same_text(event, view::EVENT_PANEL_DEVICE) {
            self.switch_panel(Panel::Device);
        } else if text::same_text(event, view::EVENT_PANEL_LOG) {
            self.switch_panel(Panel::Log);
        } else if text::same_text(event, view::EVENT_REFRESH_DEVICE) {
            self.start_query(QueryKind::Status);
        } else if text::same_text(event, view::EVENT_LOAD_SETTINGS) {
            self.start_query(QueryKind::Settings);
        } else if text::same_text(event, view::EVENT_CLEAR_LOG) {
            self.handle_clear_log();
        } else if text::same_text(event, view::EVENT_EDIT_AUTHOR) {
            self.handle_edit(Field::Author);
        } else if text::same_text(event, view::EVENT_EDIT_SUMMARY) {
            self.handle_edit(Field::Summary);
        } else if text::same_text(event, view::EVENT_EDIT_KEYWORD) {
            self.handle_edit(Field::Keyword);
        } else if text::same_text(event, view::EVENT_CYCLE_DISCONNECT) {
            self.handle_cycle_disconnect(now);
        } else {
            return false;
        }
        true
    }

    fn handle_dynamic_click(&mut self, event: &str, now: u64)
        requires
            old(self).wf(),
            old(self)@.can_click(event@),
        ensures
            final(self).wf(),
            final(self)@ == old(self)@.setting_clicked(event@, now),
    {
        if let Some(key) = text::strip_prefix(event, settings::SETTING_CLICK_PREFIX) {
            self.handle_setting_cycle(key.as_str(), now);
        } else if let Some(key) = text::strip_prefix(event, settings::SETTING_INC_PREFIX) {
            self.handle_setting_step(key.as_str(), true, now);
        } else if let Some(key) = text::strip_prefix(event, settings::SETTING_DEC_PREFIX) {
            self.handle_setting_step(key.as_str(), false, now);
        }
    }
}

// ---------------------------------------------------------------- messages

impl UiView {
    /// A message came in: the link is alive.
    pub open spec fn received(self, v: JsonView, now: u64) -> UiView {
        let s = UiView { last_inbound_at: Some(now), ..self };
        let tag = inbound::tag_of(v);
        if tag == protocol::TAG_HANDSHAKE@ {
            s.shaken(inbound::count_of(v, "count"@), inbound::version_of(v), now)
        } else if tag == protocol::TAG_FILE@ {
            s.replied(inbound::reply_of(inbound::body_of(v)), now)
        } else {
            s
        }
    }
}

// ---------------------------------------------------------------- entry points

/// Takes an event of an element. Only clicks count; `event` is what the element
/// calls its click.
pub fn ui_event_processor(state: &mut UiState, evtype: EventType, event: &str, now: u64)
    requires
        old(state).wf(),
        old(state)@.can_click(event@),
    ensures
        final(state).wf(),
        final(state)@ == (match evtype {
            EventType::Click => old(state)@.clicked(event@, now),
            EventType::Other => old(state)@,
        }),
{
    match evtype {
        EventType::Click => if !state.handle_button(event, now) {
            state.handle_dynamic_click(event, now);
        },
        EventType::Other => {},
    }
}

/// Takes a timer that went off; the payload holds its tag.
pub fn handle_timer_event(state: &mut UiState, payload: &str, now: u64)
    requires
        old(state).wf(),
    ensures
        final(state).wf(),
        final(state)@ == old(state)@.timed_out(inbound::payload_text(payload@), now),
{
    let tag = inbound::extract_payload_text(payload);
    state.on_timer(tag.as_str(), now);
}

/// Takes a message of the wristband, and tells whether it could be read. What is no
/// JSON changes nothing.
pub fn handle_interconnect_message(state: &mut UiState, payload: &str, now: u64) -> (readable: bool)
    requires
        old(state).wf(),
        old(state)@.room(),
    ensures
        final(state).wf(),
        match json::json_parse(inbound::payload_text(payload@)) {
            Some(v) => readable && final(state)@ == old(state)@.received(v, now),
            None => !readable && final(state)@ == old(state)@,
        },
{
    let payload = inbound::extract_payload_text(payload);
    let message = match json::parse(payload.as_str()) {
        Some(v) => v,
        None => {
            return false;
        },
    };
    state.last_inbound_at = Some(now);
    let tag = inbound::message_tag(&message);
    if text::same_text(tag.as_str(), protocol::TAG_HANDSHAKE) {
        state.handle_handshake_message(
            inbound::handshake_count(&message),
            inbound::extract_version(&message),
            now,
        );
    } else if text::same_text(tag.as_str(), protocol::TAG_FILE) {
        state.handle_file_message(inbound::read_message(&message), now);
    }
    true
}

/// Draws the window into the element, from now on.
pub fn render_main_ui(state: &mut UiState, element_id: &str, now: u64)
    requires
        old(state).wf(),
    ensures
        final(state).wf(),
        final(state)@ == (UiView {
            root_element_id: Some(element_id@),
            started_at: match old(state)@.started_at {
                Some(t) => Some(t),
                None => Some(now),
            },
            ..old(state)@
        }).drawn(),
{
    state.root_element_id = Some(element_id.to_owned());
    if state.started_at.is_none() {
        state.started_at = Some(now);
    }
    state.render_from_state();
}

} // verus!
