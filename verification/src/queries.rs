//! Connections, handshakes and questions to the wristband, and what its answers
//! change.
use crate::display;
use crate::element;
use crate::inbound::Reply;
use crate::inbound::ReplyView;
use crate::protocol;
use crate::session;
use crate::session::Job;
use crate::session::JobView;
use crate::session::QueryKind;
use crate::session::Session;
use crate::session::SessionView;
use crate::session::Upload;
use crate::session::UploadView;
use crate::settings;
use crate::state::AfterSend;
use crate::state::BandView;
use crate::state::Effect;
use crate::state::EffectView;
use crate::state::Purpose;
use crate::state::PurposeView;
use crate::state::Tone;
use crate::state::UiState;
use crate::state::UiView;
use crate::text;
use crate::view;
use vstd::prelude::*;
use vstd::string::StringExecFns;

verus! {

// ---------------------------------------------------------------- connections

/// The address of the device to talk to: the first that is connected.
pub fn get_device_addr(devices: &Vec<String>) -> (r: Result<String, &'static str>)
    ensures
        match r {
            Ok(addr) => devices@.len() > 0 && addr@ == devices@[0]@,
            Err(e) => devices@.len() == 0 && e@ == "未找到设备，请先在 AstroBox 连接手环"@,
        },
{
    if devices.len() == 0 {
        Err("未找到设备，请先在 AstroBox 连接手环")
    } else {
        Ok(devices[0].clone())
    }
}

/// The position of the receiving app in the list of packages; there is no list
/// where it could not be had.
pub fn get_app_info(packages: &Option<Vec<String>>) -> (r: Result<usize, String>)
    ensures
        match *packages {
            Some(names) => match r {
                Ok(i) => i < names@.len() && names@[i as int]@ == protocol::PACKAGE@ && forall|j: int|
                    0 <= j < i ==> (#[trigger] names@[j])@ != protocol::PACKAGE@,
                Err(e) => e@ == "未找到「"@ + protocol::APP_LABEL@ + "」，请先在设备上安装"@ && forall|j: int|
                    0 <= j < names@.len() ==> (#[trigger] names@[j])@ != protocol::PACKAGE@,
            },
            None => r matches Err(e) && e@ == "获取应用列表失败"@,
        },
{
    let names = match packages {
        Some(names) => names,
        None => {
            return Err("获取应用列表失败".to_owned());
        },
    };
    let mut i: usize = 0;
    while i < names.len()
        invariant
            i <= names@.len(),
            *packages == Some(*names),
            forall|j: int| 0 <= j < i ==> (#[trigger] names@[j])@ != protocol::PACKAGE@,
        decreases names@.len() - i,
    {
        if text::same_text(names[i].as_str(), protocol::PACKAGE) {
            return Ok(i);
        }
        i += 1;
    }
    let mut e = "未找到「".to_owned();
    e.append(protocol::APP_LABEL);
    e.append("」，请先在设备上安装");
    Err(e)
}

/// The connection after the app on the device was launched, or was not.
pub fn connect_device(addr: String, launched: bool) -> (r: Result<String, &'static str>)
    ensures
        match r {
            Ok(a) => launched && a@ == addr@,
            Err(e) => !launched && e@ == "启动应用失败，请确认手环端已安装并授权"@,
        },
{
    if launched {
        Ok(addr)
    } else {
        Err("启动应用失败，请确认手环端已安装并授权")
    }
}

/// Some device is connected, and it is the one at the address where there is one.
pub open spec fn still_connected(devices: Seq<Seq<char>>, addr: Seq<char>) -> bool {
    devices.len() > 0 && (addr.len() == 0 || devices.contains(addr))
}

/// Tells whether the device is still connected.
pub fn device_still_connected(devices: &Vec<String>, addr: &str) -> (r: bool)
    ensures
        r == still_connected(text::texts(devices@), addr@),
{
    if devices.len() == 0 {
        return false;
    }
    if addr.is_empty() {
        return true;
    }
    let ghost all = text::texts(devices@);
    let mut i: usize = 0;
    while i < devices.len()
        invariant
            i <= devices@.len(),
            all == text::texts(devices@),
            forall|j: int| 0 <= j < i ==> (#[trigger] all[j]) != addr@,
        decreases devices@.len() - i,
    {
        assert(all[i as int] == devices@[i as int]@);
        if text::same_text(devices[i].as_str(), addr) {
            return true;
        }
        i += 1;
    }
    false
}

/// A connection, or why there is none.
pub open spec fn outcome(r: Result<String, String>) -> Result<Seq<char>, Seq<char>> {
    match r {
        Ok(a) => Ok(a@),
        Err(e) => Err(e@),
    }
}

/// The session that asks.
pub open spec fn asking(addr: Seq<char>, kind: QueryKind) -> SessionView {
    SessionView {
        device_addr: addr,
        job: JobView::Query(kind),
        pending_start: true,
        handshake_complete: false,
    }
}

/// What the log says of a question.
pub open spec fn query_line(kind: QueryKind, with_book: bool) -> Seq<char> {
    match kind {
        QueryKind::Status => if with_book {
            "[设备] 查询存储"@ + "与书籍同步状态"@
        } else {
            "[设备] 查询存储"@
        },
        QueryKind::Settings => "[设备] 读取手环阅读设置"@,
    }
}

impl UiView {
    /// A question is put, unless something is going on already.
    #[verifier::opaque]
    pub open spec fn querying(self, kind: QueryKind) -> UiView {
        if self.busy() {
            self.saying("正在忙，请稍候"@, Tone::Neutral, true).drawn()
        } else {
            UiView { is_querying: true, query_expect: 0, ..self.silent() }.drawn().with(
                EffectView::Connect(
                    PurposeView::Query { kind, with_book: self.file_name is Some },
                ),
            )
        }
    }

    /// The connection for a question stands.
    #[verifier::opaque]
    pub open spec fn query_connected(
        self,
        kind: QueryKind,
        with_book: bool,
        addr: Seq<char>,
        now: u64,
    ) -> UiView {
        UiView {
            last_device_addr: Some(addr),
            session: Some(asking(addr, kind)),
            ..self
        }.handshake_in(1200).logging(query_line(kind, with_book), now).drawn()
    }

    /// The connection for a book stands.
    #[verifier::opaque]
    pub open spec fn send_connected(self, up: UploadView, addr: Seq<char>, now: u64) -> UiView {
        let s = UiView { last_device_addr: Some(addr), last_inbound_at: Some(now), ..self };
        match session::session_of(addr, up) {
            Ok(session) => {
                let s = match session.job {
                    JobView::Plus(t) => s.logging(session::session_line(t), now),
                    _ => s,
                };
                UiView { session: Some(session), ..s }.handshake_in(1500).logging(
                    "[连接] 等待手环端响应"@,
                    now,
                ).drawn()
            },
            Err(message) => s.failed(message, now),
        }
    }

    /// A lost link stands again.
    #[verifier::opaque]
    pub open spec fn reconnected(self, addr: Seq<char>, now: u64) -> UiView {
        UiView {
            handling_offline: false,
            offline_strikes: 0,
            last_device_addr: Some(addr),
            last_inbound_at: Some(now),
            phase_text: Some("重连成功，恢复传输"@),
            ..self
        }.logging("[掉线] 已重新连接，等待手环响应"@, now).handshake_in(1500).watched().drawn()
    }

    /// A connection stands, or could not be made.
    pub open spec fn connected(
        self,
        purpose: PurposeView,
        result: Result<Seq<char>, Seq<char>>,
        now: u64,
    ) -> UiView {
        match result {
            Ok(addr) => match purpose {
                PurposeView::Query { kind, with_book } => self.query_connected(
                    kind,
                    with_book,
                    addr,
                    now,
                ),
                PurposeView::Send(up) => self.send_connected(up, addr, now),
                PurposeView::Reconnect => self.reconnected(addr, now),
            },
            Err(message) => match purpose {
                PurposeView::Reconnect => self.retrying(message, now),
                _ => self.failed(message, now),
            },
        }
    }
}

impl UiState {
    /// Puts a question to the wristband.
    pub(crate) fn start_query(&mut self, kind: QueryKind)
        requires
            old(self).wf(),
        ensures
            final(self).wf(),
            final(self)@ == old(self)@.querying(kind),
    {
        reveal(UiView::querying);
        if self.busy_now() {
            self.set_status_message("正在忙，请稍候", Tone::Neutral, true);
            self.render_from_state();
            return;
        }
        let with_book = self.file_name.is_some();
        self.is_querying = true;
        self.status_message = None;
        self.status_tone = Tone::Neutral;
        self.query_expect = 0;
        self.render_from_state();
        self.ask(Effect::Connect(Purpose::Query { kind, with_book }));
    }

    fn query_ready(&mut self, kind: QueryKind, with_book: bool, addr: String, now: u64)
        requires
            old(self).wf(),
        ensures
            final(self).wf(),
            final(self)@ == old(self)@.query_connected(kind, with_book, addr@, now),
    {
        reveal(UiView::query_connected);
        self.last_device_addr = Some(addr.clone());
        self.session =
        Some(
            Session {
                device_addr: addr,
                job: Job::Query(kind),
                pending_start: true,
                handshake_complete: false,
            },
        );
        self.schedule_handshake(1200);
        match kind {
            QueryKind::Status => {
                let mut line = "[设备] 查询存储".to_owned();
                if with_book {
                    line.append("与书籍同步状态");
                }
                self.log_line(line.as_str(), now);
            },
            QueryKind::Settings => self.log_line("[设备] 读取手环阅读设置", now),
        }
        self.render_from_state();
    }

    fn send_ready(&mut self, up: Upload, addr: String, now: u64)
        requires
            old(self).wf(),
        ensures
            final(self).wf(),
            final(self)@ == old(self)@.send_connected(up@, addr@, now),
    {
        reveal(UiView::send_connected);
        self.last_device_addr = Some(addr.clone());
        self.last_inbound_at = Some(now);
        match session::build_session(addr, up) {
            Ok(session) => {
                if let Job::Plus(t) = &session.job {
                    let line = t.session_text();
                    self.log_line(line.as_str(), now);
                }
                self.session = Some(session);
                self.schedule_handshake(1500);
                self.log_line("[连接] 等待手环端响应", now);
                self.render_from_state();
            },
            Err(message) => self.fail_with(message, now),
        }
    }

    fn reconnect_ready(&mut self, addr: String, now: u64)
        requires
            old(self).wf(),
        ensures
            final(self).wf(),
            final(self)@ == old(self)@.reconnected(addr@, now),
    {
        reveal(UiView::reconnected);
        self.handling_offline = false;
        self.offline_strikes = 0;
        self.last_device_addr = Some(addr);
        self.last_inbound_at = Some(now);
        self.phase_text = Some("重连成功，恢复传输".to_owned());
        self.log_line("[掉线] 已重新连接，等待手环响应", now);
        self.schedule_handshake(1500);
        self.arm_watchdog();
        self.render_from_state();
    }

    /// Goes on after a connection was made, or could not be made.
    pub fn connection_ready(&mut self, purpose: Purpose, result: Result<String, String>, now: u64)
        requires
            old(self).wf(),
        ensures
            final(self).wf(),
            final(self)@ == old(self)@.connected(purpose@, outcome(result), now),
    {
        match result {
            Ok(addr) => match purpose {
                Purpose::Query { kind, with_book } => self.query_ready(kind, with_book, addr, now),
                Purpose::Send(up) => self.send_ready(up, addr, now),
                Purpose::Reconnect => self.reconnect_ready(addr, now),
            },
            Err(message) => match purpose {
                Purpose::Reconnect => self.retry_reconnect(message.as_str(), now),
                _ => self.fail_with(message.as_str(), now),
            },
        }
    }
}

// ---------------------------------------------------------------- handshakes

/// The highest version that the wristband gave.
pub open spec fn highest(known: Option<i64>, given: Option<i64>) -> Option<i64> {
    match given {
        Some(v) => match known {
            Some(old_version) => if old_version > v {
                Some(old_version)
            } else {
                Some(v)
            },
            None => Some(v),
        },
        None => known,
    }
}

/// The highest version never goes down, and is at least the one that was given.
pub proof fn versions_only_rise(known: Option<i64>, given: Option<i64>)
    ensures
        known matches Some(a) ==> highest(known, given) matches Some(b) && a <= b,
        given matches Some(a) ==> highest(known, given) matches Some(b) && a <= b,
{
}

impl UiView {
    /// A handshake goes out.
    pub open spec fn greeting(self, addr: Seq<char>, count: nat) -> UiView {
        self.with(
            EffectView::Send {
                addr,
                payload: protocol::wire(protocol::handshake_members(count, self.peer_version)),
            },
        )
    }

    /// The message that begins a transfer: where the book is to go on, or that it
    /// is complete where only that is missing.
    #[verifier::opaque]
    pub open spec fn transfer_started(self) -> UiView {
        match self.session {
            Some(s) => match s.job {
                JobView::Plus(t) => self.sending(
                    s.device_addr,
                    if t.pos >= t.send_order.len() {
                        protocol::action("transfer_complete"@)
                    } else {
                        protocol::start_transfer_members(
                            t.file_name,
                            t.chapters.len(),
                            t.total_words,
                            t.chapter().index,
                            !t.cover_done && t.cover_chunks.len() > 0,
                            Some(t.author),
                            Some(t.summary),
                        )
                    },
                    AfterSend::MarkActivity,
                ),
                JobView::Query(_) => self,
            },
            None => self,
        }
    }

    /// The messages that write the settings go out.
    pub open spec fn writing(self, addr: Seq<char>, writes: Seq<(Seq<char>, Seq<char>)>) -> UiView
        decreases writes.len(),
    {
        if writes.len() == 0 {
            self
        } else {
            self.writing(addr, writes.drop_last()).with(
                EffectView::Send {
                    addr,
                    payload: protocol::wire(
                        protocol::set_setting_members(writes.last().0, writes.last().1),
                    ),
                },
            )
        }
    }

    /// The questions about the storage and the present book go out.
    #[verifier::opaque]
    pub open spec fn asked_status(self, addr: Seq<char>) -> UiView {
        let s = self.with(
            EffectView::Send {
                addr,
                payload: protocol::wire(protocol::action("get_storage_info"@)),
            },
        );
        match s.file_name {
            Some(name) => UiView {
                query_expect: 2,
                ..s.with(
                    EffectView::Send {
                        addr,
                        payload: protocol::wire(protocol::book_status_members(name)),
                    },
                )
            },
            None => UiView { query_expect: 1, ..s },
        }
    }

    /// The settings that wait are written; where none waits, all are asked for.
    #[verifier::opaque]
    pub open spec fn asked_settings(self, addr: Seq<char>) -> UiView {
        if self.pending_writes.len() == 0 {
            UiView {
                query_expect: 1,
                ..self.with(
                    EffectView::Send {
                        addr,
                        payload: protocol::wire(
                            protocol::get_settings_members(
                                settings::keys_of(settings::band_table()),
                            ),
                        ),
                    },
                )
            }
        } else {
            UiView {
                query_expect: 1,
                pending_writes: Seq::empty(),
                ..self.writing(addr, self.pending_writes)
            }
        }
    }

    /// The messages of a question go out.
    #[verifier::opaque]
    pub open spec fn asked(self, kind: QueryKind, addr: Seq<char>) -> UiView {
        let s = match kind {
            QueryKind::Status => self.asked_status(addr),
            QueryKind::Settings => self.asked_settings(addr),
        };
        UiView { phase_text: Some("读取中"@), ..s.query_timed() }
    }

    /// The job of the session begins.
    #[verifier::opaque]
    pub open spec fn begun(self, now: u64) -> UiView {
        match self.session {
            Some(session) => match session.question() {
                Some(kind) => UiView { phase_text: Some("已连接"@), ..self }.logging(
                    "[连接] 已连接手环"@,
                    now,
                ).drawn().asked(kind, session.device_addr),
                None => UiView { phase_text: Some("已连接，开始传输"@), ..self }.saying(
                    "已连接，开始传输..."@,
                    Tone::Neutral,
                    false,
                ).drawn().transfer_started(),
            },
            None => self,
        }
    }

    /// The wristband sent a handshake: it is answered up to the second one, and the
    /// job begins once the first was answered.
    #[verifier::opaque]
    pub open spec fn shaken(self, count: usize, version: Option<i64>, now: u64) -> UiView {
        let s = UiView { peer_version: highest(self.peer_version, version), ..self };
        match self.session {
            Some(session) => {
                let s = UiView { session: Some(session.shaken(count as nat)), ..s };
                let s = if count > 0 {
                    s.without_handshake_timer()
                } else {
                    s
                };
                let s = if count < 2 {
                    s.greeting(session.device_addr, count as nat + 1)
                } else {
                    s
                };
                if session.starts(count as nat) {
                    s.begun(now)
                } else {
                    s
                }
            },
            None => s,
        }
    }
}

impl UiState {
    /// Sends a handshake.
    pub(crate) fn send_handshake_message(&mut self, addr: String, count: usize)
        requires
            old(self).wf(),
        ensures
            final(self).wf(),
            final(self)@ == old(self)@.greeting(addr@, count as nat),
    {
        let payload = protocol::handshake(count, self.peer_version);
        self.ask(Effect::Send { addr, payload });
    }

    fn session_start_transfer(&mut self)
        requires
            old(self).wf(),
        ensures
            final(self).wf(),
            final(self)@ == old(self)@.transfer_started(),
    {
        reveal(UiView::transfer_started);
        let (addr, payload): (String, String) = match &self.session {
            Some(session) => match &session.job {
                Job::Plus(t) => (
                    session.device_addr.clone(),
                    if t.pos >= t.send_order.len() {
                        protocol::plus_transfer_complete()
                    } else {
                        let chapter: usize = t.send_order[t.pos];
                        assert(t@.chapters[chapter as int] == t.chapters@[chapter as int]@);
                        protocol::plus_start_transfer(
                            t.file_name.as_str(),
                            t.chapters.len(),
                            t.total_words,
                            t.chapters[chapter].index,
                            !t.cover_done && t.cover_chunks.len() > 0,
                            Some(t.author.as_str()),
                            Some(t.summary.as_str()),
                        )
                    },
                ),
                Job::Query(_) => {
                    return;
                },
            },
            None => {
                return;
            },
        };
        self.ask(Effect::SendChecked { addr, payload, then: AfterSend::MarkActivity });
    }

    fn send_writes(&mut self, addr: &str)
        requires
            old(self).wf(),
        ensures
            final(self).wf(),
            final(self)@ == (UiView {
                pending_writes: Seq::empty(),
                ..old(self)@.writing(addr@, old(self)@.pending_writes)
            }),
    {
        let mut writes: Vec<(String, String)> = Vec::new();
        std::mem::swap(&mut writes, &mut self.pending_writes);
        let ghost start = old(self)@;
        let ghost all = start.pending_writes;
        assert(crate::state::pairs(writes@) =~= all);
        assert(self@.pending_writes =~= Seq::empty());
        assert(all.take(0) =~= Seq::empty());
        let mut i: usize = 0;
        while i < writes.len()
            invariant
                i <= writes@.len(),
                self.wf(),
                all == crate::state::pairs(writes@),
                self@ == (UiView {
                    pending_writes: Seq::empty(),
                    ..start.writing(addr@, all.take(i as int))
                }),
            decreases writes@.len() - i,
        {
            assert(all.take(i + 1).drop_last() =~= all.take(i as int));
            assert(all[i as int] == (writes@[i as int].0@, writes@[i as int].1@));
            let payload = protocol::plus_set_setting(
                writes[i].0.as_str(),
                writes[i].1.as_str(),
            );
            self.ask(Effect::Send { addr: addr.to_owned(), payload });
            i += 1;
        }
        assert(all.take(i as int) =~= all);
    }

    fn ask_for_settings(&mut self, addr: &str)
        requires
            old(self).wf(),
        ensures
            final(self).wf(),
            final(self)@ == old(self)@.with(
                EffectView::Send {
                    addr: addr@,
                    payload: protocol::wire(
                        protocol::get_settings_members(settings::keys_of(settings::band_table())),
                    ),
                },
            ),
    {
        let defs = settings::band_settings();
        let ghost table = settings::setting_views(defs@);
        let mut keys: Vec<&str> = Vec::new();
        let mut i: usize = 0;
        while i < defs.len()
            invariant
                i <= defs@.len(),
                keys@.len() == i,
                table == settings::setting_views(defs@),
                forall|j: int| 0 <= j < i ==> (#[trigger] keys@[j])@ == table[j].key,
            decreases defs@.len() - i,
        {
            assert(table[i as int] == defs@[i as int]@);
            keys.push(defs[i].key);
            i += 1;
        }
        assert(protocol::slices(keys@) =~= settings::keys_of(table));
        let payload = protocol::plus_get_settings(keys.as_slice());
        self.ask(Effect::Send { addr: addr.to_owned(), payload });
    }

    fn ask_for_status(&mut self, addr: &str)
        requires
            old(self).wf(),
        ensures
            final(self).wf(),
            final(self)@ == old(self)@.asked_status(addr@),
    {
        reveal(UiView::asked_status);
        self.ask(
            Effect::Send { addr: addr.to_owned(), payload: protocol::plus_get_storage_info() },
        );
        let question = match &self.file_name {
            Some(name) => Some(protocol::plus_get_book_status(name.as_str())),
            None => None,
        };
        match question {
            Some(payload) => {
                self.ask(Effect::Send { addr: addr.to_owned(), payload });
                self.query_expect = 2;
            },
            None => {
                self.query_expect = 1;
            },
        }
    }

    fn ask_or_write_settings(&mut self, addr: &str)
        requires
            old(self).wf(),
        ensures
            final(self).wf(),
            final(self)@ == old(self)@.asked_settings(addr@),
    {
        reveal(UiView::asked_settings);
        if self.pending_writes.len() == 0 {
            self.ask_for_settings(addr);
        } else {
            self.send_writes(addr);
        }
        self.query_expect = 1;
    }

    fn start_query_messages(&mut self, kind: QueryKind, addr: &str)
        requires
            old(self).wf(),
        ensures
            final(self).wf(),
            final(self)@ == old(self)@.asked(kind, addr@),
    {
        reveal(UiView::asked);
        match kind {
            QueryKind::Status => self.ask_for_status(addr),
            QueryKind::Settings => self.ask_or_write_settings(addr),
        }
        self.schedule_query_timeout();
        self.phase_text = Some("读取中".to_owned());
    }

    fn begin_job(&mut self, now: u64)
        requires
            old(self).wf(),
        ensures
            final(self).wf(),
            final(self)@ == old(self)@.begun(now),
    {
        reveal(UiView::begun);
        let (addr, question): (String, Option<QueryKind>) = match &self.session {
            Some(session) => (session.device_addr.clone(), session.query_kind()),
            None => {
                return;
            },
        };
        match question {
            Some(kind) => {
                self.phase_text = Some("已连接".to_owned());
                self.log_line("[连接] 已连接手环", now);
                self.render_from_state();
                self.start_query_messages(kind, addr.as_str());
            },
            None => {
                self.phase_text = Some("已连接，开始传输".to_owned());
                self.set_status_message("已连接，开始传输...", Tone::Neutral, false);
                self.render_from_state();
                self.session_start_transfer();
            },
        }
    }

    /// Takes note of a handshake of the wristband.
    pub fn handle_handshake_message(&mut self, count: usize, version: Option<i64>, now: u64)
        requires
            old(self).wf(),
        ensures
            final(self).wf(),
            final(self)@ == old(self)@.shaken(count, version, now),
    {
        reveal(UiView::shaken);
        if let Some(v) = version {
            self.peer_version =
            match self.peer_version {
                Some(known) => if known > v {
                    Some(known)
                } else {
                    Some(v)
                },
                None => Some(v),
            };
        }
        let (addr, should_start): (String, bool) = match &mut self.session {
            Some(session) => {
                let should_start = session.handshake_progress(count);
                (session.device_addr.clone(), should_start)
            },
            None => {
                return;
            },
        };
        if count > 0 {
            self.clear_handshake_timer();
        }
        if count < 2 {
            self.send_handshake_message(addr, count + 1);
        }
        if should_start {
            self.begin_job(now);
        }
    }
}

// ---------------------------------------------------------------- answers

impl UiView {
    /// One of the answers that a question waits for has come.
    #[verifier::opaque]
    pub open spec fn settled(self) -> UiView {
        if !self.is_querying || self.query_expect == 0 {
            self
        } else {
            let s = UiView { query_expect: (self.query_expect - 1) as u32, ..self };
            if s.query_expect > 0 {
                s
            } else {
                UiView {
                    phase_text: None,
                    ..s.without_query_timer().saying("手环信息已更新"@, Tone::Success, true)
                }.finished(false).drawn()
            }
        }
    }

    /// The wristband said which chapters it has.
    #[verifier::opaque]
    pub open spec fn status_given(self, synced: Seq<usize>, has_cover: bool, now: u64) -> UiView {
        UiView {
            band: BandView { status_known: true, synced_chapters: synced, has_cover, ..self.band },
            ..self
        }.logging(
            "[设备] 已同步 "@ + text::decimal(synced.len()) + " 章"@ + view::cover_remark(has_cover),
            now,
        ).settled()
    }

    /// The wristband said how much storage it has.
    #[verifier::opaque]
    pub open spec fn storage_given(
        self,
        product: Option<Seq<char>>,
        total: u64,
        avail: u64,
        now: u64,
    ) -> UiView {
        UiView {
            band: BandView {
                storage_known: true,
                product,
                storage_total: total,
                storage_avail: avail,
                ..self.band
            },
            ..self
        }.logging(
            "[设备] "@ + view::text_or(product, "手环"@) + " 可用 "@ + view::storage_size(avail)
                + " / "@ + view::storage_size(total),
            now,
        ).settled()
    }

    /// The wristband gave its settings.
    #[verifier::opaque]
    pub open spec fn settings_given(
        self,
        values: Map<Seq<char>, Seq<char>>,
        count: nat,
        now: u64,
    ) -> UiView {
        UiView {
            band: BandView {
                settings: self.band.settings.union_prefer_right(values),
                settings_loaded: true,
                ..self.band
            },
            ..self
        }.logging("[设置] 已读取 "@ + text::decimal(count) + " 项"@, now).settled()
    }

    /// The answers to questions; nothing for any other.
    pub open spec fn band_replied(self, reply: ReplyView, now: u64) -> Option<UiView> {
        match reply {
            ReplyView::BookStatus { synced, has_cover } => Some(
                self.status_given(synced, has_cover, now),
            ),
            ReplyView::StorageInfo { product, total, avail } => Some(
                self.storage_given(product, total, avail, now),
            ),
            ReplyView::SettingsData { values, count } => Some(
                self.settings_given(values, count, now),
            ),
            ReplyView::Success { message } => if self.is_sending || !self.is_querying {
                None
            } else {
                Some(
                    self.logging(
                        "[设置] "@ + view::text_or(message, "设置已更新"@),
                        now,
                    ).settled(),
                )
            },
            ReplyView::Error { message } => if self.is_querying {
                Some(
                    self.failed(
                        "手环返回："@ + view::text_or(message, "手环返回错误"@),
                        now,
                    ),
                )
            } else {
                None
            },
            _ => None,
        }
    }

    /// The answers during a transfer.
    pub open spec fn transfer_replied(self, reply: ReplyView, now: u64) -> UiView {
        match reply {
            ReplyView::Ready { start_from } => self.ready(start_from, now),
            ReplyView::NextChunk => self.next_chunk(now),
            ReplyView::ChapterChunkComplete => self.chapter_received(),
            ReplyView::ChapterSaved => self.chapter_saved(now),
            ReplyView::CoverAcked => self.cover_acked(now),
            ReplyView::TransferFinished => self.succeeded(now),
            ReplyView::Error { message } => self.refused(message, now),
            ReplyView::Cancel => self.cancelled_remotely(now),
            _ => self,
        }
    }

    /// What the wristband says changes the state: answers to questions first, the
    /// others only while a book is being sent.
    #[verifier::opaque]
    pub open spec fn replied(self, reply: ReplyView, now: u64) -> UiView {
        match self.band_replied(reply, now) {
            Some(s) => s,
            None => if self.job() is Some {
                self.transfer_replied(reply, now)
            } else {
                self
            },
        }
    }
}

impl UiState {
    fn settle_query_expect(&mut self)
        requires
            old(self).wf(),
        ensures
            final(self).wf(),
            final(self)@ == old(self)@.settled(),
    {
        reveal(UiView::settled);
        if !self.is_querying || self.query_expect == 0 {
            return;
        }
        self.query_expect = self.query_expect - 1;
        if self.query_expect > 0 {
            return;
        }
        self.clear_query_timer();
        self.set_status_message("手环信息已更新", Tone::Success, true);
        self.phase_text = None;
        self.finish_transfer(false);
        self.render_from_state();
    }

    fn on_book_status(&mut self, synced: Vec<usize>, has_cover: bool, now: u64)
        requires
            old(self).wf(),
        ensures
            final(self).wf(),
            final(self)@ == old(self)@.status_given(synced@, has_cover, now),
    {
        reveal(UiView::status_given);
        let mut line = "[设备] 已同步 ".to_owned();
        line.append(text::usize_text(synced.len()).as_str());
        line.append(" 章");
        line.append(view::cover_remark_text(has_cover));
        self.band.status_known = true;
        self.band.synced_chapters = synced;
        self.band.has_cover = has_cover;
        self.log_line(line.as_str(), now);
        self.settle_query_expect();
    }

    fn on_storage_info(&mut self, product: Option<String>, total: u64, avail: u64, now: u64)
        requires
            old(self).wf(),
        ensures
            final(self).wf(),
            final(self)@ == old(self)@.storage_given(element::maybe(product), total, avail, now),
    {
        reveal(UiView::storage_given);
        let mut line = "[设备] ".to_owned();
        match &product {
            Some(p) => line.append(p.as_str()),
            None => line.append("手环"),
        }
        line.append(" 可用 ");
        line.append(display::format_bytes(avail as usize).as_str());
        line.append(" / ");
        line.append(display::format_bytes(total as usize).as_str());
        self.band.storage_known = true;
        self.band.product = product;
        self.band.storage_total = total;
        self.band.storage_avail = avail;
        self.log_line(line.as_str(), now);
        self.settle_query_expect();
    }

    fn on_settings_data(&mut self, values: &settings::SettingMap, count: usize, now: u64)
        requires
            old(self).wf(),
            values.wf(),
        ensures
            final(self).wf(),
            final(self)@ == old(self)@.settings_given(values@, count as nat, now),
    {
        reveal(UiView::settings_given);
        self.band.settings.merge(values);
        self.band.settings_loaded = true;
        let mut line = "[设置] 已读取 ".to_owned();
        line.append(text::usize_text(count).as_str());
        line.append(" 项");
        self.log_line(line.as_str(), now);
        self.settle_query_expect();
    }

    /// Takes an answer to a question; hands it back where it is none.
    fn handle_band_message(&mut self, reply: Reply, now: u64) -> (r: Option<Reply>)
        requires
            old(self).wf(),
            reply.wf(),
        ensures
            final(self).wf(),
            match old(self)@.band_replied(reply@, now) {
                Some(s) => r is None && final(self)@ == s,
                None => r == Some(reply) && final(self)@ == old(self)@,
            },
    {
        match reply {
            Reply::BookStatus { synced, has_cover } => {
                self.on_book_status(synced, has_cover, now);
                None
            },
            Reply::StorageInfo { product, total, avail } => {
                self.on_storage_info(product, total, avail, now);
                None
            },
            Reply::SettingsData { values, count } => {
                self.on_settings_data(&values, count, now);
                None
            },
            Reply::Success { message } => {
                if self.is_sending || !self.is_querying {
                    return Some(Reply::Success { message });
                }
                let mut line = "[设置] ".to_owned();
                match &message {
                    Some(m) => line.append(m.as_str()),
                    None => line.append("设置已更新"),
                }
                self.log_line(line.as_str(), now);
                self.settle_query_expect();
                None
            },
            Reply::Error { message } => {
                if !self.is_querying {
                    return Some(Reply::Error { message });
                }
                let mut text = "手环返回：".to_owned();
                match &message {
                    Some(m) => text.append(m.as_str()),
                    None => text.append("手环返回错误"),
                }
                self.fail_with(text.as_str(), now);
                None
            },
            other => Some(other),
        }
    }

    /// Takes what the wristband says.
    pub fn handle_file_message(&mut self, reply: Reply, now: u64)
        requires
            old(self).wf(),
            reply.wf(),
            old(self)@.session matches Some(s) ==> s.room(),
        ensures
            final(self).wf(),
            final(self)@ == old(self)@.replied(reply@, now),
    {
        reveal(UiView::replied);
        let reply = match self.handle_band_message(reply, now) {
            Some(reply) => reply,
            None => {
                return;
            },
        };
        match &self.session {
            Some(session) => if !session.is_transfer() {
                return;
            },
            None => {
                return;
            },
        }
        self.handle_transfer_message(reply, now);
    }

    fn handle_transfer_message(&mut self, reply: Reply, now: u64)
        requires
            old(self).wf(),
            old(self)@.session matches Some(s) ==> s.room(),
        ensures
            final(self).wf(),
            final(self)@ == old(self)@.transfer_replied(reply@, now),
    {
        match reply {
            Reply::Ready { start_from } => self.plus_on_ready(start_from, now),
            Reply::NextChunk => self.plus_on_next_chunk(now),
            Reply::ChapterChunkComplete => self.plus_on_chapter_chunk_complete(),
            Reply::ChapterSaved => self.plus_on_chapter_saved(now),
            Reply::CoverAcked => self.plus_on_cover_acked(now),
            Reply::TransferFinished => self.on_success(now),
            Reply::Error { message } => self.on_error(message, now),
            Reply::Cancel => self.on_remote_cancel(now),
            _ => {},
        }
    }
}

} // verus!
