//! What the window knows, and what it asks of its host.
//!
//! The handlers change a `UiState` and put what the host has to do into its
//! outbox, in order. The host empties the outbox after every call; where an entry
//! has a result, the host hands the result back before it goes on.
use crate::chapters;
use crate::chapters::SplitOptions;
use crate::chapters::SplitOptionsView;
use crate::element;
use crate::element::Element;
use crate::element::ElementView;
use crate::display;
use crate::session;
use crate::session::QueryKind;
use crate::session::Session;
use crate::session::SessionView;
use crate::session::Upload;
use crate::session::UploadView;
use crate::settings;
use crate::settings::SettingMap;
use crate::text;
use vstd::prelude::*;
use vstd::string::StringExecFns;

verus! {

/// The longest cover, in bytes; a longer one is not taken.
pub const COVER_MAX_BYTES: usize = 409600;

/// The time between two looks at the link during a transfer.
pub const WATCHDOG_INTERVAL_MS: u64 = 1000;

/// A transfer without an answer for so long is taken for lost.
pub const STALL_TIMEOUT_SECS: u64 = 3;

/// The device must be missed so often in a row before the link is taken for lost.
pub const OFFLINE_CONFIRM_STRIKES: usize = 2;

/// The time before an attempt to connect again.
pub const RECONNECT_DELAY_MS: u64 = 1500;

/// How often a lost link is connected again.
pub const MAX_RECONNECT: usize = 3;

/// The time between a cancelled transfer and a look at the wristband.
pub const CANCEL_REFRESH_DELAY_MS: u64 = 900;

/// The number of lines that the log keeps.
pub const MAX_LOG_LINES: usize = 120;

pub const TIMER_HIDE_MESSAGE: &'static str = "timer_hide_message";

pub const TIMER_START_HANDSHAKE: &'static str = "timer_start_handshake";

pub const TIMER_HANDSHAKE_TIMEOUT: &'static str = "timer_handshake_timeout";

pub const TIMER_QUERY_TIMEOUT: &'static str = "timer_query_timeout";

pub const TIMER_TRANSFER_WATCHDOG: &'static str = "timer_transfer_watchdog";

pub const TIMER_RECONNECT_ATTEMPT: &'static str = "timer_reconnect_attempt";

pub const TIMER_REFRESH_AFTER_CANCEL: &'static str = "timer_refresh_after_cancel";

/// Nanoseconds in a second: times are given in nanoseconds.
pub const SECOND: u64 = 1_000_000_000;

// ---------------------------------------------------------------- small types

/// The part of the window that is shown.
#[derive(Clone, Copy, PartialEq, Eq, Debug, Structural)]
pub enum Panel {
    Send,
    Device,
    Log,
}

/// The tone of a message.
#[derive(Clone, Copy, PartialEq, Eq, Debug, Structural)]
pub enum Tone {
    Neutral,
    Success,
    Error,
}

/// What happens when the link is lost during a transfer.
#[derive(Clone, Copy, PartialEq, Eq, Debug, Structural)]
pub enum DisconnectAction {
    /// Connect again, a few times, and go on where the transfer stopped.
    Retry,
    /// Call the transfer off.
    Cancel,
}

impl DisconnectAction {
    /// The name that the window shows.
    pub open spec fn name(self) -> Seq<char> {
        match self {
            DisconnectAction::Retry => "重新尝试(3次)"@,
            DisconnectAction::Cancel => "取消传输"@,
        }
    }

    /// What the window says of the choice.
    pub open spec fn remark(self) -> Seq<char> {
        match self {
            DisconnectAction::Retry => "掉线后自动重连，最多 3 次并续传"@,
            DisconnectAction::Cancel => "掉线后立即终止本次传输"@,
        }
    }

    /// The other choice.
    pub open spec fn other(self) -> DisconnectAction {
        match self {
            DisconnectAction::Retry => DisconnectAction::Cancel,
            DisconnectAction::Cancel => DisconnectAction::Retry,
        }
    }

    /// The name that the window shows.
    pub fn label(self) -> (r: &'static str)
        ensures
            r@ == self.name(),
    {
        match self {
            DisconnectAction::Retry => "重新尝试(3次)",
            DisconnectAction::Cancel => "取消传输",
        }
    }

    /// What the window says of the choice.
    pub fn hint(self) -> (r: &'static str)
        ensures
            r@ == self.remark(),
    {
        match self {
            DisconnectAction::Retry => "掉线后自动重连，最多 3 次并续传",
            DisconnectAction::Cancel => "掉线后立即终止本次传输",
        }
    }

    /// The other choice.
    pub fn next(self) -> (r: DisconnectAction)
        ensures
            r == self.other(),
    {
        match self {
            DisconnectAction::Retry => DisconnectAction::Cancel,
            DisconnectAction::Cancel => DisconnectAction::Retry,
        }
    }
}

/// Two steps lead back to the same choice, and one does not.
pub proof fn disconnect_choices_alternate(a: DisconnectAction)
    ensures
        a.other() != a,
        a.other().other() == a,
{
}

/// How far a transfer is, as the window shows it: a whole percentage, and the
/// length of the filled part of the bar.
#[derive(Clone, Copy, PartialEq, Eq, Debug, Structural)]
pub struct Gauge {
    pub percent: u32,
    pub bar: u32,
}

/// The length of the bar.
pub const BAR_WIDTH: u32 = 240;

impl Gauge {
    /// Nothing is done.
    pub open spec fn nothing() -> Gauge {
        Gauge { percent: 0, bar: 0 }
    }

    /// All is done.
    pub open spec fn all() -> Gauge {
        Gauge { percent: 100, bar: BAR_WIDTH }
    }

    /// No more than all is done.
    pub open spec fn wf(self) -> bool {
        self.percent <= 100 && self.bar <= BAR_WIDTH
    }

    /// The gauge, with more than all taken for all.
    pub open spec fn clamped(self) -> Gauge {
        Gauge {
            percent: if self.percent > 100 {
                100
            } else {
                self.percent
            },
            bar: if self.bar > BAR_WIDTH {
                BAR_WIDTH
            } else {
                self.bar
            },
        }
    }

    /// The gauge, with more than all taken for all.
    pub fn clamp(self) -> (r: Gauge)
        ensures
            r == self.clamped(),
            r.wf(),
    {
        Gauge {
            percent: if self.percent > 100 {
                100
            } else {
                self.percent
            },
            bar: if self.bar > BAR_WIDTH {
                BAR_WIDTH
            } else {
                self.bar
            },
        }
    }

    /// Nothing is done.
    pub fn empty() -> (r: Gauge)
        ensures
            r == Gauge::nothing(),
    {
        Gauge { percent: 0, bar: 0 }
    }

    /// All is done.
    pub fn full() -> (r: Gauge)
        ensures
            r == Gauge::all(),
    {
        Gauge { percent: 100, bar: BAR_WIDTH }
    }
}

/// The text that a prompt asks for.
#[derive(Clone, Copy, PartialEq, Eq, Debug, Structural)]
pub enum Field {
    Author,
    Summary,
    Keyword,
}

/// What follows a message that went out.
#[derive(Clone, Copy, PartialEq, Eq, Debug, Structural)]
pub enum AfterSend {
    Nothing,
    Render,
    MarkActivity,
}

// ---------------------------------------------------------------- the wristband

/// What is known of the wristband.
pub struct BandInfo {
    pub product: Option<String>,
    pub storage_known: bool,
    pub storage_total: u64,
    pub storage_avail: u64,
    pub status_known: bool,
    pub synced_chapters: Vec<usize>,
    pub has_cover: bool,
    pub settings: SettingMap,
    pub settings_loaded: bool,
}

/// What is known of the wristband, as mathematics.
#[verifier::ext_equal]
pub struct BandView {
    pub product: Option<Seq<char>>,
    pub storage_known: bool,
    pub storage_total: u64,
    pub storage_avail: u64,
    pub status_known: bool,
    pub synced_chapters: Seq<usize>,
    pub has_cover: bool,
    pub settings: Map<Seq<char>, Seq<char>>,
    pub settings_loaded: bool,
}

impl View for BandInfo {
    type V = BandView;

    open spec fn view(&self) -> BandView {
        BandView {
            product: element::maybe(self.product),
            storage_known: self.storage_known,
            storage_total: self.storage_total,
            storage_avail: self.storage_avail,
            status_known: self.status_known,
            synced_chapters: self.synced_chapters@,
            has_cover: self.has_cover,
            settings: self.settings@,
            settings_loaded: self.settings_loaded,
        }
    }
}

// ---------------------------------------------------------------- requests to the host

/// A chunk that is ready to go, and what its speed and progress are measured by.
pub struct OutChunk {
    pub addr: String,
    pub message: String,
    pub phase: String,
    /// The bytes of the chunk.
    pub bytes: usize,
    /// When the chunk before it was made ready.
    pub since: Option<u64>,
    /// When it was made ready.
    pub now: u64,
    /// The chapters before it, out of `chapters`.
    pub pos: usize,
    pub chapters: usize,
    /// The chunks of its chapter before it, out of `chunks`.
    pub chunk: usize,
    pub chunks: usize,
}

/// A chunk that is ready to go, as mathematics.
#[verifier::ext_equal]
pub struct OutChunkView {
    pub addr: Seq<char>,
    pub message: Seq<char>,
    pub phase: Seq<char>,
    pub bytes: nat,
    pub since: Option<u64>,
    pub now: u64,
    pub pos: nat,
    pub chapters: nat,
    pub chunk: nat,
    pub chunks: nat,
}

impl View for OutChunk {
    type V = OutChunkView;

    open spec fn view(&self) -> OutChunkView {
        OutChunkView {
            addr: self.addr@,
            message: self.message@,
            phase: self.phase@,
            bytes: self.bytes as nat,
            since: self.since,
            now: self.now,
            pos: self.pos as nat,
            chapters: self.chapters as nat,
            chunk: self.chunk as nat,
            chunks: self.chunks as nat,
        }
    }
}

/// Why a connection is made.
pub enum Purpose {
    /// To ask something; about the present book too where there is one.
    Query { kind: QueryKind, with_book: bool },
    /// To send a book.
    Send(Upload),
    /// To go on with a transfer.
    Reconnect,
}

/// Why a connection is made, as mathematics.
#[verifier::ext_equal]
pub enum PurposeView {
    Query { kind: QueryKind, with_book: bool },
    Send(UploadView),
    Reconnect,
}

impl View for Purpose {
    type V = PurposeView;

    open spec fn view(&self) -> PurposeView {
        match *self {
            Purpose::Query { kind, with_book } => PurposeView::Query { kind, with_book },
            Purpose::Send(up) => PurposeView::Send(up@),
            Purpose::Reconnect => PurposeView::Reconnect,
        }
    }
}

/// Something that the host has to do.
pub enum Effect {
    /// Show the window.
    Render { root: String, ui: Element },
    /// Call back with the tag after the delay.
    SetTimer { token: u64, delay_ms: u64, tag: &'static str },
    /// Do not call back.
    ClearTimer(u64),
    /// Send a message; whether it went out does not matter.
    Send { addr: String, payload: String },
    /// Send a message, and report whether it went out.
    SendChecked { addr: String, payload: String, then: AfterSend },
    /// Connect to the app on the wristband, and report the address or the failure.
    Connect(Purpose),
    /// Let a text file be picked, and report it.
    PickFile,
    /// Let a picture be picked, and report it.
    PickCover,
    /// Ask for a text, and report it.
    Prompt { field: Field, title: &'static str, tip: &'static str },
    /// Report the devices that are connected, for a look at the wristband.
    ProbeDevices,
    /// Report the devices that are connected, for the watch over a transfer.
    CheckLink { addr: String, stalled: bool },
    /// Measure the chunk, and report its speed and progress.
    Measure(OutChunk),
    /// Ask for the window again.
    Redraw,
}

/// Something that the host has to do, as mathematics.
#[verifier::ext_equal]
pub enum EffectView {
    Render { root: Seq<char>, ui: ElementView },
    SetTimer { token: u64, delay_ms: u64, tag: Seq<char> },
    ClearTimer(u64),
    Send { addr: Seq<char>, payload: Seq<char> },
    SendChecked { addr: Seq<char>, payload: Seq<char>, then: AfterSend },
    Connect(PurposeView),
    PickFile,
    PickCover,
    Prompt { field: Field, title: Seq<char>, tip: Seq<char> },
    ProbeDevices,
    CheckLink { addr: Seq<char>, stalled: bool },
    Measure(OutChunkView),
    Redraw,
}

impl View for Effect {
    type V = EffectView;

    open spec fn view(&self) -> EffectView {
        match *self {
            Effect::Render { root, ui } => EffectView::Render { root: root@, ui: ui@ },
            Effect::SetTimer { token, delay_ms, tag } => EffectView::SetTimer {
                token,
                delay_ms,
                tag: tag@,
            },
            Effect::ClearTimer(token) => EffectView::ClearTimer(token),
            Effect::Send { addr, payload } => EffectView::Send { addr: addr@, payload: payload@ },
            Effect::SendChecked { addr, payload, then } => EffectView::SendChecked {
                addr: addr@,
                payload: payload@,
                then,
            },
            Effect::Connect(p) => EffectView::Connect(p@),
            Effect::PickFile => EffectView::PickFile,
            Effect::PickCover => EffectView::PickCover,
            Effect::Prompt { field, title, tip } => EffectView::Prompt {
                field,
                title: title@,
                tip: tip@,
            },
            Effect::ProbeDevices => EffectView::ProbeDevices,
            Effect::CheckLink { addr, stalled } => EffectView::CheckLink { addr: addr@, stalled },
            Effect::Measure(out) => EffectView::Measure(out@),
            Effect::Redraw => EffectView::Redraw,
        }
    }
}

/// The entries of an outbox, as mathematics.
pub open spec fn effects(v: Seq<Effect>) -> Seq<EffectView> {
    Seq::new(v.len(), |i: int| v[i]@)
}

// ---------------------------------------------------------------- the state

/// The state of the window.
pub struct UiState {
    pub root_element_id: Option<String>,
    pub panel: Panel,
    pub file_name: Option<String>,
    pub file_size_bytes: usize,
    pub file_text: Option<String>,
    pub split: SplitOptions,
    pub author: String,
    pub summary: String,
    pub cover_name: Option<String>,
    pub cover_bytes: Option<Vec<u8>>,
    pub skip_synced: bool,
    /// The chapters and the words of the book under the present split.
    pub chapter_estimate: Option<(usize, usize)>,
    pub progress: Gauge,
    pub speed_text: Option<String>,
    pub phase_text: Option<String>,
    pub status_message: Option<String>,
    pub status_tone: Tone,
    pub is_sending: bool,
    pub is_querying: bool,
    pub session: Option<Session>,
    /// Settings that wait for a handshake, as keys and values.
    pub pending_writes: Vec<(String, String)>,
    /// The answers that a query still waits for.
    pub query_expect: u32,
    pub log: Vec<String>,
    pub band: BandInfo,
    pub disconnect_action: DisconnectAction,
    /// The attempts to connect again since a chapter was last saved.
    pub reconnect_attempts: usize,
    /// A lost link is being dealt with.
    pub handling_offline: bool,
    /// When the wristband last gave a sign of life.
    pub last_inbound_at: Option<u64>,
    /// How often in a row the device was missed.
    pub offline_strikes: usize,
    pub hide_message_timer_id: Option<u64>,
    pub handshake_timer_id: Option<u64>,
    pub query_timer_id: Option<u64>,
    pub watchdog_timer_id: Option<u64>,
    pub reconnect_timer_id: Option<u64>,
    pub cancel_refresh_timer_id: Option<u64>,
    /// The version that the wristband gave in its handshake.
    pub peer_version: Option<i64>,
    pub last_device_addr: Option<String>,
    pub started_at: Option<u64>,
    /// The token of the next timer.
    pub next_timer: u64,
    /// What the host has to do.
    pub outbox: Vec<Effect>,
}

/// The state of the window, as mathematics.
#[verifier::ext_equal]
pub struct UiView {
    pub root_element_id: Option<Seq<char>>,
    pub panel: Panel,
    pub file_name: Option<Seq<char>>,
    pub file_size_bytes: nat,
    pub file_text: Option<Seq<char>>,
    pub split: SplitOptionsView,
    pub author: Seq<char>,
    pub summary: Seq<char>,
    pub cover_name: Option<Seq<char>>,
    pub cover_bytes: Option<Seq<u8>>,
    pub skip_synced: bool,
    pub chapter_estimate: Option<(usize, usize)>,
    pub progress: Gauge,
    pub speed_text: Option<Seq<char>>,
    pub phase_text: Option<Seq<char>>,
    pub status_message: Option<Seq<char>>,
    pub status_tone: Tone,
    pub is_sending: bool,
    pub is_querying: bool,
    pub session: Option<SessionView>,
    pub pending_writes: Seq<(Seq<char>, Seq<char>)>,
    pub query_expect: u32,
    pub log: Seq<Seq<char>>,
    pub band: BandView,
    pub disconnect_action: DisconnectAction,
    pub reconnect_attempts: nat,
    pub handling_offline: bool,
    pub last_inbound_at: Option<u64>,
    pub offline_strikes: nat,
    pub hide_message_timer_id: Option<u64>,
    pub handshake_timer_id: Option<u64>,
    pub query_timer_id: Option<u64>,
    pub watchdog_timer_id: Option<u64>,
    pub reconnect_timer_id: Option<u64>,
    pub cancel_refresh_timer_id: Option<u64>,
    pub peer_version: Option<i64>,
    pub last_device_addr: Option<Seq<char>>,
    pub started_at: Option<u64>,
    pub next_timer: u64,
    pub outbox: Seq<EffectView>,
}

/// An optional session, as mathematics.
pub open spec fn maybe_session(s: Option<Session>) -> Option<SessionView> {
    match s {
        Some(x) => Some(x@),
        None => None,
    }
}

/// Keys and values, as mathematics.
pub open spec fn pairs(v: Seq<(String, String)>) -> Seq<(Seq<char>, Seq<char>)> {
    Seq::new(v.len(), |i: int| (v[i].0@, v[i].1@))
}

impl View for UiState {
    type V = UiView;

    open spec fn view(&self) -> UiView {
        UiView {
            root_element_id: element::maybe(self.root_element_id),
            panel: self.panel,
            file_name: element::maybe(self.file_name),
            file_size_bytes: self.file_size_bytes as nat,
            file_text: element::maybe(self.file_text),
            split: self.split@,
            author: self.author@,
            summary: self.summary@,
            cover_name: element::maybe(self.cover_name),
            cover_bytes: session::maybe_bytes(self.cover_bytes),
            skip_synced: self.skip_synced,
            chapter_estimate: self.chapter_estimate,
            progress: self.progress,
            speed_text: element::maybe(self.speed_text),
            phase_text: element::maybe(self.phase_text),
            status_message: element::maybe(self.status_message),
            status_tone: self.status_tone,
            is_sending: self.is_sending,
            is_querying: self.is_querying,
            session: maybe_session(self.session),
            pending_writes: pairs(self.pending_writes@),
            query_expect: self.query_expect,
            log: text::texts(self.log@),
            band: self.band@,
            disconnect_action: self.disconnect_action,
            reconnect_attempts: self.reconnect_attempts as nat,
            handling_offline: self.handling_offline,
            last_inbound_at: self.last_inbound_at,
            offline_strikes: self.offline_strikes as nat,
            hide_message_timer_id: self.hide_message_timer_id,
            handshake_timer_id: self.handshake_timer_id,
            query_timer_id: self.query_timer_id,
            watchdog_timer_id: self.watchdog_timer_id,
            reconnect_timer_id: self.reconnect_timer_id,
            cancel_refresh_timer_id: self.cancel_refresh_timer_id,
            peer_version: self.peer_version,
            last_device_addr: element::maybe(self.last_device_addr),
            started_at: self.started_at,
            next_timer: self.next_timer,
            outbox: effects(self.outbox@),
        }
    }
}

impl UiState {
    /// The state is valid.
    pub open spec fn wf(&self) -> bool {
        &&& self@.wf()
        &&& self.band.settings.wf()
    }
}

impl UiView {
    /// The session and the progress are valid; the log, the attempts to connect and
    /// the words per chapter are within their limits.
    pub open spec fn wf(self) -> bool {
        &&& self.session matches Some(s) ==> s.wf()
        &&& self.progress.wf()
        &&& self.log.len() <= MAX_LOG_LINES
        &&& self.reconnect_attempts <= MAX_RECONNECT
        &&& 500 <= self.split.words_per_chapter <= 20000
    }

    /// Something is going on with the wristband.
    pub open spec fn busy(self) -> bool {
        self.is_sending || self.is_querying
    }

    /// The address of the wristband, empty where it is not known.
    pub open spec fn address(self) -> Seq<char> {
        match self.last_device_addr {
            Some(a) => a,
            None => Seq::empty(),
        }
    }

    /// The state with one more thing for the host to do.
    pub open spec fn with(self, e: EffectView) -> UiView {
        UiView { outbox: self.outbox.push(e), ..self }
    }

    /// The state after a timer was set.
    #[verifier::opaque]
    pub open spec fn timing(self, delay_ms: u64, tag: Seq<char>) -> UiView {
        UiView {
            next_timer: if self.next_timer == u64::MAX {
                0
            } else {
                (self.next_timer + 1) as u64
            },
            ..self.with(EffectView::SetTimer { token: self.next_timer, delay_ms, tag })
        }
    }

    /// The state after the timer was cleared, where there was one.
    #[verifier::opaque]
    pub open spec fn clearing(self, timer: Option<u64>) -> UiView {
        match timer {
            Some(t) => self.with(EffectView::ClearTimer(t)),
            None => self,
        }
    }

    #[verifier::opaque]
    pub open spec fn without_hide_timer(self) -> UiView {
        UiView { hide_message_timer_id: None, ..self.clearing(self.hide_message_timer_id) }
    }

    #[verifier::opaque]
    pub open spec fn without_handshake_timer(self) -> UiView {
        UiView { handshake_timer_id: None, ..self.clearing(self.handshake_timer_id) }
    }

    #[verifier::opaque]
    pub open spec fn without_query_timer(self) -> UiView {
        UiView { query_timer_id: None, ..self.clearing(self.query_timer_id) }
    }

    #[verifier::opaque]
    pub open spec fn without_watchdog(self) -> UiView {
        UiView { watchdog_timer_id: None, ..self.clearing(self.watchdog_timer_id) }
    }

    #[verifier::opaque]
    pub open spec fn without_reconnect_timer(self) -> UiView {
        UiView { reconnect_timer_id: None, ..self.clearing(self.reconnect_timer_id) }
    }

    /// The message will be hidden after a while.
    #[verifier::opaque]
    pub open spec fn hiding(self) -> UiView {
        let s = self.without_hide_timer();
        UiView {
            hide_message_timer_id: Some(s.next_timer),
            ..s.timing(3000, TIMER_HIDE_MESSAGE@)
        }
    }

    /// The handshake starts after the delay.
    #[verifier::opaque]
    pub open spec fn handshake_in(self, delay_ms: u64) -> UiView {
        UiView {
            handshake_timer_id: Some(self.next_timer),
            ..self.timing(delay_ms, TIMER_START_HANDSHAKE@)
        }
    }

    /// The handshake must be answered in time.
    #[verifier::opaque]
    pub open spec fn handshake_timed(self) -> UiView {
        let s = self.without_handshake_timer();
        UiView {
            handshake_timer_id: Some(s.next_timer),
            ..s.timing(3000, TIMER_HANDSHAKE_TIMEOUT@)
        }
    }

    /// The query must be answered in time.
    #[verifier::opaque]
    pub open spec fn query_timed(self) -> UiView {
        UiView {
            query_timer_id: Some(self.next_timer),
            ..self.timing(5000, TIMER_QUERY_TIMEOUT@)
        }
    }

    /// The link is looked at after a while.
    #[verifier::opaque]
    pub open spec fn watched(self) -> UiView {
        let s = self.without_watchdog();
        UiView {
            watchdog_timer_id: Some(s.next_timer),
            ..s.timing(WATCHDOG_INTERVAL_MS, TIMER_TRANSFER_WATCHDOG@)
        }
    }

    /// The link is connected again after a while.
    #[verifier::opaque]
    pub open spec fn reconnecting(self) -> UiView {
        let s = self.without_reconnect_timer();
        UiView {
            reconnect_timer_id: Some(s.next_timer),
            ..s.timing(RECONNECT_DELAY_MS, TIMER_RECONNECT_ATTEMPT@)
        }
    }

    /// The wristband is looked at after a while, unless that is under way already.
    #[verifier::opaque]
    pub open spec fn refresh_later(self) -> UiView {
        if self.cancel_refresh_timer_id is Some {
            self
        } else {
            UiView {
                cancel_refresh_timer_id: Some(self.next_timer),
                ..self.timing(CANCEL_REFRESH_DELAY_MS, TIMER_REFRESH_AFTER_CANCEL@)
            }
        }
    }

    /// The state with a message, which goes away by itself or stays.
    #[verifier::opaque]
    pub open spec fn saying(self, message: Seq<char>, tone: Tone, auto_hide: bool) -> UiView {
        let s = UiView { status_message: Some(message), status_tone: tone, ..self };
        if auto_hide {
            s.hiding()
        } else {
            s.without_hide_timer()
        }
    }

    /// The state without a message; a timer that would hide it stays.
    pub open spec fn silent(self) -> UiView {
        UiView { status_message: None, status_tone: Tone::Neutral, ..self }
    }

    /// The state after the end of a transfer or a query.
    #[verifier::opaque]
    pub open spec fn finished(self, clear_progress: bool) -> UiView {
        UiView {
            is_sending: false,
            is_querying: false,
            session: None,
            pending_writes: Seq::empty(),
            query_expect: 0,
            progress: if clear_progress {
                Gauge::nothing()
            } else {
                self.progress
            },
            speed_text: None,
            phase_text: None,
            handling_offline: false,
            reconnect_attempts: 0,
            offline_strikes: 0,
            ..self
        }.without_handshake_timer().without_query_timer().without_watchdog().without_reconnect_timer()
    }

    /// The state after a line was added to the log.
    #[verifier::opaque]
    pub open spec fn logging(self, message: Seq<char>, now: u64) -> UiView {
        let start = match self.started_at {
            Some(t) => t,
            None => now,
        };
        let lines = self.log.push("["@ + stamp(start, now) + "] "@ + message);
        UiView {
            started_at: Some(start),
            log: if lines.len() > MAX_LOG_LINES {
                lines.skip(lines.len() - MAX_LOG_LINES)
            } else {
                lines
            },
            ..self
        }
    }

    /// The chapters and the words of the book under the present split.
    pub open spec fn estimate(self) -> Option<(usize, usize)> {
        match (self.file_text, self.file_name) {
            (Some(book), Some(name)) => {
                let cs = chapters::book_chapters(book, name, self.split);
                Some((cs.len() as usize, chapters::total_words(cs) as usize))
            },
            _ => None,
        }
    }

    #[verifier::opaque]
    pub open spec fn estimated(self) -> UiView {
        UiView { chapter_estimate: self.estimate(), ..self }
    }

    /// The value of a setting: the known one, else the default.
    pub open spec fn setting_text(self, key: Seq<char>) -> Seq<char> {
        if self.band.settings.contains_key(key) {
            self.band.settings[key]
        } else {
            match settings::band_def(key) {
                Some(d) => d.default,
                None => Seq::empty(),
            }
        }
    }
}

/// The time in the log: since the start, or zero where the clock went back.
pub open spec fn stamp(start: u64, now: u64) -> Seq<char> {
    if now >= start {
        display::clock(((now - start) / (SECOND as int)) as nat)
    } else {
        "00:00"@
    }
}

// ---------------------------------------------------------------- small steps

impl UiState {
    /// The state of a new window.
    pub fn new() -> (r: UiState)
        ensures
            r.wf(),
            r@ == initial_state(),
    {
        let r = UiState {
            root_element_id: None,
            panel: Panel::Send,
            file_name: None,
            file_size_bytes: 0,
            file_text: None,
            split: SplitOptions::default(),
            author: String::new(),
            summary: String::new(),
            cover_name: None,
            cover_bytes: None,
            skip_synced: true,
            chapter_estimate: None,
            progress: Gauge::empty(),
            speed_text: None,
            phase_text: None,
            status_message: None,
            status_tone: Tone::Neutral,
            is_sending: false,
            is_querying: false,
            session: None,
            pending_writes: Vec::new(),
            query_expect: 0,
            log: Vec::new(),
            band: BandInfo {
                product: None,
                storage_known: false,
                storage_total: 0,
                storage_avail: 0,
                status_known: false,
                synced_chapters: Vec::new(),
                has_cover: false,
                settings: SettingMap::new(),
                settings_loaded: false,
            },
            disconnect_action: DisconnectAction::Retry,
            reconnect_attempts: 0,
            handling_offline: false,
            last_inbound_at: None,
            offline_strikes: 0,
            hide_message_timer_id: None,
            handshake_timer_id: None,
            query_timer_id: None,
            watchdog_timer_id: None,
            reconnect_timer_id: None,
            cancel_refresh_timer_id: None,
            peer_version: None,
            last_device_addr: None,
            started_at: None,
            next_timer: 0,
            outbox: Vec::new(),
        };
        assert(r@ =~= initial_state());
        r
    }

    /// Tells whether something is going on with the wristband.
    pub fn busy_now(&self) -> (r: bool)
        ensures
            r == self@.busy(),
    {
        self.is_sending || self.is_querying
    }

    /// The address of the wristband, empty where it is not known.
    pub fn last_device_addr(&self) -> (r: String)
        ensures
            r@ == self@.address(),
    {
        match &self.last_device_addr {
            Some(a) => a.clone(),
            None => String::new(),
        }
    }

    /// Empties the outbox.
    pub fn take_outbox(&mut self) -> (r: Vec<Effect>)
        requires
            old(self).wf(),
        ensures
            final(self).wf(),
            effects(r@) == old(self)@.outbox,
            final(self)@ == (UiView { outbox: Seq::empty(), ..old(self)@ }),
    {
        let mut r: Vec<Effect> = Vec::new();
        std::mem::swap(&mut r, &mut self.outbox);
        assert(self@ =~= UiView { outbox: Seq::empty(), ..old(self)@ });
        r
    }

    pub(crate) fn ask(&mut self, e: Effect)
        requires
            old(self).wf(),
        ensures
            final(self).wf(),
            final(self)@ == old(self)@.with(e@),
    {
        self.outbox.push(e);
        assert(self@ =~= old(self)@.with(e@));
    }

    fn set_timer(&mut self, delay_ms: u64, tag: &'static str) -> (token: u64)
        requires
            old(self).wf(),
        ensures
            final(self).wf(),
            final(self)@ == old(self)@.timing(delay_ms, tag@),
            token == old(self)@.next_timer,
    {
        reveal(UiView::timing);
        let token = self.next_timer;
        self.ask(Effect::SetTimer { token, delay_ms, tag });
        self.next_timer = if token == u64::MAX {
            0
        } else {
            token + 1
        };
        token
    }

    fn clear_timer(&mut self, timer: Option<u64>)
        requires
            old(self).wf(),
        ensures
            final(self).wf(),
            final(self)@ == old(self)@.clearing(timer),
    {
        reveal(UiView::clearing);
        if let Some(t) = timer {
            self.ask(Effect::ClearTimer(t));
        }
    }

    pub(crate) fn clear_hide_message_timer(&mut self)
        requires
            old(self).wf(),
        ensures
            final(self).wf(),
            final(self)@ == old(self)@.without_hide_timer(),
    {
        reveal(UiView::without_hide_timer);
        self.clear_timer(self.hide_message_timer_id);
        self.hide_message_timer_id = None;
    }

    pub(crate) fn clear_handshake_timer(&mut self)
        requires
            old(self).wf(),
        ensures
            final(self).wf(),
            final(self)@ == old(self)@.without_handshake_timer(),
    {
        reveal(UiView::without_handshake_timer);
        self.clear_timer(self.handshake_timer_id);
        self.handshake_timer_id = None;
    }

    pub(crate) fn clear_query_timer(&mut self)
        requires
            old(self).wf(),
        ensures
            final(self).wf(),
            final(self)@ == old(self)@.without_query_timer(),
    {
        reveal(UiView::without_query_timer);
        self.clear_timer(self.query_timer_id);
        self.query_timer_id = None;
    }

    pub(crate) fn disarm_watchdog(&mut self)
        requires
            old(self).wf(),
        ensures
            final(self).wf(),
            final(self)@ == old(self)@.without_watchdog(),
    {
        reveal(UiView::without_watchdog);
        self.clear_timer(self.watchdog_timer_id);
        self.watchdog_timer_id = None;
    }

    pub(crate) fn disarm_reconnect_timer(&mut self)
        requires
            old(self).wf(),
        ensures
            final(self).wf(),
            final(self)@ == old(self)@.without_reconnect_timer(),
    {
        reveal(UiView::without_reconnect_timer);
        self.clear_timer(self.reconnect_timer_id);
        self.reconnect_timer_id = None;
    }

    pub(crate) fn schedule_hide_message(&mut self)
        requires
            old(self).wf(),
        ensures
            final(self).wf(),
            final(self)@ == old(self)@.hiding(),
    {
        reveal(UiView::hiding);
        self.clear_hide_message_timer();
        let token = self.set_timer(3000, TIMER_HIDE_MESSAGE);
        self.hide_message_timer_id = Some(token);
    }

    pub(crate) fn schedule_handshake(&mut self, delay_ms: u64)
        requires
            old(self).wf(),
        ensures
            final(self).wf(),
            final(self)@ == old(self)@.handshake_in(delay_ms),
    {
        reveal(UiView::handshake_in);
        let token = self.set_timer(delay_ms, TIMER_START_HANDSHAKE);
        self.handshake_timer_id = Some(token);
    }

    pub(crate) fn schedule_handshake_timeout(&mut self)
        requires
            old(self).wf(),
        ensures
            final(self).wf(),
            final(self)@ == old(self)@.handshake_timed(),
    {
        reveal(UiView::handshake_timed);
        self.clear_handshake_timer();
        let token = self.set_timer(3000, TIMER_HANDSHAKE_TIMEOUT);
        self.handshake_timer_id = Some(token);
    }

    pub(crate) fn schedule_query_timeout(&mut self)
        requires
            old(self).wf(),
        ensures
            final(self).wf(),
            final(self)@ == old(self)@.query_timed(),
    {
        reveal(UiView::query_timed);
        let token = self.set_timer(5000, TIMER_QUERY_TIMEOUT);
        self.query_timer_id = Some(token);
    }

    pub(crate) fn arm_watchdog(&mut self)
        requires
            old(self).wf(),
        ensures
            final(self).wf(),
            final(self)@ == old(self)@.watched(),
    {
        reveal(UiView::watched);
        self.disarm_watchdog();
        let token = self.set_timer(WATCHDOG_INTERVAL_MS, TIMER_TRANSFER_WATCHDOG);
        self.watchdog_timer_id = Some(token);
    }

    pub(crate) fn arm_reconnect_timer(&mut self)
        requires
            old(self).wf(),
        ensures
            final(self).wf(),
            final(self)@ == old(self)@.reconnecting(),
    {
        reveal(UiView::reconnecting);
        self.disarm_reconnect_timer();
        let token = self.set_timer(RECONNECT_DELAY_MS, TIMER_RECONNECT_ATTEMPT);
        self.reconnect_timer_id = Some(token);
    }

    pub(crate) fn schedule_cancel_refresh(&mut self)
        requires
            old(self).wf(),
        ensures
            final(self).wf(),
            final(self)@ == old(self)@.refresh_later(),
    {
        reveal(UiView::refresh_later);
        if self.cancel_refresh_timer_id.is_some() {
            return;
        }
        let token = self.set_timer(CANCEL_REFRESH_DELAY_MS, TIMER_REFRESH_AFTER_CANCEL);
        self.cancel_refresh_timer_id = Some(token);
    }

    pub(crate) fn set_status_message(&mut self, message: &str, tone: Tone, auto_hide: bool)
        requires
            old(self).wf(),
        ensures
            final(self).wf(),
            final(self)@ == old(self)@.saying(message@, tone, auto_hide),
    {
        reveal(UiView::saying);
        self.status_message = Some(message.to_owned());
        self.status_tone = tone;
        if auto_hide {
            self.schedule_hide_message();
        } else {
            self.clear_hide_message_timer();
        }
    }

    pub(crate) fn finish_transfer(&mut self, clear_progress: bool)
        requires
            old(self).wf(),
        ensures
            final(self).wf(),
            final(self)@ == old(self)@.finished(clear_progress),
    {
        reveal(UiView::finished);
        self.is_sending = false;
        self.is_querying = false;
        self.session = None;
        self.pending_writes = Vec::new();
        self.query_expect = 0;
        if clear_progress {
            self.progress = Gauge::empty();
        }
        self.speed_text = None;
        self.phase_text = None;
        self.handling_offline = false;
        self.reconnect_attempts = 0;
        self.offline_strikes = 0;
        assert(self@.pending_writes =~= Seq::empty());
        self.clear_handshake_timer();
        self.clear_query_timer();
        self.disarm_watchdog();
        self.disarm_reconnect_timer();
    }

    pub(crate) fn log_line(&mut self, message: &str, now: u64)
        requires
            old(self).wf(),
        ensures
            final(self)@ == old(self)@.logging(message@, now),
            final(self).wf(),
    {
        reveal(UiView::logging);
        broadcast use text::lemma_texts_push;

        let start = match self.started_at {
            Some(t) => t,
            None => now,
        };
        self.started_at = Some(start);
        let mut line = "[".to_owned();
        if now >= start {
            line.append(display::clock_text((now - start) / SECOND).as_str());
        } else {
            line.append("00:00");
        }
        line.append("] ");
        line.append(message);
        self.log.push(line);
        if self.log.len() > MAX_LOG_LINES {
            let ghost lines = text::texts(self.log@);
            self.log.remove(0);
            assert(text::texts(self.log@) =~= lines.skip(1));
        }
    }

    pub(crate) fn recompute_estimate(&mut self)
        requires
            old(self).wf(),
        ensures
            final(self).wf(),
            final(self)@ == old(self)@.estimated(),
    {
        reveal(UiView::estimated);
        self.chapter_estimate = match (&self.file_text, &self.file_name) {
            (Some(book), Some(name)) => {
                let limit = text::byte_len(book.as_str());
                let cs = chapters::split_chapters_with(book.as_str(), name.as_str(), &self.split);
                proof {
                    chapters::total_is_bounded(book@, name@, self.split@);
                    assert(chapters::chapter_views(cs@).len() == cs@.len());
                }
                Some((cs.len(), chapters::sum_words(&cs)))
            },
            _ => None,
        };
    }

    pub(crate) fn read_setting_text(&self, key: &str) -> (r: String)
        requires
            self.wf(),
        ensures
            r@ == self@.setting_text(key@),
    {
        match self.band.settings.get(key) {
            Some(v) => v.clone(),
            None => match settings::band_setting(key) {
                Some(d) => d.default.to_owned(),
                None => String::new(),
            },
        }
    }
}

/// The state of a new window.
pub open spec fn initial_state() -> UiView {
    UiView {
        root_element_id: None,
        panel: Panel::Send,
        file_name: None,
        file_size_bytes: 0,
        file_text: None,
        split: SplitOptions::initial(),
        author: Seq::empty(),
        summary: Seq::empty(),
        cover_name: None,
        cover_bytes: None,
        skip_synced: true,
        chapter_estimate: None,
        progress: Gauge::nothing(),
        speed_text: None,
        phase_text: None,
        status_message: None,
        status_tone: Tone::Neutral,
        is_sending: false,
        is_querying: false,
        session: None,
        pending_writes: Seq::empty(),
        query_expect: 0,
        log: Seq::empty(),
        band: BandView {
            product: None,
            storage_known: false,
            storage_total: 0,
            storage_avail: 0,
            status_known: false,
            synced_chapters: Seq::empty(),
            has_cover: false,
            settings: Map::empty(),
            settings_loaded: false,
        },
        disconnect_action: DisconnectAction::Retry,
        reconnect_attempts: 0,
        handling_offline: false,
        last_inbound_at: None,
        offline_strikes: 0,
        hide_message_timer_id: None,
        handshake_timer_id: None,
        query_timer_id: None,
        watchdog_timer_id: None,
        reconnect_timer_id: None,
        cancel_refresh_timer_id: None,
        peer_version: None,
        last_device_addr: None,
        started_at: None,
        next_timer: 0,
        outbox: Seq::empty(),
    }
}

} // verus!
