//! Transfers and queries: what is sent when, what the answers do, and what happens
//! when the link is lost.
//!
//! A transfer goes: handshake, `startTransfer`, where there is a cover its chunks and
//! `cover_transfer_complete`, then for each chapter its chunks, `chapter_complete`
//! and the answer that it was saved, and in the end `transfer_complete`.
use crate::chapters;
use crate::display;
use crate::protocol;
use crate::session::Job;
use crate::session::JobView;
use crate::session::PlusJob;
use crate::session::PlusJobView;
use crate::session::Retry;
use crate::session::SessionView;
use crate::session::PLUS_CHUNK_BYTES;
use crate::state::AfterSend;
use crate::state::DisconnectAction;
use crate::state::Effect;
use crate::state::EffectView;
use crate::state::Gauge;
use crate::state::OutChunk;
use crate::state::OutChunkView;
use crate::state::Tone;
use crate::state::UiState;
use crate::state::UiView;
use crate::state::MAX_RECONNECT;
use crate::text;
use crate::view;
use vstd::prelude::*;
use vstd::string::StringExecFns;

verus! {

// ---------------------------------------------------------------- failure

/// The session waits for a new handshake; a cover that was not sent whole starts
/// again, and the chapters go on where they were.
pub open spec fn rewound(session: Option<SessionView>) -> Option<SessionView> {
    match session {
        Some(s) => Some(
            SessionView {
                pending_start: true,
                handshake_complete: false,
                job: match s.job {
                    JobView::Plus(t) => JobView::Plus(
                        PlusJobView {
                            cover_idx: if t.cover_done {
                                t.cover_idx
                            } else {
                                0
                            },
                            ..t
                        },
                    ),
                    JobView::Query(k) => JobView::Query(k),
                },
                ..s
            },
        ),
        None => None,
    }
}

/// The hint that goes with a failure to connect again.
pub open spec fn give_up_hint(reason: Seq<char>) -> Seq<char> {
    if text::contains_text(reason, "超时"@) {
        "，请确认手环端应用已打开并停留在前台"@
    } else {
        ""@
    }
}

impl UiView {
    /// The transfer or query failed.
    #[verifier::opaque]
    pub open spec fn failed(self, message: Seq<char>, now: u64) -> UiView {
        self.saying(message, Tone::Error, true).logging("[错误] "@ + message, now).finished(
            true,
        ).drawn()
    }

    /// One more attempt to connect, or the end of the transfer after too many.
    #[verifier::opaque]
    pub open spec fn retrying(self, reason: Seq<char>, now: u64) -> UiView {
        let attempts = self.reconnect_attempts + 1;
        let most = text::decimal(MAX_RECONNECT as nat);
        if attempts > MAX_RECONNECT {
            UiView { handling_offline: false, reconnect_attempts: 0, ..self }.failed(
                reason + "，已重连 "@ + most + " 次仍失败"@ + give_up_hint(reason),
                now,
            )
        } else {
            let count = text::decimal(attempts) + "/"@ + most;
            UiView {
                reconnect_attempts: attempts,
                session: rewound(self.session),
                phase_text: Some("重新连接 ("@ + count + ")"@),
                ..self
            }.saying(reason + "，正在重连 "@ + count, Tone::Neutral, false).logging(
                "[掉线] "@ + reason + "，第 "@ + count + " 次尝试重连"@,
                now,
            ).reconnecting().drawn()
        }
    }

    /// The transfer is called off because the link was lost.
    #[verifier::opaque]
    pub open spec fn called_off(self, reason: Seq<char>, now: u64) -> UiView {
        let s = if self.address().len() > 0 {
            self.with(
                EffectView::Send {
                    addr: self.address(),
                    payload: protocol::wire(protocol::action("cancel"@)),
                },
            )
        } else {
            self
        };
        UiView { handling_offline: false, reconnect_attempts: 0, ..s }.saying(
            reason + "，已取消传输"@,
            Tone::Error,
            true,
        ).logging("[掉线] "@ + reason + "，按设置取消传输"@, now).finished(
            true,
        ).refresh_later().drawn()
    }

    /// The link was lost: nothing more is done where it is being dealt with, or
    /// where nothing is being sent.
    #[verifier::opaque]
    pub open spec fn lost(self, reason: Seq<char>, now: u64) -> UiView {
        if !self.is_sending {
            self.without_watchdog()
        } else if self.handling_offline {
            self
        } else {
            let s = UiView { handling_offline: true, ..self }.without_watchdog();
            match s.disconnect_action {
                DisconnectAction::Cancel => s.called_off(reason, now),
                DisconnectAction::Retry => s.retrying(reason, now),
            }
        }
    }

    /// A message went out, or did not.
    #[verifier::opaque]
    pub open spec fn sent(self, then: AfterSend, ok: bool, now: u64) -> UiView {
        if !ok {
            self.lost("发送失败"@, now)
        } else {
            match then {
                AfterSend::Nothing => self,
                AfterSend::Render => self.drawn(),
                AfterSend::MarkActivity => UiView { last_inbound_at: Some(now), ..self },
            }
        }
    }
}

fn attempt_count(attempts: usize) -> (r: String)
    ensures
        r@ == text::decimal(attempts as nat) + "/"@ + text::decimal(MAX_RECONNECT as nat),
{
    let mut out = text::usize_text(attempts);
    out.append("/");
    out.append(text::usize_text(MAX_RECONNECT).as_str());
    out
}

impl UiState {
    /// The transfer or query failed.
    pub(crate) fn fail_with(&mut self, message: &str, now: u64)
        requires
            old(self).wf(),
        ensures
            final(self).wf(),
            final(self)@ == old(self)@.failed(message@, now),
    {
        reveal(UiView::failed);
        self.set_status_message(message, Tone::Error, true);
        let mut line = "[错误] ".to_owned();
        line.append(message);
        self.log_line(line.as_str(), now);
        self.finish_transfer(true);
        self.render_from_state();
    }

    fn rewind(&mut self)
        requires
            old(self).wf(),
        ensures
            final(self).wf(),
            final(self)@ == (UiView { session: rewound(old(self)@.session), ..old(self)@ }),
    {
        if let Some(session) = &mut self.session {
            session.pending_start = true;
            session.handshake_complete = false;
            if let Job::Plus(t) = &mut session.job {
                if !t.cover_done {
                    t.cover_idx = 0;
                }
            }
        }
    }

    /// One more attempt to connect, or the end of the transfer after too many.
    pub(crate) fn retry_reconnect(&mut self, reason: &str, now: u64)
        requires
            old(self).wf(),
        ensures
            final(self).wf(),
            final(self)@ == old(self)@.retrying(reason@, now),
    {
        reveal(UiView::retrying);
        let attempts: usize = self.reconnect_attempts + 1;
        if attempts > MAX_RECONNECT {
            self.handling_offline = false;
            self.reconnect_attempts = 0;
            let mut message = reason.to_owned();
            message.append("，已重连 ");
            message.append(text::usize_text(MAX_RECONNECT).as_str());
            message.append(" 次仍失败");
            if text::contains_chars(
                text::chars_of(reason).as_slice(),
                text::chars_of("超时").as_slice(),
            ) {
                message.append("，请确认手环端应用已打开并停留在前台");
            } else {
                proof {
                    reveal_strlit("");
                    assert(message@ + ""@ =~= message@);
                }
            }
            self.fail_with(message.as_str(), now);
            return;
        }
        self.reconnect_attempts = attempts;
        self.rewind();
        let count = attempt_count(attempts);
        let mut phase = "重新连接 (".to_owned();
        phase.append(count.as_str());
        phase.append(")");
        self.phase_text = Some(phase);
        let mut message = reason.to_owned();
        message.append("，正在重连 ");
        message.append(count.as_str());
        self.set_status_message(message.as_str(), Tone::Neutral, false);
        let mut line = "[掉线] ".to_owned();
        line.append(reason);
        line.append("，第 ");
        line.append(count.as_str());
        line.append(" 次尝试重连");
        self.log_line(line.as_str(), now);
        self.arm_reconnect_timer();
        self.render_from_state();
    }

    fn call_off(&mut self, reason: &str, now: u64)
        requires
            old(self).wf(),
        ensures
            final(self).wf(),
            final(self)@ == old(self)@.called_off(reason@, now),
    {
        reveal(UiView::called_off);
        let addr = self.last_device_addr();
        if !addr.as_str().is_empty() {
            self.ask(Effect::Send { addr, payload: protocol::cancel() });
        }
        self.handling_offline = false;
        self.reconnect_attempts = 0;
        let mut message = reason.to_owned();
        message.append("，已取消传输");
        self.set_status_message(message.as_str(), Tone::Error, true);
        let mut line = "[掉线] ".to_owned();
        line.append(reason);
        line.append("，按设置取消传输");
        self.log_line(line.as_str(), now);
        self.finish_transfer(true);
        self.schedule_cancel_refresh();
        self.render_from_state();
    }

    /// The link was lost.
    pub(crate) fn handle_link_lost(&mut self, reason: &str, now: u64)
        requires
            old(self).wf(),
        ensures
            final(self).wf(),
            final(self)@ == old(self)@.lost(reason@, now),
    {
        reveal(UiView::lost);
        if !self.is_sending {
            self.disarm_watchdog();
            return;
        }
        if self.handling_offline {
            return;
        }
        self.handling_offline = true;
        self.disarm_watchdog();
        match self.disconnect_action {
            DisconnectAction::Cancel => self.call_off(reason, now),
            DisconnectAction::Retry => self.retry_reconnect(reason, now),
        }
    }

    /// Takes note of whether a message went out.
    pub fn after_send(&mut self, then: AfterSend, ok: bool, now: u64)
        requires
            old(self).wf(),
        ensures
            final(self).wf(),
            final(self)@ == old(self)@.sent(then, ok, now),
    {
        reveal(UiView::sent);
        if !ok {
            self.handle_link_lost("发送失败", now);
            return;
        }
        match then {
            AfterSend::Nothing => {},
            AfterSend::Render => self.render_from_state(),
            AfterSend::MarkActivity => {
                self.last_inbound_at = Some(now);
            },
        }
    }
}

// ---------------------------------------------------------------- chunks of text

impl PlusJobView {
    /// The job with the chunks of the present chapter made.
    pub open spec fn filled(self) -> PlusJobView {
        if self.chunk_texts.len() == 0 {
            PlusJobView {
                chunk_texts: chapters::chunks_of(self.chapter().content, PLUS_CHUNK_BYTES as nat),
                ..self
            }
        } else {
            self
        }
    }

    /// All chunks of the present chapter are out.
    pub open spec fn all_out(self) -> bool {
        self.chunk_idx >= self.chunk_texts.len()
    }

    /// A cover is still to be sent.
    pub open spec fn cover_pending(self) -> bool {
        !self.cover_done && self.cover_chunks.len() > 0
    }

    /// What the window says of the chunk that is sent now.
    pub open spec fn chunk_phase(self) -> Seq<char> {
        "第 "@ + text::decimal(self.pos + 1) + "/"@ + text::decimal(self.send_order.len())
            + " 章 · "@ + self.chapter().name + " ("@ + text::decimal(self.chunk_texts.len())
            + " 块)"@
    }

    /// The message of the chunk that is sent now.
    pub open spec fn chunk_message(self) -> protocol::Members {
        protocol::chunk_members(
            self.chapter().index,
            self.chapter().name,
            self.chapter().word_count,
            self.chunk_texts[self.chunk_idx as int],
            self.chunk_idx,
            self.chunk_texts.len(),
        )
    }

    /// The chunk that is sent now.
    pub open spec fn out_chunk(self, addr: Seq<char>, now: u64) -> OutChunkView {
        OutChunkView {
            addr,
            message: protocol::wire(self.chunk_message()),
            phase: self.chunk_phase(),
            bytes: text::text_bytes(self.chunk_texts[self.chunk_idx as int]),
            since: self.last_chunk_time,
            now,
            pos: self.pos,
            chapters: self.send_order.len(),
            chunk: self.chunk_idx,
            chunks: self.chunk_texts.len(),
        }
    }

    /// The job after the chunk was made ready.
    pub open spec fn stamped(self, now: u64) -> PlusJobView {
        PlusJobView { last_chunk_time: Some(now), ..self }
    }

    /// The job at another chapter.
    pub open spec fn moved(self, pos: nat) -> PlusJobView {
        PlusJobView { pos, chunk_idx: 0, chunk_texts: Seq::empty(), retries: 0, ..self }
    }

    /// The place in the order of sending of the chapter with the number, or of the
    /// first chapter.
    pub open spec fn place(self, number: nat) -> nat {
        let i = place_from(self, number, 0);
        if i < self.send_order.len() {
            i
        } else {
            0
        }
    }

    /// What the window says of the present chapter, where there is one.
    pub open spec fn chapter_phase(self) -> Option<Seq<char>> {
        if self.pos < self.send_order.len() {
            Some(
                "第 "@ + text::decimal(self.pos + 1) + "/"@ + text::decimal(self.send_order.len())
                    + " 章 · "@ + self.chapter().name,
            )
        } else {
            None
        }
    }
}

/// The first place from `from` on of the chapter with the number, or the number of
/// places where there is none.
pub open spec fn place_from(t: PlusJobView, number: nat, from: nat) -> nat
    decreases t.send_order.len() - from,
{
    if from >= t.send_order.len() {
        from
    } else if t.chapters[t.send_order[from as int] as int].index == number {
        from
    } else {
        place_from(t, number, from + 1)
    }
}

impl UiView {
    /// The book that is being sent.
    pub open spec fn job(self) -> Option<PlusJobView> {
        match self.session {
            Some(s) => match s.job {
                JobView::Plus(t) => Some(t),
                _ => None,
            },
            None => None,
        }
    }

    /// The state with the job changed.
    pub open spec fn with_job(self, t: PlusJobView) -> UiView {
        UiView {
            session: match self.session {
                Some(s) => Some(SessionView { job: JobView::Plus(t), ..s }),
                None => None,
            },
            ..self
        }
    }

    /// The state with new progress.
    pub open spec fn progressing(
        self,
        gauge: Gauge,
        speed: Option<Seq<char>>,
        phase: Option<Seq<char>>,
    ) -> UiView {
        UiView {
            progress: gauge,
            speed_text: speed,
            phase_text: if phase is Some {
                phase
            } else {
                self.phase_text
            },
            ..self
        }.saying("发送中 "@ + text::decimal(gauge.percent as nat) + "%"@, Tone::Neutral, false)
    }

    /// A message goes out, and then what is said.
    pub open spec fn sending(self, addr: Seq<char>, m: protocol::Members, then: AfterSend) -> UiView {
        self.with(EffectView::SendChecked { addr, payload: protocol::wire(m), then })
    }

    /// The next message of the transfer: the present chunk, once it was measured; the
    /// end of the chapter, where all its chunks are out; or the end of the book.
    #[verifier::opaque]
    pub open spec fn emitted(self, now: u64) -> UiView {
        match self.job() {
            Some(t) => if t.pos >= t.send_order.len() {
                self.progressing(Gauge::all(), None, None).sending(
                    self.address(),
                    protocol::action("transfer_complete"@),
                    AfterSend::Render,
                )
            } else {
                let t = t.filled();
                if t.all_out() {
                    self.with_job(t).sending(
                        self.address(),
                        protocol::chapter_complete_members(t.chapter().index),
                        AfterSend::Render,
                    )
                } else {
                    self.with_job(t.stamped(now)).with(
                        EffectView::Measure(t.out_chunk(self.address(), now)),
                    )
                }
            },
            None => self,
        }
    }

    /// A chunk goes out after it was measured; progress past the end counts as all.
    #[verifier::opaque]
    pub open spec fn measured(self, out: OutChunkView, speed: Option<usize>, gauge: Gauge) -> UiView {
        self.progressing(
            gauge.clamped(),
            match speed {
                Some(n) => Some(display::size_text(n as nat) + "/s"@),
                None => None,
            },
            Some(out.phase),
        ).with(
            EffectView::SendChecked {
                addr: out.addr,
                payload: out.message,
                then: AfterSend::Render,
            },
        )
    }
}

impl PlusJob {
    /// Makes the chunks of the present chapter.
    fn fill(&mut self)
        requires
            old(self)@.wf(),
            old(self)@.pos < old(self)@.send_order.len(),
        ensures
            final(self)@.wf(),
            final(self)@ == old(self)@.filled(),
            final(self)@.chunk_texts.len() > 0,
    {
        if self.chunk_texts.len() == 0 {
            let chapter: usize = self.send_order[self.pos];
            assert(self@.chapters[chapter as int] == self.chapters@[chapter as int]@);
            self.chunk_texts =
            chapters::split_into_chunks(self.chapters[chapter].content.as_str(), PLUS_CHUNK_BYTES);
        }
    }

    /// The message that ends the present chapter.
    fn chapter_end(&self) -> (r: String)
        requires
            self@.wf(),
            self@.pos < self@.send_order.len(),
        ensures
            r@ == protocol::wire(protocol::chapter_complete_members(self@.chapter().index)),
    {
        let chapter: usize = self.send_order[self.pos];
        assert(self@.chapters[chapter as int] == self.chapters@[chapter as int]@);
        protocol::plus_chapter_complete(self.chapters[chapter].index)
    }

    /// The chunk that is sent now.
    fn take_chunk(&mut self, addr: String, now: u64) -> (r: OutChunk)
        requires
            old(self)@.wf(),
            old(self)@.pos < old(self)@.send_order.len(),
            !old(self)@.all_out(),
        ensures
            final(self)@.wf(),
            final(self)@ == old(self)@.stamped(now),
            r@ == old(self)@.out_chunk(addr@, now),
    {
        let ghost t = self@;
        let total: usize = self.chunk_texts.len();
        let idx: usize = self.chunk_idx;
        let chapter = &self.chapters[self.send_order[self.pos]];
        assert(t.chapter() == chapter@);
        assert(t.chunk_texts[idx as int] == self.chunk_texts@[idx as int]@);
        let content = self.chunk_texts[idx].as_str();
        let message = protocol::plus_chapter_chunk(
            chapter.index,
            chapter.name.as_str(),
            chapter.word_count,
            content,
            idx,
            total,
        );
        let count: usize = self.send_order.len();
        let mut phase = "第 ".to_owned();
        phase.append(text::usize_text(self.pos + 1).as_str());
        phase.append("/");
        phase.append(text::usize_text(count).as_str());
        phase.append(" 章 · ");
        phase.append(chapter.name.as_str());
        phase.append(" (");
        phase.append(text::usize_text(total).as_str());
        phase.append(" 块)");
        let bytes = text::byte_len(content);
        let since = self.last_chunk_time;
        self.last_chunk_time = Some(now);
        OutChunk {
            addr,
            message,
            phase,
            bytes,
            since,
            now,
            pos: self.pos,
            chapters: count,
            chunk: idx,
            chunks: total,
        }
    }

    /// Goes to another chapter.
    fn move_to(&mut self, pos: usize)
        requires
            old(self)@.wf(),
        ensures
            final(self)@.wf(),
            final(self)@ == old(self)@.moved(pos as nat),
    {
        self.pos = pos;
        self.chunk_idx = 0;
        self.chunk_texts = Vec::new();
        assert(text::texts(self.chunk_texts@) =~= Seq::<Seq<char>>::empty());
        self.retries = 0;
    }

    /// The place in the order of sending of the chapter with the number.
    fn find_place(&self, number: usize) -> (r: usize)
        requires
            self@.wf(),
        ensures
            r == self@.place(number as nat),
    {
        let mut i: usize = 0;
        while i < self.send_order.len()
            invariant
                i <= self.send_order@.len(),
                self@.wf(),
                place_from(self@, number as nat, 0) == place_from(self@, number as nat, i as nat),
            decreases self.send_order@.len() - i,
        {
            let chapter: usize = self.send_order[i];
            assert(self@.send_order[i as int] < self@.chapters.len());
            assert(self@.chapters[chapter as int] == self.chapters@[chapter as int]@);
            if self.chapters[chapter].index == number {
                return i;
            }
            i += 1;
        }
        0
    }
}

impl UiState {
    fn show_progress(&mut self, gauge: Gauge, speed: Option<String>, phase: Option<String>)
        requires
            old(self).wf(),
            gauge.wf(),
        ensures
            final(self).wf(),
            final(self)@ == old(self)@.progressing(
                gauge,
                crate::element::maybe(speed),
                crate::element::maybe(phase),
            ),
    {
        self.progress = gauge;
        self.speed_text = speed;
        if phase.is_some() {
            self.phase_text = phase;
        }
        let mut status = "发送中 ".to_owned();
        status.append(text::decimal_text(gauge.percent as u64).as_str());
        status.append("%");
        self.set_status_message(status.as_str(), Tone::Neutral, false);
    }

    /// Sends the next message of the transfer.
    pub(crate) fn plus_emit(&mut self, now: u64)
        requires
            old(self).wf(),
        ensures
            final(self).wf(),
            final(self)@ == old(self)@.emitted(now),
    {
        reveal(UiView::emitted);
        let addr = self.last_device_addr();
        let out = match &mut self.session {
            Some(session) => match &mut session.job {
                Job::Plus(t) => if t.pos >= t.send_order.len() {
                    None
                } else {
                    t.fill();
                    if t.chunk_idx >= t.chunk_texts.len() {
                        Some(Err(t.chapter_end()))
                    } else {
                        Some(Ok(t.take_chunk(addr.clone(), now)))
                    }
                },
                Job::Query(_) => {
                    return;
                },
            },
            None => {
                return;
            },
        };
        match out {
            Some(Ok(chunk)) => self.ask(Effect::Measure(chunk)),
            Some(Err(payload)) => self.ask(
                Effect::SendChecked { addr, payload, then: AfterSend::Render },
            ),
            None => {
                self.show_progress(Gauge::full(), None, None);
                self.ask(
                    Effect::SendChecked {
                        addr,
                        payload: protocol::plus_transfer_complete(),
                        then: AfterSend::Render,
                    },
                );
            },
        }
    }

    /// Sends a chunk that was measured: `speed` is in bytes per second, where it
    /// could be told.
    pub fn chunk_measured(&mut self, out: OutChunk, speed: Option<usize>, gauge: Gauge)
        requires
            old(self).wf(),
        ensures
            final(self).wf(),
            final(self)@ == old(self)@.measured(out@, speed, gauge),
    {
        reveal(UiView::measured);
        let speed = match speed {
            Some(n) => {
                let mut t = display::format_bytes(n);
                t.append("/s");
                Some(t)
            },
            None => None,
        };
        self.show_progress(gauge.clamp(), speed, Some(out.phase));
        self.ask(
            Effect::SendChecked {
                addr: out.addr,
                payload: out.message,
                then: AfterSend::Render,
            },
        );
    }
}

// ---------------------------------------------------------------- cover

impl UiView {
    /// The next chunk of the cover goes out, or the cover is complete. Where there is
    /// no cover, the text goes out.
    #[verifier::opaque]
    pub open spec fn covering(self, now: u64) -> UiView {
        match self.job() {
            Some(t) => if t.cover_chunks.len() == 0 {
                self.emitted(now)
            } else if t.cover_idx >= t.cover_chunks.len() {
                self.covered(now)
            } else {
                UiView {
                    phase_text: Some(
                        "发送封面 "@ + text::decimal(t.cover_idx + 1) + "/"@ + text::decimal(
                            t.cover_chunks.len(),
                        ),
                    ),
                    ..self
                }.saying("正在发送封面..."@, Tone::Neutral, false).sending(
                    self.address(),
                    protocol::cover_chunk_members(
                        t.cover_idx,
                        t.cover_chunks.len(),
                        t.cover_chunks[t.cover_idx as int],
                    ),
                    AfterSend::Render,
                )
            },
            None => self,
        }
    }

    /// The cover is complete, and the text follows.
    #[verifier::opaque]
    pub open spec fn covered(self, now: u64) -> UiView {
        match self.job() {
            Some(t) => UiView {
                phase_text: Some("发送正文"@),
                ..self.with_job(PlusJobView { cover_done: true, ..t }).with(
                    EffectView::Send {
                        addr: self.address(),
                        payload: protocol::wire(protocol::action("cover_transfer_complete"@)),
                    },
                ).logging("[封面] 发送完成"@, now)
            }.emitted(now),
            None => self,
        }
    }

    /// What goes out next: the cover before the text.
    pub open spec fn continued(self, now: u64) -> UiView {
        match self.job() {
            Some(t) => if t.cover_pending() {
                self.covering(now)
            } else {
                self.emitted(now)
            },
            None => self,
        }
    }
}

impl UiState {
    fn plus_send_cover_chunk(&mut self, now: u64)
        requires
            old(self).wf(),
        ensures
            final(self).wf(),
            final(self)@ == old(self)@.covering(now),
    {
        reveal(UiView::covering);
        let addr = self.last_device_addr();
        let (payload, done, total): (String, usize, usize) = match &self.session {
            Some(session) => match &session.job {
                Job::Plus(t) => {
                    if t.cover_chunks.len() == 0 {
                        self.plus_emit(now);
                        return;
                    }
                    if t.cover_idx >= t.cover_chunks.len() {
                        self.plus_finish_cover(now);
                        return;
                    }
                    let total: usize = t.cover_chunks.len();
                    assert(t@.cover_chunks[t.cover_idx as int] == t.cover_chunks@[t.cover_idx as int]@);
                    let payload = protocol::plus_cover_chunk(
                        t.cover_idx,
                        total,
                        t.cover_chunks[t.cover_idx].as_str(),
                    );
                    (payload, t.cover_idx + 1, total)
                },
                Job::Query(_) => {
                    return;
                },
            },
            None => {
                return;
            },
        };
        let mut phase = "发送封面 ".to_owned();
        phase.append(text::usize_text(done).as_str());
        phase.append("/");
        phase.append(text::usize_text(total).as_str());
        self.phase_text = Some(phase);
        self.set_status_message("正在发送封面...", Tone::Neutral, false);
        self.ask(Effect::SendChecked { addr, payload, then: AfterSend::Render });
    }

    fn plus_finish_cover(&mut self, now: u64)
        requires
            old(self).wf(),
        ensures
            final(self).wf(),
            final(self)@ == old(self)@.covered(now),
    {
        reveal(UiView::covered);
        let addr = self.last_device_addr();
        match &mut self.session {
            Some(session) => match &mut session.job {
                Job::Plus(t) => {
                    t.cover_done = true;
                },
                Job::Query(_) => {
                    return;
                },
            },
            None => {
                return;
            },
        }
        self.ask(Effect::Send { addr, payload: protocol::plus_cover_transfer_complete() });
        let ghost before = self@;
        self.log_line("[封面] 发送完成", now);
        proof {
            reveal(UiView::logging);
            assert(self@.session == before.session);
        }
        self.phase_text = Some("发送正文".to_owned());
        self.plus_emit(now);
    }

    fn plus_continue(&mut self, now: u64)
        requires
            old(self).wf(),
        ensures
            final(self).wf(),
            final(self)@ == old(self)@.continued(now),
    {
        let need_cover = match &self.session {
            Some(session) => match &session.job {
                Job::Plus(t) => !t.cover_done && t.cover_chunks.len() > 0,
                Job::Query(_) => {
                    return;
                },
            },
            None => {
                return;
            },
        };
        if need_cover {
            self.plus_send_cover_chunk(now);
        } else {
            self.plus_emit(now);
        }
    }
}

// ---------------------------------------------------------------- answers during a transfer

impl UiView {
    /// The wristband waits for the chapter with the number.
    #[verifier::opaque]
    pub open spec fn ready(self, number: usize, now: u64) -> UiView {
        let s = UiView { handling_offline: false, ..self };
        match self.job() {
            Some(t) => {
                let s = s.with_job(t.moved(t.place(number as nat)));
                if t.cover_pending() {
                    UiView { phase_text: Some("发送封面"@), ..s }.covering(now)
                } else {
                    s.emitted(now)
                }
            },
            None => s,
        }
    }

    /// The wristband has the chunk of the cover.
    #[verifier::opaque]
    pub open spec fn cover_acked(self, now: u64) -> UiView {
        match self.job() {
            Some(t) => self.with_job(
                PlusJobView { cover_idx: t.cover_idx + 1, retries: 0, ..t },
            ).covering(now),
            None => self,
        }
    }

    /// The wristband waits for the next chunk of the chapter.
    #[verifier::opaque]
    pub open spec fn next_chunk(self, now: u64) -> UiView {
        match self.job() {
            Some(t) => self.with_job(
                PlusJobView { chunk_idx: t.chunk_idx + 1, retries: 0, ..t },
            ).emitted(now),
            None => self,
        }
    }

    /// The wristband has all chunks of the chapter.
    #[verifier::opaque]
    pub open spec fn chapter_received(self) -> UiView {
        match self.job() {
            Some(t) => if t.pos < t.send_order.len() {
                self.sending(
                    self.address(),
                    protocol::chapter_complete_members(t.chapter().index),
                    AfterSend::Nothing,
                )
            } else {
                self
            },
            None => self,
        }
    }

    /// The wristband has saved the chapter: the next one follows, and the attempts
    /// to connect are counted anew.
    #[verifier::opaque]
    pub open spec fn chapter_saved(self, now: u64) -> UiView {
        match self.job() {
            Some(t) => {
                let t = t.moved(t.pos + 1);
                UiView {
                    phase_text: match t.chapter_phase() {
                        Some(phase) => Some(phase),
                        None => self.phase_text,
                    },
                    reconnect_attempts: 0,
                    handling_offline: false,
                    last_inbound_at: Some(now),
                    ..self.with_job(t)
                }.emitted(now)
            },
            None => self,
        }
    }

    /// The book arrived.
    #[verifier::opaque]
    pub open spec fn succeeded(self, now: u64) -> UiView {
        UiView { progress: Gauge::all(), phase_text: Some("传输完成"@), ..self }.saying(
            "发送成功"@,
            Tone::Success,
            true,
        ).logging("[完成] 发送成功"@, now).finished(false).drawn()
    }

    /// The wristband called the transfer off.
    #[verifier::opaque]
    pub open spec fn cancelled_remotely(self, now: u64) -> UiView {
        self.saying("传输已被手环取消"@, Tone::Neutral, true).logging(
            "[中断] 手环端已取消"@,
            now,
        ).finished(true).drawn()
    }

    /// The wristband refused: the message goes out again, a few times.
    #[verifier::opaque]
    pub open spec fn refused(self, message: Option<Seq<char>>, now: u64) -> UiView {
        match self.session {
            Some(s) => match s.verdict() {
                Retry::Plus => UiView { session: Some(s.refused()), ..self }.continued(now),
                Retry::Fail => UiView { session: None, ..self }.failed(
                    "传输出错："@ + view::text_or(message, "传输出错"@),
                    now,
                ),
            },
            None => self,
        }
    }
}

impl UiState {
    pub(crate) fn plus_on_ready(&mut self, start_from: usize, now: u64)
        requires
            old(self).wf(),
        ensures
            final(self).wf(),
            final(self)@ == old(self)@.ready(start_from, now),
    {
        reveal(UiView::ready);
        self.handling_offline = false;
        let need_cover = match &mut self.session {
            Some(session) => match &mut session.job {
                Job::Plus(t) => {
                    let place = t.find_place(start_from);
                    t.move_to(place);
                    !t.cover_done && t.cover_chunks.len() > 0
                },
                Job::Query(_) => {
                    return;
                },
            },
            None => {
                return;
            },
        };
        if need_cover {
            self.phase_text = Some("发送封面".to_owned());
            self.plus_send_cover_chunk(now);
        } else {
            self.plus_emit(now);
        }
    }

    pub(crate) fn plus_on_cover_acked(&mut self, now: u64)
        requires
            old(self).wf(),
            old(self)@.session matches Some(s) ==> s.room(),
        ensures
            final(self).wf(),
            final(self)@ == old(self)@.cover_acked(now),
    {
        reveal(UiView::cover_acked);
        match &mut self.session {
            Some(session) => match &mut session.job {
                Job::Plus(t) => {
                    t.cover_idx = t.cover_idx + 1;
                    t.retries = 0;
                },
                Job::Query(_) => {
                    return;
                },
            },
            None => {
                return;
            },
        }
        self.plus_send_cover_chunk(now);
    }

    pub(crate) fn plus_on_next_chunk(&mut self, now: u64)
        requires
            old(self).wf(),
            old(self)@.session matches Some(s) ==> s.room(),
        ensures
            final(self).wf(),
            final(self)@ == old(self)@.next_chunk(now),
    {
        reveal(UiView::next_chunk);
        match &mut self.session {
            Some(session) => match &mut session.job {
                Job::Plus(t) => {
                    t.chunk_idx = t.chunk_idx + 1;
                    t.retries = 0;
                },
                Job::Query(_) => {
                    return;
                },
            },
            None => {
                return;
            },
        }
        self.plus_emit(now);
    }

    pub(crate) fn plus_on_chapter_chunk_complete(&mut self)
        requires
            old(self).wf(),
        ensures
            final(self).wf(),
            final(self)@ == old(self)@.chapter_received(),
    {
        reveal(UiView::chapter_received);
        let addr = self.last_device_addr();
        let payload = match &self.session {
            Some(session) => match &session.job {
                Job::Plus(t) => {
                    if t.pos >= t.send_order.len() {
                        return;
                    }
                    let chapter: usize = t.send_order[t.pos];
                    assert(t@.chapters[chapter as int] == t.chapters@[chapter as int]@);
                    protocol::plus_chapter_complete(t.chapters[chapter].index)
                },
                Job::Query(_) => {
                    return;
                },
            },
            None => {
                return;
            },
        };
        self.ask(Effect::SendChecked { addr, payload, then: AfterSend::Nothing });
    }

    pub(crate) fn plus_on_chapter_saved(&mut self, now: u64)
        requires
            old(self).wf(),
            old(self)@.session matches Some(s) ==> s.room(),
        ensures
            final(self).wf(),
            final(self)@ == old(self)@.chapter_saved(now),
    {
        reveal(UiView::chapter_saved);
        let phase = match &mut self.session {
            Some(session) => match &mut session.job {
                Job::Plus(t) => {
                    let next: usize = t.pos + 1;
                    t.move_to(next);
                    t.next_phase()
                },
                Job::Query(_) => {
                    return;
                },
            },
            None => {
                return;
            },
        };
        if phase.is_some() {
            self.phase_text = phase;
        }
        self.reconnect_attempts = 0;
        self.handling_offline = false;
        self.last_inbound_at = Some(now);
        self.plus_emit(now);
    }

    pub(crate) fn on_success(&mut self, now: u64)
        requires
            old(self).wf(),
        ensures
            final(self).wf(),
            final(self)@ == old(self)@.succeeded(now),
    {
        reveal(UiView::succeeded);
        self.progress = Gauge::full();
        self.phase_text = Some("传输完成".to_owned());
        self.set_status_message("发送成功", Tone::Success, true);
        self.log_line("[完成] 发送成功", now);
        self.finish_transfer(false);
        self.render_from_state();
    }

    pub(crate) fn on_remote_cancel(&mut self, now: u64)
        requires
            old(self).wf(),
        ensures
            final(self).wf(),
            final(self)@ == old(self)@.cancelled_remotely(now),
    {
        reveal(UiView::cancelled_remotely);
        self.set_status_message("传输已被手环取消", Tone::Neutral, true);
        self.log_line("[中断] 手环端已取消", now);
        self.finish_transfer(true);
        self.render_from_state();
    }

    pub(crate) fn on_error(&mut self, message: Option<String>, now: u64)
        requires
            old(self).wf(),
        ensures
            final(self).wf(),
            final(self)@ == old(self)@.refused(crate::element::maybe(message), now),
    {
        reveal(UiView::refused);
        let retry = match &mut self.session {
            Some(session) => session.bump_retry(),
            None => {
                return;
            },
        };
        match retry {
            Retry::Plus => self.plus_continue(now),
            Retry::Fail => {
                let mut text = "传输出错：".to_owned();
                match &message {
                    Some(m) => text.append(m.as_str()),
                    None => text.append("传输出错"),
                }
                self.session = None;
                self.fail_with(text.as_str(), now);
            },
        }
    }
}

impl PlusJob {
    /// What the window says of the present chapter, where there is one.
    fn next_phase(&self) -> (r: Option<String>)
        requires
            self@.wf(),
        ensures
            crate::element::maybe(r) == self@.chapter_phase(),
    {
        if self.pos >= self.send_order.len() {
            return None;
        }
        let chapter: usize = self.send_order[self.pos];
        assert(self@.chapters[chapter as int] == self.chapters@[chapter as int]@);
        let mut phase = "第 ".to_owned();
        phase.append(text::usize_text(self.pos + 1).as_str());
        phase.append("/");
        phase.append(text::usize_text(self.send_order.len()).as_str());
        phase.append(" 章 · ");
        phase.append(self.chapters[chapter].name.as_str());
        Some(phase)
    }
}

} // verus!
