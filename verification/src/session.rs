//! A session with the wristband: what is being sent or asked, and how far it is.
use crate::base64;
use crate::chapters;
use crate::chapters::Chapter;
use crate::chapters::ChapterView;
use crate::chapters::SplitOptions;
use crate::chapters::SplitOptionsView;
use crate::text;
use std::collections::BTreeSet;
use vstd::prelude::*;
use vstd::string::StringExecFns;

verus! {

/// The byte budget of a chunk of text: a message wraps it in JSON, so there is
/// room to spare.
pub const PLUS_CHUNK_BYTES: usize = 16384;

/// The number of base64 characters in a chunk of the cover.
pub const COVER_CHUNK_CHARS: usize = 8192;

/// How often a refused chunk is sent again.
pub const MAX_RETRY: usize = 3;

// ---------------------------------------------------------------- types

/// A book on its way, chapter by chapter, with the cover first if there is one.
pub struct PlusJob {
    pub file_name: String,
    /// All chapters of the book; the position is the number of the chapter.
    pub chapters: Vec<Chapter>,
    /// The chapters that are sent, in their order.
    pub send_order: Vec<usize>,
    /// The present position in `send_order`.
    pub pos: usize,
    pub chunk_idx: usize,
    /// The chunks of the present chapter, once they were made.
    pub chunk_texts: Vec<String>,
    pub total_words: usize,
    pub author: String,
    pub summary: String,
    /// The cover in base64; none where no cover is sent.
    pub cover_chunks: Vec<String>,
    pub cover_idx: usize,
    pub cover_done: bool,
    pub last_chunk_time: Option<u64>,
    pub retries: usize,
}

/// A book on its way, as mathematics.
#[verifier::ext_equal]
pub struct PlusJobView {
    pub file_name: Seq<char>,
    pub chapters: Seq<ChapterView>,
    pub send_order: Seq<usize>,
    pub pos: nat,
    pub chunk_idx: nat,
    pub chunk_texts: Seq<Seq<char>>,
    pub total_words: nat,
    pub author: Seq<char>,
    pub summary: Seq<char>,
    pub cover_chunks: Seq<Seq<char>>,
    pub cover_idx: nat,
    pub cover_done: bool,
    pub last_chunk_time: Option<u64>,
    pub retries: nat,
}

impl View for PlusJob {
    type V = PlusJobView;

    open spec fn view(&self) -> PlusJobView {
        PlusJobView {
            file_name: self.file_name@,
            chapters: chapters::chapter_views(self.chapters@),
            send_order: self.send_order@,
            pos: self.pos as nat,
            chunk_idx: self.chunk_idx as nat,
            chunk_texts: text::texts(self.chunk_texts@),
            total_words: self.total_words as nat,
            author: self.author@,
            summary: self.summary@,
            cover_chunks: text::texts(self.cover_chunks@),
            cover_idx: self.cover_idx as nat,
            cover_done: self.cover_done,
            last_chunk_time: self.last_chunk_time,
            retries: self.retries as nat,
        }
    }
}

/// What is asked of the wristband.
#[derive(Clone, Copy, PartialEq, Eq, Debug, Structural)]
pub enum QueryKind {
    /// The storage, and which chapters of the present book are there.
    Status,
    /// The reading settings.
    Settings,
}

/// What a session is for.
pub enum Job {
    Plus(PlusJob),
    Query(QueryKind),
}

/// What a session is for, as mathematics.
#[verifier::ext_equal]
pub enum JobView {
    Plus(PlusJobView),
    Query(QueryKind),
}

impl View for Job {
    type V = JobView;

    open spec fn view(&self) -> JobView {
        match *self {
            Job::Plus(t) => JobView::Plus(t@),
            Job::Query(k) => JobView::Query(k),
        }
    }
}

/// A session with the wristband.
pub struct Session {
    pub device_addr: String,
    pub job: Job,
    /// The job has not begun yet.
    pub pending_start: bool,
    pub handshake_complete: bool,
}

/// A session, as mathematics.
#[verifier::ext_equal]
pub struct SessionView {
    pub device_addr: Seq<char>,
    pub job: JobView,
    pub pending_start: bool,
    pub handshake_complete: bool,
}

impl View for Session {
    type V = SessionView;

    open spec fn view(&self) -> SessionView {
        SessionView {
            device_addr: self.device_addr@,
            job: self.job@,
            pending_start: self.pending_start,
            handshake_complete: self.handshake_complete,
        }
    }
}

/// What follows a refusal by the wristband.
#[derive(Clone, Copy, PartialEq, Eq, Debug, Structural)]
pub enum Retry {
    Fail,
    Plus,
}

// ---------------------------------------------------------------- validity

impl PlusJobView {
    /// The chapters to send are chapters of the book, each once and in order; the
    /// chunks are those of the present chapter; refusals have been few.
    pub open spec fn wf(self) -> bool {
        &&& self.send_order.len() > 0
        &&& forall|i: int|
            0 <= i < self.send_order.len() ==> (#[trigger] self.send_order[i])
                < self.chapters.len()
        &&& forall|i: int, j: int|
            0 <= i < j < self.send_order.len() ==> (#[trigger] self.send_order[i])
                < (#[trigger] self.send_order[j])
        &&& forall|i: int|
            0 <= i < self.chapters.len() ==> (#[trigger] self.chapters[i]).index == i
        &&& self.total_words == chapters::total_words(self.chapters)
        &&& self.chunk_texts.len() > 0 ==> self.pos < self.send_order.len() && self.chunk_texts
            == chapters::chunks_of(self.chapter().content, PLUS_CHUNK_BYTES as nat)
        &&& self.retries <= MAX_RETRY
    }

    /// The chapter at the present position.
    pub open spec fn chapter(self) -> ChapterView {
        self.chapters[self.send_order[self.pos as int] as int]
    }

    /// The counters can be raised once more.
    pub open spec fn room(self) -> bool {
        &&& self.pos < usize::MAX
        &&& self.chunk_idx < usize::MAX
        &&& self.cover_idx < usize::MAX
    }
}

impl SessionView {
    pub open spec fn wf(self) -> bool {
        self.job matches JobView::Plus(t) ==> t.wf()
    }

    /// The counters can be raised once more.
    pub open spec fn room(self) -> bool {
        self.job matches JobView::Plus(t) ==> t.room()
    }

    /// The kind of the question that the session asks.
    pub open spec fn question(self) -> Option<QueryKind> {
        match self.job {
            JobView::Query(k) => Some(k),
            _ => None,
        }
    }

    /// The session after a handshake with the given count.
    pub open spec fn shaken(self, count: nat) -> SessionView {
        let complete = self.handshake_complete || count > 0;
        SessionView {
            handshake_complete: complete,
            pending_start: self.pending_start && !complete,
            ..self
        }
    }

    /// Whether the job begins with a handshake of the given count.
    pub open spec fn starts(self, count: nat) -> bool {
        self.pending_start && (self.handshake_complete || count > 0)
    }

    /// The session after one more refusal.
    pub open spec fn refused(self) -> SessionView {
        match self.job {
            JobView::Plus(t) => SessionView {
                job: JobView::Plus(PlusJobView { retries: t.retries + 1, ..t }),
                ..self
            },
            _ => self,
        }
    }

    /// What follows one more refusal: a few times the chunk is sent again.
    pub open spec fn verdict(self) -> Retry {
        match self.job {
            JobView::Plus(t) => if t.retries < MAX_RETRY {
                Retry::Plus
            } else {
                Retry::Fail
            },
            _ => Retry::Fail,
        }
    }
}

impl Session {
    /// The address of the wristband.
    pub fn device_addr(&self) -> (r: &str)
        ensures
            r@ == self@.device_addr,
    {
        self.device_addr.as_str()
    }

    /// Tells whether the session sends a book.
    pub fn is_transfer(&self) -> (r: bool)
        ensures
            r == (self@.job is Plus),
    {
        match self.job {
            Job::Plus(_) => true,
            Job::Query(_) => false,
        }
    }

    /// The kind of the question that the session asks.
    pub fn query_kind(&self) -> (r: Option<QueryKind>)
        ensures
            r == self@.question(),
    {
        match self.job {
            Job::Query(kind) => Some(kind),
            Job::Plus(_) => None,
        }
    }

    /// Takes note of a handshake; tells whether the job begins with it.
    pub fn handshake_progress(&mut self, count: usize) -> (r: bool)
        ensures
            final(self)@ == old(self)@.shaken(count as nat),
            r == old(self)@.starts(count as nat),
    {
        if count > 0 {
            self.handshake_complete = true;
        }
        let should_start = self.pending_start && self.handshake_complete;
        if should_start {
            self.pending_start = false;
        }
        should_start
    }

    /// Takes note of a refusal; tells what follows.
    pub fn bump_retry(&mut self) -> (r: Retry)
        requires
            old(self)@.wf(),
        ensures
            final(self)@ == old(self)@.refused(),
            r == old(self)@.verdict(),
    {
        match &mut self.job {
            Job::Plus(t) => {
                t.retries += 1;
                if t.retries <= MAX_RETRY {
                    Retry::Plus
                } else {
                    Retry::Fail
                }
            },
            Job::Query(_) => Retry::Fail,
        }
    }

    /// Tells whether the counters can be raised once more.
    pub fn has_room(&self) -> (r: bool)
        ensures
            r == self@.room(),
    {
        match &self.job {
            Job::Plus(t) => t.pos < usize::MAX && t.chunk_idx < usize::MAX && t.cover_idx
                < usize::MAX,
            Job::Query(_) => true,
        }
    }
}

/// A job begins at most once per handshake round: after it began, no further
/// handshake begins it, until the session waits for a start again.
pub proof fn a_job_begins_once(s: SessionView, first: nat, second: nat)
    requires
        s.starts(first),
    ensures
        !s.shaken(first).starts(second),
{
}

/// No handshake undoes a completed one.
pub proof fn handshakes_stay_complete(s: SessionView, count: nat)
    ensures
        s.handshake_complete ==> s.shaken(count).handshake_complete,
        count > 0 ==> s.shaken(count).handshake_complete,
        s.shaken(count).job == s.job,
        s.shaken(count).device_addr == s.device_addr,
{
}

// ---------------------------------------------------------------- building a session

/// A book with everything that goes along with it.
pub struct Upload {
    pub file_name: String,
    pub text: String,
    pub size: usize,
    pub split: SplitOptions,
    pub author: String,
    pub summary: String,
    pub cover: Option<Vec<u8>>,
    pub skip_synced: bool,
    pub synced: Vec<usize>,
}

/// A book with everything that goes along with it, as mathematics.
#[verifier::ext_equal]
pub struct UploadView {
    pub file_name: Seq<char>,
    pub text: Seq<char>,
    pub size: nat,
    pub split: SplitOptionsView,
    pub author: Seq<char>,
    pub summary: Seq<char>,
    pub cover: Option<Seq<u8>>,
    pub skip_synced: bool,
    pub synced: Seq<usize>,
}

/// An optional sequence of bytes.
pub open spec fn maybe_bytes(b: Option<Vec<u8>>) -> Option<Seq<u8>> {
    match b {
        Some(v) => Some(v@),
        None => None,
    }
}

impl View for Upload {
    type V = UploadView;

    open spec fn view(&self) -> UploadView {
        UploadView {
            file_name: self.file_name@,
            text: self.text@,
            size: self.size as nat,
            split: self.split@,
            author: self.author@,
            summary: self.summary@,
            cover: maybe_bytes(self.cover),
            skip_synced: self.skip_synced,
            synced: self.synced@,
        }
    }
}

/// The chapters below `n` that are sent, in order: all of them, or without those
/// that the wristband has.
pub open spec fn unsynced(n: nat, skip: bool, synced: Seq<usize>) -> Seq<usize>
    decreases n,
{
    if n == 0 {
        Seq::empty()
    } else {
        let last = (n - 1) as usize;
        let before = unsynced((n - 1) as nat, skip, synced);
        if skip && synced.contains(last) {
            before
        } else {
            before.push(last)
        }
    }
}

/// The text in runs of `n` characters.
pub open spec fn runs_of(s: Seq<char>, n: nat) -> Seq<Seq<char>>
    decreases s.len(),
{
    if s.len() == 0 || n == 0 {
        Seq::empty()
    } else if s.len() <= n {
        seq![s]
    } else {
        seq![s.take(n as int)] + runs_of(s.skip(n as int), n)
    }
}

/// The chunks of a cover.
pub open spec fn cover_chunks(cover: Option<Seq<u8>>) -> Seq<Seq<char>> {
    match cover {
        Some(bytes) => runs_of(base64::encoded(bytes), COVER_CHUNK_CHARS as nat),
        None => Seq::empty(),
    }
}

/// The session that sends a book, or why none can.
pub open spec fn session_of(addr: Seq<char>, up: UploadView) -> Result<SessionView, Seq<char>> {
    let cs = chapters::book_chapters(up.text, up.file_name, up.split);
    let order = unsynced(cs.len(), up.skip_synced, up.synced);
    if up.size == 0 || up.text.len() == 0 {
        Err("文件为空"@)
    } else if cs.len() == 0 {
        Err("未能切分出章节"@)
    } else if order.len() == 0 {
        Err("所有章节都已同步，无需重复发送"@)
    } else {
        Ok(
            SessionView {
                device_addr: addr,
                job: JobView::Plus(
                    PlusJobView {
                        file_name: up.file_name,
                        chapters: cs,
                        send_order: order,
                        pos: 0,
                        chunk_idx: 0,
                        chunk_texts: Seq::empty(),
                        total_words: chapters::total_words(cs),
                        author: up.author,
                        summary: up.summary,
                        cover_chunks: cover_chunks(up.cover),
                        cover_idx: 0,
                        cover_done: false,
                        last_chunk_time: None,
                        retries: 0,
                    },
                ),
                pending_start: true,
                handshake_complete: false,
            },
        )
    }
}

/// Cuts a text into runs of `size` characters.
pub fn chunk_string(s: &str, size: usize) -> (r: Vec<String>)
    requires
        size > 0,
    ensures
        text::texts(r@) == runs_of(s@, size as nat),
{
    broadcast use text::lemma_texts_push;

    let cs = text::chars_of(s);
    let mut out: Vec<String> = Vec::new();
    let mut i: usize = 0;
    assert(s@.skip(0) =~= s@);
    assert(text::texts(out@) =~= Seq::<Seq<char>>::empty());
    assert(Seq::<Seq<char>>::empty() + runs_of(s@, size as nat) =~= runs_of(s@, size as nat));
    while i < cs.len()
        invariant
            size > 0,
            i <= cs@.len(),
            cs@ == s@,
            text::texts(out@) + runs_of(s@.skip(i as int), size as nat) == runs_of(
                s@,
                size as nat,
            ),
        decreases cs@.len() - i,
    {
        let end = if cs.len() - i <= size {
            cs.len()
        } else {
            i + size
        };
        let piece = text::string_of(vstd::slice::slice_subrange(cs.as_slice(), i, end));
        let ghost rest = s@.skip(i as int);
        let ghost before = text::texts(out@);
        proof {
            assert(piece@ =~= rest.take(end - i));
            assert(rest.skip(end - i) =~= s@.skip(end as int));
            if rest.len() <= size {
                assert(rest.take(end - i) =~= rest);
                assert(runs_of(s@.skip(end as int), size as nat) =~= Seq::empty());
                assert(before + seq![piece@] =~= before.push(piece@) + Seq::<Seq<char>>::empty());
            } else {
                let tail = runs_of(s@.skip(end as int), size as nat);
                assert(before + (seq![piece@] + tail) =~= before.push(piece@) + tail);
            }
        }
        out.push(piece);
        i = end;
    }
    assert(s@.skip(i as int) =~= Seq::<char>::empty());
    assert(text::texts(out@) + Seq::<Seq<char>>::empty() =~= text::texts(out@));
    out
}

fn set_of(items: &Vec<usize>) -> (r: BTreeSet<usize>)
    ensures
        forall|x: usize| r@.contains(x) <==> items@.contains(x),
{
    broadcast use vstd::std_specs::btree::group_btree_axioms;

    let mut out: BTreeSet<usize> = BTreeSet::new();
    let mut i: usize = 0;
    while i < items.len()
        invariant
            i <= items@.len(),
            forall|x: usize| out@.contains(x) <==> items@.take(i as int).contains(x),
        decreases items@.len() - i,
    {
        assert(items@.take(i + 1) =~= items@.take(i as int).push(items@[i as int]));
        assert forall|x: usize|
            items@.take(i + 1).contains(x) <==> items@.take(i as int).contains(x) || x
                == items@[i as int] by {
            if x == items@[i as int] {
                assert(items@.take(i + 1)[i as int] == x);
            }
            if items@.take(i as int).contains(x) {
                let j = choose|j: int| 0 <= j < i && items@.take(i as int)[j] == x;
                assert(items@.take(i + 1)[j] == x);
            }
        }
        out.insert(items[i]);
        i += 1;
    }
    assert(items@.take(i as int) =~= items@);
    out
}

fn order_of(n: usize, skip: bool, synced: &Vec<usize>) -> (r: Vec<usize>)
    ensures
        r@ == unsynced(n as nat, skip, synced@),
{
    broadcast use vstd::std_specs::btree::group_btree_axioms;

    let skipped = if skip {
        set_of(synced)
    } else {
        BTreeSet::new()
    };
    let mut out: Vec<usize> = Vec::new();
    let mut i: usize = 0;
    while i < n
        invariant
            i <= n,
            forall|x: usize| skipped@.contains(x) <==> skip && synced@.contains(x),
            out@ == unsynced(i as nat, skip, synced@),
        decreases n - i,
    {
        if !skipped.contains(&i) {
            out.push(i);
        }
        i += 1;
    }
    out
}

/// The chapters that are sent: each chapter of the book that the wristband does
/// not have, or each chapter where none is skipped; once, and in rising order.
pub proof fn only_missing_chapters_are_sent(n: nat, skip: bool, synced: Seq<usize>)
    requires
        n <= usize::MAX,
    ensures
        forall|i: int|
            0 <= i < unsynced(n, skip, synced).len() ==> (#[trigger] unsynced(n, skip, synced)[i])
                < n,
        forall|i: int, j: int|
            0 <= i < j < unsynced(n, skip, synced).len() ==> (#[trigger] unsynced(
                n,
                skip,
                synced,
            )[i]) < (#[trigger] unsynced(n, skip, synced)[j]),
        forall|x: usize|
            #[trigger] unsynced(n, skip, synced).contains(x) <==> x < n && !(skip
                && synced.contains(x)),
    decreases n,
{
    if n > 0 {
        let before = unsynced((n - 1) as nat, skip, synced);
        let last = (n - 1) as usize;
        only_missing_chapters_are_sent((n - 1) as nat, skip, synced);
        let all = unsynced(n, skip, synced);
        assert forall|x: usize|
            #[trigger] all.contains(x) <==> x < n && !(skip && synced.contains(x)) by {
            if skip && synced.contains(last) {
                assert(all == before);
                assert(before.contains(x) <==> x < n - 1 && !(skip && synced.contains(x)));
            } else {
                assert(all == before.push(last));
                assert(before.contains(x) <==> x < n - 1 && !(skip && synced.contains(x)));
                if before.contains(x) {
                    let j = choose|j: int| 0 <= j < before.len() && before[j] == x;
                    assert(all[j] == x);
                }
                if x == last {
                    assert(all[before.len() as int] == x);
                }
                if all.contains(x) {
                    let j = choose|j: int| 0 <= j < all.len() && all[j] == x;
                    if j < before.len() {
                        assert(before[j] == x);
                    }
                }
            }
        }
    }
}

/// The runs of a text give the text back, and none is longer than asked for.
pub proof fn runs_restore_the_text(s: Seq<char>, n: nat)
    requires
        n > 0,
    ensures
        text::concat(runs_of(s, n)) == s,
        forall|i: int| 0 <= i < runs_of(s, n).len() ==> 0 < (#[trigger] runs_of(s, n)[i]).len() <= n,
        forall|i: int|
            0 <= i < runs_of(s, n).len() - 1 ==> (#[trigger] runs_of(s, n)[i]).len() == n,
    decreases s.len(),
{
    let all = runs_of(s, n);
    if s.len() == 0 {
    } else if s.len() <= n {
        assert(all.drop_last() =~= Seq::<Seq<char>>::empty());
        reveal_with_fuel(text::concat, 2);
        assert(Seq::<char>::empty() + s =~= s);
    } else {
        let rest = runs_of(s.skip(n as int), n);
        runs_restore_the_text(s.skip(n as int), n);
        assert(all.skip(1) =~= rest);
        chapters::lemma_concat_first(all);
        assert(s.take(n as int) + s.skip(n as int) =~= s);
        assert forall|i: int| 0 <= i < all.len() implies 0 < (#[trigger] all[i]).len() <= n by {
            if i > 0 {
                assert(all[i] == rest[i - 1]);
            }
        }
        assert forall|i: int| 0 <= i < all.len() - 1 implies (#[trigger] all[i]).len() == n by {
            if i > 0 {
                assert(all[i] == rest[i - 1]);
            }
        }
    }
}

/// The cover can be put together again from its chunks.
pub proof fn cover_chunks_restore_the_cover(bytes: Seq<u8>)
    ensures
        base64::decoded(text::concat(cover_chunks(Some(bytes)))) == bytes,
{
    runs_restore_the_text(base64::encoded(bytes), COVER_CHUNK_CHARS as nat);
    base64::encoding_can_be_decoded(bytes);
}

/// A new session is valid.
pub proof fn new_sessions_are_valid(addr: Seq<char>, up: UploadView)
    requires
        chapters::book_chapters(up.text, up.file_name, up.split).len() <= usize::MAX,
    ensures
        session_of(addr, up) matches Ok(s) ==> s.wf() && s.room(),
{
    let cs = chapters::book_chapters(up.text, up.file_name, up.split);
    only_missing_chapters_are_sent(cs.len(), up.skip_synced, up.synced);
    chapters::chapters_are_numbered(up.text, up.file_name, up.split);
}

/// Builds the session that sends a book, or says why none can.
pub fn build_session(device_addr: String, up: Upload) -> (r: Result<Session, &'static str>)
    ensures
        match r {
            Ok(s) => session_of(device_addr@, up@) == Ok::<SessionView, Seq<char>>(s@) && s@.wf(),
            Err(e) => session_of(device_addr@, up@) == Err::<SessionView, Seq<char>>(e@),
        },
{
    let limit = text::byte_len(up.text.as_str());
    if up.size == 0 || up.text.as_str().is_empty() {
        return Err("文件为空");
    }
    let cs = chapters::split_chapters_with(up.text.as_str(), up.file_name.as_str(), &up.split);
    if cs.len() == 0 {
        return Err("未能切分出章节");
    }
    proof {
        chapters::total_is_bounded(up.text@, up.file_name@, up.split@);
        assert(chapters::chapter_views(cs@).len() == cs@.len());
        new_sessions_are_valid(device_addr@, up@);
    }
    let total_words = chapters::sum_words(&cs);
    let send_order = order_of(cs.len(), up.skip_synced, &up.synced);
    if send_order.len() == 0 {
        return Err("所有章节都已同步，无需重复发送");
    }
    let cover_chunks = match &up.cover {
        Some(bytes) => chunk_string(
            base64::base64_encode(bytes.as_slice()).as_str(),
            COVER_CHUNK_CHARS,
        ),
        None => Vec::new(),
    };
    let chunk_texts: Vec<String> = Vec::new();
    assert(text::texts(chunk_texts@) =~= Seq::<Seq<char>>::empty());
    assert(text::texts(cover_chunks@) =~= self::cover_chunks(up@.cover));
    Ok(
        Session {
            device_addr,
            job: Job::Plus(
                PlusJob {
                    file_name: up.file_name,
                    chapters: cs,
                    send_order,
                    pos: 0,
                    chunk_idx: 0,
                    chunk_texts,
                    total_words,
                    author: up.author,
                    summary: up.summary,
                    cover_chunks,
                    cover_idx: 0,
                    cover_done: false,
                    last_chunk_time: None,
                    retries: 0,
                },
            ),
            pending_start: true,
            handshake_complete: false,
        },
    )
}

/// What the log says of a new session.
pub open spec fn session_line(t: PlusJobView) -> Seq<char> {
    let line = "[分章] "@ + text::decimal(t.chapters.len()) + " 章（发 "@ + text::decimal(
        t.send_order.len(),
    ) + " 章），共 "@ + text::decimal(t.total_words) + " 字"@;
    if t.cover_chunks.len() == 0 {
        line
    } else {
        line + "，封面 "@ + text::decimal(t.cover_chunks.len()) + " 块"@
    }
}

impl PlusJob {
    /// What the log says of the new session.
    pub fn session_text(&self) -> (r: String)
        ensures
            r@ == session_line(self@),
    {
        let mut line = "[分章] ".to_owned();
        line.append(text::usize_text(self.chapters.len()).as_str());
        line.append(" 章（发 ");
        line.append(text::usize_text(self.send_order.len()).as_str());
        line.append(" 章），共 ");
        line.append(text::usize_text(self.total_words).as_str());
        line.append(" 字");
        if self.cover_chunks.len() > 0 {
            line.append("，封面 ");
            line.append(text::usize_text(self.cover_chunks.len()).as_str());
            line.append(" 块");
        }
        line
    }
}

} // verus!
