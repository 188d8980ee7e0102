//! What holds of clicks, picked files, prompts and timers: what each one changes, and
//! what it asks of the host.
use crate::chapters::SplitMode;
use crate::chapters::SplitOptionsView;
use crate::laws;
use crate::protocol;
use crate::session::QueryKind;
use crate::state::DisconnectAction;
use crate::state::EffectView;
use crate::state::Field;
use crate::state::Gauge;
use crate::state::Panel;
use crate::state::PurposeView;
use crate::state::Tone;
use crate::state::UiView;
use crate::text;
use crate::transfer_laws::estimate_is_true;
use crate::ui;
use crate::view;
use vstd::prelude::*;

verus! {

// ---------------------------------------------------------------- what stays

/// The state without what only shows it or speaks of it: the log, the message and its
/// timer, and what the host has to do.
pub open spec fn substance(s: UiView) -> UiView {
    UiView {
        outbox: Seq::empty(),
        log: Seq::empty(),
        started_at: None,
        status_message: None,
        status_tone: Tone::Neutral,
        hide_message_timer_id: None,
        next_timer: 0,
        ..s
    }
}

/// The last line of the log ends with the message.
pub open spec fn logged(s: UiView, message: Seq<char>) -> bool {
    s.log.len() > 0 && exists|stamp: Seq<char>| s.log.last() == #[trigger] (stamp + message)
}

/// Whatever is new among the effects shows the window or deals with timers, and what
/// was there stays.
pub open spec fn only_shows(before: UiView, after: UiView) -> bool {
    &&& before.outbox.len() <= after.outbox.len()
    &&& forall|i: int|
        0 <= i < before.outbox.len() ==> #[trigger] after.outbox[i] == before.outbox[i]
    &&& forall|i: int|
        before.outbox.len() <= i < after.outbox.len() ==> (#[trigger] after.outbox[i] is Render)
            || after.outbox[i] is SetTimer || after.outbox[i] is ClearTimer
}

proof fn lemma_shows(a: UiView, b: UiView, c: UiView)
    requires
        only_shows(a, b),
        only_shows(b, c),
    ensures
        only_shows(a, c),
{
    assert forall|i: int| 0 <= i < a.outbox.len() implies #[trigger] c.outbox[i] == a.outbox[i] by {
        assert(c.outbox[i] == b.outbox[i]);
    }
    assert forall|i: int| a.outbox.len() <= i < c.outbox.len() implies (
    #[trigger] c.outbox[i] is Render) || c.outbox[i] is SetTimer || c.outbox[i] is ClearTimer by {
        if i < b.outbox.len() {
            assert(c.outbox[i] == b.outbox[i]);
        }
    }
}

pub(crate) proof fn lemma_logged(s: UiView, message: Seq<char>, now: u64)
    ensures
        logged(s.logging(message, now), message),
        substance(s.logging(message, now)) == substance(s),
        s.logging(message, now).outbox == s.outbox,
        s.logging(message, now).status_message == s.status_message,
        s.logging(message, now).chapter_estimate == s.chapter_estimate,
{
    reveal(UiView::logging);
    let start = match s.started_at {
        Some(t) => t,
        None => now,
    };
    let line = "["@ + crate::state::stamp(start, now) + "] "@ + message;
    assert(s.logging(message, now).log.last() == line);
    assert(line =~= ("["@ + crate::state::stamp(start, now) + "] "@) + message);
}

proof fn lemma_drawn(s: UiView)
    ensures
        substance(s.drawn()) == substance(s),
        only_shows(s, s.drawn()),
        s.drawn().log == s.log,
        s.drawn().status_message == s.status_message,
        s.drawn().status_tone == s.status_tone,
{
    reveal(UiView::drawn);
}

proof fn lemma_said(s: UiView, message: Seq<char>, tone: Tone, hide: bool)
    ensures
        substance(s.saying(message, tone, hide)) == substance(s),
        only_shows(s, s.saying(message, tone, hide)),
        s.saying(message, tone, hide).log == s.log,
        s.saying(message, tone, hide).status_message == Some(message),
        s.saying(message, tone, hide).status_tone == tone,
{
    reveal(UiView::saying);
    reveal(UiView::hiding);
    reveal(UiView::without_hide_timer);
    reveal(UiView::clearing);
    reveal(UiView::timing);
}

/// An estimate that was made is true.
proof fn lemma_estimated(s: UiView)
    ensures
        estimate_is_true(s.estimated()),
        substance(s.estimated()) == substance(
            UiView { chapter_estimate: s.estimated().chapter_estimate, ..s },
        ),
        s.estimated().outbox == s.outbox,
        s.estimated().log == s.log,
{
    reveal(UiView::estimated);
}

// ---------------------------------------------------------------- names of clicks

/// The names of the buttons.
pub open spec fn button_names() -> Seq<Seq<char>> {
    seq![
        "pick_file"@,
        "send_file"@,
        "cancel_send"@,
        "pick_cover"@,
        "clear_cover"@,
        "cycle_split"@,
        "words_up"@,
        "words_down"@,
        "toggle_skip"@,
        "panel_send"@,
        "panel_device"@,
        "panel_log"@,
        "refresh_device"@,
        "load_settings"@,
        "clear_log"@,
        "edit_author"@,
        "edit_summary"@,
        "edit_keyword"@,
        "cycle_disconnect"@,
    ]
}

/// No two buttons have the same name.
pub proof fn buttons_have_distinct_names(i: int, j: int)
    requires
        0 <= i < j < button_names().len(),
    ensures
        button_names()[i] != button_names()[j],
{
    reveal_strlit("pick_file");
    reveal_strlit("send_file");
    reveal_strlit("cancel_send");
    reveal_strlit("pick_cover");
    reveal_strlit("clear_cover");
    reveal_strlit("cycle_split");
    reveal_strlit("words_up");
    reveal_strlit("words_down");
    reveal_strlit("toggle_skip");
    reveal_strlit("panel_send");
    reveal_strlit("panel_device");
    reveal_strlit("panel_log");
    reveal_strlit("refresh_device");
    reveal_strlit("load_settings");
    reveal_strlit("clear_log");
    reveal_strlit("edit_author");
    reveal_strlit("edit_summary");
    reveal_strlit("edit_keyword");
    reveal_strlit("cycle_disconnect");
    let names = button_names();
    let lens: Seq<nat> = seq![
        9,
        9,
        11,
        10,
        11,
        11,
        8,
        10,
        11,
        10,
        12,
        9,
        14,
        13,
        9,
        11,
        12,
        12,
        16,
    ];
    let firsts: Seq<char> = seq![
        'p',
        's',
        'c',
        'p',
        'c',
        'c',
        'w',
        'w',
        't',
        'p',
        'p',
        'p',
        'r',
        'l',
        'c',
        'e',
        'e',
        'e',
        'c',
    ];
    let seconds: Seq<char> = seq![
        'i',
        'e',
        'a',
        'i',
        'l',
        'y',
        'o',
        'o',
        'o',
        'a',
        'a',
        'a',
        'e',
        'o',
        'l',
        'd',
        'd',
        'd',
        'y',
    ];
    let sixths: Seq<char> = seq![
        'f',
        'f',
        'l',
        'c',
        '_',
        '_',
        '_',
        '_',
        'e',
        '_',
        '_',
        '_',
        's',
        's',
        '_',
        'a',
        's',
        'k',
        '_',
    ];
    assert forall|k: int| 0 <= k < 19 implies (#[trigger] names[k]).len() == lens[k] && names[k][0]
        == firsts[k] && names[k][1] == seconds[k] && names[k][5] == sixths[k] by {
        if k < 7 {
        } else if k < 13 {
        } else {
        }
    }
    assert(lens[i] != lens[j] || firsts[i] != firsts[j] || seconds[i] != seconds[j] || sixths[i]
        != sixths[j]);
}

proof fn lemma_buttons()
    ensures
        forall|i: int, j: int|
            0 <= i < j < button_names().len() ==> (#[trigger] button_names()[i]) != (
            #[trigger] button_names()[j]),
        button_names()[0] == "pick_file"@,
        button_names()[1] == "send_file"@,
        button_names()[2] == "cancel_send"@,
        button_names()[3] == "pick_cover"@,
        button_names()[4] == "clear_cover"@,
        button_names()[5] == "cycle_split"@,
        button_names()[6] == "words_up"@,
        button_names()[7] == "words_down"@,
        button_names()[8] == "toggle_skip"@,
        button_names()[9] == "panel_send"@,
        button_names()[10] == "panel_device"@,
        button_names()[11] == "panel_log"@,
        button_names()[12] == "refresh_device"@,
        button_names()[13] == "load_settings"@,
        button_names()[14] == "clear_log"@,
        button_names()[15] == "edit_author"@,
        button_names()[16] == "edit_summary"@,
        button_names()[17] == "edit_keyword"@,
        button_names()[18] == "cycle_disconnect"@,
{
    assert forall|i: int, j: int| 0 <= i < j < button_names().len() implies (
    #[trigger] button_names()[i]) != (#[trigger] button_names()[j]) by {
        buttons_have_distinct_names(i, j);
    }
}

// ---------------------------------------------------------------- options of the split

/// The way to split after the present one, in the order of the window.
pub open spec fn next_mode(mode: SplitMode) -> SplitMode {
    match mode {
        SplitMode::Auto => SplitMode::Default,
        SplitMode::Default => SplitMode::Loose,
        SplitMode::Loose => SplitMode::English,
        SplitMode::English => SplitMode::ZhNumDot,
        SplitMode::ZhNumDot => SplitMode::DigitDot,
        SplitMode::DigitDot => SplitMode::ByWordCount,
        SplitMode::ByWordCount => SplitMode::Custom,
        SplitMode::Custom => SplitMode::Auto,
    }
}

/// A click on the way to split takes the next one, and the estimate follows; while
/// something is going on, it does nothing.
pub proof fn a_click_takes_the_next_way_to_split(s: UiView, now: u64)
    ensures
        s.busy() ==> s.clicked("cycle_split"@, now) == s,
        !s.busy() ==> ({
            let after = s.clicked("cycle_split"@, now);
            &&& substance(after) == substance(
                UiView {
                    split: SplitOptionsView { mode: next_mode(s.split.mode), ..s.split },
                    chapter_estimate: after.chapter_estimate,
                    ..s
                },
            )
            &&& estimate_is_true(after)
            &&& only_shows(s, after)
            &&& logged(after, "[分章] "@ + after.split.mode.name())
        }),
{
    lemma_buttons();
    reveal(UiView::split_cycled);
    if !s.busy() {
        let mode = s.split.mode.successor();
        let s1 = UiView { split: SplitOptionsView { mode, ..s.split }, ..s };
        lemma_logged(s1, "[分章] "@ + mode.name(), now);
        let s2 = s1.logging("[分章] "@ + mode.name(), now);
        lemma_estimated(s2);
        lemma_drawn(s2.estimated());
        let after = s.clicked("cycle_split"@, now);
        assert(substance(after).split == substance(s2).split);
        assert(substance(after) =~= substance(
            UiView {
                split: SplitOptionsView { mode: next_mode(s.split.mode), ..s.split },
                chapter_estimate: after.chapter_estimate,
                ..s
            },
        ));
        lemma_true_kept(s2.estimated(), after);
    }
}

/// An estimate stays true while the book and the split stay.
proof fn lemma_true_kept(a: UiView, b: UiView)
    requires
        substance(b) == substance(a),
        estimate_is_true(a),
    ensures
        estimate_is_true(b),
{
    assert(substance(a).file_text == a.file_text && substance(a).file_name == a.file_name && substance(a).split
        == a.split && substance(a).chapter_estimate == a.chapter_estimate);
    assert(substance(b).file_text == b.file_text && substance(b).file_name == b.file_name && substance(b).split
        == b.split && substance(b).chapter_estimate == b.chapter_estimate);
}

/// A click on more or fewer words changes the words per chapter by five hundred,
/// between five hundred and twenty thousand, and the estimate follows.
pub proof fn a_click_changes_the_words_per_chapter(s: UiView, now: u64)
    requires
        500 <= s.split.words_per_chapter <= 20000,
    ensures
        ({
            let up = s.clicked("words_up"@, now);
            let down = s.clicked("words_down"@, now);
            let n = s.split.words_per_chapter;
            &&& up.split.words_per_chapter == (if n + 500 <= 20000 {
                n + 500
            } else {
                20000
            })
            &&& down.split.words_per_chapter == (if n >= 1000 {
                n - 500
            } else {
                500
            })
            &&& substance(up) == substance(
                UiView {
                    split: SplitOptionsView {
                        words_per_chapter: up.split.words_per_chapter,
                        ..s.split
                    },
                    chapter_estimate: up.chapter_estimate,
                    ..s
                },
            )
            &&& substance(down) == substance(
                UiView {
                    split: SplitOptionsView {
                        words_per_chapter: down.split.words_per_chapter,
                        ..s.split
                    },
                    chapter_estimate: down.chapter_estimate,
                    ..s
                },
            )
            &&& estimate_is_true(up) && estimate_is_true(down)
            &&& only_shows(s, up) && only_shows(s, down)
        }),
{
    lemma_buttons();
    lemma_words(s, true);
    lemma_words(s, false);
}

proof fn lemma_words(s: UiView, up: bool)
    requires
        500 <= s.split.words_per_chapter <= 20000,
    ensures
        ({
            let after = s.words_stepped(up);
            let n = s.split.words_per_chapter as int;
            &&& after.split.words_per_chapter == (if up {
                if n + 500 <= 20000 {
                    n + 500
                } else {
                    20000
                }
            } else {
                if n >= 1000 {
                    n - 500
                } else {
                    500
                }
            })
            &&& substance(after) == substance(
                UiView {
                    split: SplitOptionsView {
                        words_per_chapter: after.split.words_per_chapter,
                        ..s.split
                    },
                    chapter_estimate: after.chapter_estimate,
                    ..s
                },
            )
            &&& estimate_is_true(after)
            &&& only_shows(s, after)
        }),
{
    reveal(UiView::words_stepped);
    let next = if up {
        s.split.words_per_chapter as int + 500
    } else {
        s.split.words_per_chapter as int - 500
    };
    let s1 = UiView {
        split: SplitOptionsView {
            words_per_chapter: crate::settings::clamp(next, 500, 20000) as nat,
            ..s.split
        },
        ..s
    };
    lemma_estimated(s1);
    lemma_drawn(s1.estimated());
    let after = s.words_stepped(up);
    assert(substance(after).split == s1.split);
    lemma_true_kept(s1.estimated(), after);
}

/// The names by which the window shows the ways to split.
pub proof fn the_ways_to_split_have_names(mode: SplitMode)
    ensures
        mode.name() == (match mode {
            SplitMode::Auto => "智能识别"@,
            SplitMode::Default => "第X章/回"@,
            SplitMode::Loose => "宽松匹配"@,
            SplitMode::English => "Chapter N"@,
            SplitMode::ZhNumDot => "中文数字 一、"@,
            SplitMode::DigitDot => "数字 1. 2、"@,
            SplitMode::ByWordCount => "按字数分章"@,
            SplitMode::Custom => "行首关键字"@,
        }),
        mode.successor() == next_mode(mode),
        next_mode(mode) != mode,
{
}

// ---------------------------------------------------------------- other options

/// A click on the choice for lost links takes the other one, and says which.
pub proof fn a_click_takes_the_other_choice_for_lost_links(s: UiView, now: u64)
    ensures
        ({
            let after = s.clicked("cycle_disconnect"@, now);
            let other = if s.disconnect_action == DisconnectAction::Retry {
                DisconnectAction::Cancel
            } else {
                DisconnectAction::Retry
            };
            &&& substance(after) == substance(UiView { disconnect_action: other, ..s })
            &&& only_shows(s, after)
            &&& logged(
                after,
                if other == DisconnectAction::Retry {
                    "[设置] 掉线处理："@ + "重新尝试(3次)"@ + " · "@ + "掉线后自动重连，最多 3 次并续传"@
                } else {
                    "[设置] 掉线处理："@ + "取消传输"@ + " · "@ + "掉线后立即终止本次传输"@
                },
            )
        }),
{
    lemma_buttons();
    reveal(UiView::disconnect_cycled);
    let a = s.disconnect_action.other();
    let s1 = UiView { disconnect_action: a, ..s };
    let line = "[设置] 掉线处理："@ + a.name() + " · "@ + a.remark();
    lemma_logged(s1, line, now);
    lemma_drawn(s1.logging(line, now));
}

/// A click on skipping turns it over, and says how it is now.
pub proof fn a_click_turns_skipping_over(s: UiView, now: u64)
    ensures
        ({
            let after = s.clicked("toggle_skip"@, now);
            &&& substance(after) == substance(UiView { skip_synced: !s.skip_synced, ..s })
            &&& only_shows(s, after)
            &&& logged(
                after,
                if after.skip_synced {
                    "[选项] 跳过已同步章节："@ + "开"@
                } else {
                    "[选项] 跳过已同步章节："@ + "关"@
                },
            )
        }),
{
    lemma_buttons();
    reveal(UiView::skip_toggled);
    let s1 = UiView { skip_synced: !s.skip_synced, ..s };
    let line = "[选项] 跳过已同步章节："@ + if s.skip_synced {
        "关"@
    } else {
        "开"@
    };
    lemma_logged(s1, line, now);
    lemma_drawn(s1.logging(line, now));
    assert(substance(s.clicked("toggle_skip"@, now)).skip_synced == !s.skip_synced);
}

/// A click on a part of the window shows that part; one on the log's button empties
/// the log.
pub proof fn a_click_shows_a_part_of_the_window(s: UiView, now: u64)
    ensures
        substance(s.clicked("panel_send"@, now)) == substance(UiView { panel: Panel::Send, ..s }),
        substance(s.clicked("panel_device"@, now)) == substance(UiView { panel: Panel::Device, ..s }),
        substance(s.clicked("panel_log"@, now)) == substance(UiView { panel: Panel::Log, ..s }),
        s.clicked("panel_log"@, now).log == s.log,
        substance(s.clicked("clear_log"@, now)) == substance(s),
        s.clicked("clear_log"@, now).log.len() == 0,
        only_shows(s, s.clicked("panel_send"@, now)),
        only_shows(s, s.clicked("panel_device"@, now)),
        only_shows(s, s.clicked("panel_log"@, now)),
        only_shows(s, s.clicked("clear_log"@, now)),
{
    lemma_buttons();
    lemma_drawn(UiView { panel: Panel::Send, ..s });
    lemma_drawn(UiView { panel: Panel::Device, ..s });
    lemma_drawn(UiView { panel: Panel::Log, ..s });
    lemma_drawn(UiView { log: Seq::empty(), ..s });
}

// ---------------------------------------------------------------- picking and entering

/// A click on a button that picks lets the host pick, unless something is going on.
pub proof fn a_click_lets_the_host_pick(s: UiView, now: u64)
    ensures
        s.clicked("pick_file"@, now) == (if s.busy() {
            s
        } else {
            s.with(EffectView::PickFile)
        }),
        s.clicked("pick_cover"@, now) == (if s.busy() {
            s
        } else {
            s.with(EffectView::PickCover)
        }),
{
    lemma_buttons();
}

/// The book that was picked is the text of the file: the window holds its name, its
/// size and its text, what was known of another book is forgotten, the estimate is
/// that of the new book, and the wristband is looked for.
pub proof fn a_picked_book_is_held(s: UiView, name: Seq<char>, bytes: Seq<u8>, now: u64)
    requires
        text::trim(name).len() > 0 || bytes.len() > 0,
        vstd::utf8::valid_utf8(bytes),
    ensures
        ({
            let after = s.file_picked(name, bytes, now);
            &&& after.file_name == Some(name)
            &&& after.file_text == Some(vstd::utf8::decode_utf8(bytes))
            &&& after.file_size_bytes == bytes.len()
            &&& estimate_is_true(after)
            &&& !after.band.status_known && after.band.synced_chapters.len() == 0
            &&& after.band.settings == s.band.settings
            &&& after.progress == (Gauge { percent: 0, bar: 0 })
            &&& after.split == s.split && after.author == s.author && after.summary == s.summary
            &&& after.cover_bytes == s.cover_bytes
            &&& after.outbox.last() is ProbeDevices
            &&& logged(
                after,
                "[文件] "@ + name + " ("@ + crate::display::size_text(bytes.len()) + ")"@,
            )
        }),
{
    let book = vstd::utf8::decode_utf8(bytes);
    ui::the_size_is_that_of_the_file(bytes);
    reveal(UiView::book_picked);
    let s1 = UiView {
        file_size_bytes: bytes.len(),
        file_text: Some(book),
        file_name: Some(name),
        progress: Gauge::nothing(),
        speed_text: None,
        phase_text: None,
        band: crate::state::BandView {
            status_known: false,
            synced_chapters: Seq::empty(),
            ..s.band
        },
        ..s.silent()
    };
    let line = "[文件] "@ + name + " ("@ + crate::display::size_text(bytes.len()) + ")"@;
    lemma_logged(s1, line, now);
    let s2 = s1.logging(line, now);
    lemma_estimated(s2);
    lemma_drawn(s2.estimated());
    let s3 = s2.estimated().drawn();
    lemma_true_kept(s2.estimated(), s3);
    assert(substance(s3) == substance(UiView { chapter_estimate: s3.chapter_estimate, ..s1 }));
    let c = substance(s3);
    assert(c.file_name == s3.file_name && c.file_text == s3.file_text && c.file_size_bytes
        == s3.file_size_bytes && c.band == s3.band && c.progress == s3.progress && c.split
        == s3.split && c.author == s3.author && c.summary == s3.summary && c.cover_bytes
        == s3.cover_bytes);
}

/// A file that is no text is refused, and no file changes nothing.
pub proof fn a_file_that_is_no_text_is_refused(
    s: UiView,
    name: Seq<char>,
    bytes: Seq<u8>,
    now: u64,
)
    ensures
        text::trim(name).len() == 0 && bytes.len() == 0 ==> s.file_picked(name, bytes, now) == s,
        bytes.len() > 0 && !vstd::utf8::valid_utf8(bytes) ==> ({
            let after = s.file_picked(name, bytes, now);
            &&& substance(after) == substance(s)
            &&& after.status_message == Some("文件不是 UTF-8 文本，请另存为 UTF-8 后重试"@)
            &&& after.status_tone == Tone::Error
            &&& only_shows(s, after)
        }),
{
    let said = s.saying("文件不是 UTF-8 文本，请另存为 UTF-8 后重试"@, Tone::Error, true);
    lemma_said(s, "文件不是 UTF-8 文本，请另存为 UTF-8 后重试"@, Tone::Error, true);
    lemma_logged(said, "[错误] 文件不是 UTF-8"@, now);
    let told = said.logging("[错误] 文件不是 UTF-8"@, now);
    lemma_drawn(told);
    assert(told.status_tone == said.status_tone) by {
        reveal(UiView::logging);
    }
    lemma_shows(s, told, told.drawn());
}

/// A cover of at most 409600 bytes is held as it is; a longer one is not, and takes
/// the present one away; no cover changes nothing.
pub proof fn a_picked_cover_is_held(s: UiView, name: Seq<char>, bytes: Seq<u8>, now: u64)
    ensures
        ({
            let after = s.cover_picked(name, bytes, now);
            &&& bytes.len() == 0 ==> after == s
            &&& 0 < bytes.len() <= 409600 ==> substance(after) == substance(
                UiView { cover_name: Some(name), cover_bytes: Some(bytes), ..s },
            ) && only_shows(s, after)
            &&& bytes.len() > 409600 ==> substance(after) == substance(
                UiView { cover_name: None, cover_bytes: None, ..s },
            ) && only_shows(s, after) && after.status_tone == Tone::Error
        }),
{
    reveal(UiView::cover_refused);
    reveal(UiView::cover_taken);
    let s1 = UiView { cover_name: Some(name), cover_bytes: Some(bytes), ..s };
    let line = "[封面] "@ + name + " ("@ + crate::display::size_text(bytes.len()) + ")"@;
    lemma_logged(s1, line, now);
    lemma_drawn(s1.logging(line, now).silent());
    let s2 = UiView { cover_name: None, cover_bytes: None, ..s };
    let message = "封面超过 "@ + crate::display::size_text(409600) + "，已忽略"@;
    lemma_said(s2, message, Tone::Error, true);
    lemma_drawn(s2.saying(message, Tone::Error, true));
    lemma_shows(
        s2,
        s2.saying(message, Tone::Error, true),
        s2.saying(message, Tone::Error, true).drawn(),
    );
    assert(substance(s1.logging(line, now).silent()) == substance(s1.logging(line, now)));
}

/// A click takes the cover away.
pub proof fn a_click_takes_the_cover_away(s: UiView, now: u64)
    ensures
        substance(s.clicked("clear_cover"@, now)) == substance(
            UiView { cover_name: None, cover_bytes: None, ..s },
        ),
        only_shows(s, s.clicked("clear_cover"@, now)),
{
    lemma_buttons();
    reveal(UiView::cover_cleared);
    let s1 = UiView { cover_name: None, cover_bytes: None, ..s };
    lemma_logged(s1, "[封面] 已清除"@, now);
    lemma_drawn(s1.logging("[封面] 已清除"@, now));
}

/// A click on an edit button asks for that text, under its name.
pub proof fn a_click_asks_for_a_text(s: UiView, now: u64)
    ensures
        s.clicked("edit_author"@, now) == s.with(
            EffectView::Prompt {
                field: Field::Author,
                title: "作者"@,
                tip: "留空表示不写入手环书库"@,
            },
        ),
        s.clicked("edit_summary"@, now) == s.with(
            EffectView::Prompt {
                field: Field::Summary,
                title: "简介"@,
                tip: "留空表示不写入手环书库"@,
            },
        ),
        s.clicked("edit_keyword"@, now) == s.with(
            EffectView::Prompt {
                field: Field::Keyword,
                title: "行首关键字"@,
                tip: "多个关键字用 | 分隔，例如：卷|###"@,
            },
        ),
{
    lemma_buttons();
}

/// A text that was entered and confirmed is held, trimmed, in its own place, and no
/// other text changes; one that was not confirmed changes nothing.
pub proof fn an_entered_text_is_held(
    s: UiView,
    button: Seq<char>,
    input: Seq<char>,
    field: Field,
    now: u64,
)
    ensures
        button != "ok"@ ==> s.prompted(field, button, input, now) == s,
        substance(s.prompted(Field::Author, "ok"@, input, now)) == substance(
            UiView { author: text::trim(input), ..s },
        ),
        substance(s.prompted(Field::Summary, "ok"@, input, now)) == substance(
            UiView { summary: text::trim(input), ..s },
        ),
        ({
            let after = s.prompted(Field::Keyword, "ok"@, input, now);
            &&& substance(after) == substance(
                UiView {
                    split: SplitOptionsView { keyword: text::trim(input), ..s.split },
                    chapter_estimate: after.chapter_estimate,
                    ..s
                },
            )
            &&& estimate_is_true(after)
        }),
{
    reveal(UiView::entered);
    let t = text::trim(input);
    lemma_drawn(UiView { author: t, ..s });
    lemma_drawn(UiView { summary: t, ..s });
    let s1 = UiView { split: SplitOptionsView { keyword: t, ..s.split }, ..s };
    lemma_estimated(s1);
    let line = "[分章] 关键字："@ + view::text_or_unset(t);
    lemma_logged(s1.estimated(), line, now);
    lemma_drawn(s1.estimated().logging(line, now));
    lemma_true_kept(s1.estimated(), s.prompted(Field::Keyword, "ok"@, input, now));
}

// ---------------------------------------------------------------- questions, and calling off

/// A click on refresh asks the wristband for its state, and one on load for its
/// settings, where nothing is going on.
pub proof fn a_click_asks_the_wristband(s: UiView, now: u64)
    requires
        !s.busy(),
    ensures
        s.clicked("refresh_device"@, now).outbox.last() == EffectView::Connect(
            PurposeView::Query { kind: QueryKind::Status, with_book: s.file_name is Some },
        ),
        s.clicked("load_settings"@, now).outbox.last() == EffectView::Connect(
            PurposeView::Query { kind: QueryKind::Settings, with_book: s.file_name is Some },
        ),
        substance(s.clicked("refresh_device"@, now)) == substance(
            UiView { is_querying: true, query_expect: 0, ..s },
        ),
        substance(s.clicked("load_settings"@, now)) == substance(
            UiView { is_querying: true, query_expect: 0, ..s },
        ),
{
    lemma_buttons();
    reveal(UiView::querying);
    lemma_drawn(UiView { is_querying: true, query_expect: 0, ..s.silent() });
}

/// A click on cancel ends what is going on, tells the wristband so, and says so.
pub proof fn a_click_calls_off(s: UiView, now: u64)
    ensures
        !s.busy() ==> s.clicked("cancel_send"@, now) == s,
        s.busy() ==> ({
            let after = s.clicked("cancel_send"@, now);
            &&& laws::idle(after)
            &&& after.status_message == Some("已取消"@)
            &&& after.progress == (Gauge { percent: 0, bar: 0 })
            &&& s.session matches Some(session) ==> after.outbox.contains(
                EffectView::Send {
                    addr: session.device_addr,
                    payload: protocol::wire(protocol::action("cancel"@)),
                },
            )
        }),
{
    lemma_buttons();
    reveal(UiView::cancelled);
    if s.busy() {
        let told = match s.session {
            Some(session) => s.with(
                EffectView::Send {
                    addr: session.device_addr,
                    payload: protocol::wire(protocol::action("cancel"@)),
                },
            ),
            None => s,
        };
        laws::lemma_refreshed(told, "已取消"@, "[操作] 已取消"@, now);
        if let Some(session) = s.session {
            let e = EffectView::Send {
                addr: session.device_addr,
                payload: protocol::wire(protocol::action("cancel"@)),
            };
            assert(told.outbox[s.outbox.len() as int] == e);
            laws::lemma_outbox_grows(told, "已取消"@, "[操作] 已取消"@, now);
            assert(s.clicked("cancel_send"@, now).outbox[s.outbox.len() as int] == e);
        }
    }
}

/// A click on cancel is told from the others.
pub(crate) proof fn lemma_cancel_name(s: UiView, now: u64)
    ensures
        s.clicked("cancel_send"@, now) == s.cancelled(now),
{
    lemma_buttons();
}

/// A click that nothing has the name of does nothing.
pub proof fn other_clicks_do_nothing(s: UiView, event: Seq<char>, now: u64)
    requires
        !button_names().contains(event),
        !text::starts_with(event, "setting:"@),
        !text::starts_with(event, "set_inc:"@),
        !text::starts_with(event, "set_dec:"@),
    ensures
        s.clicked(event, now) == s,
{
    lemma_buttons();
    let names = button_names();
    assert forall|i: int| 0 <= i < names.len() implies #[trigger] names[i] != event by {}
}

// ---------------------------------------------------------------- timers

/// The tags of the timers differ.
pub(crate) proof fn lemma_tags()
    ensures
        "timer_hide_message"@ != "timer_start_handshake"@,
        "timer_hide_message"@ != "timer_handshake_timeout"@,
        "timer_hide_message"@ != "timer_transfer_watchdog"@,
        "timer_hide_message"@ != "timer_reconnect_attempt"@,
        "timer_hide_message"@ != "timer_refresh_after_cancel"@,
        "timer_hide_message"@ != "timer_query_timeout"@,
        "timer_start_handshake"@ != "timer_handshake_timeout"@,
        "timer_start_handshake"@ != "timer_transfer_watchdog"@,
        "timer_start_handshake"@ != "timer_reconnect_attempt"@,
        "timer_start_handshake"@ != "timer_refresh_after_cancel"@,
        "timer_start_handshake"@ != "timer_query_timeout"@,
        "timer_handshake_timeout"@ != "timer_transfer_watchdog"@,
        "timer_handshake_timeout"@ != "timer_reconnect_attempt"@,
        "timer_handshake_timeout"@ != "timer_refresh_after_cancel"@,
        "timer_handshake_timeout"@ != "timer_query_timeout"@,
        "timer_transfer_watchdog"@ != "timer_reconnect_attempt"@,
        "timer_transfer_watchdog"@ != "timer_refresh_after_cancel"@,
        "timer_transfer_watchdog"@ != "timer_query_timeout"@,
        "timer_reconnect_attempt"@ != "timer_refresh_after_cancel"@,
        "timer_reconnect_attempt"@ != "timer_query_timeout"@,
        "timer_refresh_after_cancel"@ != "timer_query_timeout"@,
{
    reveal_strlit("timer_hide_message");
    reveal_strlit("timer_start_handshake");
    reveal_strlit("timer_handshake_timeout");
    reveal_strlit("timer_transfer_watchdog");
    reveal_strlit("timer_reconnect_attempt");
    reveal_strlit("timer_refresh_after_cancel");
    reveal_strlit("timer_query_timeout");
    assert("timer_hide_message"@.len() == 18 && "timer_start_handshake"@.len() == 21
        && "timer_handshake_timeout"@.len() == 23 && "timer_transfer_watchdog"@.len() == 23
        && "timer_reconnect_attempt"@.len() == 23 && "timer_refresh_after_cancel"@.len() == 26
        && "timer_query_timeout"@.len() == 19);
    assert("timer_handshake_timeout"@[6] == 'h' && "timer_transfer_watchdog"@[6] == 't'
        && "timer_reconnect_attempt"@[6] == 'r');
}

/// A message goes away when its time is over.
pub proof fn a_message_goes_away(s: UiView, now: u64)
    ensures
        ({
            let after = s.timed_out("timer_hide_message"@, now);
            &&& after.status_message is None
            &&& after.hide_message_timer_id is None
            &&& substance(after) == substance(s)
            &&& only_shows(s, after)
        }),
{
    lemma_tags();
    lemma_drawn(UiView { hide_message_timer_id: None, ..s.silent() });
    reveal(UiView::drawn);
}

/// The first handshake goes to the wristband of the session, and must be answered
/// within three seconds.
pub proof fn the_first_handshake_goes_out(s: UiView, session: crate::session::SessionView, now: u64)
    requires
        s.session == Some(session),
    ensures
        ({
            let after = s.timed_out("timer_start_handshake"@, now);
            &&& after.outbox.last() == (EffectView::Send {
                addr: session.device_addr,
                payload: protocol::wire(protocol::handshake_members(0, s.peer_version)),
            })
            &&& after.handshake_timer_id == Some(s.next_timer)
            &&& after.outbox.contains(
                EffectView::SetTimer {
                    token: s.next_timer,
                    delay_ms: 3000,
                    tag: "timer_handshake_timeout"@,
                },
            )
            &&& after.session == s.session
        }),
{
    lemma_tags();
    reveal(UiView::handshake_due);
    reveal(UiView::handshake_timed);
    reveal(UiView::without_handshake_timer);
    reveal(UiView::clearing);
    reveal(UiView::timing);
    let after = s.timed_out("timer_start_handshake"@, now);
    let n = after.outbox.len() as int;
    assert(after.outbox[n - 2] == (EffectView::SetTimer {
        token: s.next_timer,
        delay_ms: 3000,
        tag: "timer_handshake_timeout"@,
    }));
}

/// A handshake that is not answered is a lost link during a transfer, and the end of
/// a question; a question that is not answered ends too.
pub proof fn what_is_not_answered_ends(s: UiView, now: u64)
    ensures
        ({
            let waited = UiView { handshake_timer_id: None, ..s };
            &&& s.is_sending ==> s.timed_out("timer_handshake_timeout"@, now) == waited.logging(
                "[掉线] 握手超时"@,
                now,
            ).lost("连接超时"@, now)
            &&& !s.is_sending && s.is_querying ==> laws::idle(
                s.timed_out("timer_handshake_timeout"@, now),
            ) && s.timed_out("timer_handshake_timeout"@, now).status_message == Some(
                "手环未响应，请重试"@,
            )
            &&& !s.busy() ==> s.timed_out("timer_handshake_timeout"@, now) == waited
            &&& s.is_querying ==> laws::idle(s.timed_out("timer_query_timeout"@, now))
                && s.timed_out("timer_query_timeout"@, now).status_message == Some(
                "手环未响应，请重试"@,
            )
            &&& !s.is_querying ==> s.timed_out("timer_query_timeout"@, now) == (UiView {
                query_timer_id: None,
                ..s
            })
        }),
{
    lemma_tags();
    reveal(UiView::handshake_overdue);
    reveal(UiView::unanswered);
    laws::lemma_unanswered(
        UiView { handshake_timer_id: None, ..s },
        "手环未响应，请重试"@,
        "[错误] 握手超时"@,
        now,
    );
    laws::lemma_unanswered(
        UiView { query_timer_id: None, ..s },
        "手环未响应，请重试"@,
        "[错误] 查询超时"@,
        now,
    );
}

/// During a transfer the watch has the link looked at, once a second; an answer is
/// overdue after three seconds.
pub proof fn the_watch_looks_at_the_link(s: UiView, last: u64, now: u64)
    requires
        s.last_inbound_at == Some(last),
    ensures
        s.is_sending ==> s.timed_out("timer_transfer_watchdog"@, now).outbox.last() == (
        EffectView::CheckLink {
            addr: s.address(),
            stalled: now >= last && now - last >= 3_000_000_000,
        }),
        !s.is_sending ==> s.timed_out("timer_transfer_watchdog"@, now) == (UiView {
            watchdog_timer_id: None,
            ..s
        }),
        s.is_sending && s.offline_strikes == 0 ==> ({
            let seen = s.link_seen(true, false, now);
            &&& seen.outbox.last() == (EffectView::SetTimer {
                token: s.next_timer,
                delay_ms: 1000,
                tag: "timer_transfer_watchdog"@,
            })
            &&& seen.watchdog_timer_id == Some(s.next_timer)
        }),
{
    lemma_tags();
    reveal(UiView::link_seen);
    reveal(UiView::watched);
    reveal(UiView::without_watchdog);
    reveal(UiView::clearing);
    reveal(UiView::timing);
}

/// When its time has come, a lost link is connected again, where the transfer still
/// waits for it; and after a cancelled transfer the wristband is looked for, where
/// nothing is going on.
pub proof fn what_was_put_off_is_done(s: UiView, now: u64)
    ensures
        s.timed_out("timer_reconnect_attempt"@, now) == (if s.is_sending && s.handling_offline {
            UiView { reconnect_timer_id: None, ..s }.with(
                EffectView::Connect(PurposeView::Reconnect),
            )
        } else {
            UiView { reconnect_timer_id: None, ..s }
        }),
        s.timed_out("timer_refresh_after_cancel"@, now) == (if s.busy() {
            UiView { cancel_refresh_timer_id: None, ..s }
        } else {
            UiView { cancel_refresh_timer_id: None, ..s }.with(EffectView::ProbeDevices)
        }),
{
    lemma_tags();
}

/// The host that found a device has the wristband asked for its state.
pub proof fn a_device_that_was_found_is_asked(s: UiView, now: u64)
    ensures
        s.probed(true, now) == s.querying(QueryKind::Status),
        substance(s.probed(false, now)) == substance(s),
        only_shows(s, s.probed(false, now)),
{
    reveal(UiView::probed);
    lemma_logged(s, "[设备] 未连接，跳过自动刷新"@, now);
    lemma_drawn(s.logging("[设备] 未连接，跳过自动刷新"@, now));
}

} // verus!
