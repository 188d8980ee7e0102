//! What the window shows: which texts and buttons stand where, what a click on them is
//! called, and when they take none.
use crate::display;
use crate::element::ElementView;
use crate::element::OpView;
use crate::setting_laws;
use crate::settings;
use crate::settings::SettingView;
use crate::state::DisconnectAction;
use crate::state::EffectView;
use crate::state::Panel;
use crate::state::Tone;
use crate::state::UiView;
use crate::text;
use crate::view;
use vstd::prelude::*;

verus! {

// ---------------------------------------------------------------- parts of an element

spec fn children_of(ops: Seq<OpView>) -> Seq<ElementView>
    decreases ops.len(),
{
    if ops.len() == 0 {
        Seq::empty()
    } else {
        match ops.last() {
            OpView::Child(e) => children_of(ops.drop_last()).push(e),
            _ => children_of(ops.drop_last()),
        }
    }
}

spec fn click_of(ops: Seq<OpView>) -> Option<Seq<char>>
    decreases ops.len(),
{
    if ops.len() == 0 {
        None
    } else {
        match ops.last() {
            OpView::OnClick(event) => Some(event),
            _ => click_of(ops.drop_last()),
        }
    }
}

spec fn color_in(ops: Seq<OpView>) -> Option<Seq<char>>
    decreases ops.len(),
{
    if ops.len() == 0 {
        None
    } else {
        match ops.last() {
            OpView::TextColor(c) => Some(c),
            _ => color_in(ops.drop_last()),
        }
    }
}

spec fn ground_in(ops: Seq<OpView>) -> Option<Seq<char>>
    decreases ops.len(),
{
    if ops.len() == 0 {
        None
    } else {
        match ops.last() {
            OpView::Bg(c) => Some(c),
            _ => ground_in(ops.drop_last()),
        }
    }
}

spec fn width_in(ops: Seq<OpView>) -> Option<u32>
    decreases ops.len(),
{
    if ops.len() == 0 {
        None
    } else {
        match ops.last() {
            OpView::Width(n) => Some(n),
            _ => width_in(ops.drop_last()),
        }
    }
}

spec fn off_in(ops: Seq<OpView>) -> bool
    decreases ops.len(),
{
    ops.len() > 0 && (ops.last() is Disabled || off_in(ops.drop_last()))
}

/// The children of an element, in order.
pub closed spec fn children(e: ElementView) -> Seq<ElementView> {
    children_of(e.ops)
}

/// What a click on the element is called.
pub closed spec fn click(e: ElementView) -> Option<Seq<char>> {
    click_of(e.ops)
}

/// The colour of the text of the element.
pub closed spec fn color(e: ElementView) -> Option<Seq<char>> {
    color_in(e.ops)
}

/// The colour of the ground of the element.
pub closed spec fn ground(e: ElementView) -> Option<Seq<char>> {
    ground_in(e.ops)
}

/// The width of the element.
pub closed spec fn width(e: ElementView) -> Option<u32> {
    width_in(e.ops)
}

/// The element takes no clicks.
pub closed spec fn is_off(e: ElementView) -> bool {
    off_in(e.ops)
}

/// What each thing said of an element does to its parts.
pub broadcast proof fn parts_of_an_element(e: ElementView, op: OpView)
    ensures
        #![trigger e.and(op)]
        children(e.and(op)) == (match op {
            OpView::Child(c) => children(e).push(c),
            _ => children(e),
        }),
        click(e.and(op)) == (match op {
            OpView::OnClick(event) => Some(event),
            _ => click(e),
        }),
        color(e.and(op)) == (match op {
            OpView::TextColor(c) => Some(c),
            _ => color(e),
        }),
        ground(e.and(op)) == (match op {
            OpView::Bg(c) => Some(c),
            _ => ground(e),
        }),
        width(e.and(op)) == (match op {
            OpView::Width(n) => Some(n),
            _ => width(e),
        }),
        is_off(e.and(op)) == (op is Disabled || is_off(e)),
{
    assert(e.and(op).ops.drop_last() =~= e.ops);
}

/// An element of which nothing was said has no parts.
pub broadcast proof fn parts_of_a_bare_element(
    kind: crate::element::ElementKind,
    t: Option<Seq<char>>,
)
    ensures
        #![trigger ElementView::bare(kind, t)]
        children(ElementView::bare(kind, t)).len() == 0,
        click(ElementView::bare(kind, t)) is None,
        color(ElementView::bare(kind, t)) is None,
        ground(ElementView::bare(kind, t)) is None,
        width(ElementView::bare(kind, t)) is None,
        !is_off(ElementView::bare(kind, t)),
{
}

broadcast group parts {
    parts_of_an_element,
    parts_of_a_bare_element,
}

/// The element is a text.
pub open spec fn is_text(e: ElementView, t: Seq<char>) -> bool {
    e.kind == crate::element::ElementKind::P && e.text == Some(t) && click(e) is None
}

/// The element is a button with a text and the name of its click; `off` says whether
/// it takes none.
pub open spec fn is_button(e: ElementView, t: Seq<char>, event: Seq<char>, off: bool) -> bool {
    &&& e.kind == crate::element::ElementKind::Button
    &&& e.text == Some(t)
    &&& click(e) == Some(event)
    &&& is_off(e) == off
}

// ---------------------------------------------------------------- the window

/// The window is its head, the buttons for its parts, the part that is shown, and the
/// status.
pub proof fn the_parts_of_the_window(s: UiView)
    ensures
        ({
            let w = children(view::main_ui(s));
            &&& w.len() == 4
            &&& w[0] == view::header()
            &&& w[1] == view::nav(s.panel)
            &&& s.panel == Panel::Send ==> w[2] == view::send_panel(s)
            &&& s.panel == Panel::Device ==> w[2] == view::device_panel(s)
            &&& s.panel == Panel::Log ==> w[2] == view::log_panel(s.log)
            &&& w[3] == view::status_bar(s)
        }),
{
    broadcast use parts;

    reveal(view::main_ui);
}

/// The window is drawn into its place, as it is; without a place it is not.
pub proof fn the_window_is_drawn(s: UiView, root: Seq<char>)
    ensures
        s.root_element_id is None ==> s.drawn() == s,
        s.root_element_id == Some(root) ==> s.drawn() == s.with(
            EffectView::Render { root, ui: view::main_ui(s) },
        ),
{
    reveal(UiView::drawn);
}

/// The last thing asked of the host is to show the window as the state now is, where
/// there is a place for it.
#[verifier::opaque]
pub open spec fn shows_itself(s: UiView) -> bool {
    s.root_element_id matches Some(root) ==> s.outbox.len() > 0 && s.outbox.last() == (
    EffectView::Render {
        root,
        ui: view::main_ui(UiView { outbox: s.outbox.drop_last(), ..s }),
    })
}

/// The window was shown as the state was, and one thing more was asked after that.
#[verifier::opaque]
pub open spec fn showed_before_last(s: UiView) -> bool {
    s.outbox.len() > 0 && shows_itself(UiView { outbox: s.outbox.drop_last(), ..s })
}

/// A state that was drawn shows itself.
pub broadcast proof fn what_was_drawn_shows_itself(s: UiView)
    ensures
        #![trigger s.drawn()]
        shows_itself(s.drawn()),
{
    reveal(UiView::drawn);
    reveal(shows_itself);
    if let Some(root) = s.root_element_id {
        let after = s.drawn();
        assert(after.outbox.drop_last() =~= s.outbox);
        assert(UiView { outbox: after.outbox.drop_last(), ..after } == s);
    }
}

proof fn lemma_showed(s: UiView, e: EffectView)
    requires
        shows_itself(s),
    ensures
        showed_before_last(s.with(e)),
{
    reveal(showed_before_last);
    assert(s.with(e).outbox.drop_last() =~= s.outbox);
    assert(UiView { outbox: s.with(e).outbox.drop_last(), ..s.with(e) } == s);
}

/// Every click on an option, a part of the window or the log has the window shown as it
/// then is, and so has every text that was entered.
pub proof fn the_window_follows_the_options(
    s: UiView,
    input: Seq<char>,
    field: crate::state::Field,
    now: u64,
)
    ensures
        !s.busy() ==> shows_itself(s.split_cycled(now)),
        shows_itself(s.words_stepped(true)),
        shows_itself(s.words_stepped(false)),
        shows_itself(s.disconnect_cycled(now)),
        shows_itself(s.skip_toggled(now)),
        shows_itself(s.panel_shown(Panel::Send)),
        shows_itself(s.panel_shown(Panel::Device)),
        shows_itself(s.panel_shown(Panel::Log)),
        shows_itself(s.log_cleared()),
        shows_itself(s.cover_cleared(now)),
        shows_itself(s.entered(field, input, now)),
{
    broadcast use what_was_drawn_shows_itself;

    reveal(UiView::split_cycled);
    reveal(UiView::words_stepped);
    reveal(UiView::disconnect_cycled);
    reveal(UiView::skip_toggled);
    reveal(UiView::cover_cleared);
    reveal(UiView::entered);
}

/// Every file that was picked, and every click that begins or ends a transfer, has the
/// window shown as it then is.
pub proof fn the_window_follows_the_book(
    s: UiView,
    name: Seq<char>,
    bytes: Seq<u8>,
    now: u64,
)
    ensures
        bytes.len() > 0 ==> shows_itself(s.cover_picked(name, bytes, now)),
        bytes.len() > 0 && !vstd::utf8::valid_utf8(bytes) ==> shows_itself(
            s.file_picked(name, bytes, now),
        ),
        bytes.len() > 0 && vstd::utf8::valid_utf8(bytes) ==> showed_before_last(
            s.file_picked(name, bytes, now),
        ),
        s.busy() ==> shows_itself(s.cancelled(now)),
        !s.busy() && (s.file_name is None || s.file_text is None) ==> shows_itself(
            s.send_clicked(now),
        ),
        !s.busy() && s.file_name is Some && s.file_text is Some ==> showed_before_last(
            s.send_clicked(now),
        ),
        shows_itself(s.probed(false, now)),
{
    broadcast use what_was_drawn_shows_itself;

    reveal(UiView::cover_refused);
    reveal(UiView::cover_taken);
    reveal(UiView::cancelled);
    reveal(UiView::probed);
    if vstd::utf8::valid_utf8(bytes) {
        reveal(UiView::book_picked);
        lemma_last(s.book_picked(name, vstd::utf8::decode_utf8(bytes), now));
    }
    if s.file_name is Some && s.file_text is Some {
        reveal(UiView::launched);
        lemma_last(s.launched(now));
    }
}

/// A state that was drawn and then asked for one thing more showed itself before that.
proof fn lemma_last(s: UiView)
    ensures
        forall|x: UiView, e: EffectView|
            #![trigger x.drawn().with(e)]
            s == x.drawn().with(e) ==> showed_before_last(s),
{
    assert forall|x: UiView, e: EffectView|
        #![trigger x.drawn().with(e)]
        s == x.drawn().with(e) implies showed_before_last(s) by {
        what_was_drawn_shows_itself(x);
        lemma_showed(x.drawn(), e);
    }
}

/// Whatever a transfer or a question comes to, the window is shown as it then is.
pub proof fn the_window_follows_the_work(
    s: UiView,
    message: Seq<char>,
    kind: crate::session::QueryKind,
    with_book: bool,
    addr: Seq<char>,
    now: u64,
)
    ensures
        shows_itself(s.failed(message, now)),
        shows_itself(s.succeeded(now)),
        shows_itself(s.cancelled_remotely(now)),
        shows_itself(s.called_off(message, now)),
        shows_itself(s.retrying(message, now)),
        shows_itself(s.unanswered(message, now)),
        shows_itself(s.message_hidden()),
        shows_itself(s.query_connected(kind, with_book, addr, now)),
        shows_itself(s.reconnected(addr, now)),
        s.busy() ==> shows_itself(s.querying(kind)),
        !s.busy() ==> showed_before_last(s.querying(kind)),
        s.is_querying && s.query_expect == 1 ==> shows_itself(s.settled()),
        shows_itself(s.sent(crate::state::AfterSend::Render, true, now)),
{
    broadcast use what_was_drawn_shows_itself;

    reveal(UiView::failed);
    reveal(UiView::succeeded);
    reveal(UiView::cancelled_remotely);
    reveal(UiView::called_off);
    reveal(UiView::retrying);
    reveal(UiView::unanswered);
    reveal(UiView::query_connected);
    reveal(UiView::reconnected);
    reveal(UiView::querying);
    reveal(UiView::settled);
    reveal(UiView::sent);
    if !s.busy() {
        lemma_last(s.querying(kind));
    }
}

/// The connection for a book has the window shown too, whether there is a session or
/// not.
pub proof fn the_window_follows_the_connection(
    s: UiView,
    up: crate::session::UploadView,
    addr: Seq<char>,
    now: u64,
)
    ensures
        shows_itself(s.send_connected(up, addr, now)),
{
    broadcast use what_was_drawn_shows_itself;

    reveal(UiView::send_connected);
    reveal(UiView::failed);
}

/// The head says what the window is for and which app it speaks to.
pub proof fn the_head_of_the_window()
    ensures
        ({
            let h = children(view::header());
            &&& h.len() == 3
            &&& is_text(h[0], "弦电子书同步器"@)
            &&& is_text(h[1], "把手环上的弦电子书当接收端，把 TXT 分章推过去"@)
            &&& is_text(h[2], "com.bandbbs.ebook.plus"@ + " · "@ + "按章节传输，需 V26.5.1+"@)
        }),
{
    broadcast use parts;

}

/// There is a button for each part of the window, and that of the part that is shown
/// stands out.
pub proof fn the_buttons_for_the_parts(panel: Panel)
    ensures
        ({
            let n = children(view::nav(panel));
            &&& n.len() == 3
            &&& is_button(n[0], "发送"@, "panel_send"@, false)
            &&& is_button(n[1], "设备"@, "panel_device"@, false)
            &&& is_button(n[2], "日志"@, "panel_log"@, false)
            &&& ground(n[0]) == Some(
                if panel == Panel::Send {
                    "#2563EB"@
                } else {
                    "#F3F5F9"@
                },
            )
            &&& ground(n[1]) == Some(
                if panel == Panel::Device {
                    "#2563EB"@
                } else {
                    "#F3F5F9"@
                },
            )
            &&& ground(n[2]) == Some(
                if panel == Panel::Log {
                    "#2563EB"@
                } else {
                    "#F3F5F9"@
                },
            )
        }),
{
    broadcast use parts;

}

// ---------------------------------------------------------------- the part for sending

/// The part for sending has a card for the book, its data, its cover, the split and
/// the transfer.
pub proof fn the_part_for_sending(s: UiView)
    ensures
        children(view::send_panel(s)) == seq![
            view::file_card(s),
            view::meta_card(s),
            view::cover_card(s),
            view::split_card(s),
            view::send_card(s),
        ],
{
    broadcast use parts;

    assert(children(view::send_panel(s)) =~= seq![
        view::file_card(s),
        view::meta_card(s),
        view::cover_card(s),
        view::split_card(s),
        view::send_card(s),
    ]);
}

/// The card for the book shows its name and its size; a book can be picked unless
/// something is going on.
pub proof fn the_card_for_the_book(s: UiView)
    ensures
        ({
            let c = children(view::file_card(s));
            let r = children(c[1]);
            &&& c.len() == 2 && r.len() == 2
            &&& is_text(c[0], "① 选择书籍"@)
            &&& is_button(r[0], "选择 TXT"@, "pick_file"@, s.busy())
            &&& s.file_name is None ==> is_text(r[1], "未选择文件"@)
            &&& s.file_name matches Some(name) ==> is_text(
                r[1],
                name + " · "@ + display::size_text(s.file_size_bytes),
            )
        }),
{
    broadcast use parts;

}

/// A row shows the text under its name, or that there is none, and a button to edit it.
pub open spec fn edits(
    row: ElementView,
    name: Seq<char>,
    value: Seq<char>,
    event: Seq<char>,
) -> bool {
    let r = children(row);
    &&& r.len() == 3
    &&& is_text(r[0], name)
    &&& is_text(
        r[1],
        if value.len() == 0 {
            "未设置"@
        } else {
            value
        },
    )
    &&& r[2].text == Some("编辑"@)
    &&& click(r[2]) == Some(event)
}

/// The card for the data of the book shows the author and the summary, each with its
/// own button.
pub proof fn the_card_for_the_data(s: UiView)
    ensures
        ({
            let c = children(view::meta_card(s));
            &&& c.len() == 3
            &&& is_text(c[0], "书籍信息（可选，会写入手环书库）"@)
            &&& edits(c[1], "作者"@, s.author, "edit_author"@)
            &&& edits(c[2], "简介"@, s.summary, "edit_summary"@)
        }),
{
    broadcast use parts;

}

/// The card for the cover shows its name and its size, and lets it be picked and taken
/// away.
pub proof fn the_card_for_the_cover(s: UiView)
    ensures
        ({
            let c = children(view::cover_card(s));
            let r = children(c[1]);
            &&& c.len() == 2 && r.len() == 3
            &&& is_text(c[0], "封面（可选，JPG/PNG）"@)
            &&& is_button(r[0], "选择封面"@, "pick_cover"@, s.busy())
            &&& r[1].text == Some("清除"@) && click(r[1]) == Some("clear_cover"@)
            &&& s.cover_name is None ==> is_text(r[2], "未选择封面（可跳过）"@)
            &&& s.cover_name matches Some(name) ==> (s.cover_bytes matches Some(bytes) ==> is_text(
                r[2],
                name + " · "@ + display::size_text(bytes.len()),
            )) && (s.cover_bytes is None ==> is_text(r[2], name))
        }),
{
    broadcast use parts;

}

/// The card for the split shows the way to split, what the book comes to, the words per
/// chapter or the keywords where they count, and whether chapters are skipped.
pub proof fn the_card_for_the_split(s: UiView)
    ensures
        ({
            let c = children(view::split_card(s));
            let by_words = s.split.mode == crate::chapters::SplitMode::ByWordCount;
            let by_keyword = s.split.mode == crate::chapters::SplitMode::Custom;
            let e: int = if s.chapter_estimate is Some {
                1
            } else {
                0
            };
            let w: int = if by_words || by_keyword {
                1
            } else {
                0
            };
            let mode = children(c[1]);
            let skip = children(c[2 + e + w]);
            &&& c.len() == 3 + e + w
            &&& is_text(c[0], "分章方式"@)
            &&& mode.len() == 2 && is_button(mode[0], s.split.mode.name(), "cycle_split"@, s.busy())
            &&& s.chapter_estimate matches Some((chapters, words)) ==> is_text(
                c[2],
                "预计 "@ + text::decimal(chapters as nat) + " 章 · "@ + text::decimal(words as nat)
                    + " 字"@,
            )
            &&& by_words ==> ({
                let r = children(c[2 + e]);
                &&& r.len() == 4
                &&& is_text(r[0], "每章字数"@)
                &&& r[1].text == Some("−"@) && click(r[1]) == Some("words_down"@)
                &&& is_text(r[2], text::decimal(s.split.words_per_chapter))
                &&& r[3].text == Some("＋"@) && click(r[3]) == Some("words_up"@)
            })
            &&& by_keyword ==> edits(c[2 + e], "行首关键字"@, s.split.keyword, "edit_keyword"@)
            &&& skip.len() == 2
            &&& is_button(
                skip[0],
                if s.skip_synced {
                    "跳过已同步 ✓"@
                } else {
                    "跳过已同步"@
                },
                "toggle_skip"@,
                false,
            )
            &&& is_text(
                skip[1],
                if s.band.status_known {
                    "已同步 "@ + text::decimal(s.band.synced_chapters.len()) + " 章"@
                } else {
                    "未查询设备状态"@
                },
            )
        }),
{
    broadcast use parts;

}

/// The card for the transfer lets it begin where there is a book and nothing is going
/// on, and be called off otherwise; it shows the choice for lost links, the progress,
/// the speed, and what is being done.
pub proof fn the_card_for_the_transfer(s: UiView)
    ensures
        ({
            let c = children(view::send_card(s));
            let go = children(c[1]);
            let lost = children(c[2]);
            let far = children(c[3]);
            let bar = children(c[4]);
            let retry = s.disconnect_action == DisconnectAction::Retry;
            &&& c.len() == 6
            &&& is_text(c[0], "传输"@)
            &&& go.len() == 2
            &&& is_button(go[0], "开始发送"@, "send_file"@, s.busy() || s.file_text is None)
            &&& is_button(go[1], "取消"@, "cancel_send"@, !s.busy())
            &&& lost.len() == 3
            &&& is_text(lost[0], "掉线处理"@)
            &&& is_button(
                lost[1],
                if retry {
                    "重新尝试(3次)"@
                } else {
                    "取消传输"@
                },
                "cycle_disconnect"@,
                s.busy(),
            )
            &&& is_text(
                lost[2],
                if retry {
                    "掉线后自动重连，最多 3 次并续传"@
                } else {
                    "掉线后立即终止本次传输"@
                },
            )
            &&& far.len() == 2
            &&& is_text(far[0], text::decimal(s.progress.percent as nat) + "%"@)
            &&& is_text(
                far[1],
                "速率 "@ + (match s.speed_text {
                    Some(t) => t,
                    None => "-"@,
                }),
            )
            &&& width(c[4]) == Some(240u32)
            &&& bar.len() == 1 && width(bar[0]) == Some(s.progress.bar)
            &&& is_text(
                c[5],
                match s.phase_text {
                    Some(t) => t,
                    None => "等待开始"@,
                },
            )
        }),
{
    broadcast use parts;

}

// ---------------------------------------------------------------- the part for the device

/// A row shows a value under its name.
pub open spec fn tells(row: ElementView, name: Seq<char>, value: Seq<char>) -> bool {
    let r = children(row);
    r.len() == 2 && is_text(r[0], name) && is_text(r[1], value)
}

/// The part for the device shows what is known of the wristband, and lets it be asked
/// for its state and its settings unless something is going on.
pub proof fn the_card_for_the_wristband(s: UiView)
    ensures
        ({
            let p = children(view::device_panel(s));
            let c = children(p[0]);
            let ask = children(c[5]);
            &&& p.len() == 2 && p[1] == view::settings_card(s)
            &&& c.len() == 6
            &&& is_text(c[0], "手环信息"@)
            &&& tells(
                c[1],
                "型号"@,
                match s.band.product {
                    Some(t) => t,
                    None => "-"@,
                },
            )
            &&& tells(
                c[2],
                "可用存储"@,
                if s.band.storage_known {
                    view::storage_size(s.band.storage_avail) + " / "@ + view::storage_size(
                        s.band.storage_total,
                    )
                } else {
                    "未查询"@
                },
            )
            &&& tells(
                c[3],
                "当前书籍"@,
                match s.file_name {
                    Some(t) => t,
                    None => "（未选择书籍）"@,
                },
            )
            &&& tells(
                c[4],
                "同步状态"@,
                if s.band.status_known {
                    text::decimal(s.band.synced_chapters.len()) + " 章已同步"@ + (
                    if s.band.has_cover {
                        "，已有封面"@
                    } else {
                        ""@
                    })
                } else {
                    "未查询"@
                },
            )
            &&& ask.len() == 2
            &&& is_button(ask[0], "刷新设备信息"@, "refresh_device"@, s.busy())
            &&& is_button(ask[1], "读取阅读设置"@, "load_settings"@, s.busy())
        }),
{
    broadcast use parts;

}

/// A size that fits is shown as a size.
pub proof fn a_storage_is_shown_as_a_size(bytes: u64)
    requires
        bytes <= usize::MAX,
    ensures
        view::storage_size(bytes) == display::size_text(bytes as nat),
{
}

/// The row of a setting shows its label and its value; its buttons are for its key.
pub proof fn the_row_of_a_setting(def: SettingView, value: Seq<char>)
    ensures
        ({
            let r = children(view::setting_row(def, value));
            let shown = settings::shown_value(def.kind, value);
            &&& is_text(r[0], def.label)
            &&& def.kind is Int ==> ({
                &&& r.len() == 4
                &&& r[1].text == Some("−"@) && click(r[1]) == Some("set_dec:"@ + def.key)
                &&& is_text(r[2], shown)
                &&& r[3].text == Some("＋"@) && click(r[3]) == Some("set_inc:"@ + def.key)
            })
            &&& !(def.kind is Int) ==> r.len() == 2 && is_button(
                r[1],
                shown,
                "setting:"@ + def.key,
                false,
            )
        }),
{
    broadcast use parts;

}

proof fn lemma_rows(e: ElementView, s: UiView, defs: Seq<SettingView>, i: int)
    requires
        0 <= i < defs.len(),
    ensures
        children(view::with_settings(e, s, defs)).len() == children(e).len() + defs.len(),
        children(view::with_settings(e, s, defs))[children(e).len() + i] == view::setting_row(
            defs[i],
            s.setting_text(defs[i].key),
        ),
    decreases defs.len(),
{
    broadcast use parts;

    let before = view::with_settings(e, s, defs.drop_last());
    if defs.len() == 1 {
        assert(view::with_settings(e, s, defs.drop_last()) == e);
    } else if i < defs.len() - 1 {
        lemma_rows(e, s, defs.drop_last(), i);
        assert(defs.drop_last()[i] == defs[i]);
    } else {
        lemma_rows(e, s, defs.drop_last(), 0);
    }
}

/// The card for the settings has a row for each key, in order, with the setting of that
/// key and the value that it has; before the settings were read, it says so.
pub proof fn the_card_for_the_settings(s: UiView, i: int)
    requires
        0 <= i < setting_laws::all_keys().len(),
    ensures
        ({
            let c = children(view::settings_card(s));
            let key = setting_laws::all_keys()[i];
            let p: int = if s.band.settings_loaded {
                1
            } else {
                2
            };
            &&& c.len() == p + setting_laws::all_keys().len()
            &&& is_text(c[0], "手环阅读设置（点按即下发）"@)
            &&& !s.band.settings_loaded ==> is_text(
                c[1],
                "尚未读取，点上方「读取阅读设置」获取当前值"@,
            )
            &&& settings::band_def(key) matches Some(def) && c[p + i] == view::setting_row(
                def,
                s.setting_text(key),
            )
        }),
{
    broadcast use parts;

    let table = settings::band_table();
    setting_laws::there_are_no_other_settings(Seq::empty());
    assert(settings::keys_of(table)[i] == table[i].key);
    settings::settings_are_found_by_key(i);
    lemma_rows(view::settings_head(s), s, table, i);
    lemma_rows_keep(view::settings_head(s), s, table, 0);
    if !s.band.settings_loaded {
        lemma_rows_keep(view::settings_head(s), s, table, 1);
    }
}

proof fn lemma_rows_keep(e: ElementView, s: UiView, defs: Seq<SettingView>, k: int)
    requires
        0 <= k < children(e).len(),
    ensures
        children(view::with_settings(e, s, defs)).len() == children(e).len() + defs.len(),
        children(view::with_settings(e, s, defs))[k] == children(e)[k],
    decreases defs.len(),
{
    broadcast use parts;

    if defs.len() > 0 {
        lemma_rows_keep(e, s, defs.drop_last(), k);
    }
}

// ---------------------------------------------------------------- the log and the status

proof fn lemma_lines(e: ElementView, lines: Seq<Seq<char>>, i: int)
    requires
        0 <= i < lines.len(),
    ensures
        children(view::with_lines(e, lines)).len() == children(e).len() + lines.len(),
        is_text(children(view::with_lines(e, lines))[children(e).len() + i], lines[i]),
    decreases lines.len(),
{
    broadcast use parts;

    if lines.len() == 1 {
        assert(view::with_lines(e, lines.drop_last()) == e);
    } else if i < lines.len() - 1 {
        lemma_lines(e, lines.drop_last(), i);
        assert(lines.drop_last()[i] == lines[i]);
    } else {
        lemma_lines(e, lines.drop_last(), 0);
    }
}

/// The part for the log shows the last forty lines, or as many as there are, in order,
/// and how many there are; it can be emptied.
pub proof fn the_part_for_the_log(log: Seq<Seq<char>>, i: int)
    requires
        0 <= i < log.len(),
        log.len() - 40 <= i,
    ensures
        ({
            let p = children(view::log_panel(log));
            let c = children(p[0]);
            let first: int = if log.len() > 40 {
                log.len() - 40
            } else {
                0
            };
            &&& p.len() == 1
            &&& c.len() == 2 + log.len() - first
            &&& is_text(c[0], "传输日志（"@ + text::decimal(log.len()) + " 条）"@)
            &&& children(c[1]).len() == 1 && children(c[1])[0].text == Some("清空日志"@) && click(
                children(c[1])[0],
            ) == Some("clear_log"@)
            &&& is_text(c[2 + i - first], log[i])
        }),
{
    broadcast use parts;

    let head = view::empty_card().child(
        view::heading("传输日志（"@ + text::decimal(log.len()) + " 条）"@),
    ).child(view::empty_row().child(view::ghost_of("清空日志"@, "clear_log"@)));
    let first: int = if log.len() > 40 {
        log.len() - 40
    } else {
        0
    };
    let shown = view::recent(log);
    assert(shown.len() == log.len() - first);
    assert(shown[i - first] == log[i]);
    lemma_lines(head, shown, i - first);
    lemma_lines_keep(head, shown, 0);
    lemma_lines_keep(head, shown, 1);
}

/// A log without lines says so.
pub proof fn a_log_without_lines(log: Seq<Seq<char>>)
    requires
        log.len() == 0,
    ensures
        ({
            let c = children(children(view::log_panel(log))[0]);
            c.len() == 3 && is_text(c[2], "暂无日志"@) && is_text(
                c[0],
                "传输日志（"@ + text::decimal(0) + " 条）"@,
            )
        }),
{
    broadcast use parts;

}

proof fn lemma_lines_keep(e: ElementView, lines: Seq<Seq<char>>, k: int)
    requires
        0 <= k < children(e).len(),
    ensures
        children(view::with_lines(e, lines)).len() == children(e).len() + lines.len(),
        children(view::with_lines(e, lines))[k] == children(e)[k],
    decreases lines.len(),
{
    broadcast use parts;

    if lines.len() > 0 {
        lemma_lines_keep(e, lines.drop_last(), k);
    }
}

/// The status shows the message, in the colour of its tone; without a message it says
/// what is going on. Where the storage is known to be below 25 megabytes, it warns.
pub proof fn the_status_of_the_window(s: UiView)
    ensures
        ({
            let c = children(view::status_bar(s));
            let low = s.band.storage_known && s.band.storage_avail < 26214400;
            let k: int = if low {
                1
            } else {
                0
            };
            &&& c.len() == 1 + k
            &&& low ==> is_text(c[0], "手环剩余空间偏低，建议先清理旧书"@)
            &&& s.status_message matches Some(m) ==> is_text(c[k], m) && color(c[k]) == Some(
                match s.status_tone {
                    Tone::Success => "#15803D"@,
                    Tone::Error => "#DC2626"@,
                    Tone::Neutral => "#6B7280"@,
                },
            )
            &&& s.status_message is None ==> is_text(
                c[k],
                if s.is_sending {
                    "传输中..."@
                } else if s.is_querying {
                    "读取手环信息..."@
                } else {
                    "就绪"@
                },
            ) && color(c[k]) == Some("#9AA4B2"@)
        }),
{
    broadcast use parts;

}

} // verus!
