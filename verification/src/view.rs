//! The window, drawn from the state.
use crate::display;
use crate::element::Direction;
use crate::element::Element;
use crate::element::ElementKind;
use crate::element::ElementView;
use crate::protocol;
use crate::settings;
use crate::settings::SettingDef;
use crate::settings::SettingKind;
use crate::settings::SettingKindView;
use crate::settings::SettingView;
use crate::state::BandView;
use crate::state::DisconnectAction;
use crate::state::Effect;
use crate::state::EffectView;
use crate::state::Panel;
use crate::state::Tone;
use crate::state::UiState;
use crate::state::UiView;
use crate::state::BAR_WIDTH;
use crate::text;
use vstd::prelude::*;
use vstd::string::StringExecFns;

verus! {

// ---------------------------------------------------------------- names of clicks

pub const EVENT_PICK_FILE: &'static str = "pick_file";

pub const EVENT_SEND_FILE: &'static str = "send_file";

pub const EVENT_CANCEL_SEND: &'static str = "cancel_send";

pub const EVENT_PICK_COVER: &'static str = "pick_cover";

pub const EVENT_CLEAR_COVER: &'static str = "clear_cover";

pub const EVENT_CYCLE_SPLIT: &'static str = "cycle_split";

pub const EVENT_WORDS_UP: &'static str = "words_up";

pub const EVENT_WORDS_DOWN: &'static str = "words_down";

pub const EVENT_TOGGLE_SKIP: &'static str = "toggle_skip";

pub const EVENT_PANEL_SEND: &'static str = "panel_send";

pub const EVENT_PANEL_DEVICE: &'static str = "panel_device";

pub const EVENT_PANEL_LOG: &'static str = "panel_log";

pub const EVENT_REFRESH_DEVICE: &'static str = "refresh_device";

pub const EVENT_LOAD_SETTINGS: &'static str = "load_settings";

pub const EVENT_CLEAR_LOG: &'static str = "clear_log";

pub const EVENT_EDIT_AUTHOR: &'static str = "edit_author";

pub const EVENT_EDIT_SUMMARY: &'static str = "edit_summary";

pub const EVENT_EDIT_KEYWORD: &'static str = "edit_keyword";

pub const EVENT_CYCLE_DISCONNECT: &'static str = "cycle_disconnect";

// ---------------------------------------------------------------- colours

pub const C_TEXT: &'static str = "#1F2937";

pub const C_SUB: &'static str = "#6B7280";

pub const C_MUTED: &'static str = "#9AA4B2";

pub const C_ACCENT: &'static str = "#2563EB";

pub const C_ACCENT_SOFT: &'static str = "#E8F0FE";

pub const C_ACCENT_TEXT: &'static str = "#1D4ED8";

pub const C_SUCCESS: &'static str = "#15803D";

pub const C_ERROR: &'static str = "#DC2626";

pub const C_SURFACE: &'static str = "#FFFFFF";

pub const C_FIELD: &'static str = "#F3F5F9";

pub const C_BORDER: &'static str = "#E4E8F0";

pub const C_TRACK: &'static str = "#EDF0F5";

pub const C_WARN: &'static str = "#B45309";

pub const C_ON_ACCENT: &'static str = "#FFFFFF";

pub const C_ON_FIELD: &'static str = "#44506A";

pub const C_LOG: &'static str = "#4B5563";

/// The storage below which the window warns.
pub const STORAGE_WARN_BYTES: u64 = 26214400;

/// The number of log lines that the window shows.
pub const SHOWN_LOG_LINES: usize = 40;

// ---------------------------------------------------------------- parts

/// An optional text, or another one where there is none.
pub open spec fn text_or(s: Option<Seq<char>>, other: Seq<char>) -> Seq<char> {
    match s {
        Some(t) => t,
        None => other,
    }
}

fn string_or(s: &Option<String>, other: &str) -> (r: String)
    ensures
        r@ == text_or(crate::element::maybe(*s), other@),
{
    match s {
        Some(t) => t.clone(),
        None => other.to_owned(),
    }
}

/// A text, or a note that there is none.
pub open spec fn text_or_unset(s: Seq<char>) -> Seq<char> {
    if s.len() == 0 {
        "未设置"@
    } else {
        s
    }
}

fn string_or_unset(s: &String) -> (r: String)
    ensures
        r@ == text_or_unset(s@),
{
    if s.as_str().is_empty() {
        "未设置".to_owned()
    } else {
        s.clone()
    }
}

/// The colour of a text that may be missing.
pub open spec fn given_color(given: bool) -> Seq<char> {
    if given {
        C_TEXT@
    } else {
        C_MUTED@
    }
}

fn color_of(given: bool) -> (r: &'static str)
    ensures
        r@ == given_color(given),
{
    if given {
        C_TEXT
    } else {
        C_MUTED
    }
}

pub open spec fn label(t: Seq<char>, size: u32, color: Seq<char>) -> ElementView {
    ElementView::bare(ElementKind::P, Some(t)).size(size).text_color(color)
}

fn text_el(t: &str, size: u32, color: &'static str) -> (r: Element)
    ensures
        r@ == label(t@, size, color@),
{
    Element::new(ElementKind::P, Some(t)).size(size).text_color(color)
}

pub open spec fn heading(t: Seq<char>) -> ElementView {
    label(t, 12, C_MUTED@).margin_bottom(8)
}

fn section_title(t: &str) -> (r: Element)
    ensures
        r@ == heading(t@),
{
    text_el(t, 12, C_MUTED).margin_bottom(8)
}

pub open spec fn empty_row() -> ElementView {
    ElementView::bare(ElementKind::Div, None).flex().flex_direction(
        Direction::Row,
    ).align_center().margin_bottom(8)
}

fn row() -> (r: Element)
    ensures
        r@ == empty_row(),
{
    Element::new(ElementKind::Div, None).flex().flex_direction(
        Direction::Row,
    ).align_center().margin_bottom(8)
}

pub open spec fn empty_card() -> ElementView {
    ElementView::bare(ElementKind::Div, None).flex().flex_direction(Direction::Column).padding(
        14,
    ).radius(12).bg(C_SURFACE@).border(1, C_BORDER@).width_full().margin_bottom(10)
}

fn card() -> (r: Element)
    ensures
        r@ == empty_card(),
{
    Element::new(ElementKind::Div, None).flex().flex_direction(Direction::Column).padding(
        14,
    ).radius(12).bg(C_SURFACE).border(1, C_BORDER).width_full().margin_bottom(10)
}

pub open spec fn empty_column() -> ElementView {
    ElementView::bare(ElementKind::Div, None).flex().flex_direction(Direction::Column).width_full()
}

fn column() -> (r: Element)
    ensures
        r@ == empty_column(),
{
    Element::new(ElementKind::Div, None).flex().flex_direction(Direction::Column).width_full()
}

/// The element, dimmed and without clicks where it is disabled.
pub open spec fn maybe_disabled(e: ElementView, disabled: bool, opacity: u32) -> ElementView {
    if disabled {
        e.disabled().opacity(opacity)
    } else {
        e
    }
}

fn disabled_if(e: Element, disabled: bool, opacity: u32) -> (r: Element)
    ensures
        r@ == maybe_disabled(e@, disabled, opacity),
{
    if disabled {
        e.disabled().opacity(opacity)
    } else {
        e
    }
}

/// A button of the given measures.
pub open spec fn button(
    t: Seq<char>,
    size: u32,
    radius: u32,
    across: u32,
    down: u32,
) -> ElementView {
    ElementView::bare(ElementKind::Button, Some(t)).size(size).radius(radius).padding_left(
        across,
    ).padding_right(across).padding_top(down).padding_bottom(down)
}

fn button_el(t: &str, size: u32, radius: u32, across: u32, down: u32) -> (r: Element)
    ensures
        r@ == button(t@, size, radius, across, down),
{
    Element::new(ElementKind::Button, Some(t)).size(size).radius(radius).padding_left(
        across,
    ).padding_right(across).padding_top(down).padding_bottom(down)
}

pub open spec fn chip_of(t: Seq<char>, active: bool, event: Seq<char>, disabled: bool) -> ElementView {
    let e = button(t, 12, 14, 10, 6).margin_right(6);
    let e = if active {
        e.bg(C_ACCENT@).text_color(C_ON_ACCENT@)
    } else {
        e.bg(C_FIELD@).text_color(C_ON_FIELD@)
    };
    maybe_disabled(e, disabled, 50).on_click(event)
}

fn chip(t: &str, active: bool, event: &str, disabled: bool) -> (r: Element)
    ensures
        r@ == chip_of(t@, active, event@, disabled),
{
    let e = button_el(t, 12, 14, 10, 6).margin_right(6);
    let e = if active {
        e.bg(C_ACCENT).text_color(C_ON_ACCENT)
    } else {
        e.bg(C_FIELD).text_color(C_ON_FIELD)
    };
    disabled_if(e, disabled, 50).on_click(event)
}

pub open spec fn primary(t: Seq<char>, event: Seq<char>, disabled: bool) -> ElementView {
    maybe_disabled(
        button(t, 14, 10, 16, 9).bg(C_ACCENT@).text_color(C_ON_ACCENT@).margin_right(8),
        disabled,
        45,
    ).on_click(event)
}

fn primary_button(t: &str, event: &str, disabled: bool) -> (r: Element)
    ensures
        r@ == primary(t@, event@, disabled),
{
    disabled_if(
        button_el(t, 14, 10, 16, 9).bg(C_ACCENT).text_color(C_ON_ACCENT).margin_right(8),
        disabled,
        45,
    ).on_click(event)
}

pub open spec fn secondary(t: Seq<char>, event: Seq<char>, disabled: bool) -> ElementView {
    maybe_disabled(
        button(t, 14, 10, 14, 9).bg(C_FIELD@).text_color(C_ON_FIELD@).margin_right(8),
        disabled,
        45,
    ).on_click(event)
}

fn secondary_button(t: &str, event: &str, disabled: bool) -> (r: Element)
    ensures
        r@ == secondary(t@, event@, disabled),
{
    disabled_if(
        button_el(t, 14, 10, 14, 9).bg(C_FIELD).text_color(C_ON_FIELD).margin_right(8),
        disabled,
        45,
    ).on_click(event)
}

pub open spec fn ghost_of(t: Seq<char>, event: Seq<char>) -> ElementView {
    button(t, 13, 10, 12, 8).bg(C_FIELD@).text_color(C_ON_FIELD@).margin_right(
        6,
    ).disabled().opacity(90).on_click(event)
}

fn ghost_button(t: &str, event: &str) -> (r: Element)
    ensures
        r@ == ghost_of(t@, event@),
{
    button_el(t, 13, 10, 12, 8).bg(C_FIELD).text_color(C_ON_FIELD).margin_right(
        6,
    ).disabled().opacity(90).on_click(event)
}

pub open spec fn tiny(t: Seq<char>, event: Seq<char>) -> ElementView {
    button(t, 13, 8, 10, 5).bg(C_FIELD@).text_color(C_ON_FIELD@).margin_right(
        6,
    ).disabled().opacity(95).on_click(event)
}

fn tiny_button(t: &str, event: &str) -> (r: Element)
    ensures
        r@ == tiny(t@, event@),
{
    button_el(t, 13, 8, 10, 5).bg(C_FIELD).text_color(C_ON_FIELD).margin_right(
        6,
    ).disabled().opacity(95).on_click(event)
}

// ---------------------------------------------------------------- header and navigation

pub open spec fn header() -> ElementView {
    ElementView::bare(ElementKind::Div, None).flex().flex_direction(Direction::Column).padding(
        14,
    ).radius(12).bg(C_ACCENT_SOFT@).width_full().margin_bottom(10).child(
        ElementView::bare(ElementKind::P, Some("弦电子书同步器"@)).size(16).text_color(
            C_ACCENT_TEXT@,
        ).margin_bottom(2),
    ).child(
        label("把手环上的弦电子书当接收端，把 TXT 分章推过去"@, 11, C_SUB@).margin_bottom(6),
    ).child(label(protocol::PACKAGE@ + " · "@ + protocol::APP_HINT@, 11, C_MUTED@))
}

fn build_header() -> (r: Element)
    ensures
        r@ == header(),
{
    let mut app = protocol::PACKAGE.to_owned();
    app.append(" · ");
    app.append(protocol::APP_HINT);
    Element::new(ElementKind::Div, None).flex().flex_direction(Direction::Column).padding(
        14,
    ).radius(12).bg(C_ACCENT_SOFT).width_full().margin_bottom(10).child(
        Element::new(ElementKind::P, Some("弦电子书同步器")).size(16).text_color(
            C_ACCENT_TEXT,
        ).margin_bottom(2),
    ).child(
        text_el("把手环上的弦电子书当接收端，把 TXT 分章推过去", 11, C_SUB).margin_bottom(6),
    ).child(text_el(app.as_str(), 11, C_MUTED))
}

pub open spec fn nav(panel: Panel) -> ElementView {
    empty_row().child(
        chip_of("发送"@, panel == Panel::Send, EVENT_PANEL_SEND@, false),
    ).child(chip_of("设备"@, panel == Panel::Device, EVENT_PANEL_DEVICE@, false)).child(
        chip_of("日志"@, panel == Panel::Log, EVENT_PANEL_LOG@, false),
    ).margin_bottom(10)
}

fn build_nav(panel: Panel) -> (r: Element)
    ensures
        r@ == nav(panel),
{
    row().child(chip("发送", panel == Panel::Send, EVENT_PANEL_SEND, false)).child(
        chip("设备", panel == Panel::Device, EVENT_PANEL_DEVICE, false),
    ).child(chip("日志", panel == Panel::Log, EVENT_PANEL_LOG, false)).margin_bottom(10)
}

// ---------------------------------------------------------------- the panel for sending

/// A name and a size.
pub open spec fn name_and_size(name: Seq<char>, bytes: nat) -> Seq<char> {
    name + " · "@ + display::size_text(bytes)
}

fn name_and_size_text(name: &str, bytes: usize) -> (r: String)
    ensures
        r@ == name_and_size(name@, bytes as nat),
{
    let mut out = name.to_owned();
    out.append(" · ");
    out.append(display::format_bytes(bytes).as_str());
    out
}

pub open spec fn file_info(s: UiView) -> Seq<char> {
    match s.file_name {
        Some(name) => name_and_size(name, s.file_size_bytes),
        None => "未选择文件"@,
    }
}

pub open spec fn file_card(s: UiView) -> ElementView {
    empty_card().child(heading("① 选择书籍"@)).child(
        empty_row().child(secondary("选择 TXT"@, EVENT_PICK_FILE@, s.busy())).child(
            label(file_info(s), 12, given_color(s.file_text is Some)),
        ),
    )
}

fn build_file_card(s: &UiState) -> (r: Element)
    ensures
        r@ == file_card(s@),
{
    let info = match &s.file_name {
        Some(name) => name_and_size_text(name.as_str(), s.file_size_bytes),
        None => "未选择文件".to_owned(),
    };
    card().child(section_title("① 选择书籍")).child(
        row().child(secondary_button("选择 TXT", EVENT_PICK_FILE, s.busy_now())).child(
            text_el(info.as_str(), 12, color_of(s.file_text.is_some())),
        ),
    )
}

/// A row with a name, a text that may be missing, and a button to change it.
pub open spec fn edit_row(name: Seq<char>, value: Seq<char>, event: Seq<char>) -> ElementView {
    empty_row().child(label(name, 12, C_SUB@).margin_right(8)).child(
        label(text_or_unset(value), 12, given_color(value.len() > 0)).margin_right(8),
    ).child(tiny("编辑"@, event))
}

fn build_edit_row(name: &str, value: &String, event: &str) -> (r: Element)
    ensures
        r@ == edit_row(name@, value@, event@),
{
    let shown = string_or_unset(value);
    row().child(text_el(name, 12, C_SUB).margin_right(8)).child(
        text_el(shown.as_str(), 12, color_of(!value.as_str().is_empty())).margin_right(8),
    ).child(tiny_button("编辑", event))
}

pub open spec fn meta_card(s: UiView) -> ElementView {
    empty_card().child(heading("书籍信息（可选，会写入手环书库）"@)).child(
        edit_row("作者"@, s.author, EVENT_EDIT_AUTHOR@),
    ).child(edit_row("简介"@, s.summary, EVENT_EDIT_SUMMARY@))
}

fn build_meta_card(s: &UiState) -> (r: Element)
    ensures
        r@ == meta_card(s@),
{
    card().child(section_title("书籍信息（可选，会写入手环书库）")).child(
        build_edit_row("作者", &s.author, EVENT_EDIT_AUTHOR),
    ).child(build_edit_row("简介", &s.summary, EVENT_EDIT_SUMMARY))
}

pub open spec fn cover_info(s: UiView) -> Seq<char> {
    match s.cover_name {
        Some(name) => match s.cover_bytes {
            Some(bytes) => name_and_size(name, bytes.len()),
            None => name,
        },
        None => "未选择封面（可跳过）"@,
    }
}

pub open spec fn cover_card(s: UiView) -> ElementView {
    empty_card().child(heading("封面（可选，JPG/PNG）"@)).child(
        empty_row().child(secondary("选择封面"@, EVENT_PICK_COVER@, s.busy())).child(
            tiny("清除"@, EVENT_CLEAR_COVER@),
        ).child(label(cover_info(s), 12, C_MUTED@)),
    )
}

fn build_cover_card(s: &UiState) -> (r: Element)
    ensures
        r@ == cover_card(s@),
{
    let info = match &s.cover_name {
        Some(name) => match &s.cover_bytes {
            Some(bytes) => name_and_size_text(name.as_str(), bytes.len()),
            None => name.clone(),
        },
        None => "未选择封面（可跳过）".to_owned(),
    };
    card().child(section_title("封面（可选，JPG/PNG）")).child(
        row().child(secondary_button("选择封面", EVENT_PICK_COVER, s.busy_now())).child(
            tiny_button("清除", EVENT_CLEAR_COVER),
        ).child(text_el(info.as_str(), 12, C_MUTED)),
    )
}

/// The split card, from the mode on.
pub open spec fn split_head(s: UiView) -> ElementView {
    empty_card().child(heading("分章方式"@)).child(
        empty_row().child(chip_of(s.split.mode.name(), true, EVENT_CYCLE_SPLIT@, s.busy())).child(
            label("点击切换"@, 11, C_MUTED@),
        ),
    )
}

/// The split card, with what the book comes to.
pub open spec fn split_estimate(s: UiView) -> ElementView {
    match s.chapter_estimate {
        Some((count, words)) => split_head(s).child(
            label(
                "预计 "@ + text::decimal(count as nat) + " 章 · "@ + text::decimal(words as nat)
                    + " 字"@,
                11,
                C_SUB@,
            ).margin_bottom(6),
        ),
        None => split_head(s),
    }
}

/// The split card, with what the mode reads.
pub open spec fn split_inputs(s: UiView) -> ElementView {
    let e = split_estimate(s);
    let e = if s.split.mode == crate::chapters::SplitMode::ByWordCount {
        e.child(
            empty_row().child(label("每章字数"@, 12, C_SUB@)).child(
                tiny("−"@, EVENT_WORDS_DOWN@),
            ).child(
                label(text::decimal(s.split.words_per_chapter), 13, C_TEXT@).margin_right(6),
            ).child(tiny("＋"@, EVENT_WORDS_UP@)),
        )
    } else {
        e
    };
    if s.split.mode == crate::chapters::SplitMode::Custom {
        e.child(edit_row("行首关键字"@, s.split.keyword, EVENT_EDIT_KEYWORD@))
    } else {
        e
    }
}

pub open spec fn synced_hint(band: BandView) -> Seq<char> {
    if band.status_known {
        "已同步 "@ + text::decimal(band.synced_chapters.len()) + " 章"@
    } else {
        "未查询设备状态"@
    }
}

pub open spec fn split_card(s: UiView) -> ElementView {
    split_inputs(s).child(
        empty_row().child(
            chip_of(
                if s.skip_synced {
                    "跳过已同步 ✓"@
                } else {
                    "跳过已同步"@
                },
                s.skip_synced,
                EVENT_TOGGLE_SKIP@,
                false,
            ),
        ).child(label(synced_hint(s.band), 11, C_MUTED@)),
    )
}

fn build_split_inputs(s: &UiState) -> (r: Element)
    ensures
        r@ == split_inputs(s@),
{
    let mut e = card().child(section_title("分章方式")).child(
        row().child(chip(s.split.mode.label(), true, EVENT_CYCLE_SPLIT, s.busy_now())).child(
            text_el("点击切换", 11, C_MUTED),
        ),
    );
    if let Some((count, words)) = s.chapter_estimate {
        let mut t = "预计 ".to_owned();
        t.append(text::usize_text(count).as_str());
        t.append(" 章 · ");
        t.append(text::usize_text(words).as_str());
        t.append(" 字");
        e = e.child(text_el(t.as_str(), 11, C_SUB).margin_bottom(6));
    }
    if s.split.mode.uses_words() {
        let words = text::usize_text(s.split.words_per_chapter);
        e =
        e.child(
            row().child(text_el("每章字数", 12, C_SUB)).child(
                tiny_button("−", EVENT_WORDS_DOWN),
            ).child(text_el(words.as_str(), 13, C_TEXT).margin_right(6)).child(
                tiny_button("＋", EVENT_WORDS_UP),
            ),
        );
    }
    if s.split.mode.uses_keyword() {
        e = e.child(build_edit_row("行首关键字", &s.split.keyword, EVENT_EDIT_KEYWORD));
    }
    e
}

fn build_split_card(s: &UiState) -> (r: Element)
    ensures
        r@ == split_card(s@),
{
    let hint = if s.band.status_known {
        let mut t = "已同步 ".to_owned();
        t.append(text::usize_text(s.band.synced_chapters.len()).as_str());
        t.append(" 章");
        t
    } else {
        "未查询设备状态".to_owned()
    };
    build_split_inputs(s).child(
        row().child(
            chip(
                if s.skip_synced {
                    "跳过已同步 ✓"
                } else {
                    "跳过已同步"
                },
                s.skip_synced,
                EVENT_TOGGLE_SKIP,
                false,
            ),
        ).child(text_el(hint.as_str(), 11, C_MUTED)),
    )
}

pub open spec fn progress_row(s: UiView) -> ElementView {
    empty_row().child(
        label(text::decimal(s.progress.percent as nat) + "%"@, 13, C_TEXT@).margin_right(10),
    ).child(label("速率 "@ + text_or(s.speed_text, "-"@), 11, C_SUB@))
}

fn build_progress_row(s: &UiState) -> (r: Element)
    ensures
        r@ == progress_row(s@),
{
    let mut percent = text::decimal_text(s.progress.percent as u64);
    percent.append("%");
    let mut speed = "速率 ".to_owned();
    speed.append(string_or(&s.speed_text, "-").as_str());
    row().child(text_el(percent.as_str(), 13, C_TEXT).margin_right(10)).child(
        text_el(speed.as_str(), 11, C_SUB),
    )
}

pub open spec fn progress_bar(bar: u32) -> ElementView {
    ElementView::bare(ElementKind::Div, None).bg(C_TRACK@).radius(6).width(BAR_WIDTH).height(
        6,
    ).margin_bottom(10).child(
        ElementView::bare(ElementKind::Div, None).bg(C_ACCENT@).height(6).width(bar).radius(
            6,
        ).transition("width 200ms ease"@),
    )
}

fn build_progress_bar(bar: u32) -> (r: Element)
    ensures
        r@ == progress_bar(bar),
{
    Element::new(ElementKind::Div, None).bg(C_TRACK).radius(6).width(BAR_WIDTH).height(
        6,
    ).margin_bottom(10).child(
        Element::new(ElementKind::Div, None).bg(C_ACCENT).height(6).width(bar).radius(
            6,
        ).transition("width 200ms ease"),
    )
}

pub open spec fn disconnect_row(a: DisconnectAction, busy: bool) -> ElementView {
    empty_row().child(label("掉线处理"@, 12, C_SUB@).margin_right(8)).child(
        chip_of(a.name(), a == DisconnectAction::Retry, EVENT_CYCLE_DISCONNECT@, busy),
    ).child(label(a.remark(), 11, C_MUTED@))
}

fn build_disconnect_row(a: DisconnectAction, busy: bool) -> (r: Element)
    ensures
        r@ == disconnect_row(a, busy),
{
    row().child(text_el("掉线处理", 12, C_SUB).margin_right(8)).child(
        chip(a.label(), a == DisconnectAction::Retry, EVENT_CYCLE_DISCONNECT, busy),
    ).child(text_el(a.hint(), 11, C_MUTED))
}

pub open spec fn send_card(s: UiView) -> ElementView {
    empty_card().child(heading("传输"@)).child(
        empty_row().child(
            primary("开始发送"@, EVENT_SEND_FILE@, s.busy() || s.file_text is None),
        ).child(secondary("取消"@, EVENT_CANCEL_SEND@, !s.busy())),
    ).child(disconnect_row(s.disconnect_action, s.busy())).child(progress_row(s)).child(
        progress_bar(s.progress.bar),
    ).child(label(text_or(s.phase_text, "等待开始"@), 11, C_SUB@))
}

fn build_send_card(s: &UiState) -> (r: Element)
    ensures
        r@ == send_card(s@),
{
    let busy = s.busy_now();
    let phase = string_or(&s.phase_text, "等待开始");
    card().child(section_title("传输")).child(
        row().child(
            primary_button("开始发送", EVENT_SEND_FILE, busy || s.file_text.is_none()),
        ).child(secondary_button("取消", EVENT_CANCEL_SEND, !busy)),
    ).child(build_disconnect_row(s.disconnect_action, busy)).child(build_progress_row(s)).child(
        build_progress_bar(s.progress.bar),
    ).child(text_el(phase.as_str(), 11, C_SUB))
}

pub open spec fn send_panel(s: UiView) -> ElementView {
    empty_column().child(file_card(s)).child(meta_card(s)).child(cover_card(s)).child(
        split_card(s),
    ).child(send_card(s))
}

fn build_send_panel(s: &UiState) -> (r: Element)
    ensures
        r@ == send_panel(s@),
{
    column().child(build_file_card(s)).child(build_meta_card(s)).child(build_cover_card(s)).child(
        build_split_card(s),
    ).child(build_send_card(s))
}

// ---------------------------------------------------------------- the panel for the device

/// A storage size as the window shows it.
pub open spec fn storage_size(bytes: u64) -> Seq<char> {
    display::size_text((bytes as usize) as nat)
}

pub open spec fn storage_text(band: BandView) -> Seq<char> {
    if band.storage_known {
        storage_size(band.storage_avail) + " / "@ + storage_size(band.storage_total)
    } else {
        "未查询"@
    }
}

/// The remark that the wristband has a cover, where it has.
pub open spec fn cover_remark(has_cover: bool) -> Seq<char> {
    if has_cover {
        "，已有封面"@
    } else {
        ""@
    }
}

pub(crate) fn cover_remark_text(has_cover: bool) -> (r: &'static str)
    ensures
        r@ == cover_remark(has_cover),
{
    if has_cover {
        "，已有封面"
    } else {
        ""
    }
}

pub open spec fn sync_text(band: BandView) -> Seq<char> {
    if band.status_known {
        text::decimal(band.synced_chapters.len()) + " 章已同步"@ + cover_remark(band.has_cover)
    } else {
        "未查询"@
    }
}

pub open spec fn info_row(name: Seq<char>, value: Seq<char>) -> ElementView {
    empty_row().child(label(name, 12, C_SUB@)).child(label(value, 12, C_TEXT@))
}

fn build_info_row(name: &str, value: &str) -> (r: Element)
    ensures
        r@ == info_row(name@, value@),
{
    row().child(text_el(name, 12, C_SUB)).child(text_el(value, 12, C_TEXT))
}

pub open spec fn info_card(s: UiView) -> ElementView {
    empty_card().child(heading("手环信息"@)).child(
        info_row("型号"@, text_or(s.band.product, "-"@)),
    ).child(info_row("可用存储"@, storage_text(s.band))).child(
        info_row("当前书籍"@, text_or(s.file_name, "（未选择书籍）"@)),
    ).child(info_row("同步状态"@, sync_text(s.band))).child(
        empty_row().child(secondary("刷新设备信息"@, EVENT_REFRESH_DEVICE@, s.busy())).child(
            secondary("读取阅读设置"@, EVENT_LOAD_SETTINGS@, s.busy()),
        ),
    )
}

fn build_info_card(s: &UiState) -> (r: Element)
    ensures
        r@ == info_card(s@),
{
    let busy = s.busy_now();
    let product = string_or(&s.band.product, "-");
    let storage = if s.band.storage_known {
        let mut t = display::format_bytes(s.band.storage_avail as usize);
        t.append(" / ");
        t.append(display::format_bytes(s.band.storage_total as usize).as_str());
        t
    } else {
        "未查询".to_owned()
    };
    let status = if s.band.status_known {
        let mut t = text::usize_text(s.band.synced_chapters.len());
        t.append(" 章已同步");
        t.append(cover_remark_text(s.band.has_cover));
        t
    } else {
        "未查询".to_owned()
    };
    let file_name = string_or(&s.file_name, "（未选择书籍）");
    card().child(section_title("手环信息")).child(
        build_info_row("型号", product.as_str()),
    ).child(build_info_row("可用存储", storage.as_str())).child(
        build_info_row("当前书籍", file_name.as_str()),
    ).child(build_info_row("同步状态", status.as_str())).child(
        row().child(secondary_button("刷新设备信息", EVENT_REFRESH_DEVICE, busy)).child(
            secondary_button("读取阅读设置", EVENT_LOAD_SETTINGS, busy),
        ),
    )
}

/// The row of a setting: steps for a number, one click for the others.
pub open spec fn setting_row(def: SettingView, raw: Seq<char>) -> ElementView {
    let shown = settings::shown_value(def.kind, raw);
    let e = empty_row().child(label(def.label, 12, C_SUB@).margin_right(8));
    match def.kind {
        SettingKindView::Int { .. } => e.child(
            tiny("−"@, settings::SETTING_DEC_PREFIX@ + def.key),
        ).child(label(shown, 12, C_TEXT@).margin_right(6)).child(
            tiny("＋"@, settings::SETTING_INC_PREFIX@ + def.key),
        ),
        _ => e.child(chip_of(shown, false, settings::SETTING_CLICK_PREFIX@ + def.key, false)),
    }
}

fn prefixed(prefix: &str, key: &str) -> (r: String)
    ensures
        r@ == prefix@ + key@,
{
    let mut out = prefix.to_owned();
    out.append(key);
    out
}

fn build_setting_row(def: &SettingDef, raw: &str) -> (r: Element)
    ensures
        r@ == setting_row(def@, raw@),
{
    let shown = def.def_value_text(raw);
    let e = row().child(text_el(def.label, 12, C_SUB).margin_right(8));
    match &def.kind {
        SettingKind::Int { .. } => e.child(
            tiny_button("−", prefixed(settings::SETTING_DEC_PREFIX, def.key).as_str()),
        ).child(text_el(shown.as_str(), 12, C_TEXT).margin_right(6)).child(
            tiny_button("＋", prefixed(settings::SETTING_INC_PREFIX, def.key).as_str()),
        ),
        _ => e.child(
            chip(
                shown.as_str(),
                false,
                prefixed(settings::SETTING_CLICK_PREFIX, def.key).as_str(),
                false,
            ),
        ),
    }
}

/// The element, followed by a row for each setting.
pub open spec fn with_settings(e: ElementView, s: UiView, defs: Seq<SettingView>) -> ElementView
    decreases defs.len(),
{
    if defs.len() == 0 {
        e
    } else {
        let d = defs.last();
        with_settings(e, s, defs.drop_last()).child(setting_row(d, s.setting_text(d.key)))
    }
}

pub open spec fn settings_head(s: UiView) -> ElementView {
    let e = empty_card().child(heading("手环阅读设置（点按即下发）"@));
    if s.band.settings_loaded {
        e
    } else {
        e.child(label("尚未读取，点上方「读取阅读设置」获取当前值"@, 11, C_MUTED@))
    }
}

pub open spec fn settings_card(s: UiView) -> ElementView {
    with_settings(settings_head(s), s, settings::band_table())
}

fn build_settings_card(s: &UiState) -> (r: Element)
    requires
        s.wf(),
    ensures
        r@ == settings_card(s@),
{
    let mut e = card().child(section_title("手环阅读设置（点按即下发）"));
    if !s.band.settings_loaded {
        e = e.child(text_el("尚未读取，点上方「读取阅读设置」获取当前值", 11, C_MUTED));
    }
    let ghost head = e@;
    let defs = settings::band_settings();
    let ghost table = settings::setting_views(defs@);
    let mut i: usize = 0;
    assert(table.take(0) =~= Seq::empty());
    while i < defs.len()
        invariant
            i <= defs@.len(),
            s.wf(),
            table == settings::setting_views(defs@),
            e@ == with_settings(head, s@, table.take(i as int)),
        decreases defs@.len() - i,
    {
        assert(table.take(i + 1).drop_last() =~= table.take(i as int));
        let raw = s.read_setting_text(defs[i].key);
        e = e.child(build_setting_row(&defs[i], raw.as_str()));
        i += 1;
    }
    assert(table.take(i as int) =~= table);
    e
}

pub open spec fn device_panel(s: UiView) -> ElementView {
    empty_column().child(info_card(s)).child(settings_card(s))
}

fn build_device_panel(s: &UiState) -> (r: Element)
    requires
        s.wf(),
    ensures
        r@ == device_panel(s@),
{
    column().child(build_info_card(s)).child(build_settings_card(s))
}

// ---------------------------------------------------------------- the panel for the log

/// The element, followed by the lines.
pub open spec fn with_lines(e: ElementView, lines: Seq<Seq<char>>) -> ElementView
    decreases lines.len(),
{
    if lines.len() == 0 {
        e
    } else {
        with_lines(e, lines.drop_last()).child(label(lines.last(), 11, C_LOG@).margin_bottom(3))
    }
}

/// The last lines of the log.
pub open spec fn recent(log: Seq<Seq<char>>) -> Seq<Seq<char>> {
    if log.len() > SHOWN_LOG_LINES {
        log.skip(log.len() - SHOWN_LOG_LINES)
    } else {
        log
    }
}

pub open spec fn log_panel(log: Seq<Seq<char>>) -> ElementView {
    let head = empty_card().child(
        heading("传输日志（"@ + text::decimal(log.len()) + " 条）"@),
    ).child(empty_row().child(ghost_of("清空日志"@, EVENT_CLEAR_LOG@)));
    empty_column().child(
        if log.len() == 0 {
            head.child(label("暂无日志"@, 11, C_MUTED@))
        } else {
            with_lines(head, recent(log))
        },
    )
}

fn build_log_panel(s: &UiState) -> (r: Element)
    ensures
        r@ == log_panel(s@.log),
{
    let mut title = "传输日志（".to_owned();
    title.append(text::usize_text(s.log.len()).as_str());
    title.append(" 条）");
    let mut e = card().child(section_title(title.as_str())).child(
        row().child(ghost_button("清空日志", EVENT_CLEAR_LOG)),
    );
    if s.log.len() == 0 {
        e = e.child(text_el("暂无日志", 11, C_MUTED));
    } else {
        let ghost head = e@;
        let ghost shown = recent(s@.log);
        let start: usize = if s.log.len() > SHOWN_LOG_LINES {
            s.log.len() - SHOWN_LOG_LINES
        } else {
            0
        };
        let mut i: usize = start;
        assert(shown.take(0) =~= Seq::empty());
        while i < s.log.len()
            invariant
                start <= i <= s.log@.len(),
                shown == recent(s@.log),
                shown.len() == s.log@.len() - start,
                forall|k: int| 0 <= k < shown.len() ==> shown[k] == (#[trigger] s.log@[k + start])@,
                e@ == with_lines(head, shown.take(i - start)),
            decreases s.log@.len() - i,
        {
            assert(shown.take(i + 1 - start).drop_last() =~= shown.take(i - start));
            assert(shown[i - start] == s.log@[i - start + start]@);
            e = e.child(text_el(s.log[i].as_str(), 11, C_LOG).margin_bottom(3));
            i += 1;
        }
        assert(shown.take(i - start) =~= shown);
    }
    column().child(e)
}

// ---------------------------------------------------------------- the status bar

pub open spec fn status_text(s: UiView) -> Seq<char> {
    match s.status_message {
        Some(m) => m,
        None => if s.is_sending {
            "传输中..."@
        } else if s.is_querying {
            "读取手环信息..."@
        } else {
            "就绪"@
        },
    }
}

pub open spec fn status_color(s: UiView) -> Seq<char> {
    match s.status_message {
        Some(m) => match s.status_tone {
            Tone::Success => C_SUCCESS@,
            Tone::Error => C_ERROR@,
            Tone::Neutral => C_SUB@,
        },
        None => C_MUTED@,
    }
}

/// The storage of the wristband is known to be low.
pub open spec fn storage_low(band: BandView) -> bool {
    band.storage_known && band.storage_avail < STORAGE_WARN_BYTES
}

pub open spec fn status_bar(s: UiView) -> ElementView {
    let e = ElementView::bare(ElementKind::Div, None).flex().flex_direction(
        Direction::Column,
    ).padding(12).radius(10).bg(C_FIELD@).width_full();
    let e = if storage_low(s.band) {
        e.child(label("手环剩余空间偏低，建议先清理旧书"@, 11, C_WARN@).margin_bottom(6))
    } else {
        e
    };
    e.child(label(status_text(s), 12, status_color(s)))
}

fn build_status_bar(s: &UiState) -> (r: Element)
    ensures
        r@ == status_bar(s@),
{
    let color = match &s.status_message {
        Some(_) => match s.status_tone {
            Tone::Success => C_SUCCESS,
            Tone::Error => C_ERROR,
            Tone::Neutral => C_SUB,
        },
        None => C_MUTED,
    };
    let shown = match &s.status_message {
        Some(m) => m.clone(),
        None => if s.is_sending {
            "传输中...".to_owned()
        } else if s.is_querying {
            "读取手环信息...".to_owned()
        } else {
            "就绪".to_owned()
        },
    };
    let mut e = Element::new(ElementKind::Div, None).flex().flex_direction(
        Direction::Column,
    ).padding(12).radius(10).bg(C_FIELD).width_full();
    if s.band.storage_known && s.band.storage_avail < STORAGE_WARN_BYTES {
        e = e.child(text_el("手环剩余空间偏低，建议先清理旧书", 11, C_WARN).margin_bottom(6));
    }
    e.child(text_el(shown.as_str(), 12, color))
}

// ---------------------------------------------------------------- the window

pub open spec fn panel_of(s: UiView) -> ElementView {
    match s.panel {
        Panel::Send => send_panel(s),
        Panel::Device => device_panel(s),
        Panel::Log => log_panel(s.log),
    }
}

/// The window of a state.
#[verifier::opaque]
pub open spec fn main_ui(s: UiView) -> ElementView {
    ElementView::bare(ElementKind::Div, None).flex().flex_direction(Direction::Column).padding(
        12,
    ).width_full().child(header()).child(nav(s.panel)).child(panel_of(s)).child(status_bar(s))
}

/// Draws the window of a state.
pub fn build_main_ui(s: &UiState) -> (r: Element)
    requires
        s.wf(),
    ensures
        r@ == main_ui(s@),
{
    reveal(main_ui);
    let panel = match s.panel {
        Panel::Send => build_send_panel(s),
        Panel::Device => build_device_panel(s),
        Panel::Log => build_log_panel(s),
    };
    Element::new(ElementKind::Div, None).flex().flex_direction(Direction::Column).padding(
        12,
    ).width_full().child(build_header()).child(build_nav(s.panel)).child(panel).child(
        build_status_bar(s),
    )
}

impl UiView {
    /// The state after the window was drawn, where there is a place for it.
    #[verifier::opaque]
    pub open spec fn drawn(self) -> UiView {
        match self.root_element_id {
            Some(root) => self.with(EffectView::Render { root, ui: main_ui(self) }),
            None => self,
        }
    }
}

impl UiState {
    /// Draws the window again, where there is a place for it.
    pub fn render_from_state(&mut self)
        requires
            old(self).wf(),
        ensures
            final(self).wf(),
            final(self)@ == old(self)@.drawn(),
    {
        reveal(UiView::drawn);
        let root = match &self.root_element_id {
            Some(root) => root.clone(),
            None => {
                return;
            },
        };
        let ui = build_main_ui(&*self);
        self.ask(Effect::Render { root, ui });
    }
}

} // verus!
