//! The window at work, with a host and a wristband played by the test.
use ebooksync::element::Element;
use ebooksync::element::Op;
use ebooksync::queries::connect_device;
use ebooksync::queries::device_still_connected;
use ebooksync::queries::get_app_info;
use ebooksync::queries::get_device_addr;
use ebooksync::state::DisconnectAction;
use ebooksync::state::Effect;
use ebooksync::state::Gauge;
use ebooksync::state::OutChunk;
use ebooksync::state::Panel;
use ebooksync::state::Tone;
use ebooksync::state::UiState;
use ebooksync::ui::handle_interconnect_message;
use ebooksync::ui::handle_timer_event;
use ebooksync::ui::prompt_text;
use ebooksync::ui::render_main_ui;
use ebooksync::ui::ui_event_processor;
use ebooksync::ui::EventType;
use serde_json::Value;

const SECOND: u64 = 1_000_000_000;
const PACKAGE: &str = "com.bandbbs.ebook.plus";
const BOOK: &str = "第一章 a\n1\n第二章 b\n2\n第三章 c\n3";

struct Host {
    now: u64,
    devices: Vec<String>,
    packages: Option<Vec<String>>,
    launches: bool,
    sends: bool,
    pick: (String, Vec<u8>),
    prompt: (String, String),
    sent: Vec<(String, String)>,
    timers: Vec<(u64, u64, &'static str)>,
    windows: Vec<Element>,
    roots: Vec<String>,
    chunks: Vec<OutChunk>,
    prompts: Vec<(&'static str, &'static str)>,
}

fn host() -> Host {
    Host {
        now: 1_000 * SECOND,
        devices: vec!["AA:BB".to_string()],
        packages: Some(vec!["other".to_string(), PACKAGE.to_string()]),
        launches: true,
        sends: true,
        pick: (String::new(), Vec::new()),
        prompt: ("cancel".to_string(), String::new()),
        sent: Vec::new(),
        timers: Vec::new(),
        windows: Vec::new(),
        roots: Vec::new(),
        chunks: Vec::new(),
        prompts: Vec::new(),
    }
}

fn copy_of(out: &OutChunk) -> OutChunk {
    OutChunk {
        addr: out.addr.clone(),
        message: out.message.clone(),
        phase: out.phase.clone(),
        bytes: out.bytes,
        since: out.since,
        now: out.now,
        pos: out.pos,
        chapters: out.chapters,
        chunk: out.chunk,
        chunks: out.chunks,
    }
}

fn connect(h: &Host) -> Result<String, String> {
    let addr = get_device_addr(&h.devices).map_err(|e| e.to_string())?;
    get_app_info(&h.packages)?;
    connect_device(addr, h.launches).map_err(|e| e.to_string())
}

fn run(s: &mut UiState, h: &mut Host) {
    for effect in s.take_outbox() {
        match effect {
            Effect::Render { root, ui } => {
                h.roots.push(root);
                h.windows.push(ui);
            }
            Effect::SetTimer { token, delay_ms, tag } => h.timers.push((token, delay_ms, tag)),
            Effect::ClearTimer(token) => h.timers.retain(|t| t.0 != token),
            Effect::Send { addr, payload } => {
                if h.sends {
                    h.sent.push((addr, payload));
                }
            }
            Effect::SendChecked { addr, payload, then } => {
                if h.sends {
                    h.sent.push((addr, payload));
                }
                s.after_send(then, h.sends, h.now);
                run(s, h);
            }
            Effect::Connect(purpose) => {
                s.connection_ready(purpose, connect(h), h.now);
                run(s, h);
            }
            Effect::PickFile => {
                s.file_picked(h.pick.0.clone(), h.pick.1.clone(), h.now);
                run(s, h);
            }
            Effect::PickCover => {
                s.cover_picked(h.pick.0.clone(), h.pick.1.clone(), h.now);
                run(s, h);
            }
            Effect::Prompt { field, title, tip } => {
                h.prompts.push((title, tip));
                s.prompt_answered(field, &h.prompt.0, &h.prompt.1, h.now);
                run(s, h);
            }
            Effect::ProbeDevices => {
                s.device_probed(&h.devices, h.now);
                run(s, h);
            }
            Effect::CheckLink { addr, stalled } => {
                s.link_checked(&h.devices, &addr, stalled, h.now);
                run(s, h);
            }
            Effect::Measure(out) => {
                h.chunks.push(copy_of(&out));
                s.chunk_measured(out, Some(2048), Gauge { percent: 42, bar: 101 });
                run(s, h);
            }
            Effect::Redraw => {
                s.render_from_state();
                run(s, h);
            }
        }
    }
}

fn click(s: &mut UiState, h: &mut Host, event: &str) {
    assert!(s.can_click(event));
    ui_event_processor(s, EventType::Click, event, h.now);
    run(s, h);
}

fn timer(s: &mut UiState, h: &mut Host, tag: &str) {
    h.timers.retain(|t| t.2 != tag);
    handle_timer_event(s, &format!("{{\"payloadText\":\"{}\"}}", tag), h.now);
    run(s, h);
}

fn message(s: &mut UiState, h: &mut Host, text: &str) {
    assert!(s.has_room());
    handle_interconnect_message(s, text, h.now);
    run(s, h);
}

fn reply(s: &mut UiState, h: &mut Host, kind: &str) {
    message(s, h, &format!("{{\"tag\":\"file\",\"data\":{{\"type\":\"{}\"}}}}", kind));
}

fn open() -> (UiState, Host) {
    let mut s = UiState::new();
    let mut h = host();
    render_main_ui(&mut s, "root", h.now);
    run(&mut s, &mut h);
    (s, h)
}

fn with_book(text: &str) -> (UiState, Host) {
    let (mut s, mut h) = open();
    h.devices.clear();
    h.pick = ("b.txt".to_string(), text.as_bytes().to_vec());
    click(&mut s, &mut h, "pick_file");
    h.devices.push("AA:BB".to_string());
    h.sent.clear();
    (s, h)
}

fn value(s: &str) -> Value {
    serde_json::from_str(s).unwrap()
}

fn stats(h: &Host) -> Vec<String> {
    h.sent
        .iter()
        .map(|(_, p)| {
            let v = value(p);
            match v.get("stat") {
                Some(s) => s.as_str().unwrap().to_string(),
                None => format!("hs{}", v["count"]),
            }
        })
        .collect()
}

fn armed(h: &Host, tag: &str) -> bool {
    h.timers.iter().any(|t| t.2 == tag)
}

fn texts(e: &Element) -> Vec<String> {
    let mut out: Vec<String> = e.text.iter().cloned().collect();
    for op in &e.ops {
        if let Op::Child(c) = op {
            out.extend(texts(c));
        }
    }
    out
}

fn clicks(e: &Element) -> Vec<String> {
    let mut out: Vec<String> = Vec::new();
    for op in &e.ops {
        match op {
            Op::OnClick(t) => out.push(t.clone()),
            Op::Child(c) => out.extend(clicks(c)),
            _ => {}
        }
    }
    out
}

fn shows(h: &Host, text: &str) -> bool {
    texts(h.windows.last().unwrap()).iter().any(|t| t == text)
}

fn shake(s: &mut UiState, h: &mut Host) {
    timer(s, h, "timer_start_handshake");
    message(s, h, "{\"tag\":\"__hs__\",\"count\":1,\"version\":126600}");
}

fn start_transfer(s: &mut UiState, h: &mut Host) {
    click(s, h, "send_file");
    shake(s, h);
}

fn last_log(s: &UiState) -> &str {
    s.log.last().unwrap()
}

// ---------------------------------------------------------------- the window

#[test]
fn a_new_window_shows_the_panel_for_sending() {
    let (_, h) = open();
    assert_eq!(h.roots, vec!["root".to_string()]);
    for t in ["弦电子书同步器", "未选择文件", "智能识别", "等待开始", "就绪", "0%", "速率 -"] {
        assert!(shows(&h, t), "{}", t);
    }
    assert!(shows(&h, "com.bandbbs.ebook.plus · 按章节传输，需 V26.5.1+"));
    assert!(!shows(&h, "手环剩余空间偏低，建议先清理旧书"));
}

#[test]
fn nothing_is_drawn_before_there_is_a_place() {
    let mut s = UiState::new();
    let mut h = host();
    click(&mut s, &mut h, "panel_log");
    assert!(h.windows.is_empty());
    assert_eq!(s.panel, Panel::Log);
}

#[test]
fn only_known_clicks_count() {
    let (mut s, mut h) = open();
    let before = h.windows.len();
    ui_event_processor(&mut s, EventType::Other, "panel_log", h.now);
    run(&mut s, &mut h);
    click(&mut s, &mut h, "no_such_button");
    click(&mut s, &mut h, "setting:NO_SUCH_SETTING");
    assert_eq!(h.windows.len(), before);
    assert_eq!(s.panel, Panel::Send);
}

#[test]
fn panels_and_their_buttons() {
    let (mut s, mut h) = open();
    click(&mut s, &mut h, "panel_device");
    let w = h.windows.last().unwrap();
    assert!(clicks(w).iter().any(|c| c == "set_inc:EBOOK_FONT"));
    assert!(clicks(w).iter().any(|c| c == "setting:EBOOK_GESTURE"));
    assert!(shows(&h, "100%") && shows(&h, "未查询") && shows(&h, "（未选择书籍）"));
    click(&mut s, &mut h, "panel_log");
    assert!(shows(&h, "暂无日志") && shows(&h, "传输日志（0 条）"));
    click(&mut s, &mut h, "toggle_skip");
    assert!(shows(&h, "[00:00] [选项] 跳过已同步章节：关"));
    click(&mut s, &mut h, "clear_log");
    assert!(shows(&h, "暂无日志"));
    click(&mut s, &mut h, "panel_send");
    assert!(shows(&h, "跳过已同步"));
}

#[test]
fn a_log_panel_shows_the_last_lines() {
    let (mut s, mut h) = open();
    for i in 0..130u64 {
        h.now = (1_000 + i) * SECOND;
        click(&mut s, &mut h, "cycle_disconnect");
    }
    assert_eq!(s.log.len(), 120);
    assert!(s.log[0].starts_with("[00:10] "));
    assert!(last_log(&s).starts_with("[02:09] [设置] 掉线处理："));
    click(&mut s, &mut h, "panel_log");
    let lines = texts(h.windows.last().unwrap());
    assert_eq!(lines.iter().filter(|t| t.contains("掉线处理")).count(), 40);
    assert!(lines.iter().any(|t| t == "传输日志（120 条）"));
}

#[test]
fn a_clock_that_goes_back_is_shown_as_zero() {
    let (mut s, mut h) = open();
    h.now -= SECOND;
    click(&mut s, &mut h, "toggle_skip");
    assert!(last_log(&s).starts_with("[00:00] "));
}

// ---------------------------------------------------------------- picking

#[test]
fn a_picked_book_is_shown_and_estimated() {
    let (mut s, mut h) = with_book(BOOK);
    assert!(shows(&h, "b.txt · 41 B"));
    assert_eq!(s.file_size_bytes, BOOK.len());
    assert_eq!(s.chapter_estimate, Some((3, 15)));
    assert!(shows(&h, "预计 3 章 · 15 字"));
    assert_eq!(last_log(&s), "[00:00] [设备] 未连接，跳过自动刷新");
    assert!(s.log[0].ends_with("[文件] b.txt (41 B)"));
    for _ in 0..6 {
        click(&mut s, &mut h, "cycle_split");
    }
    assert!(shows(&h, "按字数分章") && shows(&h, "每章字数") && shows(&h, "5000"));
    click(&mut s, &mut h, "words_up");
    assert_eq!(s.split.words_per_chapter, 5500);
    for _ in 0..50 {
        click(&mut s, &mut h, "words_up");
    }
    assert_eq!(s.split.words_per_chapter, 20000);
    for _ in 0..50 {
        click(&mut s, &mut h, "words_down");
    }
    assert_eq!(s.split.words_per_chapter, 500);
    assert_eq!(s.chapter_estimate.unwrap().0, 1);
}

#[test]
fn a_picked_file_may_be_none_or_no_text() {
    let (mut s, mut h) = open();
    h.pick = ("  ".to_string(), vec![]);
    let before = h.windows.len();
    click(&mut s, &mut h, "pick_file");
    assert_eq!(h.windows.len(), before);
    assert!(s.file_text.is_none());
    h.pick = ("x.txt".to_string(), vec![0xff, 0xfe]);
    click(&mut s, &mut h, "pick_file");
    assert!(s.file_text.is_none());
    assert!(shows(&h, "文件不是 UTF-8 文本，请另存为 UTF-8 后重试"));
    assert_eq!(s.status_tone, Tone::Error);
    assert!(armed(&h, "timer_hide_message"));
    timer(&mut s, &mut h, "timer_hide_message");
    assert!(shows(&h, "就绪"));
}

#[test]
fn a_picked_book_asks_a_connected_wristband() {
    let (mut s, mut h) = open();
    h.pick = ("b.txt".to_string(), BOOK.as_bytes().to_vec());
    click(&mut s, &mut h, "pick_file");
    assert!(s.is_querying);
    assert!(last_log(&s).ends_with("[设备] 查询存储与书籍同步状态"));
    assert!(h.timers.iter().any(|t| t.1 == 1200 && t.2 == "timer_start_handshake"));
}

#[test]
fn covers_have_a_limit() {
    let (mut s, mut h) = open();
    h.pick = ("c.png".to_string(), vec![7; 409600]);
    click(&mut s, &mut h, "pick_cover");
    assert!(shows(&h, "c.png · 400.00 KB"));
    h.pick = ("d.png".to_string(), vec![7; 409601]);
    click(&mut s, &mut h, "pick_cover");
    assert!(s.cover_bytes.is_none() && s.cover_name.is_none());
    assert!(shows(&h, "封面超过 400.00 KB，已忽略"));
    h.pick = ("e.png".to_string(), vec![]);
    click(&mut s, &mut h, "pick_cover");
    assert!(s.cover_name.is_none());
    h.pick = ("f.png".to_string(), vec![1]);
    click(&mut s, &mut h, "pick_cover");
    assert_eq!(s.cover_name.as_deref(), Some("f.png"));
    click(&mut s, &mut h, "clear_cover");
    assert!(s.cover_name.is_none() && last_log(&s).ends_with("[封面] 已清除"));
}

#[test]
fn prompts_set_texts_where_they_are_confirmed() {
    assert_eq!(prompt_text("ok", " 甲 "), Some("甲".to_string()));
    assert_eq!(prompt_text("cancel", "甲"), None);
    let (mut s, mut h) = open();
    h.prompt = ("ok".to_string(), " 某人 ".to_string());
    click(&mut s, &mut h, "edit_author");
    click(&mut s, &mut h, "edit_summary");
    assert_eq!((s.author.as_str(), s.summary.as_str()), ("某人", "某人"));
    assert_eq!(h.prompts[0], ("作者", "留空表示不写入手环书库"));
    h.prompt = ("cancel".to_string(), "x".to_string());
    click(&mut s, &mut h, "edit_author");
    assert_eq!(s.author, "某人");
    h.prompt = ("ok".to_string(), "卷|###".to_string());
    click(&mut s, &mut h, "edit_keyword");
    assert_eq!(s.split.keyword, "卷|###");
    assert!(last_log(&s).ends_with("[分章] 关键字：卷|###"));
    h.prompt = ("ok".to_string(), "  ".to_string());
    click(&mut s, &mut h, "edit_keyword");
    assert!(last_log(&s).ends_with("[分章] 关键字：未设置"));
}

// ---------------------------------------------------------------- connections

#[test]
fn failed_connections_say_why() {
    let (mut s, mut h) = with_book(BOOK);
    h.devices.clear();
    click(&mut s, &mut h, "send_file");
    assert_eq!(s.status_message.as_deref(), Some("未找到设备，请先在 AstroBox 连接手环"));
    assert!(!s.busy_now() && !armed(&h, "timer_transfer_watchdog"));
    h.devices.push("AA:BB".to_string());
    h.packages = None;
    click(&mut s, &mut h, "send_file");
    assert_eq!(s.status_message.as_deref(), Some("获取应用列表失败"));
    h.packages = Some(vec!["other".to_string()]);
    click(&mut s, &mut h, "send_file");
    assert_eq!(s.status_message.as_deref(), Some("未找到「弦电子书」，请先在设备上安装"));
    h.packages = Some(vec![PACKAGE.to_string()]);
    h.launches = false;
    click(&mut s, &mut h, "refresh_device");
    assert_eq!(s.status_message.as_deref(), Some("启动应用失败，请确认手环端已安装并授权"));
    assert!(s.session.is_none());
}

#[test]
fn the_first_device_counts() {
    let devices = vec!["1".to_string(), "2".to_string()];
    assert_eq!(get_device_addr(&devices).unwrap(), "1");
    assert!(device_still_connected(&devices, "2"));
    assert!(device_still_connected(&devices, ""));
    assert!(!device_still_connected(&devices, "3"));
    assert!(!device_still_connected(&vec![], ""));
}

#[test]
fn sending_needs_a_book() {
    let (mut s, mut h) = open();
    click(&mut s, &mut h, "send_file");
    assert_eq!(s.status_message.as_deref(), Some("请先选择文件"));
    assert!(!s.is_sending);
}

#[test]
fn a_book_that_is_all_there_is_not_sent() {
    let (mut s, mut h) = with_book(BOOK);
    s.band.synced_chapters = vec![0, 1, 2];
    click(&mut s, &mut h, "send_file");
    assert_eq!(s.status_message.as_deref(), Some("所有章节都已同步，无需重复发送"));
    assert!(!s.is_sending && s.session.is_none());
    let (mut s, mut h) = with_book("");
    click(&mut s, &mut h, "send_file");
    assert_eq!(s.status_message.as_deref(), Some("文件为空"));
}

// ---------------------------------------------------------------- a transfer

#[test]
fn a_whole_book_goes_over() {
    let (mut s, mut h) = with_book(BOOK);
    start_transfer(&mut s, &mut h);
    assert_eq!(stats(&h), vec!["hs0", "hs2", "startTransfer"]);
    assert_eq!(value(&h.sent[1].1)["version"], Value::from(126600));
    let start = value(&h.sent[2].1);
    assert_eq!(start["total"], Value::from(3));
    assert_eq!(start["startFrom"], Value::from(0));
    assert_eq!(start["hasCover"], Value::from(false));
    assert_eq!(start["wordCount"], Value::from(15));
    h.sent.clear();
    reply(&mut s, &mut h, "ready");
    assert_eq!(stats(&h), vec!["d"]);
    assert!(!s.log.iter().any(|l| l.contains("[封面]")));
    assert!(s.status_message.as_deref() == Some("发送中 42%"));
    assert_eq!(s.speed_text.as_deref(), Some("2.00 KB/s"));
    assert_eq!(s.phase_text.as_deref(), Some("第 1/3 章 · 第一章 a (1 块)"));
    for i in 0..3usize {
        h.sent.clear();
        reply(&mut s, &mut h, "chapter_chunk_complete");
        assert_eq!(stats(&h), vec!["chapter_complete"]);
        assert_eq!(value(&h.sent[0].1)["count"], Value::from(i));
        h.sent.clear();
        reply(&mut s, &mut h, "chapter_saved");
        assert_eq!(stats(&h), vec![if i < 2 { "d" } else { "transfer_complete" }]);
    }
    assert_eq!(s.progress, Gauge { percent: 100, bar: 240 });
    reply(&mut s, &mut h, "transfer_finished");
    assert!(!s.busy_now() && s.session.is_none());
    assert!(shows(&h, "发送成功") && shows(&h, "100%"));
    assert!(last_log(&s).ends_with("[完成] 发送成功"));
    assert!(!armed(&h, "timer_transfer_watchdog"));
    let contents: Vec<String> = h
        .chunks
        .iter()
        .map(|c| value(value(&c.message)["data"].as_str().unwrap())["content"].as_str().unwrap().to_string())
        .collect();
    assert_eq!(contents.join("\n"), BOOK);
}

#[test]
fn long_chapters_go_in_chunks() {
    let body = "长".repeat(12_000);
    let (mut s, mut h) = with_book(&body);
    start_transfer(&mut s, &mut h);
    reply(&mut s, &mut h, "ready");
    reply(&mut s, &mut h, "next_chunk");
    reply(&mut s, &mut h, "next_chunk");
    assert_eq!(h.chunks.len(), 3);
    assert_eq!(h.chunks.iter().map(|c| (c.chunk, c.chunks)).collect::<Vec<_>>(), vec![(0, 3), (1, 3), (2, 3)]);
    assert_eq!(h.chunks[0].bytes, 16383);
    assert_eq!(h.chunks[0].since, None);
    assert_eq!(h.chunks[1].since, Some(h.now));
    let whole: String = h
        .chunks
        .iter()
        .map(|c| value(value(&c.message)["data"].as_str().unwrap())["content"].as_str().unwrap().to_string())
        .collect();
    assert_eq!(whole, body);
    h.sent.clear();
    reply(&mut s, &mut h, "next_chunk");
    assert_eq!(h.chunks.len(), 3);
    assert_eq!(stats(&h), vec!["chapter_complete"]);
    assert_eq!(value(&h.sent[0].1)["count"], Value::from(0));
    reply(&mut s, &mut h, "error");
    assert_eq!(stats(&h), vec!["chapter_complete", "chapter_complete"]);
    reply(&mut s, &mut h, "chapter_saved");
    assert_eq!(stats(&h).last().unwrap(), "transfer_complete");
}

#[test]
fn a_refused_cover_is_sent_again_three_times() {
    let (mut s, mut h) = with_book(BOOK);
    s.cover_bytes = Some((0..10000u32).map(|i| i as u8).collect());
    start_transfer(&mut s, &mut h);
    reply(&mut s, &mut h, "ready");
    reply(&mut s, &mut h, "error");
    reply(&mut s, &mut h, "cover_chunk_received");
    h.sent.clear();
    for i in 0..3 {
        reply(&mut s, &mut h, "error");
        assert_eq!(h.sent.len(), i + 1);
        assert_eq!(value(&h.sent[i].1)["chunkIndex"], Value::from(1));
    }
    reply(&mut s, &mut h, "error");
    assert_eq!(h.sent.len(), 3);
    assert_eq!(s.status_message.as_deref(), Some("传输出错：传输出错"));
    assert!(!s.is_sending && s.session.is_none());
}

#[test]
fn a_cover_that_is_not_there_is_not_sent() {
    let (mut s, mut h) = with_book(BOOK);
    start_transfer(&mut s, &mut h);
    reply(&mut s, &mut h, "ready");
    h.sent.clear();
    reply(&mut s, &mut h, "cover_ready");
    reply(&mut s, &mut h, "error");
    assert_eq!(stats(&h), vec!["d", "d"]);
}

#[test]
fn progress_does_not_pass_the_end() {
    let (mut s, mut h) = with_book(BOOK);
    start_transfer(&mut s, &mut h);
    reply(&mut s, &mut h, "ready");
    let out = copy_of(&h.chunks[0]);
    s.chunk_measured(out, None, Gauge { percent: 101, bar: 241 });
    assert_eq!(s.progress, Gauge { percent: 100, bar: 240 });
    assert_eq!(s.status_message.as_deref(), Some("发送中 100%"));
    assert_eq!(s.speed_text, None);
}

#[test]
fn a_cover_goes_first() {
    let (mut s, mut h) = with_book(BOOK);
    s.cover_name = Some("c.png".to_string());
    s.cover_bytes = Some((0..10000u32).map(|i| i as u8).collect());
    h.prompt = ("ok".to_string(), "作者名".to_string());
    click(&mut s, &mut h, "edit_author");
    start_transfer(&mut s, &mut h);
    let start = value(&h.sent[2].1);
    assert_eq!(start["hasCover"], Value::from(true));
    assert_eq!(start["author"], Value::from("作者名"));
    assert!(start.get("summary").is_none());
    h.sent.clear();
    reply(&mut s, &mut h, "ready");
    assert_eq!(stats(&h), vec!["cover_chunk"]);
    assert_eq!(s.phase_text.as_deref(), Some("发送封面 1/2"));
    reply(&mut s, &mut h, "cover_chunk_received");
    assert_eq!(value(&h.sent[1].1)["chunkIndex"], Value::from(1));
    reply(&mut s, &mut h, "cover_ready");
    assert_eq!(stats(&h), vec!["cover_chunk", "cover_chunk", "cover_transfer_complete", "d"]);
    assert!(last_log(&s).ends_with("[封面] 发送完成"));
    reply(&mut s, &mut h, "cover_saved");
    assert_eq!(h.sent.len(), 4);
}

#[test]
fn skipped_chapters_are_not_sent() {
    let (mut s, mut h) = with_book(BOOK);
    s.band.synced_chapters = vec![0];
    start_transfer(&mut s, &mut h);
    let start = value(&h.sent[2].1);
    assert_eq!(start["total"], Value::from(3));
    assert_eq!(start["startFrom"], Value::from(1));
    message(&mut s, &mut h, "{\"tag\":\"file\",\"data\":{\"type\":\"ready\",\"count\":2}}");
    assert_eq!(value(&h.chunks[0].message)["count"], Value::from(2));
    assert_eq!((h.chunks[0].pos, h.chunks[0].chapters), (1, 2));
    message(&mut s, &mut h, "{\"tag\":\"file\",\"data\":{\"type\":\"ready\",\"count\":0}}");
    assert_eq!(value(&h.chunks[1].message)["count"], Value::from(1));
}

#[test]
fn refused_chunks_are_sent_again_three_times() {
    let (mut s, mut h) = with_book(BOOK);
    start_transfer(&mut s, &mut h);
    reply(&mut s, &mut h, "ready");
    for i in 0..3 {
        reply(&mut s, &mut h, "error");
        assert_eq!(h.chunks.len(), i + 2);
    }
    message(&mut s, &mut h, "{\"tag\":\"file\",\"data\":{\"type\":\"error\",\"message\":\"空间不足\"}}");
    assert_eq!(h.chunks.len(), 4);
    assert_eq!(s.status_message.as_deref(), Some("传输出错：空间不足"));
    assert!(!s.is_sending && s.session.is_none());
}

#[test]
fn a_cancelled_transfer_is_called_off_on_both_sides() {
    let (mut s, mut h) = with_book(BOOK);
    start_transfer(&mut s, &mut h);
    h.sent.clear();
    click(&mut s, &mut h, "cancel_send");
    assert_eq!(stats(&h), vec!["cancel"]);
    assert!(!s.busy_now());
    assert!(h.timers.iter().any(|t| t.1 == 900 && t.2 == "timer_refresh_after_cancel"));
    h.devices.clear();
    timer(&mut s, &mut h, "timer_refresh_after_cancel");
    assert!(last_log(&s).ends_with("[设备] 未连接，跳过自动刷新"));
    click(&mut s, &mut h, "cancel_send");
    assert_eq!(stats(&h), vec!["cancel"]);

    let (mut s, mut h) = with_book(BOOK);
    start_transfer(&mut s, &mut h);
    reply(&mut s, &mut h, "cancel");
    assert!(!s.busy_now());
    assert_eq!(s.status_message.as_deref(), Some("传输已被手环取消"));
}

// ---------------------------------------------------------------- lost links

#[test]
fn a_lost_link_is_connected_again_and_the_transfer_goes_on() {
    let (mut s, mut h) = with_book(BOOK);
    start_transfer(&mut s, &mut h);
    reply(&mut s, &mut h, "ready");
    reply(&mut s, &mut h, "chapter_saved");
    h.sends = false;
    reply(&mut s, &mut h, "chapter_chunk_complete");
    assert!(s.is_sending && s.handling_offline);
    assert_eq!(s.phase_text.as_deref(), Some("重新连接 (1/3)"));
    assert_eq!(s.status_message.as_deref(), Some("发送失败，正在重连 1/3"));
    assert!(h.timers.iter().any(|t| t.1 == 1500 && t.2 == "timer_reconnect_attempt"));
    assert!(!armed(&h, "timer_transfer_watchdog"));
    h.sends = true;
    h.sent.clear();
    timer(&mut s, &mut h, "timer_reconnect_attempt");
    assert!(!s.handling_offline && armed(&h, "timer_transfer_watchdog"));
    assert_eq!(s.phase_text.as_deref(), Some("重连成功，恢复传输"));
    shake(&mut s, &mut h);
    let start = value(&h.sent.last().unwrap().1);
    assert_eq!(start["stat"], Value::from("startTransfer"));
    assert_eq!(start["startFrom"], Value::from(1));
    h.chunks.clear();
    message(&mut s, &mut h, "{\"tag\":\"file\",\"data\":{\"type\":\"ready\",\"count\":1}}");
    assert_eq!(value(&h.chunks[0].message)["count"], Value::from(1));
    assert_eq!(s.reconnect_attempts, 1);
    reply(&mut s, &mut h, "chapter_saved");
    assert_eq!(s.reconnect_attempts, 0);
}

#[test]
fn a_link_that_stays_lost_ends_the_transfer() {
    let (mut s, mut h) = with_book(BOOK);
    start_transfer(&mut s, &mut h);
    h.devices.clear();
    timer(&mut s, &mut h, "timer_transfer_watchdog");
    assert!(!s.handling_offline && s.offline_strikes == 1);
    assert!(armed(&h, "timer_transfer_watchdog"));
    timer(&mut s, &mut h, "timer_transfer_watchdog");
    assert!(s.handling_offline);
    assert!(last_log(&s).ends_with("[掉线] 设备连接已断开，第 1/3 次尝试重连"));
    timer(&mut s, &mut h, "timer_reconnect_attempt");
    timer(&mut s, &mut h, "timer_reconnect_attempt");
    assert!(s.is_sending);
    timer(&mut s, &mut h, "timer_reconnect_attempt");
    assert!(!s.is_sending && s.session.is_none());
    assert_eq!(
        s.status_message.as_deref(),
        Some("未找到设备，请先在 AstroBox 连接手环，已重连 3 次仍失败")
    );
}

#[test]
fn an_overdue_answer_is_a_lost_link() {
    let (mut s, mut h) = with_book(BOOK);
    start_transfer(&mut s, &mut h);
    h.now += 3 * SECOND - 1;
    timer(&mut s, &mut h, "timer_transfer_watchdog");
    assert!(!s.handling_offline);
    h.now += 1;
    timer(&mut s, &mut h, "timer_transfer_watchdog");
    assert!(s.handling_offline);
    assert_eq!(s.status_message.as_deref(), Some("手环 3 秒无响应，正在重连 1/3"));
}

#[test]
fn an_overdue_answer_is_a_lost_link_without_the_device_too() {
    let (mut s, mut h) = with_book(BOOK);
    start_transfer(&mut s, &mut h);
    h.devices.clear();
    h.now += 4 * SECOND;
    timer(&mut s, &mut h, "timer_transfer_watchdog");
    assert!(s.is_sending && s.handling_offline);
    assert_eq!((s.offline_strikes, s.reconnect_attempts), (1, 1));
    assert_eq!(s.status_message.as_deref(), Some("手环 3 秒无响应，正在重连 1/3"));

    let (mut s, mut h) = with_book(BOOK);
    click(&mut s, &mut h, "cycle_disconnect");
    start_transfer(&mut s, &mut h);
    h.devices.clear();
    h.now += 4 * SECOND;
    timer(&mut s, &mut h, "timer_transfer_watchdog");
    assert!(!s.is_sending && s.session.is_none());
    assert_eq!(s.status_message.as_deref(), Some("手环 3 秒无响应，已取消传输"));
}

#[test]
fn an_overdue_handshake_is_a_lost_link() {
    let (mut s, mut h) = with_book(BOOK);
    click(&mut s, &mut h, "send_file");
    for i in 1..=3 {
        timer(&mut s, &mut h, "timer_start_handshake");
        assert!(h.timers.iter().any(|t| t.1 == 3000 && t.2 == "timer_handshake_timeout"));
        timer(&mut s, &mut h, "timer_handshake_timeout");
        assert_eq!(s.reconnect_attempts, i);
        timer(&mut s, &mut h, "timer_reconnect_attempt");
    }
    timer(&mut s, &mut h, "timer_handshake_timeout");
    assert_eq!(
        s.status_message.as_deref(),
        Some("连接超时，已重连 3 次仍失败，请确认手环端应用已打开并停留在前台")
    );
}

#[test]
fn a_lost_link_can_call_the_transfer_off() {
    let (mut s, mut h) = with_book(BOOK);
    click(&mut s, &mut h, "cycle_disconnect");
    assert_eq!(s.disconnect_action, DisconnectAction::Cancel);
    assert!(shows(&h, "取消传输") && shows(&h, "掉线后立即终止本次传输"));
    start_transfer(&mut s, &mut h);
    reply(&mut s, &mut h, "ready");
    h.sends = false;
    reply(&mut s, &mut h, "next_chunk");
    assert!(!s.is_sending && s.session.is_none());
    assert_eq!(s.status_message.as_deref(), Some("发送失败，已取消传输"));
    assert!(armed(&h, "timer_refresh_after_cancel"));
}

#[test]
fn a_lost_link_is_not_lost_again_meanwhile() {
    let (mut s, mut h) = with_book(BOOK);
    start_transfer(&mut s, &mut h);
    h.sends = false;
    reply(&mut s, &mut h, "ready");
    assert_eq!(s.reconnect_attempts, 1);
    let lines = s.log.len();
    h.now += 10 * SECOND;
    timer(&mut s, &mut h, "timer_transfer_watchdog");
    reply(&mut s, &mut h, "chapter_chunk_complete");
    assert_eq!(s.reconnect_attempts, 1);
    assert_eq!(s.log.len(), lines);
    h.sends = true;
    click(&mut s, &mut h, "cancel_send");
    timer(&mut s, &mut h, "timer_reconnect_attempt");
    assert!(s.session.is_none() && !s.handling_offline);
}

#[test]
fn the_choice_for_lost_links_alternates() {
    let (mut s, mut h) = open();
    click(&mut s, &mut h, "cycle_disconnect");
    assert_eq!(s.disconnect_action, DisconnectAction::Cancel);
    click(&mut s, &mut h, "cycle_disconnect");
    assert_eq!(s.disconnect_action, DisconnectAction::Retry);
    s.on_timer("timer_hide_message", h.now);
    run(&mut s, &mut h);
    assert!(shows(&h, "就绪"));
}

#[test]
fn a_transfer_that_lacks_only_its_end_sends_only_that() {
    let (mut s, mut h) = with_book("第一章 a\n1");
    start_transfer(&mut s, &mut h);
    reply(&mut s, &mut h, "ready");
    h.sends = false;
    reply(&mut s, &mut h, "chapter_saved");
    assert!(s.handling_offline);
    h.sends = true;
    h.sent.clear();
    timer(&mut s, &mut h, "timer_reconnect_attempt");
    shake(&mut s, &mut h);
    assert_eq!(stats(&h), vec!["hs0", "hs2", "transfer_complete"]);
}

// ---------------------------------------------------------------- questions

#[test]
fn a_question_about_the_wristband_ends_with_both_answers() {
    let (mut s, mut h) = with_book(BOOK);
    click(&mut s, &mut h, "refresh_device");
    assert!(s.is_querying && shows(&h, "读取手环信息..."));
    shake(&mut s, &mut h);
    assert_eq!(stats(&h), vec!["hs0", "hs2", "get_storage_info", "get_book_status"]);
    assert!(h.timers.iter().any(|t| t.1 == 5000 && t.2 == "timer_query_timeout"));
    message(
        &mut s,
        &mut h,
        "{\"tag\":\"file\",\"data\":{\"type\":\"storage_info\",\"product\":\"Band 9\",\"totalStorage\":104857600,\"actualAvailable\":1048576}}",
    );
    assert!(s.is_querying);
    assert!(last_log(&s).ends_with("[设备] Band 9 可用 1.00 MB / 100.00 MB"));
    message(
        &mut s,
        &mut h,
        "{\"tag\":\"file\",\"data\":{\"type\":\"book_status\",\"syncedChapters\":[0,2],\"hasCover\":true}}",
    );
    assert!(!s.busy_now() && !armed(&h, "timer_query_timeout"));
    assert!(last_log(&s).ends_with("[设备] 已同步 2 章，已有封面"));
    assert!(shows(&h, "手环信息已更新") && shows(&h, "手环剩余空间偏低，建议先清理旧书"));
    assert!(shows(&h, "已同步 2 章"));
    click(&mut s, &mut h, "panel_device");
    assert!(shows(&h, "1.00 MB / 100.00 MB") && shows(&h, "2 章已同步，已有封面"));
}

#[test]
fn a_question_that_is_not_answered_fails() {
    let (mut s, mut h) = open();
    click(&mut s, &mut h, "refresh_device");
    timer(&mut s, &mut h, "timer_start_handshake");
    timer(&mut s, &mut h, "timer_handshake_timeout");
    assert!(!s.is_querying && last_log(&s).ends_with("[错误] 握手超时"));
    click(&mut s, &mut h, "refresh_device");
    shake(&mut s, &mut h);
    assert_eq!(stats(&h).last().unwrap(), "get_storage_info");
    timer(&mut s, &mut h, "timer_query_timeout");
    assert!(!s.is_querying && last_log(&s).ends_with("[错误] 查询超时"));
    click(&mut s, &mut h, "refresh_device");
    shake(&mut s, &mut h);
    message(&mut s, &mut h, "{\"tag\":\"file\",\"data\":{\"type\":\"error\"}}");
    assert_eq!(s.status_message.as_deref(), Some("手环返回：手环返回错误"));
    assert!(!s.is_querying);
}

#[test]
fn only_one_thing_goes_on_at_a_time() {
    let (mut s, mut h) = with_book(BOOK);
    start_transfer(&mut s, &mut h);
    let sent = h.sent.len();
    click(&mut s, &mut h, "refresh_device");
    assert_eq!(s.status_message.as_deref(), Some("正在忙，请稍候"));
    for event in ["send_file", "pick_file", "pick_cover", "cycle_split"] {
        click(&mut s, &mut h, event);
    }
    assert_eq!(h.sent.len(), sent);
    assert!(s.is_sending && !s.is_querying);
}

#[test]
fn settings_are_read() {
    let (mut s, mut h) = open();
    click(&mut s, &mut h, "load_settings");
    shake(&mut s, &mut h);
    let ask = value(&h.sent.last().unwrap().1);
    assert_eq!(ask["stat"], Value::from("get_settings"));
    assert_eq!(ask["keys"].as_array().unwrap().len(), 14);
    assert_eq!(ask["keys"][0], Value::from("EBOOK_FONT"));
    message(
        &mut s,
        &mut h,
        "{\"tag\":\"file\",\"data\":{\"type\":\"settings_data\",\"settings\":{\"EBOOK_FONT\":40,\"EBOOK_GESTURE\":\"double\",\"X\":null}}}",
    );
    assert!(!s.is_querying && last_log(&s).ends_with("[设置] 已读取 3 项"));
    click(&mut s, &mut h, "panel_device");
    assert!(shows(&h, "40") && shows(&h, "双击"));
    assert!(!shows(&h, "尚未读取，点上方「读取阅读设置」获取当前值"));
}

#[test]
fn a_changed_setting_waits_for_a_handshake() {
    let (mut s, mut h) = open();
    click(&mut s, &mut h, "set_inc:EBOOK_FONT");
    assert!(s.is_querying);
    assert!(h.sent.is_empty());
    assert_eq!(s.pending_writes, vec![("EBOOK_FONT".to_string(), "32".to_string())]);
    assert!(s.log[0].ends_with("[设置] 字号 → 32"));
    click(&mut s, &mut h, "setting:EBOOK_BOLD_ENABLED");
    assert_eq!(s.pending_writes.len(), 2);
    shake(&mut s, &mut h);
    assert_eq!(stats(&h), vec!["hs0", "hs2", "set_settings", "set_settings"]);
    assert_eq!(value(&h.sent[2].1)["settings"]["EBOOK_FONT"], Value::from("32"));
    assert_eq!(value(&h.sent[3].1)["settings"]["EBOOK_BOLD_ENABLED"], Value::from("false"));
    click(&mut s, &mut h, "set_dec:EBOOK_FONT");
    assert_eq!(value(&h.sent[4].1)["settings"]["EBOOK_FONT"], Value::from("30"));
    message(&mut s, &mut h, "{\"tag\":\"file\",\"data\":{\"type\":\"success\"}}");
    assert!(!s.is_querying && last_log(&s).ends_with("[设置] 设置已更新"));
    assert_eq!(s.band.settings.get("EBOOK_FONT").unwrap(), "30");
}

#[test]
fn numbers_that_cannot_step_are_noticed() {
    let (mut s, _) = open();
    assert!(s.can_click("set_inc:EBOOK_FONT"));
    s.band.settings.insert("EBOOK_FONT", "9223372036854775807");
    assert!(!s.can_click("set_inc:EBOOK_FONT"));
    assert!(s.can_click("set_dec:EBOOK_FONT") && s.can_click("set_inc:EBOOK_OPACITY"));
    assert!(s.can_click("setting:EBOOK_FONT") && s.can_click("panel_log"));
}

#[test]
fn messages_that_do_not_belong_change_nothing() {
    let (mut s, mut h) = open();
    let windows = h.windows.len();
    assert!(!handle_interconnect_message(&mut s, "not json", h.now));
    assert_eq!(s.last_inbound_at, None);
    message(&mut s, &mut h, "{\"tag\":\"other\"}");
    assert_eq!(s.last_inbound_at, Some(h.now));
    for kind in ["ready", "next_chunk", "chapter_saved", "transfer_finished", "error", "success"] {
        reply(&mut s, &mut h, kind);
    }
    message(&mut s, &mut h, "{\"tag\":\"__hs__\",\"count\":1,\"version\":\"130000\"}");
    assert_eq!(s.peer_version, Some(130000));
    message(&mut s, &mut h, "{\"tag\":\"__hs__\",\"count\":1,\"version\":5}");
    assert_eq!(s.peer_version, Some(130000));
    timer(&mut s, &mut h, "timer_of_nobody");
    assert_eq!(h.windows.len(), windows);
    assert!(h.sent.is_empty());
}

#[test]
fn handshakes_are_answered_up_to_the_second() {
    let (mut s, mut h) = with_book(BOOK);
    click(&mut s, &mut h, "send_file");
    message(&mut s, &mut h, "{\"tag\":\"__hs__\",\"count\":0}");
    assert_eq!(stats(&h), vec!["hs1"]);
    message(&mut s, &mut h, "{\"tag\":\"__hs__\",\"count\":2}");
    assert_eq!(stats(&h), vec!["hs1", "startTransfer"]);
    message(&mut s, &mut h, "{\"tag\":\"__hs__\",\"count\":3}");
    assert_eq!(h.sent.len(), 2);
}
