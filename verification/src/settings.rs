//! The reading settings of the wristband.
use crate::text;
use vstd::prelude::*;
use vstd::string::StringExecFns;

verus! {

/// The key that begins a click on a setting in the window.
pub const SETTING_CLICK_PREFIX: &'static str = "setting:";

/// The key that begins a click on the minus of a setting.
pub const SETTING_DEC_PREFIX: &'static str = "set_dec:";

/// The key that begins a click on the plus of a setting.
pub const SETTING_INC_PREFIX: &'static str = "set_inc:";

/// The values that a setting can have.
pub enum SettingKind {
    /// On or off.
    Bool,
    /// A number in a range, changed in steps.
    Int { min: i64, max: i64, step: i64, suffix: &'static str },
    /// One of some values, each with the name that the window shows.
    Choice(Vec<(&'static str, &'static str)>),
}

/// A reading setting of the wristband.
pub struct SettingDef {
    pub key: &'static str,
    pub label: &'static str,
    pub kind: SettingKind,
    /// The value that counts where the wristband's own is not known.
    pub default: &'static str,
}

/// The values of a setting, as mathematics.
#[verifier::ext_equal]
pub enum SettingKindView {
    Bool,
    Int { min: int, max: int, step: int, suffix: Seq<char> },
    Choice(Seq<(Seq<char>, Seq<char>)>),
}

/// A setting, as mathematics.
#[verifier::ext_equal]
pub struct SettingView {
    pub key: Seq<char>,
    pub label: Seq<char>,
    pub kind: SettingKindView,
    pub default: Seq<char>,
}

/// The options of a choice, as texts.
pub open spec fn option_views(opts: Seq<(&'static str, &'static str)>) -> Seq<
    (Seq<char>, Seq<char>),
> {
    Seq::new(opts.len(), |i: int| (opts[i].0@, opts[i].1@))
}

impl View for SettingKind {
    type V = SettingKindView;

    open spec fn view(&self) -> SettingKindView {
        match *self {
            SettingKind::Bool => SettingKindView::Bool,
            SettingKind::Int { min, max, step, suffix } => SettingKindView::Int {
                min: min as int,
                max: max as int,
                step: step as int,
                suffix: suffix@,
            },
            SettingKind::Choice(opts) => SettingKindView::Choice(option_views(opts@)),
        }
    }
}

impl View for SettingDef {
    type V = SettingView;

    open spec fn view(&self) -> SettingView {
        SettingView {
            key: self.key@,
            label: self.label@,
            kind: self.kind@,
            default: self.default@,
        }
    }
}

/// The settings of a sequence, as mathematics.
pub open spec fn setting_views(defs: Seq<SettingDef>) -> Seq<SettingView> {
    Seq::new(defs.len(), |i: int| defs[i]@)
}

// ---------------------------------------------------------------- the table

/// An on-off setting.
pub open spec fn switch(key: Seq<char>, label: Seq<char>, default: Seq<char>) -> SettingView {
    SettingView { key, label, kind: SettingKindView::Bool, default }
}

/// A number setting.
pub open spec fn number(
    key: Seq<char>,
    label: Seq<char>,
    min: int,
    max: int,
    step: int,
    suffix: Seq<char>,
    default: Seq<char>,
) -> SettingView {
    SettingView { key, label, kind: SettingKindView::Int { min, max, step, suffix }, default }
}

/// A choice setting.
pub open spec fn choice(
    key: Seq<char>,
    label: Seq<char>,
    opts: Seq<(Seq<char>, Seq<char>)>,
    default: Seq<char>,
) -> SettingView {
    SettingView { key, label, kind: SettingKindView::Choice(opts), default }
}

/// The settings that the window offers, in the order in which it shows them.
pub open spec fn band_table() -> Seq<SettingView> {
    seq![
        number("EBOOK_FONT"@, "字号"@, 16, 64, 2, ""@, "30"@),
        number("EBOOK_OPACITY"@, "不透明度"@, 10, 100, 10, "%"@, "100"@),
        number("EBOOK_VERTICAL_MARGIN"@, "上下边距"@, 0, 40, 2, ""@, "10"@),
        switch("EBOOK_BOLD_ENABLED"@, "加粗"@, "true"@),
        choice(
            "EBOOK_READ_MODE"@,
            "阅读模式"@,
            seq![("scroll"@, "滚动"@), ("nostalgic"@, "怀旧"@)],
            "scroll"@,
        ),
        choice(
            "EBOOK_TIME_FORMAT"@,
            "时间格式"@,
            seq![("24h"@, "24 小时"@), ("12h"@, "12 小时"@)],
            "24h"@,
        ),
        choice(
            "EBOOK_CHAPTER_SWITCH_STYLE"@,
            "章节切换"@,
            seq![("button"@, "按钮"@), ("boundary"@, "越界"@), ("swipe"@, "滑动"@)],
            "button"@,
        ),
        choice(
            "EBOOK_GESTURE"@,
            "翻页手势"@,
            seq![("single"@, "单击"@), ("double"@, "双击"@)],
            "single"@,
        ),
        switch("EBOOK_SHOW_PROGRESS_BAR"@, "显示进度条"@, "true"@),
        switch("EBOOK_SHOW_PROGRESS_BAR_PERCENT"@, "进度条显示百分比"@, "true"@),
        switch("EBOOK_PREVENT_PARAGRAPH_SPLITTING"@, "防止段落截断"@, "false"@),
        switch("EBOOK_ALWAYS_SHOW_TIME"@, "常显时间"@, "true"@),
        switch("EBOOK_ALWAYS_SHOW_BATTERY"@, "常显电量"@, "true"@),
        switch("EBOOK_BRIGHTNESS_FOLLOW_SYSTEM"@, "亮度跟随系统"@, "true"@),
    ]
}

fn new_switch(key: &'static str, label: &'static str, default: &'static str) -> (r: SettingDef)
    ensures
        r@ == switch(key@, label@, default@),
{
    SettingDef { key, label, kind: SettingKind::Bool, default }
}

fn new_number(
    key: &'static str,
    label: &'static str,
    min: i64,
    max: i64,
    step: i64,
    suffix: &'static str,
    default: &'static str,
) -> (r: SettingDef)
    ensures
        r@ == number(key@, label@, min as int, max as int, step as int, suffix@, default@),
{
    SettingDef { key, label, kind: SettingKind::Int { min, max, step, suffix }, default }
}

fn new_choice(
    key: &'static str,
    label: &'static str,
    opts: Vec<(&'static str, &'static str)>,
    default: &'static str,
) -> (r: SettingDef)
    ensures
        r@ == choice(key@, label@, option_views(opts@), default@),
{
    SettingDef { key, label, kind: SettingKind::Choice(opts), default }
}

fn two(
    a: (&'static str, &'static str),
    b: (&'static str, &'static str),
) -> (r: Vec<(&'static str, &'static str)>)
    ensures
        option_views(r@) == seq![(a.0@, a.1@), (b.0@, b.1@)],
{
    let r = vec![a, b];
    assert(option_views(r@) =~= seq![(a.0@, a.1@), (b.0@, b.1@)]);
    r
}

/// The settings that the window offers, in the order in which it shows them.
pub fn band_settings() -> (r: Vec<SettingDef>)
    ensures
        setting_views(r@) == band_table(),
{
    let switch_opts = vec![("button", "按钮"), ("boundary", "越界"), ("swipe", "滑动")];
    assert(option_views(switch_opts@) =~= seq![
        ("button"@, "按钮"@),
        ("boundary"@, "越界"@),
        ("swipe"@, "滑动"@),
    ]);
    let r = vec![
        new_number("EBOOK_FONT", "字号", 16, 64, 2, "", "30"),
        new_number("EBOOK_OPACITY", "不透明度", 10, 100, 10, "%", "100"),
        new_number("EBOOK_VERTICAL_MARGIN", "上下边距", 0, 40, 2, "", "10"),
        new_switch("EBOOK_BOLD_ENABLED", "加粗", "true"),
        new_choice(
            "EBOOK_READ_MODE",
            "阅读模式",
            two(("scroll", "滚动"), ("nostalgic", "怀旧")),
            "scroll",
        ),
        new_choice(
            "EBOOK_TIME_FORMAT",
            "时间格式",
            two(("24h", "24 小时"), ("12h", "12 小时")),
            "24h",
        ),
        new_choice("EBOOK_CHAPTER_SWITCH_STYLE", "章节切换", switch_opts, "button"),
        new_choice(
            "EBOOK_GESTURE",
            "翻页手势",
            two(("single", "单击"), ("double", "双击")),
            "single",
        ),
        new_switch("EBOOK_SHOW_PROGRESS_BAR", "显示进度条", "true"),
        new_switch("EBOOK_SHOW_PROGRESS_BAR_PERCENT", "进度条显示百分比", "true"),
        new_switch("EBOOK_PREVENT_PARAGRAPH_SPLITTING", "防止段落截断", "false"),
        new_switch("EBOOK_ALWAYS_SHOW_TIME", "常显时间", "true"),
        new_switch("EBOOK_ALWAYS_SHOW_BATTERY", "常显电量", "true"),
        new_switch("EBOOK_BRIGHTNESS_FOLLOW_SYSTEM", "亮度跟随系统", "true"),
    ];
    assert(setting_views(r@) =~= band_table());
    r
}

/// The keys of settings, in their order.
pub open spec fn keys_of(defs: Seq<SettingView>) -> Seq<Seq<char>> {
    Seq::new(defs.len(), |i: int| defs[i].key)
}

/// The setting of a key: the first of the table that has it.
pub open spec fn find(table: Seq<SettingView>, key: Seq<char>) -> Option<SettingView>
    decreases table.len(),
{
    if table.len() == 0 {
        None
    } else {
        match find(table.drop_last(), key) {
            Some(d) => Some(d),
            None => if table.last().key == key {
                Some(table.last())
            } else {
                None
            },
        }
    }
}

/// The setting of a key.
pub open spec fn band_def(key: Seq<char>) -> Option<SettingView> {
    find(band_table(), key)
}

/// Where one entry has the key and none before it has, the entry is found.
proof fn lemma_find(table: Seq<SettingView>, key: Seq<char>, i: int)
    requires
        0 <= i < table.len(),
        table[i].key == key,
        forall|j: int| 0 <= j < i ==> (#[trigger] table[j]).key != key,
    ensures
        find(table, key) == Some(table[i]),
    decreases table.len(),
{
    if i < table.len() - 1 {
        lemma_find(table.drop_last(), key, i);
        assert(table.drop_last()[i] == table[i]);
    } else {
        lemma_not_found(table.drop_last(), key);
    }
}

/// Where no entry has the key, none is found.
proof fn lemma_not_found(table: Seq<SettingView>, key: Seq<char>)
    requires
        forall|j: int| 0 <= j < table.len() ==> (#[trigger] table[j]).key != key,
    ensures
        find(table, key) is None,
    decreases table.len(),
{
    if table.len() > 0 {
        assert(table.last() == table[table.len() - 1]);
        lemma_not_found(table.drop_last(), key);
    }
}

/// The setting of a key.
pub fn band_setting(key: &str) -> (r: Option<SettingDef>)
    ensures
        match r {
            Some(d) => band_def(key@) == Some(d@),
            None => band_def(key@) is None,
        },
{
    let mut defs = band_settings();
    let ghost table = setting_views(defs@);
    let mut i: usize = 0;
    while i < defs.len()
        invariant
            i <= defs@.len(),
            table == setting_views(defs@),
            table == band_table(),
            forall|j: int| 0 <= j < i ==> (#[trigger] table[j]).key != key@,
        decreases defs@.len() - i,
    {
        assert(table[i as int] == defs@[i as int]@);
        if text::same_text(defs[i].key, key) {
            proof {
                lemma_find(table, key@, i as int);
            }
            return Some(defs.swap_remove(i));
        }
        i += 1;
    }
    proof {
        lemma_not_found(table, key@);
    }
    None
}

// ---------------------------------------------------------------- values

/// The position of a value among the options of a choice, or their number where
/// it is none of them.
pub open spec fn option_index(opts: Seq<(Seq<char>, Seq<char>)>, value: Seq<char>) -> nat
    decreases opts.len(),
{
    if opts.len() == 0 {
        0
    } else if opts[0].0 == value {
        0
    } else {
        1 + option_index(opts.skip(1), value)
    }
}

/// The value of a setting as the window shows it.
pub open spec fn shown_value(kind: SettingKindView, raw: Seq<char>) -> Seq<char> {
    match kind {
        SettingKindView::Bool => if raw == "false"@ {
            "关"@
        } else {
            "开"@
        },
        SettingKindView::Int { min, max, step, suffix } => raw + suffix,
        SettingKindView::Choice(opts) => if option_index(opts, raw) < opts.len() {
            opts[option_index(opts, raw) as int].1
        } else {
            raw
        },
    }
}

/// The value after a click: the other one of an on-off setting, where anything
/// but `false` is on; the next option of a choice, where anything unknown is the
/// first. A number has none.
pub open spec fn cycled(kind: SettingKindView, current: Seq<char>) -> Option<Seq<char>> {
    match kind {
        SettingKindView::Bool => Some(
            if current == "false"@ {
                "true"@
            } else {
                "false"@
            },
        ),
        SettingKindView::Choice(opts) => if opts.len() == 0 {
            None
        } else {
            let at = option_index(opts, current);
            let at = if at < opts.len() {
                at
            } else {
                0
            };
            Some(opts[((at + 1) % opts.len()) as int].0)
        },
        SettingKindView::Int { .. } => None,
    }
}

/// A number kept between two bounds.
pub open spec fn clamp(n: int, min: int, max: int) -> int {
    if n < min {
        min
    } else if n > max {
        max
    } else {
        n
    }
}

/// The number that a setting has: that of its text, else that of its default,
/// else the smallest.
pub open spec fn number_value(default: Seq<char>, min: int, current: Seq<char>) -> int {
    match text::i64_value(current) {
        Some(n) => n as int,
        None => match text::i64_value(default) {
            Some(n) => n as int,
            None => min,
        },
    }
}

/// A step up or down.
pub open spec fn direction(up: bool) -> int {
    if up {
        1
    } else {
        -1
    }
}

/// The number after a step, kept in range. Other settings have none.
pub open spec fn stepped(def: SettingView, current: Seq<char>, up: bool) -> Option<int> {
    match def.kind {
        SettingKindView::Int { min, max, step, suffix } => Some(
            clamp(number_value(def.default, min, current) + direction(up) * step, min, max),
        ),
        _ => None,
    }
}

/// A step from the present number stays within 64 bits.
pub open spec fn steppable(def: SettingView, current: Seq<char>, up: bool) -> bool {
    match def.kind {
        SettingKindView::Int { min, max, step, suffix } => i64::MIN <= number_value(
            def.default,
            min,
            current,
        ) + direction(up) * step <= i64::MAX,
        _ => true,
    }
}

fn find_option(opts: &Vec<(&'static str, &'static str)>, value: &str) -> (r: usize)
    ensures
        r == option_index(option_views(opts@), value@),
        r <= opts@.len(),
{
    let ghost all = option_views(opts@);
    let mut i: usize = 0;
    assert(all.skip(0) =~= all);
    while i < opts.len()
        invariant
            i <= opts@.len(),
            all == option_views(opts@),
            option_index(all, value@) == i + option_index(all.skip(i as int), value@),
        decreases opts@.len() - i,
    {
        assert(all.skip(i as int)[0] == all[i as int]);
        assert(all.skip(i as int).skip(1) =~= all.skip(i + 1));
        if text::same_text(opts[i].0, value) {
            return i;
        }
        i += 1;
    }
    assert(all.skip(i as int).len() == 0);
    i
}

impl SettingDef {
    /// The value of the setting as the window shows it.
    pub fn def_value_text(&self, raw: &str) -> (r: String)
        ensures
            r@ == shown_value(self@.kind, raw@),
    {
        match &self.kind {
            SettingKind::Bool => if text::same_text(raw, "false") {
                "关".to_owned()
            } else {
                "开".to_owned()
            },
            SettingKind::Int { suffix, .. } => {
                let mut out = raw.to_owned();
                out.append(suffix);
                out
            },
            SettingKind::Choice(opts) => {
                let i = find_option(opts, raw);
                if i < opts.len() {
                    opts[i].1.to_owned()
                } else {
                    raw.to_owned()
                }
            },
        }
    }

    /// The value after a click on the setting.
    pub fn next_value(&self, current: &str) -> (r: Option<String>)
        ensures
            match r {
                Some(t) => cycled(self@.kind, current@) == Some(t@),
                None => cycled(self@.kind, current@) is None,
            },
    {
        match &self.kind {
            SettingKind::Bool => Some(
                if text::same_text(current, "false") {
                    "true".to_owned()
                } else {
                    "false".to_owned()
                },
            ),
            SettingKind::Choice(opts) => {
                if opts.len() == 0 {
                    return None;
                }
                let found = find_option(opts, current);
                let at: usize = if found < opts.len() {
                    found
                } else {
                    0
                };
                let next: usize = if at + 1 == opts.len() {
                    0
                } else {
                    at + 1
                };
                proof {
                    let n = opts@.len();
                    if at + 1 == n {
                        assert((at + 1) as nat % n == 0) by (nonlinear_arith)
                            requires
                                at + 1 == n,
                        ;
                    } else {
                        assert((at + 1) as nat % n == at + 1) by (nonlinear_arith)
                            requires
                                at + 1 < n,
                        ;
                    }
                }
                Some(opts[next].0.to_owned())
            },
            SettingKind::Int { .. } => None,
        }
    }

    /// Tells whether a step from the present number stays within 64 bits.
    pub fn can_step(&self, current: &str, up: bool) -> (r: bool)
        ensures
            r == steppable(self@, current@, up),
    {
        match &self.kind {
            SettingKind::Int { min, step, .. } => {
                let n = self.number(*min, current) as i128;
                let next = if up {
                    n + *step as i128
                } else {
                    n - *step as i128
                };
                -0x8000_0000_0000_0000 <= next && next <= 0x7fff_ffff_ffff_ffff
            },
            _ => true,
        }
    }

    fn number(&self, min: i64, current: &str) -> (r: i64)
        ensures
            r == number_value(self@.default, min as int, current@),
    {
        match text::parse_i64(current) {
            Some(n) => n,
            None => match text::parse_i64(self.default) {
                Some(n) => n,
                None => min,
            },
        }
    }

    /// The number one step up or down, kept in range.
    pub fn step_value(&self, current: &str, up: bool) -> (r: Option<i64>)
        requires
            steppable(self@, current@, up),
        ensures
            match r {
                Some(n) => stepped(self@, current@, up) == Some(n as int),
                None => stepped(self@, current@, up) is None,
            },
    {
        match &self.kind {
            SettingKind::Int { min, max, step, .. } => {
                let n = self.number(*min, current);
                let next: i64 = if up {
                    n + *step
                } else {
                    n - *step
                };
                Some(
                    if next < *min {
                        *min
                    } else if next > *max {
                        *max
                    } else {
                        next
                    },
                )
            },
            _ => None,
        }
    }
}

// ---------------------------------------------------------------- laws

/// No two settings have the same key.
pub proof fn settings_have_distinct_keys(i: int, j: int)
    requires
        0 <= i < j < band_table().len(),
    ensures
        band_table()[i].key != band_table()[j].key,
{
    reveal_strlit("EBOOK_FONT");
    reveal_strlit("EBOOK_OPACITY");
    reveal_strlit("EBOOK_VERTICAL_MARGIN");
    reveal_strlit("EBOOK_BOLD_ENABLED");
    reveal_strlit("EBOOK_READ_MODE");
    reveal_strlit("EBOOK_TIME_FORMAT");
    reveal_strlit("EBOOK_CHAPTER_SWITCH_STYLE");
    reveal_strlit("EBOOK_GESTURE");
    reveal_strlit("EBOOK_SHOW_PROGRESS_BAR");
    reveal_strlit("EBOOK_SHOW_PROGRESS_BAR_PERCENT");
    reveal_strlit("EBOOK_PREVENT_PARAGRAPH_SPLITTING");
    reveal_strlit("EBOOK_ALWAYS_SHOW_TIME");
    reveal_strlit("EBOOK_ALWAYS_SHOW_BATTERY");
    reveal_strlit("EBOOK_BRIGHTNESS_FOLLOW_SYSTEM");
    let lens: Seq<nat> = seq![10, 13, 21, 18, 15, 17, 26, 13, 23, 31, 33, 22, 25, 30];
    assert forall|k: int| 0 <= k < 14 implies (#[trigger] band_table()[k]).key.len() == lens[k] by {
        if k < 7 {
        } else {
        }
    }
    assert("EBOOK_OPACITY"@[6] == 'O');
    assert("EBOOK_GESTURE"@[6] == 'G');
    if lens[i] == lens[j] {
        assert(i == 1 && j == 7);
    }
}

/// Every setting of the table is found by its key.
pub proof fn settings_are_found_by_key(i: int)
    requires
        0 <= i < band_table().len(),
    ensures
        band_def(band_table()[i].key) == Some(band_table()[i]),
{
    let table = band_table();
    assert forall|j: int| 0 <= j < i implies (#[trigger] table[j]).key != table[i].key by {
        settings_have_distinct_keys(j, i);
    }
    lemma_find(table, table[i].key, i);
}

/// A step leaves a number in its range.
pub proof fn steps_stay_in_range(def: SettingView, current: Seq<char>, up: bool)
    requires
        def.kind matches SettingKindView::Int { min, max, step, suffix } && min <= max,
    ensures
        stepped(def, current, up) matches Some(n) && (def.kind matches SettingKindView::Int {
            min,
            max,
            step,
            suffix,
        } && min <= n <= max),
{
}

/// Clicks on a choice go through its options in order and come back to the first:
/// after the option at `i` comes the one at `i + 1`, and after the last the first.
pub proof fn clicks_go_through_the_options(opts: Seq<(Seq<char>, Seq<char>)>, i: int)
    requires
        0 <= i < opts.len(),
        forall|j: int, k: int| 0 <= j < k < opts.len() ==> (#[trigger] opts[j]).0 != (#[trigger] opts[k]).0,
    ensures
        cycled(SettingKindView::Choice(opts), opts[i].0) == Some(
            opts[if i + 1 < opts.len() {
                i + 1
            } else {
                0
            }].0,
        ),
{
    lemma_option_index(opts, i);
    let n = opts.len();
    if i + 1 < n {
        assert((i + 1) as nat % n == i + 1) by (nonlinear_arith)
            requires
                0 <= i,
                i + 1 < n,
        ;
    } else {
        assert((i + 1) as nat % n == 0) by (nonlinear_arith)
            requires
                i + 1 == n,
                n > 0,
        ;
    }
}

proof fn lemma_option_index(opts: Seq<(Seq<char>, Seq<char>)>, i: int)
    requires
        0 <= i < opts.len(),
        forall|j: int, k: int| 0 <= j < k < opts.len() ==> (#[trigger] opts[j]).0 != (#[trigger] opts[k]).0,
    ensures
        option_index(opts, opts[i].0) == i,
    decreases opts.len(),
{
    if i > 0 {
        let rest = opts.skip(1);
        assert(opts[0].0 != opts[i].0);
        assert forall|j: int, k: int| 0 <= j < k < rest.len() implies (#[trigger] rest[j]).0 != (
        #[trigger] rest[k]).0 by {
            assert(rest[j] == opts[j + 1] && rest[k] == opts[k + 1]);
        }
        lemma_option_index(rest, i - 1);
        assert(rest[i - 1] == opts[i]);
    }
}

/// Two clicks on an on-off setting lead back to the value it stands for.
pub proof fn two_clicks_undo_a_switch(current: Seq<char>)
    ensures
        ({
            let once = cycled(SettingKindView::Bool, current)->0;
            let twice = cycled(SettingKindView::Bool, once)->0;
            &&& shown_value(SettingKindView::Bool, once) != shown_value(
                SettingKindView::Bool,
                current,
            )
            &&& shown_value(SettingKindView::Bool, twice) == shown_value(
                SettingKindView::Bool,
                current,
            )
        }),
{
    reveal_strlit("true");
    reveal_strlit("false");
    reveal_strlit("开");
    reveal_strlit("关");
    assert("true"@.len() != "false"@.len());
    assert("开"@[0] != "关"@[0]);
}

// ---------------------------------------------------------------- known values

/// The values of settings that are known, by key.
pub struct SettingMap {
    entries: Vec<(String, String)>,
}

spec fn has_key(entries: Seq<(String, String)>, key: Seq<char>, i: int) -> bool {
    0 <= i < entries.len() && entries[i].0@ == key
}

impl View for SettingMap {
    type V = Map<Seq<char>, Seq<char>>;

    closed spec fn view(&self) -> Map<Seq<char>, Seq<char>> {
        Map::new(
            |k: Seq<char>| exists|i: int| has_key(self.entries@, k, i),
            |k: Seq<char>| self.entries@[choose|i: int| has_key(self.entries@, k, i)].1@,
        )
    }
}

impl SettingMap {
    /// No key occurs twice.
    pub closed spec fn wf(&self) -> bool {
        forall|i: int, j: int|
            0 <= i < j < self.entries@.len() ==> (#[trigger] self.entries@[i]).0@ != (
            #[trigger] self.entries@[j]).0@
    }

    /// No values.
    pub fn new() -> (r: SettingMap)
        ensures
            r.wf(),
            r@ == Map::<Seq<char>, Seq<char>>::empty(),
    {
        let r = SettingMap { entries: Vec::new() };
        assert(r@ =~= Map::<Seq<char>, Seq<char>>::empty());
        r
    }

    fn position(&self, key: &str) -> (r: Option<usize>)
        ensures
            match r {
                Some(i) => has_key(self.entries@, key@, i as int),
                None => !self@.contains_key(key@),
            },
    {
        let mut i: usize = 0;
        while i < self.entries.len()
            invariant
                i <= self.entries@.len(),
                forall|j: int| 0 <= j < i ==> !has_key(self.entries@, key@, j),
            decreases self.entries@.len() - i,
        {
            if text::same_text(self.entries[i].0.as_str(), key) {
                return Some(i);
            }
            i += 1;
        }
        None
    }

    /// The value of a key, where it is known.
    pub fn get(&self, key: &str) -> (r: Option<&String>)
        requires
            self.wf(),
        ensures
            match r {
                Some(v) => self@.contains_key(key@) && self@[key@] == v@,
                None => !self@.contains_key(key@),
            },
    {
        match self.position(key) {
            Some(i) => Some(&self.entries[i].1),
            None => None,
        }
    }

    /// Sets the value of a key.
    pub fn insert(&mut self, key: &str, value: &str)
        requires
            old(self).wf(),
        ensures
            final(self).wf(),
            final(self)@ == old(self)@.insert(key@, value@),
    {
        let ghost before = self.entries@;
        let entry = (key.to_owned(), value.to_owned());
        match self.position(key) {
            Some(i) => {
                self.entries.set(i, entry);
                proof {
                    lemma_same_keys(before, self.entries@, i as int);
                    assert(has_key(self.entries@, key@, i as int));
                }
            },
            None => {
                self.entries.push(entry);
                proof {
                    assert(self.entries@.drop_last() =~= before);
                    lemma_new_key(before, self.entries@);
                    assert(has_key(self.entries@, key@, before.len() as int));
                    assert forall|j: int| 0 <= j < before.len() implies (#[trigger] before[j]).0@
                        != key@ by {
                        assert(!has_key(before, key@, j));
                    }
                    assert(forall|j: int|
                        0 <= j < before.len() ==> (#[trigger] self.entries@[j]) == before[j]);
                }
            },
        }
        assert(self@ =~= old(self)@.insert(key@, value@)) by {
            let all = self.entries@;
            assert(exists|i: int| has_key(all, key@, i));
            assert forall|k: Seq<char>|
                self@.contains_key(k) <==> old(self)@.insert(key@, value@).contains_key(k) by {
                if exists|i: int| has_key(before, k, i) {
                    let i = choose|i: int| has_key(before, k, i);
                    assert(has_key(all, k, i));
                }
            }
            assert forall|k: Seq<char>| self@.contains_key(k) implies self@[k] == old(self)@.insert(
                key@,
                value@,
            )[k] by {
                let i = choose|i: int| has_key(all, k, i);
                if k != key@ {
                    let j = choose|j: int| has_key(before, k, j);
                    assert(has_key(before, k, i));
                    assert(has_key(before, k, j));
                    assert(i == j);
                } else {
                    assert(has_key(all, k, i));
                }
            }
        }
    }
}

impl SettingMap {
    /// Takes over all values of another map.
    pub fn merge(&mut self, other: &SettingMap)
        requires
            old(self).wf(),
            other.wf(),
        ensures
            final(self).wf(),
            final(self)@ == old(self)@.union_prefer_right(other@),
    {
        let mut i: usize = 0;
        while i < other.entries.len()
            invariant
                i <= other.entries@.len(),
                self.wf(),
                other.wf(),
                forall|k: Seq<char>| #[trigger]
                    self@.contains_key(k) <==> old(self)@.contains_key(k) || (exists|j: int|
                        j < i && has_key(other.entries@, k, j)),
                forall|k: Seq<char>, j: int|
                    j < i && #[trigger] has_key(other.entries@, k, j) ==> self@[k]
                        == other.entries@[j].1@,
                forall|k: Seq<char>|
                    old(self)@.contains_key(k) && !(exists|j: int|
                        j < i && has_key(other.entries@, k, j)) ==> self@[k] == old(self)@[k],
            decreases other.entries@.len() - i,
        {
            let ghost before = self@;
            let ghost key = other.entries@[i as int].0@;
            self.insert(other.entries[i].0.as_str(), other.entries[i].1.as_str());
            proof {
                assert(has_key(other.entries@, key, i as int));
                assert forall|k: Seq<char>| #[trigger]
                    self@.contains_key(k) <==> old(self)@.contains_key(k) || (exists|j: int|
                        j < i + 1 && has_key(other.entries@, k, j)) by {
                    if k != key {
                        assert(self@.contains_key(k) == before.contains_key(k));
                        if exists|j: int| j < i + 1 && has_key(other.entries@, k, j) {
                            let j = choose|j: int| j < i + 1 && has_key(other.entries@, k, j);
                            assert(j < i);
                        }
                    }
                }
                assert forall|k: Seq<char>, j: int|
                    j < i + 1 && #[trigger] has_key(other.entries@, k, j) implies self@[k]
                    == other.entries@[j].1@ by {
                    if j < i {
                        assert(k != key);
                        assert(before[k] == other.entries@[j].1@);
                    }
                }
            }
            i += 1;
        }
        assert(self@ =~= old(self)@.union_prefer_right(other@)) by {
            assert forall|k: Seq<char>|
                self@.contains_key(k) implies self@[k] == old(self)@.union_prefer_right(
                other@,
            )[k] by {
                if exists|j: int| has_key(other.entries@, k, j) {
                    let j = choose|j: int| has_key(other.entries@, k, j);
                    assert(j < i);
                    assert(other@[k] == other.entries@[j].1@);
                }
            }
        }
    }
}

/// Setting a value leaves the keys as they are.
proof fn lemma_same_keys(before: Seq<(String, String)>, after: Seq<(String, String)>, i: int)
    requires
        0 <= i < before.len(),
        after.len() == before.len(),
        after[i].0@ == before[i].0@,
        forall|j: int| 0 <= j < before.len() && j != i ==> after[j] == before[j],
    ensures
        forall|k: Seq<char>, j: int| has_key(after, k, j) <==> has_key(before, k, j),
{
}

/// Adding an entry adds its key.
proof fn lemma_new_key(before: Seq<(String, String)>, after: Seq<(String, String)>)
    requires
        after.len() == before.len() + 1,
        after.drop_last() == before,
    ensures
        forall|k: Seq<char>, j: int|
            has_key(after, k, j) <==> has_key(before, k, j) || (j == before.len()
                && after.last().0@ == k),
{
    assert forall|k: Seq<char>, j: int|
        has_key(after, k, j) <==> has_key(before, k, j) || (j == before.len() && after.last().0@
            == k) by {
        if 0 <= j < before.len() {
            assert(after.drop_last()[j] == after[j]);
        }
    }
}

} // verus!
