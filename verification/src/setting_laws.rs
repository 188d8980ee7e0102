//! What holds of the reading settings, key by key.
use crate::laws;
use crate::protocol;
use crate::settings;
use crate::settings::SettingKindView;
use crate::settings::SettingView;
use crate::state::EffectView;
use crate::state::UiView;
use crate::text;
use vstd::prelude::*;

verus! {

// ---------------------------------------------------------------- the settings

/// The keys of all settings, in the order of the window.
pub open spec fn all_keys() -> Seq<Seq<char>> {
    seq![
        "EBOOK_FONT"@,
        "EBOOK_OPACITY"@,
        "EBOOK_VERTICAL_MARGIN"@,
        "EBOOK_BOLD_ENABLED"@,
        "EBOOK_READ_MODE"@,
        "EBOOK_TIME_FORMAT"@,
        "EBOOK_CHAPTER_SWITCH_STYLE"@,
        "EBOOK_GESTURE"@,
        "EBOOK_SHOW_PROGRESS_BAR"@,
        "EBOOK_SHOW_PROGRESS_BAR_PERCENT"@,
        "EBOOK_PREVENT_PARAGRAPH_SPLITTING"@,
        "EBOOK_ALWAYS_SHOW_TIME"@,
        "EBOOK_ALWAYS_SHOW_BATTERY"@,
        "EBOOK_BRIGHTNESS_FOLLOW_SYSTEM"@,
    ]
}

/// The key stands for an on-off setting with the label and the default.
pub open spec fn is_switch(key: Seq<char>, label: Seq<char>, on: bool) -> bool {
    settings::band_def(key) matches Some(d) && d.key == key && d.label == label && d.kind is Bool
        && d.default == (if on {
        "true"@
    } else {
        "false"@
    })
}

/// The key stands for a number with the label, the range, the step and the default.
pub open spec fn is_number(
    key: Seq<char>,
    label: Seq<char>,
    low: int,
    high: int,
    by: int,
    unit: Seq<char>,
    default: Seq<char>,
) -> bool {
    settings::band_def(key) matches Some(d) && d.key == key && d.label == label && d.default
        == default && (d.kind matches SettingKindView::Int { min, max, step, suffix } && min == low
        && max == high && step == by && suffix == unit)
}

/// The key stands for a choice with the label and the values, each with its name;
/// the first is the default.
pub open spec fn is_choice(
    key: Seq<char>,
    label: Seq<char>,
    values: Seq<Seq<char>>,
    names: Seq<Seq<char>>,
) -> bool {
    settings::band_def(key) matches Some(d) && d.key == key && d.label == label && d.default
        == values[0] && (d.kind matches SettingKindView::Choice(opts) && opts.len() == values.len()
        && opts.len() == names.len() && forall|i: int|
        0 <= i < opts.len() ==> (#[trigger] opts[i]).0 == values[i] && opts[i].1 == names[i])
}

/// Every key has its own label, kind, range and default.
pub proof fn every_key_has_its_setting()
    ensures
        is_number("EBOOK_FONT"@, "字号"@, 16, 64, 2, ""@, "30"@),
        is_number("EBOOK_OPACITY"@, "不透明度"@, 10, 100, 10, "%"@, "100"@),
        is_number("EBOOK_VERTICAL_MARGIN"@, "上下边距"@, 0, 40, 2, ""@, "10"@),
        is_switch("EBOOK_BOLD_ENABLED"@, "加粗"@, true),
        is_choice(
            "EBOOK_READ_MODE"@,
            "阅读模式"@,
            seq!["scroll"@, "nostalgic"@],
            seq!["滚动"@, "怀旧"@],
        ),
        is_choice(
            "EBOOK_TIME_FORMAT"@,
            "时间格式"@,
            seq!["24h"@, "12h"@],
            seq!["24 小时"@, "12 小时"@],
        ),
        is_choice(
            "EBOOK_CHAPTER_SWITCH_STYLE"@,
            "章节切换"@,
            seq!["button"@, "boundary"@, "swipe"@],
            seq!["按钮"@, "越界"@, "滑动"@],
        ),
        is_choice(
            "EBOOK_GESTURE"@,
            "翻页手势"@,
            seq!["single"@, "double"@],
            seq!["单击"@, "双击"@],
        ),
        is_switch("EBOOK_SHOW_PROGRESS_BAR"@, "显示进度条"@, true),
        is_switch("EBOOK_SHOW_PROGRESS_BAR_PERCENT"@, "进度条显示百分比"@, true),
        is_switch("EBOOK_PREVENT_PARAGRAPH_SPLITTING"@, "防止段落截断"@, false),
        is_switch("EBOOK_ALWAYS_SHOW_TIME"@, "常显时间"@, true),
        is_switch("EBOOK_ALWAYS_SHOW_BATTERY"@, "常显电量"@, true),
        is_switch("EBOOK_BRIGHTNESS_FOLLOW_SYSTEM"@, "亮度跟随系统"@, true),
{
    settings::settings_are_found_by_key(0);
    settings::settings_are_found_by_key(1);
    settings::settings_are_found_by_key(2);
    settings::settings_are_found_by_key(3);
    settings::settings_are_found_by_key(4);
    settings::settings_are_found_by_key(5);
    settings::settings_are_found_by_key(6);
    settings::settings_are_found_by_key(7);
    settings::settings_are_found_by_key(8);
    settings::settings_are_found_by_key(9);
    settings::settings_are_found_by_key(10);
    settings::settings_are_found_by_key(11);
    settings::settings_are_found_by_key(12);
    settings::settings_are_found_by_key(13);
}

/// There are no other keys, and the window has the settings in this order.
pub proof fn there_are_no_other_settings(key: Seq<char>)
    ensures
        settings::keys_of(settings::band_table()) == all_keys(),
        settings::band_def(key) is Some <==> all_keys().contains(key),
{
    let table = settings::band_table();
    assert(settings::keys_of(table) =~= all_keys());
    lemma_found_in(table, key);
    if all_keys().contains(key) {
        let i = choose|i: int| 0 <= i < all_keys().len() && all_keys()[i] == key;
        settings::settings_are_found_by_key(i);
        assert(settings::keys_of(table)[i] == table[i].key);
    }
    if settings::band_def(key) is Some {
        let i = choose|i: int| 0 <= i < table.len() && (#[trigger] table[i]).key == key;
        assert(settings::keys_of(table)[i] == key);
    }
}

proof fn lemma_found_in(table: Seq<SettingView>, key: Seq<char>)
    ensures
        settings::find(table, key) is Some ==> exists|i: int|
            0 <= i < table.len() && (#[trigger] table[i]).key == key,
    decreases table.len(),
{
    if table.len() > 0 {
        lemma_found_in(table.drop_last(), key);
        if settings::find(table.drop_last(), key) is Some {
            let i = choose|i: int|
                0 <= i < table.drop_last().len() && (#[trigger] table.drop_last()[i]).key == key;
            assert(table[i].key == key);
        } else if table.last().key == key {
            assert(table[table.len() - 1].key == key);
        }
    }
}

// ---------------------------------------------------------------- values

/// An on-off setting is off where its value is `false`, and on otherwise; a click
/// turns it over.
pub proof fn a_switch_turns_over(value: Seq<char>)
    ensures
        settings::shown_value(SettingKindView::Bool, value) == (if value == "false"@ {
            "关"@
        } else {
            "开"@
        }),
        settings::cycled(SettingKindView::Bool, value) == Some(
            if value == "false"@ {
                "true"@
            } else {
                "false"@
            },
        ),
{
}

/// The value of a choice is shown by its name, and one that is no option as it is; a
/// click on one that is no option leads to the option after the first.
pub proof fn a_choice_is_shown_by_name(opts: Seq<(Seq<char>, Seq<char>)>, value: Seq<char>, i: int)
    requires
        0 <= i < opts.len(),
        forall|j: int| 0 <= j < i ==> (#[trigger] opts[j]).0 != opts[i].0,
    ensures
        settings::shown_value(SettingKindView::Choice(opts), opts[i].0) == opts[i].1,
        (forall|j: int| 0 <= j < opts.len() ==> (#[trigger] opts[j]).0 != value)
            ==> settings::shown_value(SettingKindView::Choice(opts), value) == value
            && settings::cycled(SettingKindView::Choice(opts), value) == Some(
            opts[if opts.len() > 1 {
                1
            } else {
                0
            }].0,
        ),
{
    lemma_first_option(opts, i);
    if forall|j: int| 0 <= j < opts.len() ==> (#[trigger] opts[j]).0 != value {
        lemma_no_option(opts, value);
        let n = opts.len();
        if n > 1 {
            assert(1nat % n == 1) by (nonlinear_arith)
                requires
                    n > 1,
            ;
        }
    }
}

proof fn lemma_first_option(opts: Seq<(Seq<char>, Seq<char>)>, i: int)
    requires
        0 <= i < opts.len(),
        forall|j: int| 0 <= j < i ==> (#[trigger] opts[j]).0 != opts[i].0,
    ensures
        settings::option_index(opts, opts[i].0) == i,
    decreases opts.len(),
{
    if i > 0 {
        let rest = opts.skip(1);
        assert(opts[0].0 != opts[i].0);
        assert(rest[i - 1] == opts[i]);
        assert forall|j: int| 0 <= j < i - 1 implies (#[trigger] rest[j]).0 != rest[i - 1].0 by {
            assert(rest[j] == opts[j + 1]);
        }
        lemma_first_option(rest, i - 1);
    }
}

proof fn lemma_no_option(opts: Seq<(Seq<char>, Seq<char>)>, value: Seq<char>)
    requires
        forall|j: int| 0 <= j < opts.len() ==> (#[trigger] opts[j]).0 != value,
    ensures
        settings::option_index(opts, value) == opts.len(),
    decreases opts.len(),
{
    if opts.len() > 0 {
        let rest = opts.skip(1);
        assert(opts[0].0 != value);
        assert forall|j: int| 0 <= j < rest.len() implies (#[trigger] rest[j]).0 != value by {
            assert(rest[j] == opts[j + 1]);
        }
        lemma_no_option(rest, value);
    }
}

/// A number is shown with its unit. A step changes it by as much as the setting says
/// and stops at the ends of the range; a text that is no number counts as the
/// default.
pub proof fn a_number_goes_by_steps(
    def: SettingView,
    low: int,
    high: int,
    by: int,
    unit: Seq<char>,
    value: Seq<char>,
    n: i64,
)
    requires
        def.kind == (SettingKindView::Int { min: low, max: high, step: by, suffix: unit }),
        low <= high,
        text::i64_value(value) == Some(n) || text::i64_value(value) is None && text::i64_value(
            def.default,
        ) == Some(n),
    ensures
        settings::shown_value(def.kind, value) == value + unit,
        settings::cycled(def.kind, value) is None,
        low <= n + by <= high ==> settings::stepped(def, value, true) == Some(n + by),
        n + by > high ==> settings::stepped(def, value, true) == Some(high),
        n + by < low ==> settings::stepped(def, value, true) == Some(low),
        low <= n - by <= high ==> settings::stepped(def, value, false) == Some(n - by),
        n - by > high ==> settings::stepped(def, value, false) == Some(high),
        n - by < low ==> settings::stepped(def, value, false) == Some(low),
{
    assert(settings::direction(true) * by == by) by (nonlinear_arith)
        requires
            settings::direction(true) == 1,
    ;
    assert(settings::direction(false) * by == -by) by (nonlinear_arith)
        requires
            settings::direction(false) == -1,
    ;
}

// ---------------------------------------------------------------- clicks on settings

/// The setting has the new value, no other setting changes, and the wristband is told
/// that value of that key: at once, or once it can be.
pub open spec fn written(before: UiView, after: UiView, key: Seq<char>, value: Seq<char>) -> bool {
    &&& after.setting_text(key) == value
    &&& forall|k: Seq<char>|
        k != key ==> #[trigger] after.setting_text(k) == before.setting_text(k)
    &&& if before.settings_open() {
        after.outbox.contains(
            EffectView::Send {
                addr: before.address(),
                payload: protocol::wire(protocol::set_setting_members(key, value)),
            },
        )
    } else {
        after.pending_writes == before.pending_writes.push((key, value))
    }
}

proof fn lemma_written(s: UiView, def: SettingView, value: Seq<char>, now: u64)
    ensures
        written(s, s.setting_changed(def, value, now), def.key, value),
{
    laws::a_changed_setting_is_read_back(s, def, value, now);
    laws::lemma_changed_band(s, def, value, now);
}

/// A click on the row of an on-off setting turns that setting over, and no other.
pub proof fn a_click_turns_the_switch_of_its_row(s: UiView, key: Seq<char>, now: u64)
    requires
        settings::band_def(key) matches Some(d) && d.kind is Bool,
    ensures
        written(
            s,
            s.clicked("setting:"@ + key, now),
            key,
            if s.setting_text(key) == "false"@ {
                "true"@
            } else {
                "false"@
            },
        ),
{
    laws::a_row_changes_its_setting(s, key, now);
    reveal(UiView::setting_cycled);
    lemma_key(key);
    let value = if s.setting_text(key) == "false"@ {
        "true"@
    } else {
        "false"@
    };
    lemma_written(s, settings::band_def(key)->0, value, now);
}

/// A click on the row of a choice takes the next value of that choice, the first
/// after the last, and changes no other setting.
pub proof fn a_click_takes_the_next_value(
    s: UiView,
    key: Seq<char>,
    opts: Seq<(Seq<char>, Seq<char>)>,
    i: int,
    now: u64,
)
    requires
        settings::band_def(key) matches Some(d) && d.kind == SettingKindView::Choice(opts),
        0 <= i < opts.len(),
        s.setting_text(key) == opts[i].0,
        forall|j: int, k: int|
            0 <= j < k < opts.len() ==> (#[trigger] opts[j]).0 != (#[trigger] opts[k]).0,
    ensures
        written(
            s,
            s.clicked("setting:"@ + key, now),
            key,
            opts[if i + 1 < opts.len() {
                i + 1
            } else {
                0
            }].0,
        ),
{
    laws::a_row_changes_its_setting(s, key, now);
    reveal(UiView::setting_cycled);
    lemma_key(key);
    settings::clicks_go_through_the_options(opts, i);
    let value = opts[if i + 1 < opts.len() {
        i + 1
    } else {
        0
    }].0;
    lemma_written(s, settings::band_def(key)->0, value, now);
}

/// A click on the plus or the minus of a number takes that number up or down by its
/// step, as far as its range goes, and changes no other setting.
pub proof fn a_click_takes_the_number_a_step(
    s: UiView,
    key: Seq<char>,
    low: int,
    high: int,
    by: int,
    unit: Seq<char>,
    n: i64,
    now: u64,
)
    requires
        settings::band_def(key) matches Some(d) && d.kind == (SettingKindView::Int {
            min: low,
            max: high,
            step: by,
            suffix: unit,
        }),
        low <= high,
        text::i64_value(s.setting_text(key)) == Some(n),
        low <= n <= high,
        by >= 0,
    ensures
        written(
            s,
            s.clicked("set_inc:"@ + key, now),
            key,
            text::integer(
                if n + by <= high {
                    n + by
                } else {
                    high
                },
            ),
        ),
        written(
            s,
            s.clicked("set_dec:"@ + key, now),
            key,
            text::integer(
                if n - by >= low {
                    n - by
                } else {
                    low
                },
            ),
        ),
{
    laws::a_row_changes_its_setting(s, key, now);
    reveal(UiView::setting_stepped);
    lemma_key(key);
    let def = settings::band_def(key)->0;
    a_number_goes_by_steps(def, low, high, by, unit, s.setting_text(key), n);
    let up = if n + by <= high {
        n + by
    } else {
        high
    };
    let down = if n - by >= low {
        n - by
    } else {
        low
    };
    lemma_written(s, def, text::integer(up), now);
    lemma_written(s, def, text::integer(down), now);
}

/// Whatever value a setting has, a click on its row takes the one that follows it, and a
/// click on its plus or minus the number one step away; where there is none, and where
/// no setting has the key, nothing happens.
pub proof fn a_click_takes_what_follows(s: UiView, key: Seq<char>, now: u64)
    ensures
        match settings::band_def(key) {
            Some(def) => {
                &&& match settings::cycled(def.kind, s.setting_text(key)) {
                    Some(value) => written(s, s.clicked("setting:"@ + key, now), key, value),
                    None => s.clicked("setting:"@ + key, now) == s,
                }
                &&& match settings::stepped(def, s.setting_text(key), true) {
                    Some(n) => written(s, s.clicked("set_inc:"@ + key, now), key, text::integer(n)),
                    None => s.clicked("set_inc:"@ + key, now) == s,
                }
                &&& match settings::stepped(def, s.setting_text(key), false) {
                    Some(n) => written(s, s.clicked("set_dec:"@ + key, now), key, text::integer(n)),
                    None => s.clicked("set_dec:"@ + key, now) == s,
                }
            },
            None => {
                &&& s.clicked("setting:"@ + key, now) == s
                &&& s.clicked("set_inc:"@ + key, now) == s
                &&& s.clicked("set_dec:"@ + key, now) == s
            },
        },
{
    laws::a_row_changes_its_setting(s, key, now);
    reveal(UiView::setting_cycled);
    reveal(UiView::setting_stepped);
    lemma_key(key);
    if let Some(def) = settings::band_def(key) {
        if let Some(value) = settings::cycled(def.kind, s.setting_text(key)) {
            lemma_written(s, def, value, now);
        }
        if let Some(n) = settings::stepped(def, s.setting_text(key), true) {
            lemma_written(s, def, text::integer(n), now);
        }
        if let Some(n) = settings::stepped(def, s.setting_text(key), false) {
            lemma_written(s, def, text::integer(n), now);
        }
    }
}

/// Only numbers go by steps, and an empty choice has no value.
pub proof fn what_has_no_next_value(def: SettingView, value: Seq<char>, up: bool)
    ensures
        !(def.kind is Int) ==> settings::stepped(def, value, up) is None,
        def.kind == SettingKindView::Choice(Seq::empty()) ==> settings::cycled(def.kind, value) is None,
{
}

/// What is found by a key has it.
proof fn lemma_key(key: Seq<char>)
    ensures
        settings::band_def(key) matches Some(d) ==> d.key == key,
{
    lemma_key_in(settings::band_table(), key);
}

proof fn lemma_key_in(table: Seq<SettingView>, key: Seq<char>)
    ensures
        settings::find(table, key) matches Some(d) ==> d.key == key,
    decreases table.len(),
{
    if table.len() > 0 {
        lemma_key_in(table.drop_last(), key);
    }
}

/// A setting that the wristband gave has that value; of the others the value stays,
/// and one that was never given has its default.
pub proof fn given_settings_are_known(
    s: UiView,
    values: Map<Seq<char>, Seq<char>>,
    count: nat,
    key: Seq<char>,
    now: u64,
)
    ensures
        s.settings_given(values, count, now).band.settings_loaded,
        s.settings_given(values, count, now).setting_text(key) == (if values.contains_key(key) {
            values[key]
        } else {
            s.setting_text(key)
        }),
        !s.band.settings.contains_key(key) ==> s.setting_text(key) == (
        match settings::band_def(key) {
            Some(d) => d.default,
            None => Seq::empty(),
        }),
{
    laws::lemma_settings_given(s, values, count, now);
}

} // verus!
