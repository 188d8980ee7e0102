//! The reading settings of the wristband.
use ebooksync::settings::band_setting;
use ebooksync::settings::band_settings;
use ebooksync::settings::SettingMap;

#[test]
fn settings_are_found_by_their_keys() {
    let all = band_settings();
    assert_eq!(all.len(), 14);
    for def in &all {
        let found = band_setting(def.key).unwrap();
        assert_eq!(found.key, def.key);
        assert_eq!(found.label, def.label);
    }
    assert!(band_setting("EBOOK_NOTHING").is_none());
    assert_eq!(band_setting("EBOOK_FONT").unwrap().default, "30");
}

#[test]
fn switches_go_back_and_forth() {
    let bold = band_setting("EBOOK_BOLD_ENABLED").unwrap();
    assert_eq!(bold.next_value("true").unwrap(), "false");
    assert_eq!(bold.next_value("false").unwrap(), "true");
    assert_eq!(bold.next_value("1").unwrap(), "false");
    assert_eq!(bold.def_value_text("false"), "关");
    assert_eq!(bold.def_value_text("anything"), "开");
}

#[test]
fn choices_go_round() {
    let style = band_setting("EBOOK_CHAPTER_SWITCH_STYLE").unwrap();
    assert_eq!(style.next_value("button").unwrap(), "boundary");
    assert_eq!(style.next_value("boundary").unwrap(), "swipe");
    assert_eq!(style.next_value("swipe").unwrap(), "button");
    assert_eq!(style.next_value("unknown").unwrap(), "boundary");
    assert_eq!(style.def_value_text("swipe"), "滑动");
    assert_eq!(style.def_value_text("unknown"), "unknown");
    assert!(style.step_value("swipe", true).is_none());
}

#[test]
fn numbers_step_within_their_range() {
    let font = band_setting("EBOOK_FONT").unwrap();
    assert_eq!(font.step_value("30", true), Some(32));
    assert_eq!(font.step_value("30", false), Some(28));
    assert_eq!(font.step_value("64", true), Some(64));
    assert_eq!(font.step_value("1000", false), Some(64));
    assert_eq!(font.step_value("-5", true), Some(16));
    assert_eq!(font.step_value("none", true), Some(32));
    assert!(font.next_value("30").is_none());
    let opacity = band_setting("EBOOK_OPACITY").unwrap();
    assert_eq!(opacity.def_value_text("90"), "90%");
}

#[test]
fn numbers_at_the_end_of_their_type_cannot_step() {
    let font = band_setting("EBOOK_FONT").unwrap();
    assert!(font.can_step("30", true));
    assert!(!font.can_step("9223372036854775807", true));
    assert!(font.can_step("9223372036854775807", false));
    assert_eq!(font.step_value("9223372036854775807", false), Some(64));
    assert!(!font.can_step("-9223372036854775808", false));
    assert!(font.can_step("-9223372036854775808", true));
    assert!(band_setting("EBOOK_BOLD_ENABLED").unwrap().can_step("9223372036854775807", true));
}

#[test]
fn known_values_are_replaced_and_merged() {
    let mut m = SettingMap::new();
    assert!(m.get("a").is_none());
    m.insert("a", "1");
    m.insert("b", "2");
    m.insert("a", "3");
    assert_eq!(m.get("a").unwrap(), "3");
    let mut other = SettingMap::new();
    other.insert("b", "4");
    other.insert("c", "5");
    m.merge(&other);
    assert_eq!(m.get("a").unwrap(), "3");
    assert_eq!(m.get("b").unwrap(), "4");
    assert_eq!(m.get("c").unwrap(), "5");
}
