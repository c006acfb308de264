use quote_displayer::models::{AnimationSpeed, AppSettings, DisplayPosition, QuotesData, ScheduleRule, Stats};
use quote_displayer::state::{load_quotes, load_settings, load_stats, AppData};
use quote_displayer::text::{chars_of, decimal_string, parse_u32_range, split_ranges, trim_range};
use quote_displayer::tray::{apply_menu_command, menu_command, pause_label, tooltip_text, MenuCommand};

#[test]
fn default_settings() {
    let s = AppSettings::default();
    assert!(s.always_on_top && s.dark_mode && s.weight_mode);
    assert_eq!(s.display_position, DisplayPosition::BottomRight);
    assert_eq!(s.animation_speed, AnimationSpeed::Normal);
    assert_eq!(s.popup_duration_secs, 8);
    assert_eq!(s.no_repeat_count, 10);
    assert_eq!(s.font_size, 24);
    assert_eq!(s.schedule_rules, vec![ScheduleRule::RandomRange { min: 3, max: 5 }]);
    assert_eq!(s.show_hotkey, "Ctrl+Win+Q");
    assert_eq!(s.collect_hotkey, "Ctrl+Win+Shift+Q");
    assert_eq!(s.quiet_hours_start.as_deref(), Some("23:00"));
    assert_eq!(s.quiet_hours_end.as_deref(), Some("07:00"));
    assert_eq!(s.daily_limit, None);
    let q = QuotesData::default();
    assert_eq!(q.categories.len(), 1);
    assert_eq!(q.categories[0].name, "未整理");
    assert!(q.quotes.is_empty());
}

#[test]
fn stats_reset_on_a_new_day() {
    let saved = Stats { total_displayed: 40, today_displayed: 3, today_date: "2024-05-01".to_string() };
    assert_eq!(load_stats(Some(saved.clone()), "2024-05-01".to_string()), saved);
    let fresh = load_stats(Some(saved), "2024-05-02".to_string());
    assert_eq!(fresh, Stats { total_displayed: 0, today_displayed: 0, today_date: "2024-05-02".to_string() });
    let none = load_stats(None, "d".to_string());
    assert_eq!(none.total_displayed, 0);
    assert_eq!(none.today_date, "d");
}

#[test]
fn loading_falls_back_to_defaults() {
    assert_eq!(load_quotes(None), QuotesData::default());
    assert_eq!(load_settings(None), AppSettings::default());
    let mut s = AppSettings::default();
    s.paused = true;
    assert_eq!(load_settings(Some(s.clone())), s);
    let d = AppData::new(None, Some(s.clone()), None, "today".to_string());
    assert_eq!(d.settings, s);
    assert_eq!(d.stats.today_date, "today");
}

#[test]
fn decimal_printing() {
    assert_eq!(decimal_string(0), "0");
    assert_eq!(decimal_string(7), "7");
    assert_eq!(decimal_string(1234567890), "1234567890");
    assert_eq!(decimal_string(u128::MAX), u128::MAX.to_string());
}

#[test]
fn splitting_trimming_parsing() {
    let v = chars_of("a:b::c");
    assert_eq!(split_ranges(&v, ':'), vec![(0, 1), (2, 3), (4, 4), (5, 6)]);
    assert_eq!(split_ranges(&chars_of(""), ':'), vec![(0, 0)]);
    let w = chars_of("  x y \u{a0}");
    assert_eq!(trim_range(&w, 0, w.len()), (2, 5));
    let blank = chars_of(" \t ");
    let (a, b) = trim_range(&blank, 0, blank.len());
    assert_eq!(a, b);
    let n = chars_of("+42");
    assert_eq!(parse_u32_range(&n, 0, 3), Some(42));
    let big = chars_of("4294967295");
    assert_eq!(parse_u32_range(&big, 0, big.len()), Some(u32::MAX));
    let over = chars_of("4294967296");
    assert_eq!(parse_u32_range(&over, 0, over.len()), None);
    let neg = chars_of("-1");
    assert_eq!(parse_u32_range(&neg, 0, 2), None);
    let plus = chars_of("+");
    assert_eq!(parse_u32_range(&plus, 0, 1), None);
    assert_eq!(parse_u32_range(&plus, 0, 0), None);
}

#[test]
fn tray_texts() {
    let mut d = AppData::new(None, None, None, "d".to_string());
    d.stats.today_displayed = 5;
    assert_eq!(tooltip_text(&d), "佳句隨機顯示器\n共 0 則佳句 | 啟用中\n今日已顯示 5 次");
    d.settings.paused = true;
    assert_eq!(tooltip_text(&d), "佳句隨機顯示器\n共 0 則佳句 | 已暫停\n今日已顯示 5 次");
    assert_eq!(pause_label(true), "繼續");
    assert_eq!(pause_label(false), "暫停");
}

#[test]
fn menu_commands_toggle_settings() {
    assert_eq!(menu_command("show"), MenuCommand::Show);
    assert_eq!(menu_command("select"), MenuCommand::OpenMain);
    assert_eq!(menu_command("close"), MenuCommand::Close);
    assert_eq!(menu_command("nope"), MenuCommand::Ignore);
    let mut s = AppSettings::default();
    apply_menu_command(&mut s, menu_command("pause"));
    assert!(s.paused);
    apply_menu_command(&mut s, menu_command("weight"));
    assert!(!s.weight_mode);
    apply_menu_command(&mut s, menu_command("darkmode"));
    assert!(!s.dark_mode);
    apply_menu_command(&mut s, menu_command("ontop"));
    assert!(!s.always_on_top);
    apply_menu_command(&mut s, menu_command("autostart"));
    assert!(s.auto_start);
    let before = s.clone();
    apply_menu_command(&mut s, MenuCommand::Show);
    assert_eq!(s, before);
}
