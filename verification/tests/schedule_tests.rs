use quote_displayer::models::{AppSettings, ScheduleRule};
use quote_displayer::schedule::{
    evaluate_rules, fixed_time_is_due, fixed_time_minutes, quiet_bound_minutes, quiet_now,
    rule_fires_with_draw, scheduler_tick, LastTriggerTime,
};

fn s(x: &str) -> String {
    x.to_string()
}

#[test]
fn quiet_bounds_parse_leniently() {
    assert_eq!(quiet_bound_minutes(&s("23:00")), Some(1380));
    assert_eq!(quiet_bound_minutes(&s("07:05")), Some(425));
    assert_eq!(quiet_bound_minutes(&s("9:x:30")), Some(570));
    assert_eq!(quiet_bound_minutes(&s("12:00:30")), None);
    assert_eq!(quiet_bound_minutes(&s("noon")), None);
}

#[test]
fn quiet_hours_wrap_midnight() {
    let (a, b) = (Some(s("23:00")), Some(s("07:00")));
    assert!(quiet_now(&a, &b, 23 * 60));
    assert!(quiet_now(&a, &b, 3 * 60));
    assert!(quiet_now(&a, &b, 6 * 60 + 59));
    assert!(!quiet_now(&a, &b, 7 * 60));
    assert!(!quiet_now(&a, &b, 12 * 60));
    let (c, d) = (Some(s("12:00")), Some(s("13:30")));
    assert!(quiet_now(&c, &d, 12 * 60));
    assert!(!quiet_now(&c, &d, 13 * 60 + 30));
    assert!(!quiet_now(&None, &b, 3 * 60));
}

#[test]
fn fixed_times_parse_strictly() {
    assert_eq!(fixed_time_minutes(&s("08:30")), Some(510));
    assert_eq!(fixed_time_minutes(&s("+8:30")), Some(510));
    assert_eq!(fixed_time_minutes(&s("8:30:00")), None);
    assert_eq!(fixed_time_minutes(&s("8:x")), None);
    assert!(fixed_time_is_due(&vec![s("bad"), s("08:30")], 510, -1));
    assert!(!fixed_time_is_due(&vec![s("08:30")], 510, 510));
    assert!(!fixed_time_is_due(&vec![s("08:30")], 511, -1));
}

#[test]
fn interval_rule_fires_after_its_minutes() {
    let rules = vec![ScheduleRule::Interval { minutes: 5 }];
    let mut last = -1;
    assert!(!evaluate_rules(&rules, 299, 0, &mut last));
    assert!(evaluate_rules(&rules, 300, 0, &mut last));
    assert_eq!(last, -1);
}

#[test]
fn random_range_rule_bounds() {
    let r = ScheduleRule::RandomRange { min: 3, max: 5 };
    assert!(!rule_fires_with_draw(&r, 179, 0, -1, 0));
    assert!(rule_fires_with_draw(&r, 180, 0, -1, 0));
    assert!(!rule_fires_with_draw(&r, 180, 0, -1, 180));
    assert!(rule_fires_with_draw(&r, 300, 0, -1, 299));
    // max below min: the window is the minimum
    let r2 = ScheduleRule::RandomRange { min: 5, max: 2 };
    assert!(rule_fires_with_draw(&r2, 300, 0, -1, 1000));
    let rules = vec![r];
    let mut last = -1;
    assert!(!evaluate_rules(&rules, 100, 0, &mut last));
    assert!(evaluate_rules(&rules, 300, 0, &mut last));
}

#[test]
fn fixed_time_fires_once_per_minute() {
    let mut settings = AppSettings::default();
    settings.quiet_hours_start = None;
    settings.schedule_rules = vec![ScheduleRule::FixedTime { times: vec![s("08:30")] }];
    let mut last = -1;
    assert!(scheduler_tick(&settings, 0, 1000, 510, 1000, &mut last));
    assert_eq!(last, 510);
    assert!(!scheduler_tick(&settings, 0, 1015, 510, 1000, &mut last));
    assert!(!scheduler_tick(&settings, 0, 1075, 511, 1000, &mut last));
}

#[test]
fn tick_holds_back_when_paused_quiet_or_limited() {
    let mut settings = AppSettings::default();
    settings.schedule_rules = vec![ScheduleRule::Interval { minutes: 0 }];
    let mut last = -1;
    // default quiet hours 23:00-07:00
    assert!(!scheduler_tick(&settings, 0, 100, 60, 0, &mut last));
    assert!(scheduler_tick(&settings, 0, 100, 600, 0, &mut last));
    settings.daily_limit = Some(3);
    assert!(!scheduler_tick(&settings, 3, 100, 600, 0, &mut last));
    assert!(scheduler_tick(&settings, 2, 100, 600, 0, &mut last));
    settings.paused = true;
    assert!(!scheduler_tick(&settings, 0, 100, 600, 0, &mut last));
}

#[test]
fn first_firing_rule_wins() {
    let rules = vec![
        ScheduleRule::Interval { minutes: 100 },
        ScheduleRule::FixedTime { times: vec![s("00:10")] },
        ScheduleRule::Interval { minutes: 0 },
    ];
    let mut last = -1;
    assert!(evaluate_rules(&rules, 0, 10, &mut last));
    assert_eq!(last, 10);
    let mut last2 = 10;
    assert!(evaluate_rules(&rules, 0, 10, &mut last2));
    assert_eq!(last2, 10);
}

#[test]
fn last_trigger_time_updates() {
    let mut t = LastTriggerTime::new(5);
    assert_eq!(t.0, 5);
    t.update(99);
    assert_eq!(t.0, 99);
}
