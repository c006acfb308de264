use vstd::prelude::*;

verus! {

/// One stored quote.
#[derive(Debug, Clone, PartialEq, Eq)]
pub struct Quote {
    pub id: u64,
    pub content: String,
    pub author: Option<String>,
    pub category: String,
    pub enabled: bool,
    pub show_count: u64,
    pub created_at: String,
}

/// A named category of quotes.
#[derive(Debug, Clone, PartialEq, Eq)]
pub struct Category {
    pub name: String,
}

/// When the scheduler should show a quote.
#[derive(Debug, Clone, PartialEq, Eq)]
pub enum ScheduleRule {
    Interval { minutes: u64 },
    RandomRange { min: u64, max: u64 },
    FixedTime { times: Vec<String> },
}

/// Where on the screen the popup appears.
#[derive(Debug, Clone, Copy, PartialEq, Eq)]
pub enum DisplayPosition {
    BottomRight,
    BottomLeft,
    TopRight,
    Center,
    Random,
}

/// How fast the popup animates.
#[derive(Debug, Clone, Copy, PartialEq, Eq)]
pub enum AnimationSpeed {
    Off,
    Fast,
    Normal,
    Slow,
}

/// All user settings.
#[derive(Debug, Clone, PartialEq, Eq)]
pub struct AppSettings {
    pub always_on_top: bool,
    pub dark_mode: bool,
    pub weight_mode: bool,
    pub display_position: DisplayPosition,
    pub animation_speed: AnimationSpeed,
    pub popup_duration_secs: u64,
    pub no_repeat_count: u64,
    pub font_family: Option<String>,
    pub font_size: u32,
    pub preferred_screen: Option<u32>,
    pub schedule_rules: Vec<ScheduleRule>,
    pub active_categories: Vec<String>,
    pub paused: bool,
    pub show_hotkey: String,
    pub collect_hotkey: String,
    pub auto_start: bool,
    pub quiet_hours_start: Option<String>,
    pub quiet_hours_end: Option<String>,
    pub daily_limit: Option<u64>,
}

/// The categories and quotes that the user keeps.
#[derive(Debug, Clone, PartialEq, Eq)]
pub struct QuotesData {
    pub categories: Vec<Category>,
    pub quotes: Vec<Quote>,
}

/// Display counters.
#[derive(Debug, Clone, PartialEq, Eq)]
pub struct Stats {
    pub total_displayed: u64,
    pub today_displayed: u64,
    pub today_date: String,
}

/// The name of the category that holds unsorted quotes.
pub open spec fn uncategorized() -> Seq<char> {
    "未整理"@
}

/// Builds the name of the category that holds unsorted quotes.
pub fn uncategorized_name() -> (s: String)
    ensures
        s@ == uncategorized(),
{
    String::from_str("未整理")
}

/// The settings that `AppSettings::default` gives.
pub open spec fn is_default_settings(s: AppSettings) -> bool {
    &&& s.always_on_top
    &&& s.dark_mode
    &&& s.weight_mode
    &&& s.display_position == DisplayPosition::BottomRight
    &&& s.animation_speed == AnimationSpeed::Normal
    &&& s.popup_duration_secs == 8
    &&& s.no_repeat_count == 10
    &&& s.font_family is None
    &&& s.font_size == 24
    &&& s.preferred_screen is None
    &&& s.schedule_rules@.len() == 1
    &&& s.schedule_rules@[0] == (ScheduleRule::RandomRange { min: 3, max: 5 })
    &&& s.active_categories@.len() == 0
    &&& !s.paused
    &&& s.show_hotkey@ == "Ctrl+Win+Q"@
    &&& s.collect_hotkey@ == "Ctrl+Win+Shift+Q"@
    &&& !s.auto_start
    &&& s.quiet_hours_start matches Some(t) && t@ == "23:00"@
    &&& s.quiet_hours_end matches Some(t) && t@ == "07:00"@
    &&& s.daily_limit is None
}

impl Default for AppSettings {
    fn default() -> (s: Self)
        ensures
            is_default_settings(s),
    {
        let mut rules: Vec<ScheduleRule> = Vec::new();
        rules.push(ScheduleRule::RandomRange { min: 3, max: 5 });
        AppSettings {
            always_on_top: true,
            dark_mode: true,
            weight_mode: true,
            display_position: DisplayPosition::BottomRight,
            animation_speed: AnimationSpeed::Normal,
            popup_duration_secs: 8,
            no_repeat_count: 10,
            font_family: None,
            font_size: 24,
            preferred_screen: None,
            schedule_rules: rules,
            active_categories: Vec::new(),
            paused: false,
            show_hotkey: String::from_str("Ctrl+Win+Q"),
            collect_hotkey: String::from_str("Ctrl+Win+Shift+Q"),
            auto_start: false,
            quiet_hours_start: Some(String::from_str("23:00")),
            quiet_hours_end: Some(String::from_str("07:00")),
            daily_limit: None,
        }
    }
}

/// The store that `QuotesData::default` gives: only the unsorted category.
pub open spec fn is_default_quotes(d: QuotesData) -> bool {
    &&& d.categories@.len() == 1
    &&& d.categories@[0].name@ == uncategorized()
    &&& d.quotes@.len() == 0
}

impl Default for QuotesData {
    fn default() -> (d: Self)
        ensures
            is_default_quotes(d),
    {
        let mut categories: Vec<Category> = Vec::new();
        categories.push(Category { name: uncategorized_name() });
        QuotesData { categories, quotes: Vec::new() }
    }
}

} // verus!
