//! The whole application state and how it is rebuilt from what was saved.
use vstd::prelude::*;

use crate::models::{AppSettings, QuotesData, Stats};

verus! {

/// Quotes, settings and counters, as the application holds them.
pub struct AppData {
    pub quotes: QuotesData,
    pub settings: AppSettings,
    pub stats: Stats,
}

/// The quote store to start from, given what could be read from disk: the
/// saved store, or the default one when none could be read.
pub fn load_quotes(saved: Option<QuotesData>) -> (q: QuotesData)
    ensures
        saved matches Some(s) ==> q == s,
        saved is None ==> crate::models::is_default_quotes(q),
{
    match saved {
        Some(s) => s,
        None => QuotesData::default(),
    }
}

/// The settings to start from: the saved ones, or the defaults when none
/// could be read.
pub fn load_settings(saved: Option<AppSettings>) -> (s: AppSettings)
    ensures
        saved matches Some(v) ==> s == v,
        saved is None ==> crate::models::is_default_settings(s),
{
    match saved {
        Some(v) => v,
        None => AppSettings::default(),
    }
}

/// The counters to start from: the saved ones when they are of `today`,
/// otherwise fresh counters for `today`.
pub open spec fn stats_on(saved: Option<Stats>, today: String) -> Stats {
    match saved {
        Some(s) => if s.today_date@ == today@ {
            s
        } else {
            Stats { total_displayed: 0, today_displayed: 0, today_date: today }
        },
        None => Stats { total_displayed: 0, today_displayed: 0, today_date: today },
    }
}

/// Chooses the counters to start from, given the saved ones and today's date.
pub fn load_stats(saved: Option<Stats>, today: String) -> (s: Stats)
    ensures
        s == stats_on(saved, today),
{
    match saved {
        Some(v) => {
            if v.today_date.eq(&today) {
                v
            } else {
                Stats { total_displayed: 0, today_displayed: 0, today_date: today }
            }
        },
        None => Stats { total_displayed: 0, today_displayed: 0, today_date: today },
    }
}

impl AppData {
    /// The state to start from, given what could be read from disk and
    /// today's date.
    pub fn new(
        saved_quotes: Option<QuotesData>,
        saved_settings: Option<AppSettings>,
        saved_stats: Option<Stats>,
        today: String,
    ) -> (d: AppData)
        ensures
            saved_quotes matches Some(q) ==> d.quotes == q,
            saved_quotes is None ==> crate::models::is_default_quotes(d.quotes),
            saved_settings matches Some(s) ==> d.settings == s,
            saved_settings is None ==> crate::models::is_default_settings(d.settings),
            d.stats == stats_on(saved_stats, today),
    {
        AppData {
            quotes: load_quotes(saved_quotes),
            settings: load_settings(saved_settings),
            stats: load_stats(saved_stats, today),
        }
    }
}

} // verus!
