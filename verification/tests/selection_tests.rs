use quote_displayer::models::{AppSettings, Quote, QuotesData, Stats};
use quote_displayer::popup::{get_popup_quote, popup_label, stage_popup_quote, ActiveQuote};
use quote_displayer::selection::{active_indices, pick_quote_internal, pick_with_draw};
use quote_displayer::state::AppData;

fn quote(id: u64, category: &str, enabled: bool, shows: u64) -> Quote {
    Quote {
        id,
        content: format!("q{}", id),
        author: None,
        category: category.to_string(),
        enabled,
        show_count: shows,
        created_at: String::new(),
    }
}

fn app(quotes: Vec<Quote>, weighted: bool) -> AppData {
    let mut settings = AppSettings::default();
    settings.weight_mode = weighted;
    AppData {
        quotes: QuotesData { categories: vec![], quotes },
        settings,
        stats: Stats { total_displayed: 10, today_displayed: 2, today_date: "d".to_string() },
    }
}

#[test]
fn active_filter_respects_enabled_and_categories() {
    let qs = vec![quote(1, "A", true, 0), quote(2, "B", true, 0), quote(3, "A", false, 0)];
    assert_eq!(active_indices(&qs, &vec![]), vec![0, 1]);
    assert_eq!(active_indices(&qs, &vec!["A".to_string()]), vec![0]);
    assert_eq!(active_indices(&qs, &vec!["C".to_string()]), Vec::<usize>::new());
}

#[test]
fn pick_with_no_active_quote_changes_nothing() {
    let mut d = app(vec![quote(1, "A", false, 0)], true);
    let r = pick_quote_internal(&mut d);
    assert!(r.is_none());
    assert_eq!(d.stats.total_displayed, 10);
    assert_eq!(d.quotes.quotes[0].show_count, 0);
}

#[test]
fn pick_single_active_quote_counts_display() {
    for weighted in [true, false] {
        let mut d = app(vec![quote(1, "A", false, 0), quote(2, "A", true, 4)], weighted);
        let r = pick_quote_internal(&mut d).unwrap();
        assert_eq!(r.id, 2);
        assert_eq!(r.show_count, 5);
        assert_eq!(d.quotes.quotes[1].show_count, 5);
        assert_eq!(d.quotes.quotes[0].show_count, 0);
        assert_eq!(d.stats.total_displayed, 11);
        assert_eq!(d.stats.today_displayed, 3);
    }
}

#[test]
fn uniform_draw_selects_that_active_quote() {
    let mut d = app(vec![quote(1, "A", true, 0), quote(2, "A", false, 0), quote(3, "A", true, 0)], false);
    let r = pick_with_draw(&mut d, 1).unwrap();
    assert_eq!(r.id, 3);
    assert_eq!(d.quotes.quotes[2].show_count, 1);
}

#[test]
fn weighted_draw_follows_cumulative_weights() {
    // weights: shown 0 times -> 2^64, shown 1 time -> 2^63
    let unit: u128 = 1u128 << 64;
    let base = vec![quote(1, "A", true, 0), quote(2, "A", true, 1)];
    let mut d = app(base.clone(), true);
    assert_eq!(pick_with_draw(&mut d, 0).unwrap().id, 1);
    let mut d = app(base.clone(), true);
    assert_eq!(pick_with_draw(&mut d, unit - 1).unwrap().id, 1);
    let mut d = app(base.clone(), true);
    assert_eq!(pick_with_draw(&mut d, unit).unwrap().id, 2);
    let mut d = app(base, true);
    assert_eq!(pick_with_draw(&mut d, unit + unit / 2 - 1).unwrap().id, 2);
}

#[test]
fn weighted_pick_favours_rarely_shown_quotes() {
    let mut hits = [0u32; 2];
    for _ in 0..400 {
        let mut d = app(vec![quote(1, "A", true, 0), quote(2, "A", true, 99)], true);
        let r = pick_quote_internal(&mut d).unwrap();
        hits[(r.id - 1) as usize] += 1;
    }
    assert!(hits[0] > hits[1]);
}

#[test]
fn active_quote_set_then_take() {
    let mut a = ActiveQuote::new();
    assert!(a.take().is_none());
    a.set(quote(7, "A", true, 0));
    assert_eq!(a.take().map(|q| q.id), Some(7));
    assert!(a.take().is_none());
}

#[test]
fn popup_uses_staged_quote_first() {
    let mut d = app(vec![quote(1, "A", true, 0)], false);
    let mut a = ActiveQuote::new();
    assert!(stage_popup_quote(&mut d, &mut a));
    assert_eq!(d.stats.total_displayed, 11);
    let shown = get_popup_quote(&mut a, &mut d).unwrap();
    assert_eq!(shown.id, 1);
    assert_eq!(shown.show_count, 1);
    assert_eq!(d.stats.total_displayed, 11);
    // nothing staged: a fresh pick
    let again = get_popup_quote(&mut a, &mut d).unwrap();
    assert_eq!(again.show_count, 2);
    assert_eq!(d.stats.total_displayed, 12);
}

#[test]
fn paused_popup_does_nothing() {
    let mut d = app(vec![quote(1, "A", true, 0)], false);
    d.settings.paused = true;
    let mut a = ActiveQuote::new();
    assert!(!stage_popup_quote(&mut d, &mut a));
    assert!(a.0.is_none());
    assert_eq!(d.stats.total_displayed, 10);
}

#[test]
fn popup_label_has_millis() {
    assert_eq!(popup_label(1700000000123), "popup-1700000000123");
    assert_eq!(popup_label(0), "popup-0");
}

#[test]
fn uniform_pick_reaches_every_active_quote() {
    let mut seen = [false; 2];
    for _ in 0..200 {
        let mut d = app(vec![quote(1, "A", true, 0), quote(2, "A", true, 0)], false);
        let r = pick_quote_internal(&mut d).unwrap();
        seen[(r.id - 1) as usize] = true;
    }
    assert!(seen[0] && seen[1]);
}
