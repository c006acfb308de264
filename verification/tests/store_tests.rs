use quote_displayer::models::{AppSettings, Category, Quote, QuotesData, Stats};
use quote_displayer::state::AppData;
use quote_displayer::store::{
    add_category, add_quote, collect_quote, delete_category, delete_quote, next_quote_id,
    rename_category, reset_quote_count, save_all_quotes, save_settings, update_quote,
};

fn quote(id: u64, content: &str, category: &str) -> Quote {
    Quote {
        id,
        content: content.to_string(),
        author: None,
        category: category.to_string(),
        enabled: true,
        show_count: 0,
        created_at: "2024-01-01 00:00:00".to_string(),
    }
}

fn store(quotes: Vec<Quote>, cats: &[&str]) -> QuotesData {
    QuotesData {
        categories: cats.iter().map(|c| Category { name: c.to_string() }).collect(),
        quotes,
    }
}

fn app(quotes: QuotesData) -> AppData {
    AppData {
        quotes,
        settings: AppSettings::default(),
        stats: Stats { total_displayed: 0, today_displayed: 0, today_date: "2024-01-01".to_string() },
    }
}

#[test]
fn next_id_is_one_more_than_largest() {
    assert_eq!(next_quote_id(&vec![]), 1);
    assert_eq!(next_quote_id(&vec![quote(3, "a", "x"), quote(7, "b", "x"), quote(5, "c", "x")]), 8);
}

#[test]
fn add_quote_creates_category_and_fresh_id() {
    let mut d = store(vec![quote(4, "a", "Life")], &["Life"]);
    let q = add_quote(&mut d, "new".to_string(), Some("Me".to_string()), "Work".to_string(), "t".to_string());
    assert_eq!(q.id, 5);
    assert_eq!(q.content, "new");
    assert_eq!(q.author, Some("Me".to_string()));
    assert!(q.enabled);
    assert_eq!(q.show_count, 0);
    assert_eq!(d.quotes.len(), 2);
    assert_eq!(d.quotes[1], q);
    assert_eq!(d.categories.len(), 2);
    assert_eq!(d.categories[1].name, "Work");
}

#[test]
fn add_quote_keeps_existing_category() {
    let mut d = store(vec![], &["Life"]);
    let q = add_quote(&mut d, "x".to_string(), None, "Life".to_string(), "t".to_string());
    assert_eq!(q.id, 1);
    assert_eq!(d.categories.len(), 1);
}

#[test]
fn add_category_is_idempotent() {
    let mut d = store(vec![], &["A"]);
    add_category(&mut d, "B".to_string());
    add_category(&mut d, "B".to_string());
    add_category(&mut d, "A".to_string());
    let names: Vec<&str> = d.categories.iter().map(|c| c.name.as_str()).collect();
    assert_eq!(names, vec!["A", "B"]);
}

#[test]
fn collect_quote_goes_to_unsorted() {
    let mut d = store(vec![quote(1, "a", "Life")], &["Life"]);
    collect_quote(&mut d, "grabbed".to_string(), "now".to_string());
    assert_eq!(d.categories.len(), 2);
    assert_eq!(d.categories[1].name, "未整理");
    let q = &d.quotes[1];
    assert_eq!(q.id, 2);
    assert_eq!(q.content, "grabbed");
    assert_eq!(q.category, "未整理");
    assert_eq!(q.author, None);
    collect_quote(&mut d, "again".to_string(), "now".to_string());
    assert_eq!(d.categories.len(), 2);
    assert_eq!(d.quotes[2].id, 3);
}

#[test]
fn update_quote_replaces_first_match_only() {
    let mut d = store(vec![quote(1, "a", "x"), quote(2, "b", "x"), quote(2, "c", "x")], &["x"]);
    let mut new_q = quote(2, "B!", "y");
    new_q.enabled = false;
    update_quote(&mut d, new_q.clone());
    assert_eq!(d.quotes[1], new_q);
    assert_eq!(d.quotes[2].content, "c");
    let before = d.clone();
    update_quote(&mut d, quote(99, "zzz", "x"));
    assert_eq!(d, before);
}

#[test]
fn delete_quote_removes_all_with_id() {
    let mut d = store(vec![quote(1, "a", "x"), quote(2, "b", "x"), quote(1, "c", "x")], &["x"]);
    delete_quote(&mut d, 1);
    assert_eq!(d.quotes.len(), 1);
    assert_eq!(d.quotes[0].id, 2);
    delete_quote(&mut d, 42);
    assert_eq!(d.quotes.len(), 1);
}

#[test]
fn delete_undoes_add() {
    let mut d = store(vec![quote(1, "a", "x"), quote(2, "b", "x")], &["x"]);
    let before = d.quotes.clone();
    let q = add_quote(&mut d, "c".to_string(), None, "x".to_string(), "t".to_string());
    delete_quote(&mut d, q.id);
    assert_eq!(d.quotes, before);
}

#[test]
fn reset_count_sets_zero() {
    let mut a = quote(3, "a", "x");
    a.show_count = 9;
    let mut d = store(vec![a], &["x"]);
    reset_quote_count(&mut d, 3);
    assert_eq!(d.quotes[0].show_count, 0);
}

#[test]
fn rename_category_everywhere() {
    let mut data = app(store(vec![quote(1, "a", "Old"), quote(2, "b", "Other")], &["Old", "Other"]));
    data.settings.active_categories = vec!["Old".to_string(), "Other".to_string()];
    rename_category(&mut data, "Old".to_string(), "New".to_string());
    assert_eq!(data.quotes.categories[0].name, "New");
    assert_eq!(data.quotes.quotes[0].category, "New");
    assert_eq!(data.quotes.quotes[1].category, "Other");
    assert_eq!(data.settings.active_categories, vec!["New".to_string(), "Other".to_string()]);
}

#[test]
fn delete_category_moves_quotes_to_unsorted() {
    let mut data = app(store(vec![quote(1, "a", "Gone"), quote(2, "b", "Keep")], &["未整理", "Gone", "Keep"]));
    data.settings.active_categories = vec!["Gone".to_string(), "Keep".to_string()];
    delete_category(&mut data, "Gone".to_string());
    let names: Vec<&str> = data.quotes.categories.iter().map(|c| c.name.as_str()).collect();
    assert_eq!(names, vec!["未整理", "Keep"]);
    assert_eq!(data.quotes.quotes[0].category, "未整理");
    assert_eq!(data.quotes.quotes[0].content, "a");
    assert_eq!(data.quotes.quotes[1].category, "Keep");
    assert_eq!(data.settings.active_categories, vec!["Keep".to_string()]);
}

#[test]
fn delete_unsorted_category_keeps_its_quotes_unsorted() {
    let mut data = app(store(vec![quote(1, "a", "未整理")], &["未整理"]));
    delete_category(&mut data, "未整理".to_string());
    assert!(data.quotes.categories.is_empty());
    assert_eq!(data.quotes.quotes[0].category, "未整理");
}

#[test]
fn save_replaces_wholesale() {
    let mut data = app(store(vec![quote(1, "a", "x")], &["x"]));
    let replacement = store(vec![], &["y"]);
    save_all_quotes(&mut data, replacement.clone());
    assert_eq!(data.quotes, replacement);
    let mut s = AppSettings::default();
    s.paused = true;
    save_settings(&mut data, s.clone());
    assert_eq!(data.settings, s);
}
