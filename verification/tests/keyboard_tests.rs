use quote_displayer::keyboard::{
    do_collect, hotkey_action, key_to_vk, modifier_mask, parse_hotkey, Action,
};
use quote_displayer::models::QuotesData;

#[test]
fn default_hotkeys_parse() {
    assert_eq!(parse_hotkey("Ctrl+Win+Q"), Some((0x51, 0x0a)));
    assert_eq!(parse_hotkey("Ctrl+Win+Shift+Q"), Some((0x51, 0x0e)));
}

#[test]
fn hotkey_names_are_case_insensitive_and_trimmed() {
    assert_eq!(parse_hotkey(" CONTROL + Home "), Some((0x24, 0x02)));
    assert_eq!(parse_hotkey("alt+f4"), Some((0x73, 0x01)));
    assert_eq!(parse_hotkey("Super+Cmd+Space"), Some((0x20, 0x08)));
    assert_eq!(parse_hotkey("Foo+Enter"), Some((0x0d, 0)));
    assert_eq!(parse_hotkey("q"), Some((0x51, 0)));
}

#[test]
fn unknown_keys_give_none() {
    assert_eq!(parse_hotkey("Ctrl+"), None);
    assert_eq!(parse_hotkey("Ctrl+F25"), None);
    assert_eq!(parse_hotkey("Ctrl+Banana"), None);
    assert_eq!(parse_hotkey(""), None);
}

#[test]
fn key_codes() {
    assert_eq!(key_to_vk("F1"), Some(0x70));
    assert_eq!(key_to_vk("f24"), Some(0x87));
    assert_eq!(key_to_vk("F0"), None);
    assert_eq!(key_to_vk("F"), Some(0x46));
    assert_eq!(key_to_vk("a"), Some(0x41));
    assert_eq!(key_to_vk("7"), Some(0x37));
    assert_eq!(key_to_vk("-"), None);
    assert_eq!(key_to_vk("PgDn"), Some(0x22));
    assert_eq!(key_to_vk("ESCAPE"), Some(0x1b));
    assert_eq!(key_to_vk("é"), None);
}

#[test]
fn modifier_masks() {
    assert_eq!(modifier_mask(true, false, false, true), 0x0a);
    assert_eq!(modifier_mask(false, true, true, false), 0x05);
    assert_eq!(modifier_mask(false, false, false, false), 0);
}

#[test]
fn actions_for_key_presses() {
    let show = "Ctrl+Win+Q".to_string();
    let collect = "Ctrl+Win+Shift+Q".to_string();
    assert_eq!(hotkey_action(&show, &collect, 0x51, 0x0a), Some(Action::ShowQuote));
    assert_eq!(hotkey_action(&show, &collect, 0x51, 0x0e), Some(Action::Collect));
    assert_eq!(hotkey_action(&show, &collect, 0x51, 0x02), None);
    assert_eq!(hotkey_action(&show, &show, 0x51, 0x0a), Some(Action::ShowQuote));
}

#[test]
fn collecting_blank_text_does_nothing() {
    let mut d = QuotesData::default();
    assert!(!do_collect(&mut d, " \n\t\u{3000}".to_string(), "t".to_string()));
    assert!(d.quotes.is_empty());
    assert!(do_collect(&mut d, "  Hello  ".to_string(), "t".to_string()));
    assert_eq!(d.quotes[0].content, "  Hello  ");
    assert_eq!(d.quotes[0].category, "未整理");
    assert_eq!(d.categories.len(), 1);
}

#[test]
fn modifier_order_and_repeats_do_not_matter() {
    assert_eq!(parse_hotkey("Shift+Ctrl+Q"), Some((0x51, 0x06)));
    assert_eq!(parse_hotkey("Ctrl+Shift+Ctrl+Q"), Some((0x51, 0x06)));
    assert_eq!(parse_hotkey("Shift+Bogus+Control+Q"), Some((0x51, 0x06)));
}

#[test]
fn blank_text_is_refused_even_with_the_largest_id() {
    let mut d = QuotesData::default();
    d.quotes.push(quote_displayer::models::Quote {
        id: u64::MAX,
        content: "x".to_string(),
        author: None,
        category: "未整理".to_string(),
        enabled: true,
        show_count: 0,
        created_at: String::new(),
    });
    assert!(!do_collect(&mut d, "   ".to_string(), "t".to_string()));
    assert_eq!(d.quotes.len(), 1);
}
