//! Global hotkeys: parsing hotkey strings such as `Ctrl+Win+Q`, deciding
//! what a key press triggers, and collecting clipboard text.
use vstd::prelude::*;

use crate::models::QuotesData;
use crate::text::{chars_of, parse_u32_range, split_ranges, trim_range};

verus! {

/// What `str::to_lowercase` gives for a string.
pub uninterp spec fn lowercase_of(s: Seq<char>) -> Seq<char>;

/// Whether every character is ASCII.
pub open spec fn is_ascii_text(s: Seq<char>) -> bool {
    forall|k: int| 0 <= k < s.len() ==> (#[trigger] s[k] as u32) < 0x80
}

/// A character with `A`..`Z` mapped to `a`..`z`.
pub open spec fn ascii_lower_char(c: char) -> char {
    if 0x41 <= (c as u32) <= 0x5a {
        ((c as u32) + 32) as char
    } else {
        c
    }
}

/// A string with `A`..`Z` mapped to `a`..`z`, every other character kept.
pub open spec fn ascii_lower(s: Seq<char>) -> Seq<char> {
    Seq::new(s.len(), |k: int| ascii_lower_char(s[k]))
}

/// The lowercase form of a string: the ASCII mapping for ASCII text, the
/// Unicode mapping of `str::to_lowercase` otherwise.
pub open spec fn lowered(s: Seq<char>) -> Seq<char> {
    if is_ascii_text(s) {
        ascii_lower(s)
    } else {
        lowercase_of(s)
    }
}

/// Lowercases with `str::to_lowercase`, the Unicode lowercase mapping.
/// Claimed of std: the result depends on the input alone, so it is
/// `lowercase_of` of it; and on ASCII text, where Unicode lowercase maps
/// `A`..`Z` to `a`..`z` and keeps every other character, it is that. What
/// the mapping does to other characters is not stated here.
#[verifier::external_body]
fn to_lowercase(s: &str) -> (r: String)
    ensures
        r@ == lowercase_of(s@),
        is_ascii_text(s@) ==> r@ == ascii_lower(s@),
{
    s.to_lowercase()
}

/// Tests whether a string equals a literal.
fn is_text(s: &String, lit: &str) -> (b: bool)
    ensures
        b == (s@ == lit@),
{
    let t = String::from_str(lit);
    s.eq(&t)
}

/// What a hotkey asks for.
#[derive(Debug, Clone, Copy, PartialEq, Eq)]
pub enum Action {
    Collect,
    ShowQuote,
}

/// The virtual-key code of a function key `F1`..`F24` (or `f1`..`f24`).
pub open spec fn function_key(key: Seq<char>) -> Option<u32> {
    if key.len() > 0 && (key[0] as u32 == 0x46 || key[0] as u32 == 0x66) {
        match crate::text::parse_u32(key.drop_first()) {
            Some(n) => if 1 <= n <= 24 {
                Some((0x6f + n) as u32)
            } else {
                None
            },
            None => None,
        }
    } else {
        None
    }
}

/// The virtual-key code of a single ASCII letter (either case) or digit:
/// the code of the upper-case character.
pub open spec fn single_key(key: Seq<char>) -> Option<u32> {
    if key.len() == 1 && (key[0] as u32) < 0x80 {
        let u = key[0] as u32;
        let up = if 0x61 <= u <= 0x7a {
            (u - 32) as u32
        } else {
            u
        };
        if (0x41 <= up <= 0x5a) || (0x30 <= up <= 0x39) {
            Some(up)
        } else {
            None
        }
    } else {
        None
    }
}

/// The virtual-key code of a named key, given the name in lower case.
pub open spec fn named_key(l: Seq<char>) -> Option<u32> {
    if l == "space"@ {
        Some(0x20)
    } else if l == "enter"@ || l == "return"@ {
        Some(0x0d)
    } else if l == "esc"@ || l == "escape"@ {
        Some(0x1b)
    } else if l == "tab"@ {
        Some(0x09)
    } else if l == "backspace"@ {
        Some(0x08)
    } else if l == "delete"@ || l == "del"@ {
        Some(0x2e)
    } else if l == "insert"@ || l == "ins"@ {
        Some(0x2d)
    } else if l == "home"@ {
        Some(0x24)
    } else if l == "end"@ {
        Some(0x23)
    } else if l == "pageup"@ || l == "pgup"@ {
        Some(0x21)
    } else if l == "pagedown"@ || l == "pgdn"@ {
        Some(0x22)
    } else if l == "up"@ {
        Some(0x26)
    } else if l == "down"@ {
        Some(0x28)
    } else if l == "left"@ {
        Some(0x25)
    } else if l == "right"@ {
        Some(0x27)
    } else {
        None
    }
}

/// The virtual-key code that a key name denotes: a function key, else a
/// single letter or digit, else a named key (matched in lower case).
pub open spec fn key_vk(key: Seq<char>) -> Option<u32> {
    if function_key(key) is Some {
        function_key(key)
    } else if single_key(key) is Some {
        single_key(key)
    } else {
        named_key(lowered(key))
    }
}

/// Maps a key name to its virtual-key code.
pub fn key_to_vk(s: &str) -> (r: Option<u32>)
    ensures
        r == key_vk(s@),
{
    let chars = chars_of(s);
    let n = chars.len();
    if n > 0 && ((chars[0] as u32) == 0x46 || (chars[0] as u32) == 0x66) {
        assert(chars@.subrange(1, n as int) =~= s@.drop_first());
        if let Some(k) = parse_u32_range(&chars, 1, n) {
            if 1 <= k && k <= 24 {
                return Some(0x6f + k);
            }
        }
    }
    if n == 1 && (chars[0] as u32) < 0x80 {
        let u = chars[0] as u32;
        let up = if 0x61 <= u && u <= 0x7a {
            u - 32
        } else {
            u
        };
        if (0x41 <= up && up <= 0x5a) || (0x30 <= up && up <= 0x39) {
            return Some(up);
        }
    }
    let l = to_lowercase(s);
    if is_text(&l, "space") {
        Some(0x20)
    } else if is_text(&l, "enter") || is_text(&l, "return") {
        Some(0x0d)
    } else if is_text(&l, "esc") || is_text(&l, "escape") {
        Some(0x1b)
    } else if is_text(&l, "tab") {
        Some(0x09)
    } else if is_text(&l, "backspace") {
        Some(0x08)
    } else if is_text(&l, "delete") || is_text(&l, "del") {
        Some(0x2e)
    } else if is_text(&l, "insert") || is_text(&l, "ins") {
        Some(0x2d)
    } else if is_text(&l, "home") {
        Some(0x24)
    } else if is_text(&l, "end") {
        Some(0x23)
    } else if is_text(&l, "pageup") || is_text(&l, "pgup") {
        Some(0x21)
    } else if is_text(&l, "pagedown") || is_text(&l, "pgdn") {
        Some(0x22)
    } else if is_text(&l, "up") {
        Some(0x26)
    } else if is_text(&l, "down") {
        Some(0x28)
    } else if is_text(&l, "left") {
        Some(0x25)
    } else if is_text(&l, "right") {
        Some(0x27)
    } else {
        None
    }
}

/// The modifier flag that a modifier name (in lower case) sets:
/// ctrl 2, alt 1, shift 4, win 8, anything else nothing.
pub open spec fn modifier_bit(l: Seq<char>) -> u32 {
    if l == "ctrl"@ || l == "control"@ {
        2
    } else if l == "alt"@ {
        1
    } else if l == "shift"@ {
        4
    } else if l == "win"@ || l == "cmd"@ || l == "super"@ {
        8
    } else {
        0
    }
}

/// The modifier flag that one piece of a hotkey sets, once trimmed and
/// lowercased.
pub open spec fn flag_of(piece: Seq<char>) -> u32 {
    modifier_bit(lowered(crate::text::trim(piece)))
}

/// The modifier flags of the first `n` pieces of a hotkey.
pub open spec fn modifiers_of(parts: Seq<Seq<char>>, n: int) -> u32
    decreases n,
{
    if n <= 0 {
        0
    } else {
        modifiers_of(parts, n - 1) | flag_of(parts[n - 1])
    }
}

/// A hotkey string is pieces joined by `+`: the last names the key, the
/// others name modifiers. Gives the key code and the modifier flags, or
/// `None` when the key is unknown.
pub open spec fn hotkey_of(s: Seq<char>) -> Option<(u32, u32)> {
    let parts = crate::text::split(s, '+');
    match key_vk(crate::text::trim(parts.last())) {
        Some(vk) => Some((vk, modifiers_of(parts, parts.len() - 1))),
        None => None,
    }
}

fn modifier_flag(l: &String) -> (b: u32)
    ensures
        b == modifier_bit(l@),
{
    if is_text(l, "ctrl") || is_text(l, "control") {
        2
    } else if is_text(l, "alt") {
        1
    } else if is_text(l, "shift") {
        4
    } else if is_text(l, "win") || is_text(l, "cmd") || is_text(l, "super") {
        8
    } else {
        0
    }
}

/// Parses a hotkey string into its key code and modifier flags.
pub fn parse_hotkey(s: &str) -> (r: Option<(u32, u32)>)
    ensures
        r == hotkey_of(s@),
{
    let chars = chars_of(s);
    let ranges = split_ranges(&chars, '+');
    let ghost parts = crate::text::split(s@, '+');
    let n = ranges.len();
    let (a, b) = ranges[n - 1];
    assert(ranges@[n - 1].0 <= ranges@[n - 1].1 <= chars@.len());
    assert(parts[n - 1] == chars@.subrange(a as int, b as int));
    let (ka, kb) = trim_range(&chars, a, b);
    let key = s.substring_char(ka, kb);
    let vk = match key_to_vk(key) {
        Some(v) => v,
        None => return None,
    };
    let mut mods: u32 = 0;
    let mut j: usize = 0;
    while j < n - 1
        invariant
            n == ranges@.len(),
            n >= 1,
            j <= n - 1,
            chars@ == s@,
            parts == crate::text::split(s@, '+'),
            crate::text::ranges_within(ranges@, chars@.len() as int),
            crate::text::pieces(chars@, ranges@) == parts,
            mods == modifiers_of(parts, j as int),
        decreases n - 1 - j,
    {
        let (ma, mb) = ranges[j];
        assert(ranges@[j as int].0 <= ranges@[j as int].1 <= chars@.len());
        assert(parts[j as int] == chars@.subrange(ma as int, mb as int));
        let (ta, tb) = trim_range(&chars, ma, mb);
        let name = s.substring_char(ta, tb);
        let l = to_lowercase(name);
        mods = mods | modifier_flag(&l);
        j += 1;
    }
    Some((vk, mods))
}

/// The modifier flags of the keys held down.
pub open spec fn mask_of(ctrl: bool, alt: bool, shift: bool, win: bool) -> u32 {
    (if ctrl {
        2u32
    } else {
        0u32
    }) | (if alt {
        1u32
    } else {
        0u32
    }) | (if shift {
        4u32
    } else {
        0u32
    }) | (if win {
        8u32
    } else {
        0u32
    })
}

/// Combines the held modifier keys into flags, as hotkeys state them.
pub fn modifier_mask(ctrl: bool, alt: bool, shift: bool, win: bool) -> (m: u32)
    ensures
        m == mask_of(ctrl, alt, shift, win),
{
    (if ctrl {
        2u32
    } else {
        0u32
    }) | (if alt {
        1u32
    } else {
        0u32
    }) | (if shift {
        4u32
    } else {
        0u32
    }) | (if win {
        8u32
    } else {
        0u32
    })
}

/// Whether a key press with these modifiers matches a hotkey string.
pub open spec fn matches_hotkey(hotkey: Seq<char>, vk: u32, mods: u32) -> bool {
    hotkey_of(hotkey) matches Some(h) && h.0 == vk && h.1 == mods
}

/// What a key press triggers: the show hotkey first, then the collect one.
pub open spec fn action_for(show: Seq<char>, collect: Seq<char>, vk: u32, mods: u32) -> Option<
    Action,
> {
    if matches_hotkey(show, vk, mods) {
        Some(Action::ShowQuote)
    } else if matches_hotkey(collect, vk, mods) {
        Some(Action::Collect)
    } else {
        None
    }
}

/// Decides what a key press with key code `vk` and modifier flags `mods`
/// triggers.
pub fn hotkey_action(show_hotkey: &String, collect_hotkey: &String, vk: u32, mods: u32) -> (r:
    Option<Action>)
    ensures
        r == action_for(show_hotkey@, collect_hotkey@, vk, mods),
{
    if let Some((tvk, tmods)) = parse_hotkey(show_hotkey.as_str()) {
        if vk == tvk && mods == tmods {
            return Some(Action::ShowQuote);
        }
    }
    if let Some((tvk, tmods)) = parse_hotkey(collect_hotkey.as_str()) {
        if vk == tvk && mods == tmods {
            return Some(Action::Collect);
        }
    }
    None
}

/// Whether a text is empty once white space is trimmed.
pub open spec fn is_blank(s: Seq<char>) -> bool {
    crate::text::trim(s).len() == 0
}

/// Collects clipboard text as a new unsorted quote, unless it is blank.
/// Returns whether a quote was added.
pub fn do_collect(data: &mut QuotesData, text: String, created_at: String) -> (added: bool)
    requires
        !is_blank(text@) ==> crate::store::ids_below_max(old(data).quotes@),
    ensures
        added == !is_blank(text@),
        !added ==> *final(data) == *old(data),
        added ==> {
            &&& final(data).quotes@.len() == old(data).quotes@.len() + 1
            &&& final(data).quotes@.drop_last() == old(data).quotes@
            &&& final(data).quotes@.last().content == text
            &&& final(data).quotes@.last().author is None
            &&& final(data).quotes@.last().category@ == crate::models::uncategorized()
            &&& final(data).quotes@.last().id == crate::store::next_id(old(data).quotes@)
            &&& final(data).quotes@.last().enabled
            &&& final(data).quotes@.last().show_count == 0
            &&& final(data).quotes@.last().created_at == created_at
            &&& crate::store::with_unsorted(final(data).categories@, old(data).categories@)
        },
{
    let chars = chars_of(text.as_str());
    let (a, b) = trim_range(&chars, 0, chars.len());
    assert(chars@.subrange(0, chars@.len() as int) =~= text@);
    if a == b {
        return false;
    }
    crate::store::collect_quote(data, text, created_at);
    true
}

} // verus!
