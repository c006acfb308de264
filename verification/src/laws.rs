//! Properties of the library that span its operations.
use vstd::prelude::*;

use crate::keyboard::{action_for, mask_of, matches_hotkey, Action};
use crate::models::{Category, Quote, ScheduleRule};
use crate::schedule::{first_firing, rule_fires, window_secs};
use crate::selection::{active_positions, chosen_position, draw_bound, is_active, shown_at};
use crate::state::AppData;
use crate::store::{has_category, id_differs, next_id, position_of_id, with_category};

verus! {

/// No two quotes share an id.
pub open spec fn ids_distinct(qs: Seq<Quote>) -> bool {
    forall|i: int, j: int| 0 <= i < j < qs.len() ==> #[trigger] qs[i].id != #[trigger] qs[j].id
}

/// No two categories share a name.
pub open spec fn names_distinct(cats: Seq<Category>) -> bool {
    forall|i: int, j: int|
        0 <= i < j < cats.len() ==> #[trigger] cats[i].name@ != #[trigger] cats[j].name@
}

/// The id a new quote receives is larger than every id in use, so no quote
/// has it yet.
pub proof fn law_next_id_is_fresh(qs: Seq<Quote>)
    ensures
        forall|k: int| 0 <= k < qs.len() ==> #[trigger] qs[k].id < next_id(qs),
{
    crate::store::lemma_max_id(qs);
}

/// Adding a quote keeps the ids distinct.
pub proof fn law_add_quote_keeps_ids_distinct(qs: Seq<Quote>, q: Quote)
    requires
        ids_distinct(qs),
        q.id == next_id(qs),
    ensures
        ids_distinct(qs.push(q)),
{
    law_next_id_is_fresh(qs);
    let s = qs.push(q);
    assert forall|i: int, j: int| 0 <= i < j < s.len() implies #[trigger] s[i].id != #[trigger] s[j].id by {
        if j == qs.len() {
            assert(s[i] == qs[i]);
        } else {
            assert(s[i] == qs[i] && s[j] == qs[j]);
        }
    }
}

/// Adding a category that then exists.
pub proof fn law_added_category_exists(cats: Seq<Category>, name: String)
    ensures
        has_category(with_category(cats, name), name@),
{
    if !has_category(cats, name@) {
        let c = cats.push(Category { name });
        assert(c[cats.len() as int].name@ == name@);
    }
}

/// Adding a category a second time changes nothing.
pub proof fn law_add_category_idempotent(cats: Seq<Category>, name: String)
    ensures
        with_category(with_category(cats, name), name) == with_category(cats, name),
{
    law_added_category_exists(cats, name);
}

/// Adding a category keeps the names distinct.
pub proof fn law_add_category_keeps_names_distinct(cats: Seq<Category>, name: String)
    requires
        names_distinct(cats),
    ensures
        names_distinct(with_category(cats, name)),
{
    if !has_category(cats, name@) {
        let s = cats.push(Category { name });
        assert forall|i: int, j: int| 0 <= i < j < s.len() implies #[trigger] s[i].name@
            != #[trigger] s[j].name@ by {
            assert(s[i] == cats[i]);
            if j < cats.len() {
                assert(s[j] == cats[j]);
            }
        }
    }
}

/// After `delete_quote`, no quote has the deleted id, and every quote with
/// another id is still there.
pub proof fn law_delete_quote_removes_only_that_id(qs: Seq<Quote>, id: u64)
    ensures
        forall|k: int|
            0 <= k < qs.filter(id_differs(id)).len() ==> #[trigger] qs.filter(id_differs(id))[k].id
                != id,
        forall|k: int| 0 <= k < qs.len() && qs[k].id != id ==> qs.filter(id_differs(id)).contains(
            #[trigger] qs[k],
        ),
{
    broadcast use vstd::seq_lib::group_filter_ensures;

    assert forall|k: int| 0 <= k < qs.len() && qs[k].id != id implies qs.filter(
        id_differs(id),
    ).contains(#[trigger] qs[k]) by {
        assert(id_differs(id)(qs[k]));
    }
}

proof fn lemma_filter_keeps_all(qs: Seq<Quote>, id: u64)
    requires
        forall|k: int| 0 <= k < qs.len() ==> #[trigger] qs[k].id != id,
    ensures
        qs.filter(id_differs(id)) == qs,
    decreases qs.len(),
{
    reveal_with_fuel(Seq::<_>::filter, 1);
    if qs.len() > 0 {
        let p = qs.drop_last();
        assert forall|k: int| 0 <= k < p.len() implies #[trigger] p[k].id != id by {
            assert(p[k] == qs[k]);
        }
        lemma_filter_keeps_all(p, id);
        assert(qs[qs.len() - 1].id != id);
        assert(p.push(qs.last()) =~= qs);
    }
}

/// Deleting a quote just added restores the quotes as they were.
pub proof fn law_delete_undoes_add(qs: Seq<Quote>, q: Quote)
    requires
        q.id == next_id(qs),
    ensures
        qs.push(q).filter(id_differs(q.id)) == qs,
{
    law_next_id_is_fresh(qs);
    assert forall|k: int| 0 <= k < qs.len() implies #[trigger] qs[k].id != q.id by {}
    lemma_filter_keeps_all(qs, q.id);
    reveal_with_fuel(Seq::<_>::filter, 1);
    assert(qs.push(q).drop_last() =~= qs);
}

/// After an update, looking the id up finds the new quote.
pub proof fn law_update_then_find(qs: Seq<Quote>, q: Quote)
    requires
        position_of_id(qs, q.id) is Some,
    ensures
        ({
            let k = position_of_id(qs, q.id)->0;
            position_of_id(qs.update(k, q), q.id) == Some(k) && qs.update(k, q)[k] == q
        }),
{
    let k = position_of_id(qs, q.id)->0;
    crate::store::lemma_position_from(qs, q.id, 0);
    lemma_position_update(qs, q, 0, k);
}

proof fn lemma_position_update(qs: Seq<Quote>, q: Quote, i: int, k: int)
    requires
        0 <= i <= k < qs.len(),
        crate::store::position_from(qs, q.id, i) == Some(k),
    ensures
        crate::store::position_from(qs.update(k, q), q.id, i) == Some(k),
    decreases k - i,
{
    if i < k {
        assert(qs.update(k, q)[i] == qs[i]);
        lemma_position_update(qs, q, i + 1, k);
    }
}

/// Renaming a category to a different name leaves no quote in the old one.
pub proof fn law_rename_empties_old_category(q: Quote, old_name: Seq<char>, new_name: String)
    requires
        new_name@ != old_name,
    ensures
        crate::store::recategorized(q, old_name, new_name).category@ != old_name,
{
}

/// Deleting a category other than the unsorted one leaves no quote in it,
/// and the category is gone.
pub proof fn law_delete_category_empties_it(
    cats: Seq<Category>,
    old_q: Quote,
    new_q: Quote,
    name: Seq<char>,
)
    requires
        name != crate::models::uncategorized(),
        crate::store::moved_to_unsorted(new_q, old_q, name),
    ensures
        new_q.category@ != name,
        !has_category(cats.filter(crate::store::category_name_differs(name)), name),
{
    let f = cats.filter(crate::store::category_name_differs(name));
    broadcast use vstd::seq_lib::group_filter_ensures;

    assert forall|k: int| 0 <= k < f.len() implies #[trigger] f[k].name@ != name by {
        assert(crate::store::category_name_differs(name)(f[k]));
    }
}

/// A pick only ever shows an active quote.
pub proof fn law_pick_chooses_active(d: AppData, draw: int)
    requires
        0 <= draw < draw_bound(d),
    ensures
        active_positions(d).contains(chosen_position(d, draw)),
        is_active(d.quotes.quotes@[chosen_position(d, draw)], d.settings.active_categories@),
{
    let qs = d.quotes.quotes@;
    let cats = d.settings.active_categories@;
    crate::selection::lemma_active_upto(qs, cats, qs.len() as int);
    let act = active_positions(d);
    if d.settings.weight_mode {
        let ws = crate::selection::active_weights(d);
        if act.len() == 0 {
            assert(ws.len() == 0);
            assert(crate::selection::total(ws) == 0);
        }
        crate::selection::lemma_slot_in_range(ws, draw, 0, 0);
        let s = crate::selection::weighted_slot(ws, draw);
        assert(act[s] == chosen_position(d, draw));
    } else {
        assert(act[draw] == chosen_position(d, draw));
    }
}

/// The sum of the display counts of the quotes.
pub open spec fn shows_total(qs: Seq<Quote>) -> int
    decreases qs.len(),
{
    if qs.len() == 0 {
        0
    } else {
        shows_total(qs.drop_last()) + qs.last().show_count
    }
}

proof fn lemma_shows_total_update(qs: Seq<Quote>, p: int, q: Quote)
    requires
        0 <= p < qs.len(),
    ensures
        shows_total(qs.update(p, q)) == shows_total(qs) - qs[p].show_count + q.show_count,
    decreases qs.len(),
{
    let u = qs.update(p, q);
    if p == qs.len() - 1 {
        assert(u.drop_last() =~= qs.drop_last());
    } else {
        assert(u.drop_last() =~= qs.drop_last().update(p, q));
        lemma_shows_total_update(qs.drop_last(), p, q);
    }
}

/// A pick counts exactly one display: once in the shown quote's own count,
/// once in the total and once in today's counter.
pub proof fn law_show_counts_one(old: AppData, new: AppData, draw: int, r: Option<Quote>)
    requires
        0 <= draw < draw_bound(old),
        shown_at(old, new, chosen_position(old, draw), r),
        crate::selection::counters_below_max(old),
    ensures
        shows_total(new.quotes.quotes@) == shows_total(old.quotes.quotes@) + 1,
        new.stats.total_displayed == old.stats.total_displayed + 1,
        new.stats.today_displayed == old.stats.today_displayed + 1,
        r matches Some(q) && q.id == old.quotes.quotes@[chosen_position(old, draw)].id,
{
    let p = chosen_position(old, draw);
    law_pick_chooses_active(old, draw);
    let q = old.quotes.quotes@[p];
    assert(q.show_count < u64::MAX);
    lemma_shows_total_update(
        old.quotes.quotes@,
        p,
        Quote { show_count: (q.show_count + 1) as u64, ..q },
    );
}

/// A quote shown more often never weighs more than one shown less often.
pub proof fn law_weight_falls_with_shows(a: u64, b: u64)
    requires
        a <= b,
    ensures
        crate::selection::weight(b) <= crate::selection::weight(a),
{
    vstd::arithmetic::div_mod::lemma_div_is_ordered_by_denominator(
        crate::selection::unit_weight() as int,
        a as int + 1,
        b as int + 1,
    );
}

/// An interval rule at the head of the list fires exactly when its
/// interval has passed, whatever the draws.
pub proof fn law_interval_rule_first(
    rules: Seq<ScheduleRule>,
    minutes: u64,
    elapsed: int,
    now_minute: int,
    last_fixed: int,
    draws: Seq<int>,
)
    requires
        rules.len() > 0,
        rules[0] == (ScheduleRule::Interval { minutes }),
    ensures
        (first_firing(rules, elapsed, now_minute, last_fixed, draws) == Some(0int)) == (elapsed
            >= minutes * 60),
{
    if elapsed < minutes * 60 {
        lemma_first_firing_after(rules, elapsed, now_minute, last_fixed, draws, 1);
    }
}

proof fn lemma_first_firing_after(
    rules: Seq<ScheduleRule>,
    elapsed: int,
    now_minute: int,
    last_fixed: int,
    draws: Seq<int>,
    i: int,
)
    requires
        i >= 0,
    ensures
        crate::schedule::first_firing_from(rules, elapsed, now_minute, last_fixed, draws, i)
            matches Some(j) ==> j >= i,
    decreases rules.len() - i,
{
    if i < rules.len() && !rule_fires(rules[i], elapsed, now_minute, last_fixed, draws[i]) {
        lemma_first_firing_after(rules, elapsed, now_minute, last_fixed, draws, i + 1);
    }
}

/// A random-range rule never fires before its minimum, and always fires
/// once its maximum has passed.
pub proof fn law_random_range_bounds(
    min: u64,
    max: u64,
    elapsed: int,
    now_minute: int,
    last_fixed: int,
    draw: int,
)
    ensures
        elapsed < min * 60 ==> !rule_fires(
            ScheduleRule::RandomRange { min, max },
            elapsed,
            now_minute,
            last_fixed,
            draw,
        ),
        elapsed >= window_secs(min, max) ==> rule_fires(
            ScheduleRule::RandomRange { min, max },
            elapsed,
            now_minute,
            last_fixed,
            draw,
        ),
{
}

/// A fixed-time rule fires at most once per minute: after it fired, the
/// recorded minute is the current one, and then no fixed time is due.
pub proof fn law_fixed_time_once_per_minute(times: Seq<String>, now_minute: int)
    ensures
        !crate::schedule::fixed_time_due(times, now_minute, now_minute),
{
}

/// Quiet hours that wrap around midnight cover every minute outside
/// `[end, start)`.
pub proof fn law_quiet_hours_wrap(start: String, end: String, now_minute: int, s: int, e: int)
    requires
        crate::schedule::quiet_bound(start@) == Some(s),
        crate::schedule::quiet_bound(end@) == Some(e),
        s > e,
    ensures
        crate::schedule::in_quiet_hours(Some(start), Some(end), now_minute) == !(e <= now_minute
            < s),
{
}

/// A key press that matches the show hotkey shows a quote, even when it
/// also matches the collect hotkey.
pub proof fn law_show_hotkey_first(show: Seq<char>, collect: Seq<char>, vk: u32, mods: u32)
    requires
        matches_hotkey(show, vk, mods),
    ensures
        action_for(show, collect, vk, mods) == Some(Action::ShowQuote),
{
}

/// Each held modifier key sets its own flag and no other.
pub proof fn law_modifier_flags(ctrl: bool, alt: bool, shift: bool, win: bool)
    ensures
        (mask_of(ctrl, alt, shift, win) & 2 != 0) == ctrl,
        (mask_of(ctrl, alt, shift, win) & 1 != 0) == alt,
        (mask_of(ctrl, alt, shift, win) & 4 != 0) == shift,
        (mask_of(ctrl, alt, shift, win) & 8 != 0) == win,
        mask_of(ctrl, alt, shift, win) < 16,
{
    let c: u32 = if ctrl { 2 } else { 0 };
    let a: u32 = if alt { 1 } else { 0 };
    let s: u32 = if shift { 4 } else { 0 };
    let w: u32 = if win { 8 } else { 0 };
    assert(((c | a | s | w) & 2 != 0) == (c == 2) && ((c | a | s | w) & 1 != 0) == (a == 1)
        && ((c | a | s | w) & 4 != 0) == (s == 4) && ((c | a | s | w) & 8 != 0) == (w == 8) && (c
        | a | s | w) < 16) by (bit_vector)
        requires
            c == 0 || c == 2,
            a == 0 || a == 1,
            s == 0 || s == 4,
            w == 0 || w == 8,
    ;
}

/// Counters loaded on the day they were saved are loaded unchanged, and
/// loading the loaded counters again changes nothing.
pub proof fn law_load_stats_stable(saved: Option<crate::models::Stats>, today: String)
    ensures
        crate::state::stats_on(saved, today).today_date@ == today@,
        crate::state::stats_on(Some(crate::state::stats_on(saved, today)), today)
            == crate::state::stats_on(saved, today),
{
}

/// A pick returns nothing exactly when no quote is active, and then
/// changes nothing.
pub proof fn law_pick_none_iff_no_active(old: AppData, new: AppData, r: Option<Quote>)
    requires
        crate::selection::pick_outcome(old, new, r),
    ensures
        (r is None) == (forall|k: int|
            0 <= k < old.quotes.quotes@.len() ==> !is_active(
                #[trigger] old.quotes.quotes@[k],
                old.settings.active_categories@,
            )),
        r is None ==> new == old,
{
    let qs = old.quotes.quotes@;
    let cats = old.settings.active_categories@;
    crate::selection::lemma_active_upto(qs, cats, qs.len() as int);
    let act = active_positions(old);
    if act.len() > 0 {
        assert(is_active(qs[act[0]], cats));
        let draw = choose|draw: int|
            0 <= draw < draw_bound(old) && shown_at(old, new, #[trigger] chosen_position(old, draw), r);
    } else {
        assert forall|k: int| 0 <= k < qs.len() implies !is_active(#[trigger] qs[k], cats) by {
            if is_active(qs[k], cats) {
                assert(act.contains(k));
            }
        }
    }
}

proof fn lemma_ascii_lower(s: Seq<char>)
    requires
        crate::keyboard::is_ascii_text(s),
    ensures
        crate::keyboard::is_ascii_text(crate::keyboard::ascii_lower(s)),
        crate::keyboard::ascii_lower(crate::keyboard::ascii_lower(s)) == crate::keyboard::ascii_lower(s),
        crate::keyboard::lowered(crate::keyboard::ascii_lower(s)) == crate::keyboard::lowered(s),
{
    let l = crate::keyboard::ascii_lower(s);
    assert forall|k: int| 0 <= k < l.len() implies (#[trigger] l[k] as u32) < 0x80 by {
        assert((s[k] as u32) < 0x80);
    }
    assert(crate::keyboard::ascii_lower(l) =~= l);
}

proof fn lemma_parse_ignores_ascii_case(t: Seq<char>)
    ensures
        crate::text::parse_u32(crate::keyboard::ascii_lower(t)) == crate::text::parse_u32(t),
{
    let l = crate::keyboard::ascii_lower(t);
    let d = crate::text::unsigned_digits(t);
    let dl = crate::text::unsigned_digits(l);
    if t.len() > 0 {
        assert(l[0] == crate::keyboard::ascii_lower_char(t[0]));
    }
    assert(dl =~= crate::keyboard::ascii_lower(d));
    if forall|k: int| 0 <= k < d.len() ==> crate::text::is_digit(#[trigger] d[k]) {
        assert(dl =~= d);
    } else {
        let k = choose|k: int| 0 <= k < d.len() && !crate::text::is_digit(#[trigger] d[k]);
        assert(dl[k] == crate::keyboard::ascii_lower_char(d[k]));
        assert(!crate::text::is_digit(dl[k]));
    }
}

/// Key names ignore ASCII case, and every key code lies in the ranges the
/// names cover: function keys, letters, digits and the named keys.
pub proof fn law_key_names_ignore_ascii_case(s: Seq<char>)
    requires
        crate::keyboard::is_ascii_text(s),
    ensures
        crate::keyboard::key_vk(s) == crate::keyboard::key_vk(crate::keyboard::ascii_lower(s)),
        crate::keyboard::key_vk(s) matches Some(v) ==> (v == 0x08 || v == 0x09 || v == 0x0d || v
            == 0x1b || v == 0x2d || v == 0x2e || (0x20 <= v <= 0x28) || (0x30 <= v <= 0x39) || (0x41
            <= v <= 0x5a) || (0x70 <= v <= 0x87)),
{
    let l = crate::keyboard::ascii_lower(s);
    lemma_ascii_lower(s);
    if s.len() > 0 {
        assert(l[0] == crate::keyboard::ascii_lower_char(s[0]));
        assert(l.drop_first() =~= crate::keyboard::ascii_lower(s.drop_first()));
        lemma_parse_ignores_ascii_case(s.drop_first());
        assert((s[0] as u32) < 0x80);
        lemma_lower_char(s[0]);
        let c = s[0];
        let lc = crate::keyboard::ascii_lower_char(c);
        assert(l[0] == lc);
        assert((lc as u32 == 0x46 || lc as u32 == 0x66) == (c as u32 == 0x46 || c as u32 == 0x66));
        assert(crate::keyboard::function_key(l) == crate::keyboard::function_key(s));
        assert(crate::keyboard::single_key(l) == crate::keyboard::single_key(s));
    }
}

proof fn lemma_lower_char(c: char)
    ensures
        0x41 <= (c as u32) <= 0x5a ==> (crate::keyboard::ascii_lower_char(c) as u32) == (c as u32) + 32,
        !(0x41 <= (c as u32) <= 0x5a) ==> crate::keyboard::ascii_lower_char(c) == c,
{
}

/// Pieces joined with `+` parse as the key named by the last piece and the
/// modifiers named by the others.
pub proof fn law_hotkey_of_joined(mods: Seq<Seq<char>>, key: Seq<char>)
    requires
        forall|i: int| 0 <= i < mods.len() ==> crate::text::free_of(#[trigger] mods[i], '+'),
        crate::text::free_of(key, '+'),
    ensures
        crate::keyboard::hotkey_of(crate::text::join(mods.push(key), '+')) == match crate::keyboard::key_vk(
            crate::text::trim(key),
        ) {
            Some(vk) => Some((vk, crate::keyboard::modifiers_of(mods, mods.len() as int))),
            None => None,
        },
{
    let parts = mods.push(key);
    assert forall|p: int| 0 <= p < parts.len() implies crate::text::free_of(#[trigger] parts[p], '+') by {
        if p < mods.len() {
            assert(parts[p] == mods[p]);
        }
    }
    crate::text::lemma_split_join(parts, '+');
    lemma_modifiers_prefix(parts, mods, mods.len() as int);
}

proof fn lemma_modifiers_prefix(a: Seq<Seq<char>>, b: Seq<Seq<char>>, n: int)
    requires
        0 <= n <= a.len(),
        n <= b.len(),
        forall|i: int| 0 <= i < n ==> a[i] == b[i],
    ensures
        crate::keyboard::modifiers_of(a, n) == crate::keyboard::modifiers_of(b, n),
    decreases n,
{
    if n > 0 {
        lemma_modifiers_prefix(a, b, n - 1);
        assert(a[n - 1] == b[n - 1]);
    }
}

/// Whether some piece names the modifier with flag `f`.
pub open spec fn names_flag(mods: Seq<Seq<char>>, f: u32) -> bool {
    exists|i: int| 0 <= i < mods.len() && #[trigger] crate::keyboard::flag_of(mods[i]) == f
}

/// Two lists of modifier names that name the same modifiers, whatever the
/// order, repeats or unknown names.
pub open spec fn same_modifiers(m1: Seq<Seq<char>>, m2: Seq<Seq<char>>) -> bool {
    &&& names_flag(m1, 1) == names_flag(m2, 1)
    &&& names_flag(m1, 2) == names_flag(m2, 2)
    &&& names_flag(m1, 4) == names_flag(m2, 4)
    &&& names_flag(m1, 8) == names_flag(m2, 8)
}

proof fn lemma_modifier_flags(mods: Seq<Seq<char>>, n: int)
    requires
        0 <= n <= mods.len(),
    ensures
        crate::keyboard::modifiers_of(mods, n) < 16,
        (crate::keyboard::modifiers_of(mods, n) & 1 != 0) == names_flag(mods.subrange(0, n), 1),
        (crate::keyboard::modifiers_of(mods, n) & 2 != 0) == names_flag(mods.subrange(0, n), 2),
        (crate::keyboard::modifiers_of(mods, n) & 4 != 0) == names_flag(mods.subrange(0, n), 4),
        (crate::keyboard::modifiers_of(mods, n) & 8 != 0) == names_flag(mods.subrange(0, n), 8),
    decreases n,
{
    let x = crate::keyboard::modifiers_of(mods, n);
    if n == 0 {
        assert(x == 0);
        assert((0u32 & 1) == 0 && (0u32 & 2) == 0 && (0u32 & 4) == 0 && (0u32 & 8) == 0) by (bit_vector);
    } else {
        lemma_modifier_flags(mods, n - 1);
        let y = crate::keyboard::modifiers_of(mods, n - 1);
        let b = crate::keyboard::flag_of(mods[n - 1]);
        assert(x == y | b);
        assert(b == 0 || b == 1 || b == 2 || b == 4 || b == 8);
        assert((y | b) < 16 && ((y | b) & 1 != 0) == ((y & 1 != 0) || b == 1) && ((y | b) & 2 != 0)
            == ((y & 2 != 0) || b == 2) && ((y | b) & 4 != 0) == ((y & 4 != 0) || b == 4) && ((y
            | b) & 8 != 0) == ((y & 8 != 0) || b == 8)) by (bit_vector)
            requires
                y < 16,
                b == 0 || b == 1 || b == 2 || b == 4 || b == 8,
        ;
        let p = mods.subrange(0, n - 1);
        let q = mods.subrange(0, n);
        assert(q[n - 1] == mods[n - 1]);
        assert forall|f: u32| names_flag(q, f) == (names_flag(p, f) || b == f) by {
            if names_flag(p, f) {
                let i = choose|i: int| 0 <= i < p.len() && #[trigger] crate::keyboard::flag_of(p[i]) == f;
                assert(q[i] == p[i]);
            }
            if names_flag(q, f) {
                let i = choose|i: int| 0 <= i < q.len() && #[trigger] crate::keyboard::flag_of(q[i]) == f;
                if i < n - 1 {
                    assert(q[i] == p[i]);
                }
            }
        }
    }
}

/// The order of the modifiers, repeats and unknown names do not change
/// what a hotkey string parses to: only which modifiers it names.
pub proof fn law_modifier_order_irrelevant(m1: Seq<Seq<char>>, m2: Seq<Seq<char>>, key: Seq<char>)
    requires
        forall|i: int| 0 <= i < m1.len() ==> crate::text::free_of(#[trigger] m1[i], '+'),
        forall|i: int| 0 <= i < m2.len() ==> crate::text::free_of(#[trigger] m2[i], '+'),
        crate::text::free_of(key, '+'),
        same_modifiers(m1, m2),
    ensures
        crate::keyboard::hotkey_of(crate::text::join(m1.push(key), '+'))
            == crate::keyboard::hotkey_of(crate::text::join(m2.push(key), '+')),
{
    law_hotkey_of_joined(m1, key);
    law_hotkey_of_joined(m2, key);
    lemma_modifier_flags(m1, m1.len() as int);
    lemma_modifier_flags(m2, m2.len() as int);
    assert(m1.subrange(0, m1.len() as int) =~= m1);
    assert(m2.subrange(0, m2.len() as int) =~= m2);
    let x = crate::keyboard::modifiers_of(m1, m1.len() as int);
    let y = crate::keyboard::modifiers_of(m2, m2.len() as int);
    assert(x == y) by (bit_vector)
        requires
            x < 16,
            y < 16,
            (x & 1 != 0) == (y & 1 != 0),
            (x & 2 != 0) == (y & 2 != 0),
            (x & 4 != 0) == (y & 4 != 0),
            (x & 8 != 0) == (y & 8 != 0),
    ;
}

/// The weight of a quote shown `c` times is `2^64 / (c + 1)` rounded down:
/// the largest number that, times `c + 1`, stays within `2^64`.
pub proof fn law_weight_is_inverse_count(c: u64)
    ensures
        crate::selection::weight(c) * (c + 1) <= 0x1_0000_0000_0000_0000,
        0x1_0000_0000_0000_0000 < (crate::selection::weight(c) + 1) * (c + 1),
{
    let u: int = 0x1_0000_0000_0000_0000;
    let n: int = c + 1;
    let w: int = crate::selection::weight(c) as int;
    assert(w == u / n);
    assert(w * n <= u && u < (w + 1) * n) by (nonlinear_arith)
        requires
            w == u / n,
            n >= 1,
            u >= 0,
    ;
}

/// A quote shown more often weighs strictly less, as long as the counts
/// stay below `2^32`.
pub proof fn law_weight_strictly_falls(a: u64, b: u64)
    requires
        a < b,
        b < 0x1_0000_0000,
    ensures
        crate::selection::weight(b) < crate::selection::weight(a),
{
    law_weight_is_inverse_count(a);
    law_weight_is_inverse_count(b);
    let u: int = 0x1_0000_0000_0000_0000;
    let x: int = crate::selection::weight(a) as int;
    let y: int = crate::selection::weight(b) as int;
    let na: int = a + 1;
    let nb: int = b + 1;
    assert(x >= na) by (nonlinear_arith)
        requires
            u < (x + 1) * na,
            1 <= na < 0x1_0000_0000,
            u == 0x1_0000_0000_0000_0000,
    ;
    assert(x * nb >= x * na + x) by (nonlinear_arith)
        requires
            nb >= na + 1,
            x >= 0,
    ;
    if y >= x {
        assert(y * nb >= x * nb) by (nonlinear_arith)
            requires
                y >= x,
                nb >= 0,
        ;
        assert((x + 1) * na == x * na + na) by (nonlinear_arith);
        assert(false);
    }
}

proof fn lemma_digit_char(d: nat)
    requires
        d < 10,
    ensures
        crate::text::digit_char(d) as u32 == 0x30 + d,
{
    assert('0' as u32 == 0x30 && '1' as u32 == 0x31 && '2' as u32 == 0x32 && '3' as u32 == 0x33
        && '4' as u32 == 0x34 && '5' as u32 == 0x35 && '6' as u32 == 0x36 && '7' as u32 == 0x37
        && '8' as u32 == 0x38 && '9' as u32 == 0x39);
}

proof fn lemma_decimal(n: nat)
    ensures
        crate::text::decimal(n).len() >= 1,
        forall|k: int|
            0 <= k < crate::text::decimal(n).len() ==> crate::text::is_digit(
                #[trigger] crate::text::decimal(n)[k],
            ),
        crate::text::digits_value(crate::text::decimal(n)) == n,
    decreases n,
{
    assert('0' as u32 == 0x30 && '1' as u32 == 0x31 && '2' as u32 == 0x32 && '3' as u32 == 0x33
        && '4' as u32 == 0x34 && '5' as u32 == 0x35 && '6' as u32 == 0x36 && '7' as u32 == 0x37
        && '8' as u32 == 0x38 && '9' as u32 == 0x39);
    let d = crate::text::decimal(n);
    if n < 10 {
        lemma_digit_char(n);
        assert(d.drop_last() =~= Seq::<char>::empty());
        assert(crate::text::digits_value(d.drop_last()) == 0);
        assert(d.last() == crate::text::digit_char(n));
        assert(crate::text::digits_value(d) == 0 * 10 + (d.last() as u32 - '0' as u32) as nat);
    } else {
        lemma_digit_char(n % 10);
        lemma_decimal(n / 10);
        let p = crate::text::decimal(n / 10);
        assert(d.drop_last() =~= p);
        assert(d.last() == crate::text::digit_char(n % 10));
        assert(n == (n / 10) * 10 + n % 10) by (nonlinear_arith);
        assert(crate::text::digits_value(d) == crate::text::digits_value(p) * 10 + (d.last() as u32
            - '0' as u32) as nat);
        assert forall|k: int| 0 <= k < d.len() implies crate::text::is_digit(#[trigger] d[k]) by {
            if k < p.len() {
                assert(d[k] == p[k]);
            }
        }
    }
}

/// Printing a number in decimal and reading it back gives the number.
pub proof fn law_parse_reads_decimal(n: u32)
    ensures
        crate::text::parse_u32(crate::text::decimal(n as nat)) == Some(n),
{
    lemma_decimal(n as nat);
    let d = crate::text::decimal(n as nat);
    assert(crate::text::is_digit(d[0]));
    assert(crate::text::unsigned_digits(d) == d);
}

/// `h:m`, the two numbers written in decimal around a colon.
pub open spec fn clock_text(h: u32, m: u32) -> Seq<char> {
    crate::text::decimal(h as nat) + seq![':'] + crate::text::decimal(m as nat)
}

proof fn lemma_clock_split(h: u32, m: u32)
    ensures
        crate::text::split(clock_text(h, m), ':') == seq![
            crate::text::decimal(h as nat),
            crate::text::decimal(m as nat),
        ],
{
    let dh = crate::text::decimal(h as nat);
    let dm = crate::text::decimal(m as nat);
    lemma_decimal(h as nat);
    lemma_decimal(m as nat);
    let parts = seq![dh, dm];
    assert(':' as u32 == 0x3a);
    assert forall|p: int| 0 <= p < parts.len() implies crate::text::free_of(
        #[trigger] parts[p],
        ':',
    ) by {
        let q = parts[p];
        assert forall|k: int| 0 <= k < q.len() implies #[trigger] q[k] != ':' by {
            assert(crate::text::is_digit(q[k]));
        }
    }
    assert(parts.drop_first() =~= seq![dm]);
    assert(crate::text::join(seq![dm], ':') == dm);
    assert(crate::text::join(parts, ':') =~= clock_text(h, m));
    crate::text::lemma_split_join(parts, ':');
}

/// A fixed time written `h:m` stands for minute `h * 60 + m`.
pub proof fn law_fixed_time_reads_clock(h: u32, m: u32)
    ensures
        crate::schedule::fixed_minute(clock_text(h, m)) == Some(h * 60 + m),
{
    lemma_clock_split(h, m);
    law_parse_reads_decimal(h);
    law_parse_reads_decimal(m);
}

/// A quiet-hours bound written `h:m` stands for minute `h * 60 + m`.
pub proof fn law_quiet_bound_reads_clock(h: u32, m: u32)
    ensures
        crate::schedule::quiet_bound(clock_text(h, m)) == Some(h * 60 + m),
{
    lemma_clock_split(h, m);
    law_parse_reads_decimal(h);
    law_parse_reads_decimal(m);
    let pieces = seq![crate::text::decimal(h as nat), crate::text::decimal(m as nat)];
    let one = pieces.drop_last();
    assert(one =~= seq![crate::text::decimal(h as nat)]);
    assert(one.drop_last() =~= Seq::<Seq<char>>::empty());
    assert(crate::schedule::parsed_numbers(one.drop_last()) == Seq::<u32>::empty());
    assert(one.last() == crate::text::decimal(h as nat));
    assert(crate::schedule::parsed_numbers(one) =~= seq![h]);
    assert(pieces.last() == crate::text::decimal(m as nat));
    assert(crate::schedule::parsed_numbers(pieces) =~= seq![h, m]);
}

/// Any listed time that names the current minute makes a fixed-time rule
/// due, unless that minute was already handled; a time written `h:m` names
/// minute `h * 60 + m`.
pub proof fn law_any_listed_time_is_due(
    times: Seq<String>,
    k: int,
    now_minute: int,
    last_fixed: int,
    h: u32,
    m: u32,
)
    requires
        0 <= k < times.len(),
        now_minute != last_fixed,
    ensures
        crate::schedule::fixed_minute(times[k]@) == Some(now_minute)
            ==> crate::schedule::fixed_time_due(times, now_minute, last_fixed),
        times[k]@ == clock_text(h, m) && now_minute == h * 60 + m
            ==> crate::schedule::fixed_time_due(times, now_minute, last_fixed),
{
    law_fixed_time_reads_clock(h, m);
}

/// Quiet hours that do not wrap midnight cover exactly `[start, end)`.
pub proof fn law_quiet_hours_plain(start: String, end: String, now_minute: int, s: int, e: int)
    requires
        crate::schedule::quiet_bound(start@) == Some(s),
        crate::schedule::quiet_bound(end@) == Some(e),
        s <= e,
    ensures
        crate::schedule::in_quiet_hours(Some(start), Some(end), now_minute) == (s <= now_minute
            < e),
{
}

/// Quiet hours written `h1:m1` to `h2:m2` hold a minute back exactly when it
/// lies between them (wrapping midnight when the start is later).
pub proof fn law_quiet_hours_of_clock(
    start: String,
    end: String,
    h1: u32,
    m1: u32,
    h2: u32,
    m2: u32,
    now_minute: int,
)
    requires
        start@ == clock_text(h1, m1),
        end@ == clock_text(h2, m2),
    ensures
        h1 * 60 + m1 <= h2 * 60 + m2 ==> crate::schedule::in_quiet_hours(
            Some(start),
            Some(end),
            now_minute,
        ) == (h1 * 60 + m1 <= now_minute < h2 * 60 + m2),
        h1 * 60 + m1 > h2 * 60 + m2 ==> crate::schedule::in_quiet_hours(
            Some(start),
            Some(end),
            now_minute,
        ) == !(h2 * 60 + m2 <= now_minute < h1 * 60 + m1),
{
    law_quiet_bound_reads_clock(h1, m1);
    law_quiet_bound_reads_clock(h2, m2);
}

proof fn lemma_named_via(s: Seq<char>, name: Seq<char>)
    requires
        crate::keyboard::is_ascii_text(s),
        crate::keyboard::ascii_lower(s) == name,
        name.len() >= 2,
        name[0] as u32 != 0x66,
    ensures
        crate::keyboard::key_vk(s) == crate::keyboard::named_key(name),
{
    let c = s[0];
    assert(crate::keyboard::ascii_lower(s)[0] == crate::keyboard::ascii_lower_char(c));
    lemma_lower_char(c);
    assert(c as u32 != 0x46 && c as u32 != 0x66);
}

proof fn lemma_key_space(s: Seq<char>)
    requires
        crate::keyboard::is_ascii_text(s),
        crate::keyboard::ascii_lower(s) == "space"@,
    ensures
        crate::keyboard::key_vk(s) == Some(0x20u32),
{
    reveal_strlit("space");
    lemma_named_via(s, "space"@);
}

proof fn lemma_key_enter(s: Seq<char>)
    requires
        crate::keyboard::is_ascii_text(s),
        crate::keyboard::ascii_lower(s) == "enter"@,
    ensures
        crate::keyboard::key_vk(s) == Some(0x0du32),
{
    reveal_strlit("space");
    reveal_strlit("enter");
    assert("enter"@[0] != "space"@[0]);
    lemma_named_via(s, "enter"@);
}

proof fn lemma_key_return(s: Seq<char>)
    requires
        crate::keyboard::is_ascii_text(s),
        crate::keyboard::ascii_lower(s) == "return"@,
    ensures
        crate::keyboard::key_vk(s) == Some(0x0du32),
{
    reveal_strlit("space");
    reveal_strlit("enter");
    reveal_strlit("return");
    assert("return"@.len() != "space"@.len());
    assert("return"@ != "space"@);
    assert("return"@.len() != "enter"@.len());
    assert("return"@ != "enter"@);
    lemma_named_via(s, "return"@);
}

proof fn lemma_key_esc(s: Seq<char>)
    requires
        crate::keyboard::is_ascii_text(s),
        crate::keyboard::ascii_lower(s) == "esc"@,
    ensures
        crate::keyboard::key_vk(s) == Some(0x1bu32),
{
    reveal_strlit("space");
    reveal_strlit("enter");
    reveal_strlit("return");
    reveal_strlit("esc");
    assert("esc"@.len() != "space"@.len());
    assert("esc"@ != "space"@);
    assert("esc"@.len() != "enter"@.len());
    assert("esc"@ != "enter"@);
    assert("esc"@.len() != "return"@.len());
    assert("esc"@ != "return"@);
    lemma_named_via(s, "esc"@);
}

proof fn lemma_key_escape(s: Seq<char>)
    requires
        crate::keyboard::is_ascii_text(s),
        crate::keyboard::ascii_lower(s) == "escape"@,
    ensures
        crate::keyboard::key_vk(s) == Some(0x1bu32),
{
    reveal_strlit("space");
    reveal_strlit("enter");
    reveal_strlit("return");
    reveal_strlit("esc");
    reveal_strlit("escape");
    assert("escape"@.len() != "space"@.len());
    assert("escape"@ != "space"@);
    assert("escape"@.len() != "enter"@.len());
    assert("escape"@ != "enter"@);
    assert("escape"@.len() != "esc"@.len());
    assert("escape"@ != "esc"@);
    assert("escape"@[0] != "return"@[0]);
    lemma_named_via(s, "escape"@);
}

proof fn lemma_key_tab(s: Seq<char>)
    requires
        crate::keyboard::is_ascii_text(s),
        crate::keyboard::ascii_lower(s) == "tab"@,
    ensures
        crate::keyboard::key_vk(s) == Some(0x09u32),
{
    reveal_strlit("space");
    reveal_strlit("enter");
    reveal_strlit("return");
    reveal_strlit("esc");
    reveal_strlit("escape");
    reveal_strlit("tab");
    assert("tab"@.len() != "space"@.len());
    assert("tab"@ != "space"@);
    assert("tab"@.len() != "enter"@.len());
    assert("tab"@ != "enter"@);
    assert("tab"@.len() != "return"@.len());
    assert("tab"@ != "return"@);
    assert("tab"@.len() != "escape"@.len());
    assert("tab"@ != "escape"@);
    assert("tab"@[0] != "esc"@[0]);
    lemma_named_via(s, "tab"@);
}

proof fn lemma_key_backspace(s: Seq<char>)
    requires
        crate::keyboard::is_ascii_text(s),
        crate::keyboard::ascii_lower(s) == "backspace"@,
    ensures
        crate::keyboard::key_vk(s) == Some(0x08u32),
{
    reveal_strlit("space");
    reveal_strlit("enter");
    reveal_strlit("return");
    reveal_strlit("esc");
    reveal_strlit("escape");
    reveal_strlit("tab");
    reveal_strlit("backspace");
    assert("backspace"@.len() != "space"@.len());
    assert("backspace"@ != "space"@);
    assert("backspace"@.len() != "enter"@.len());
    assert("backspace"@ != "enter"@);
    assert("backspace"@.len() != "return"@.len());
    assert("backspace"@ != "return"@);
    assert("backspace"@.len() != "esc"@.len());
    assert("backspace"@ != "esc"@);
    assert("backspace"@.len() != "escape"@.len());
    assert("backspace"@ != "escape"@);
    assert("backspace"@.len() != "tab"@.len());
    assert("backspace"@ != "tab"@);
    lemma_named_via(s, "backspace"@);
}

proof fn lemma_key_delete(s: Seq<char>)
    requires
        crate::keyboard::is_ascii_text(s),
        crate::keyboard::ascii_lower(s) == "delete"@,
    ensures
        crate::keyboard::key_vk(s) == Some(0x2eu32),
{
    reveal_strlit("space");
    reveal_strlit("enter");
    reveal_strlit("return");
    reveal_strlit("esc");
    reveal_strlit("escape");
    reveal_strlit("tab");
    reveal_strlit("backspace");
    reveal_strlit("delete");
    assert("delete"@.len() != "space"@.len());
    assert("delete"@ != "space"@);
    assert("delete"@.len() != "enter"@.len());
    assert("delete"@ != "enter"@);
    assert("delete"@.len() != "esc"@.len());
    assert("delete"@ != "esc"@);
    assert("delete"@.len() != "tab"@.len());
    assert("delete"@ != "tab"@);
    assert("delete"@.len() != "backspace"@.len());
    assert("delete"@ != "backspace"@);
    assert("delete"@[0] != "return"@[0]);
    assert("delete"@[0] != "escape"@[0]);
    lemma_named_via(s, "delete"@);
}

proof fn lemma_key_del(s: Seq<char>)
    requires
        crate::keyboard::is_ascii_text(s),
        crate::keyboard::ascii_lower(s) == "del"@,
    ensures
        crate::keyboard::key_vk(s) == Some(0x2eu32),
{
    reveal_strlit("space");
    reveal_strlit("enter");
    reveal_strlit("return");
    reveal_strlit("esc");
    reveal_strlit("escape");
    reveal_strlit("tab");
    reveal_strlit("backspace");
    reveal_strlit("delete");
    reveal_strlit("del");
    assert("del"@.len() != "space"@.len());
    assert("del"@ != "space"@);
    assert("del"@.len() != "enter"@.len());
    assert("del"@ != "enter"@);
    assert("del"@.len() != "return"@.len());
    assert("del"@ != "return"@);
    assert("del"@.len() != "escape"@.len());
    assert("del"@ != "escape"@);
    assert("del"@.len() != "backspace"@.len());
    assert("del"@ != "backspace"@);
    assert("del"@.len() != "delete"@.len());
    assert("del"@ != "delete"@);
    assert("del"@[0] != "esc"@[0]);
    assert("del"@[0] != "tab"@[0]);
    lemma_named_via(s, "del"@);
}

proof fn lemma_key_insert(s: Seq<char>)
    requires
        crate::keyboard::is_ascii_text(s),
        crate::keyboard::ascii_lower(s) == "insert"@,
    ensures
        crate::keyboard::key_vk(s) == Some(0x2du32),
{
    reveal_strlit("space");
    reveal_strlit("enter");
    reveal_strlit("return");
    reveal_strlit("esc");
    reveal_strlit("escape");
    reveal_strlit("tab");
    reveal_strlit("backspace");
    reveal_strlit("delete");
    reveal_strlit("del");
    reveal_strlit("insert");
    assert("insert"@.len() != "space"@.len());
    assert("insert"@ != "space"@);
    assert("insert"@.len() != "enter"@.len());
    assert("insert"@ != "enter"@);
    assert("insert"@.len() != "esc"@.len());
    assert("insert"@ != "esc"@);
    assert("insert"@.len() != "tab"@.len());
    assert("insert"@ != "tab"@);
    assert("insert"@.len() != "backspace"@.len());
    assert("insert"@ != "backspace"@);
    assert("insert"@.len() != "del"@.len());
    assert("insert"@ != "del"@);
    assert("insert"@[0] != "return"@[0]);
    assert("insert"@[0] != "escape"@[0]);
    assert("insert"@[0] != "delete"@[0]);
    lemma_named_via(s, "insert"@);
}

proof fn lemma_key_ins(s: Seq<char>)
    requires
        crate::keyboard::is_ascii_text(s),
        crate::keyboard::ascii_lower(s) == "ins"@,
    ensures
        crate::keyboard::key_vk(s) == Some(0x2du32),
{
    reveal_strlit("space");
    reveal_strlit("enter");
    reveal_strlit("return");
    reveal_strlit("esc");
    reveal_strlit("escape");
    reveal_strlit("tab");
    reveal_strlit("backspace");
    reveal_strlit("delete");
    reveal_strlit("del");
    reveal_strlit("insert");
    reveal_strlit("ins");
    assert("ins"@.len() != "space"@.len());
    assert("ins"@ != "space"@);
    assert("ins"@.len() != "enter"@.len());
    assert("ins"@ != "enter"@);
    assert("ins"@.len() != "return"@.len());
    assert("ins"@ != "return"@);
    assert("ins"@.len() != "escape"@.len());
    assert("ins"@ != "escape"@);
    assert("ins"@.len() != "backspace"@.len());
    assert("ins"@ != "backspace"@);
    assert("ins"@.len() != "delete"@.len());
    assert("ins"@ != "delete"@);
    assert("ins"@.len() != "insert"@.len());
    assert("ins"@ != "insert"@);
    assert("ins"@[0] != "esc"@[0]);
    assert("ins"@[0] != "tab"@[0]);
    assert("ins"@[0] != "del"@[0]);
    lemma_named_via(s, "ins"@);
}

proof fn lemma_key_home(s: Seq<char>)
    requires
        crate::keyboard::is_ascii_text(s),
        crate::keyboard::ascii_lower(s) == "home"@,
    ensures
        crate::keyboard::key_vk(s) == Some(0x24u32),
{
    reveal_strlit("space");
    reveal_strlit("enter");
    reveal_strlit("return");
    reveal_strlit("esc");
    reveal_strlit("escape");
    reveal_strlit("tab");
    reveal_strlit("backspace");
    reveal_strlit("delete");
    reveal_strlit("del");
    reveal_strlit("insert");
    reveal_strlit("ins");
    reveal_strlit("home");
    assert("home"@.len() != "space"@.len());
    assert("home"@ != "space"@);
    assert("home"@.len() != "enter"@.len());
    assert("home"@ != "enter"@);
    assert("home"@.len() != "return"@.len());
    assert("home"@ != "return"@);
    assert("home"@.len() != "esc"@.len());
    assert("home"@ != "esc"@);
    assert("home"@.len() != "escape"@.len());
    assert("home"@ != "escape"@);
    assert("home"@.len() != "tab"@.len());
    assert("home"@ != "tab"@);
    assert("home"@.len() != "backspace"@.len());
    assert("home"@ != "backspace"@);
    assert("home"@.len() != "delete"@.len());
    assert("home"@ != "delete"@);
    assert("home"@.len() != "del"@.len());
    assert("home"@ != "del"@);
    assert("home"@.len() != "insert"@.len());
    assert("home"@ != "insert"@);
    assert("home"@.len() != "ins"@.len());
    assert("home"@ != "ins"@);
    lemma_named_via(s, "home"@);
}

proof fn lemma_key_end(s: Seq<char>)
    requires
        crate::keyboard::is_ascii_text(s),
        crate::keyboard::ascii_lower(s) == "end"@,
    ensures
        crate::keyboard::key_vk(s) == Some(0x23u32),
{
    reveal_strlit("space");
    reveal_strlit("enter");
    reveal_strlit("return");
    reveal_strlit("esc");
    reveal_strlit("escape");
    reveal_strlit("tab");
    reveal_strlit("backspace");
    reveal_strlit("delete");
    reveal_strlit("del");
    reveal_strlit("insert");
    reveal_strlit("ins");
    reveal_strlit("home");
    reveal_strlit("end");
    assert("end"@.len() != "space"@.len());
    assert("end"@ != "space"@);
    assert("end"@.len() != "enter"@.len());
    assert("end"@ != "enter"@);
    assert("end"@.len() != "return"@.len());
    assert("end"@ != "return"@);
    assert("end"@.len() != "escape"@.len());
    assert("end"@ != "escape"@);
    assert("end"@.len() != "backspace"@.len());
    assert("end"@ != "backspace"@);
    assert("end"@.len() != "delete"@.len());
    assert("end"@ != "delete"@);
    assert("end"@.len() != "insert"@.len());
    assert("end"@ != "insert"@);
    assert("end"@.len() != "home"@.len());
    assert("end"@ != "home"@);
    assert("end"@[1] != "esc"@[1]);
    assert("end"@[0] != "tab"@[0]);
    assert("end"@[0] != "del"@[0]);
    assert("end"@[0] != "ins"@[0]);
    lemma_named_via(s, "end"@);
}

proof fn lemma_key_pageup(s: Seq<char>)
    requires
        crate::keyboard::is_ascii_text(s),
        crate::keyboard::ascii_lower(s) == "pageup"@,
    ensures
        crate::keyboard::key_vk(s) == Some(0x21u32),
{
    reveal_strlit("space");
    reveal_strlit("enter");
    reveal_strlit("return");
    reveal_strlit("esc");
    reveal_strlit("escape");
    reveal_strlit("tab");
    reveal_strlit("backspace");
    reveal_strlit("delete");
    reveal_strlit("del");
    reveal_strlit("insert");
    reveal_strlit("ins");
    reveal_strlit("home");
    reveal_strlit("end");
    reveal_strlit("pageup");
    assert("pageup"@.len() != "space"@.len());
    assert("pageup"@ != "space"@);
    assert("pageup"@.len() != "enter"@.len());
    assert("pageup"@ != "enter"@);
    assert("pageup"@.len() != "esc"@.len());
    assert("pageup"@ != "esc"@);
    assert("pageup"@.len() != "tab"@.len());
    assert("pageup"@ != "tab"@);
    assert("pageup"@.len() != "backspace"@.len());
    assert("pageup"@ != "backspace"@);
    assert("pageup"@.len() != "del"@.len());
    assert("pageup"@ != "del"@);
    assert("pageup"@.len() != "ins"@.len());
    assert("pageup"@ != "ins"@);
    assert("pageup"@.len() != "home"@.len());
    assert("pageup"@ != "home"@);
    assert("pageup"@.len() != "end"@.len());
    assert("pageup"@ != "end"@);
    assert("pageup"@[0] != "return"@[0]);
    assert("pageup"@[0] != "escape"@[0]);
    assert("pageup"@[0] != "delete"@[0]);
    assert("pageup"@[0] != "insert"@[0]);
    lemma_named_via(s, "pageup"@);
}

proof fn lemma_key_pgup(s: Seq<char>)
    requires
        crate::keyboard::is_ascii_text(s),
        crate::keyboard::ascii_lower(s) == "pgup"@,
    ensures
        crate::keyboard::key_vk(s) == Some(0x21u32),
{
    reveal_strlit("space");
    reveal_strlit("enter");
    reveal_strlit("return");
    reveal_strlit("esc");
    reveal_strlit("escape");
    reveal_strlit("tab");
    reveal_strlit("backspace");
    reveal_strlit("delete");
    reveal_strlit("del");
    reveal_strlit("insert");
    reveal_strlit("ins");
    reveal_strlit("home");
    reveal_strlit("end");
    reveal_strlit("pageup");
    reveal_strlit("pgup");
    assert("pgup"@.len() != "space"@.len());
    assert("pgup"@ != "space"@);
    assert("pgup"@.len() != "enter"@.len());
    assert("pgup"@ != "enter"@);
    assert("pgup"@.len() != "return"@.len());
    assert("pgup"@ != "return"@);
    assert("pgup"@.len() != "esc"@.len());
    assert("pgup"@ != "esc"@);
    assert("pgup"@.len() != "escape"@.len());
    assert("pgup"@ != "escape"@);
    assert("pgup"@.len() != "tab"@.len());
    assert("pgup"@ != "tab"@);
    assert("pgup"@.len() != "backspace"@.len());
    assert("pgup"@ != "backspace"@);
    assert("pgup"@.len() != "delete"@.len());
    assert("pgup"@ != "delete"@);
    assert("pgup"@.len() != "del"@.len());
    assert("pgup"@ != "del"@);
    assert("pgup"@.len() != "insert"@.len());
    assert("pgup"@ != "insert"@);
    assert("pgup"@.len() != "ins"@.len());
    assert("pgup"@ != "ins"@);
    assert("pgup"@.len() != "end"@.len());
    assert("pgup"@ != "end"@);
    assert("pgup"@.len() != "pageup"@.len());
    assert("pgup"@ != "pageup"@);
    assert("pgup"@[0] != "home"@[0]);
    lemma_named_via(s, "pgup"@);
}

proof fn lemma_key_pagedown(s: Seq<char>)
    requires
        crate::keyboard::is_ascii_text(s),
        crate::keyboard::ascii_lower(s) == "pagedown"@,
    ensures
        crate::keyboard::key_vk(s) == Some(0x22u32),
{
    reveal_strlit("space");
    reveal_strlit("enter");
    reveal_strlit("return");
    reveal_strlit("esc");
    reveal_strlit("escape");
    reveal_strlit("tab");
    reveal_strlit("backspace");
    reveal_strlit("delete");
    reveal_strlit("del");
    reveal_strlit("insert");
    reveal_strlit("ins");
    reveal_strlit("home");
    reveal_strlit("end");
    reveal_strlit("pageup");
    reveal_strlit("pgup");
    reveal_strlit("pagedown");
    assert("pagedown"@.len() != "space"@.len());
    assert("pagedown"@ != "space"@);
    assert("pagedown"@.len() != "enter"@.len());
    assert("pagedown"@ != "enter"@);
    assert("pagedown"@.len() != "return"@.len());
    assert("pagedown"@ != "return"@);
    assert("pagedown"@.len() != "esc"@.len());
    assert("pagedown"@ != "esc"@);
    assert("pagedown"@.len() != "escape"@.len());
    assert("pagedown"@ != "escape"@);
    assert("pagedown"@.len() != "tab"@.len());
    assert("pagedown"@ != "tab"@);
    assert("pagedown"@.len() != "backspace"@.len());
    assert("pagedown"@ != "backspace"@);
    assert("pagedown"@.len() != "delete"@.len());
    assert("pagedown"@ != "delete"@);
    assert("pagedown"@.len() != "del"@.len());
    assert("pagedown"@ != "del"@);
    assert("pagedown"@.len() != "insert"@.len());
    assert("pagedown"@ != "insert"@);
    assert("pagedown"@.len() != "ins"@.len());
    assert("pagedown"@ != "ins"@);
    assert("pagedown"@.len() != "home"@.len());
    assert("pagedown"@ != "home"@);
    assert("pagedown"@.len() != "end"@.len());
    assert("pagedown"@ != "end"@);
    assert("pagedown"@.len() != "pageup"@.len());
    assert("pagedown"@ != "pageup"@);
    assert("pagedown"@.len() != "pgup"@.len());
    assert("pagedown"@ != "pgup"@);
    lemma_named_via(s, "pagedown"@);
}

proof fn lemma_key_pgdn(s: Seq<char>)
    requires
        crate::keyboard::is_ascii_text(s),
        crate::keyboard::ascii_lower(s) == "pgdn"@,
    ensures
        crate::keyboard::key_vk(s) == Some(0x22u32),
{
    reveal_strlit("space");
    reveal_strlit("enter");
    reveal_strlit("return");
    reveal_strlit("esc");
    reveal_strlit("escape");
    reveal_strlit("tab");
    reveal_strlit("backspace");
    reveal_strlit("delete");
    reveal_strlit("del");
    reveal_strlit("insert");
    reveal_strlit("ins");
    reveal_strlit("home");
    reveal_strlit("end");
    reveal_strlit("pageup");
    reveal_strlit("pgup");
    reveal_strlit("pagedown");
    reveal_strlit("pgdn");
    assert("pgdn"@.len() != "space"@.len());
    assert("pgdn"@ != "space"@);
    assert("pgdn"@.len() != "enter"@.len());
    assert("pgdn"@ != "enter"@);
    assert("pgdn"@.len() != "return"@.len());
    assert("pgdn"@ != "return"@);
    assert("pgdn"@.len() != "esc"@.len());
    assert("pgdn"@ != "esc"@);
    assert("pgdn"@.len() != "escape"@.len());
    assert("pgdn"@ != "escape"@);
    assert("pgdn"@.len() != "tab"@.len());
    assert("pgdn"@ != "tab"@);
    assert("pgdn"@.len() != "backspace"@.len());
    assert("pgdn"@ != "backspace"@);
    assert("pgdn"@.len() != "delete"@.len());
    assert("pgdn"@ != "delete"@);
    assert("pgdn"@.len() != "del"@.len());
    assert("pgdn"@ != "del"@);
    assert("pgdn"@.len() != "insert"@.len());
    assert("pgdn"@ != "insert"@);
    assert("pgdn"@.len() != "ins"@.len());
    assert("pgdn"@ != "ins"@);
    assert("pgdn"@.len() != "end"@.len());
    assert("pgdn"@ != "end"@);
    assert("pgdn"@.len() != "pageup"@.len());
    assert("pgdn"@ != "pageup"@);
    assert("pgdn"@.len() != "pagedown"@.len());
    assert("pgdn"@ != "pagedown"@);
    assert("pgdn"@[0] != "home"@[0]);
    assert("pgdn"@[2] != "pgup"@[2]);
    lemma_named_via(s, "pgdn"@);
}

proof fn lemma_key_up(s: Seq<char>)
    requires
        crate::keyboard::is_ascii_text(s),
        crate::keyboard::ascii_lower(s) == "up"@,
    ensures
        crate::keyboard::key_vk(s) == Some(0x26u32),
{
    reveal_strlit("space");
    reveal_strlit("enter");
    reveal_strlit("return");
    reveal_strlit("esc");
    reveal_strlit("escape");
    reveal_strlit("tab");
    reveal_strlit("backspace");
    reveal_strlit("delete");
    reveal_strlit("del");
    reveal_strlit("insert");
    reveal_strlit("ins");
    reveal_strlit("home");
    reveal_strlit("end");
    reveal_strlit("pageup");
    reveal_strlit("pgup");
    reveal_strlit("pagedown");
    reveal_strlit("pgdn");
    reveal_strlit("up");
    assert("up"@.len() != "space"@.len());
    assert("up"@ != "space"@);
    assert("up"@.len() != "enter"@.len());
    assert("up"@ != "enter"@);
    assert("up"@.len() != "return"@.len());
    assert("up"@ != "return"@);
    assert("up"@.len() != "esc"@.len());
    assert("up"@ != "esc"@);
    assert("up"@.len() != "escape"@.len());
    assert("up"@ != "escape"@);
    assert("up"@.len() != "tab"@.len());
    assert("up"@ != "tab"@);
    assert("up"@.len() != "backspace"@.len());
    assert("up"@ != "backspace"@);
    assert("up"@.len() != "delete"@.len());
    assert("up"@ != "delete"@);
    assert("up"@.len() != "del"@.len());
    assert("up"@ != "del"@);
    assert("up"@.len() != "insert"@.len());
    assert("up"@ != "insert"@);
    assert("up"@.len() != "ins"@.len());
    assert("up"@ != "ins"@);
    assert("up"@.len() != "home"@.len());
    assert("up"@ != "home"@);
    assert("up"@.len() != "end"@.len());
    assert("up"@ != "end"@);
    assert("up"@.len() != "pageup"@.len());
    assert("up"@ != "pageup"@);
    assert("up"@.len() != "pgup"@.len());
    assert("up"@ != "pgup"@);
    assert("up"@.len() != "pagedown"@.len());
    assert("up"@ != "pagedown"@);
    assert("up"@.len() != "pgdn"@.len());
    assert("up"@ != "pgdn"@);
    lemma_named_via(s, "up"@);
}

proof fn lemma_key_down(s: Seq<char>)
    requires
        crate::keyboard::is_ascii_text(s),
        crate::keyboard::ascii_lower(s) == "down"@,
    ensures
        crate::keyboard::key_vk(s) == Some(0x28u32),
{
    reveal_strlit("space");
    reveal_strlit("enter");
    reveal_strlit("return");
    reveal_strlit("esc");
    reveal_strlit("escape");
    reveal_strlit("tab");
    reveal_strlit("backspace");
    reveal_strlit("delete");
    reveal_strlit("del");
    reveal_strlit("insert");
    reveal_strlit("ins");
    reveal_strlit("home");
    reveal_strlit("end");
    reveal_strlit("pageup");
    reveal_strlit("pgup");
    reveal_strlit("pagedown");
    reveal_strlit("pgdn");
    reveal_strlit("up");
    reveal_strlit("down");
    assert("down"@.len() != "space"@.len());
    assert("down"@ != "space"@);
    assert("down"@.len() != "enter"@.len());
    assert("down"@ != "enter"@);
    assert("down"@.len() != "return"@.len());
    assert("down"@ != "return"@);
    assert("down"@.len() != "esc"@.len());
    assert("down"@ != "esc"@);
    assert("down"@.len() != "escape"@.len());
    assert("down"@ != "escape"@);
    assert("down"@.len() != "tab"@.len());
    assert("down"@ != "tab"@);
    assert("down"@.len() != "backspace"@.len());
    assert("down"@ != "backspace"@);
    assert("down"@.len() != "delete"@.len());
    assert("down"@ != "delete"@);
    assert("down"@.len() != "del"@.len());
    assert("down"@ != "del"@);
    assert("down"@.len() != "insert"@.len());
    assert("down"@ != "insert"@);
    assert("down"@.len() != "ins"@.len());
    assert("down"@ != "ins"@);
    assert("down"@.len() != "end"@.len());
    assert("down"@ != "end"@);
    assert("down"@.len() != "pageup"@.len());
    assert("down"@ != "pageup"@);
    assert("down"@.len() != "pagedown"@.len());
    assert("down"@ != "pagedown"@);
    assert("down"@.len() != "up"@.len());
    assert("down"@ != "up"@);
    assert("down"@[0] != "home"@[0]);
    assert("down"@[0] != "pgup"@[0]);
    assert("down"@[0] != "pgdn"@[0]);
    lemma_named_via(s, "down"@);
}

proof fn lemma_key_left(s: Seq<char>)
    requires
        crate::keyboard::is_ascii_text(s),
        crate::keyboard::ascii_lower(s) == "left"@,
    ensures
        crate::keyboard::key_vk(s) == Some(0x25u32),
{
    reveal_strlit("space");
    reveal_strlit("enter");
    reveal_strlit("return");
    reveal_strlit("esc");
    reveal_strlit("escape");
    reveal_strlit("tab");
    reveal_strlit("backspace");
    reveal_strlit("delete");
    reveal_strlit("del");
    reveal_strlit("insert");
    reveal_strlit("ins");
    reveal_strlit("home");
    reveal_strlit("end");
    reveal_strlit("pageup");
    reveal_strlit("pgup");
    reveal_strlit("pagedown");
    reveal_strlit("pgdn");
    reveal_strlit("up");
    reveal_strlit("down");
    reveal_strlit("left");
    assert("left"@.len() != "space"@.len());
    assert("left"@ != "space"@);
    assert("left"@.len() != "enter"@.len());
    assert("left"@ != "enter"@);
    assert("left"@.len() != "return"@.len());
    assert("left"@ != "return"@);
    assert("left"@.len() != "esc"@.len());
    assert("left"@ != "esc"@);
    assert("left"@.len() != "escape"@.len());
    assert("left"@ != "escape"@);
    assert("left"@.len() != "tab"@.len());
    assert("left"@ != "tab"@);
    assert("left"@.len() != "backspace"@.len());
    assert("left"@ != "backspace"@);
    assert("left"@.len() != "delete"@.len());
    assert("left"@ != "delete"@);
    assert("left"@.len() != "del"@.len());
    assert("left"@ != "del"@);
    assert("left"@.len() != "insert"@.len());
    assert("left"@ != "insert"@);
    assert("left"@.len() != "ins"@.len());
    assert("left"@ != "ins"@);
    assert("left"@.len() != "end"@.len());
    assert("left"@ != "end"@);
    assert("left"@.len() != "pageup"@.len());
    assert("left"@ != "pageup"@);
    assert("left"@.len() != "pagedown"@.len());
    assert("left"@ != "pagedown"@);
    assert("left"@.len() != "up"@.len());
    assert("left"@ != "up"@);
    assert("left"@[0] != "home"@[0]);
    assert("left"@[0] != "pgup"@[0]);
    assert("left"@[0] != "pgdn"@[0]);
    assert("left"@[0] != "down"@[0]);
    lemma_named_via(s, "left"@);
}

proof fn lemma_key_right(s: Seq<char>)
    requires
        crate::keyboard::is_ascii_text(s),
        crate::keyboard::ascii_lower(s) == "right"@,
    ensures
        crate::keyboard::key_vk(s) == Some(0x27u32),
{
    reveal_strlit("space");
    reveal_strlit("enter");
    reveal_strlit("return");
    reveal_strlit("esc");
    reveal_strlit("escape");
    reveal_strlit("tab");
    reveal_strlit("backspace");
    reveal_strlit("delete");
    reveal_strlit("del");
    reveal_strlit("insert");
    reveal_strlit("ins");
    reveal_strlit("home");
    reveal_strlit("end");
    reveal_strlit("pageup");
    reveal_strlit("pgup");
    reveal_strlit("pagedown");
    reveal_strlit("pgdn");
    reveal_strlit("up");
    reveal_strlit("down");
    reveal_strlit("left");
    reveal_strlit("right");
    assert("right"@.len() != "return"@.len());
    assert("right"@ != "return"@);
    assert("right"@.len() != "esc"@.len());
    assert("right"@ != "esc"@);
    assert("right"@.len() != "escape"@.len());
    assert("right"@ != "escape"@);
    assert("right"@.len() != "tab"@.len());
    assert("right"@ != "tab"@);
    assert("right"@.len() != "backspace"@.len());
    assert("right"@ != "backspace"@);
    assert("right"@.len() != "delete"@.len());
    assert("right"@ != "delete"@);
    assert("right"@.len() != "del"@.len());
    assert("right"@ != "del"@);
    assert("right"@.len() != "insert"@.len());
    assert("right"@ != "insert"@);
    assert("right"@.len() != "ins"@.len());
    assert("right"@ != "ins"@);
    assert("right"@.len() != "home"@.len());
    assert("right"@ != "home"@);
    assert("right"@.len() != "end"@.len());
    assert("right"@ != "end"@);
    assert("right"@.len() != "pageup"@.len());
    assert("right"@ != "pageup"@);
    assert("right"@.len() != "pgup"@.len());
    assert("right"@ != "pgup"@);
    assert("right"@.len() != "pagedown"@.len());
    assert("right"@ != "pagedown"@);
    assert("right"@.len() != "pgdn"@.len());
    assert("right"@ != "pgdn"@);
    assert("right"@.len() != "up"@.len());
    assert("right"@ != "up"@);
    assert("right"@.len() != "down"@.len());
    assert("right"@ != "down"@);
    assert("right"@.len() != "left"@.len());
    assert("right"@ != "left"@);
    assert("right"@[0] != "space"@[0]);
    assert("right"@[0] != "enter"@[0]);
    lemma_named_via(s, "right"@);
}

/// Each named key, written in any ASCII case, gives its Windows
/// virtual-key code.
pub proof fn law_named_key_codes(s: Seq<char>)
    requires
        crate::keyboard::is_ascii_text(s),
    ensures
        crate::keyboard::ascii_lower(s) == "space"@ ==> crate::keyboard::key_vk(s) == Some(0x20u32),
        crate::keyboard::ascii_lower(s) == "enter"@ ==> crate::keyboard::key_vk(s) == Some(0x0du32),
        crate::keyboard::ascii_lower(s) == "return"@ ==> crate::keyboard::key_vk(s) == Some(0x0du32),
        crate::keyboard::ascii_lower(s) == "esc"@ ==> crate::keyboard::key_vk(s) == Some(0x1bu32),
        crate::keyboard::ascii_lower(s) == "escape"@ ==> crate::keyboard::key_vk(s) == Some(0x1bu32),
        crate::keyboard::ascii_lower(s) == "tab"@ ==> crate::keyboard::key_vk(s) == Some(0x09u32),
        crate::keyboard::ascii_lower(s) == "backspace"@ ==> crate::keyboard::key_vk(s) == Some(0x08u32),
        crate::keyboard::ascii_lower(s) == "delete"@ ==> crate::keyboard::key_vk(s) == Some(0x2eu32),
        crate::keyboard::ascii_lower(s) == "del"@ ==> crate::keyboard::key_vk(s) == Some(0x2eu32),
        crate::keyboard::ascii_lower(s) == "insert"@ ==> crate::keyboard::key_vk(s) == Some(0x2du32),
        crate::keyboard::ascii_lower(s) == "ins"@ ==> crate::keyboard::key_vk(s) == Some(0x2du32),
        crate::keyboard::ascii_lower(s) == "home"@ ==> crate::keyboard::key_vk(s) == Some(0x24u32),
        crate::keyboard::ascii_lower(s) == "end"@ ==> crate::keyboard::key_vk(s) == Some(0x23u32),
        crate::keyboard::ascii_lower(s) == "pageup"@ ==> crate::keyboard::key_vk(s) == Some(0x21u32),
        crate::keyboard::ascii_lower(s) == "pgup"@ ==> crate::keyboard::key_vk(s) == Some(0x21u32),
        crate::keyboard::ascii_lower(s) == "pagedown"@ ==> crate::keyboard::key_vk(s) == Some(0x22u32),
        crate::keyboard::ascii_lower(s) == "pgdn"@ ==> crate::keyboard::key_vk(s) == Some(0x22u32),
        crate::keyboard::ascii_lower(s) == "up"@ ==> crate::keyboard::key_vk(s) == Some(0x26u32),
        crate::keyboard::ascii_lower(s) == "down"@ ==> crate::keyboard::key_vk(s) == Some(0x28u32),
        crate::keyboard::ascii_lower(s) == "left"@ ==> crate::keyboard::key_vk(s) == Some(0x25u32),
        crate::keyboard::ascii_lower(s) == "right"@ ==> crate::keyboard::key_vk(s) == Some(0x27u32),
{
    if crate::keyboard::ascii_lower(s) == "space"@ {
        lemma_key_space(s);
    }
    if crate::keyboard::ascii_lower(s) == "enter"@ {
        lemma_key_enter(s);
    }
    if crate::keyboard::ascii_lower(s) == "return"@ {
        lemma_key_return(s);
    }
    if crate::keyboard::ascii_lower(s) == "esc"@ {
        lemma_key_esc(s);
    }
    if crate::keyboard::ascii_lower(s) == "escape"@ {
        lemma_key_escape(s);
    }
    if crate::keyboard::ascii_lower(s) == "tab"@ {
        lemma_key_tab(s);
    }
    if crate::keyboard::ascii_lower(s) == "backspace"@ {
        lemma_key_backspace(s);
    }
    if crate::keyboard::ascii_lower(s) == "delete"@ {
        lemma_key_delete(s);
    }
    if crate::keyboard::ascii_lower(s) == "del"@ {
        lemma_key_del(s);
    }
    if crate::keyboard::ascii_lower(s) == "insert"@ {
        lemma_key_insert(s);
    }
    if crate::keyboard::ascii_lower(s) == "ins"@ {
        lemma_key_ins(s);
    }
    if crate::keyboard::ascii_lower(s) == "home"@ {
        lemma_key_home(s);
    }
    if crate::keyboard::ascii_lower(s) == "end"@ {
        lemma_key_end(s);
    }
    if crate::keyboard::ascii_lower(s) == "pageup"@ {
        lemma_key_pageup(s);
    }
    if crate::keyboard::ascii_lower(s) == "pgup"@ {
        lemma_key_pgup(s);
    }
    if crate::keyboard::ascii_lower(s) == "pagedown"@ {
        lemma_key_pagedown(s);
    }
    if crate::keyboard::ascii_lower(s) == "pgdn"@ {
        lemma_key_pgdn(s);
    }
    if crate::keyboard::ascii_lower(s) == "up"@ {
        lemma_key_up(s);
    }
    if crate::keyboard::ascii_lower(s) == "down"@ {
        lemma_key_down(s);
    }
    if crate::keyboard::ascii_lower(s) == "left"@ {
        lemma_key_left(s);
    }
    if crate::keyboard::ascii_lower(s) == "right"@ {
        lemma_key_right(s);
    }
}

proof fn lemma_menu_show()
    ensures
        crate::tray::command_of("show"@) == crate::tray::MenuCommand::Show,
{
    reveal_strlit("show");
}

proof fn lemma_menu_pause()
    ensures
        crate::tray::command_of("pause"@) == crate::tray::MenuCommand::TogglePause,
{
    reveal_strlit("show");
    reveal_strlit("pause");
    assert("pause"@.len() != "show"@.len());
    assert("pause"@ != "show"@);
}

proof fn lemma_menu_edit()
    ensures
        crate::tray::command_of("edit"@) == crate::tray::MenuCommand::OpenMain,
{
    reveal_strlit("show");
    reveal_strlit("pause");
    reveal_strlit("edit");
    assert("edit"@.len() != "pause"@.len());
    assert("edit"@ != "pause"@);
    assert("edit"@[0] != "show"@[0]);
}

proof fn lemma_menu_select()
    ensures
        crate::tray::command_of("select"@) == crate::tray::MenuCommand::OpenMain,
{
    reveal_strlit("show");
    reveal_strlit("pause");
    reveal_strlit("edit");
    reveal_strlit("select");
    assert("select"@.len() != "show"@.len());
    assert("select"@ != "show"@);
    assert("select"@.len() != "pause"@.len());
    assert("select"@ != "pause"@);
    assert("select"@.len() != "edit"@.len());
    assert("select"@ != "edit"@);
}

proof fn lemma_menu_schedule()
    ensures
        crate::tray::command_of("schedule"@) == crate::tray::MenuCommand::OpenMain,
{
    reveal_strlit("show");
    reveal_strlit("pause");
    reveal_strlit("edit");
    reveal_strlit("select");
    reveal_strlit("schedule");
    assert("schedule"@.len() != "show"@.len());
    assert("schedule"@ != "show"@);
    assert("schedule"@.len() != "pause"@.len());
    assert("schedule"@ != "pause"@);
    assert("schedule"@.len() != "edit"@.len());
    assert("schedule"@ != "edit"@);
    assert("schedule"@.len() != "select"@.len());
    assert("schedule"@ != "select"@);
}

proof fn lemma_menu_autostart()
    ensures
        crate::tray::command_of("autostart"@) == crate::tray::MenuCommand::ToggleAutoStart,
{
    reveal_strlit("show");
    reveal_strlit("pause");
    reveal_strlit("edit");
    reveal_strlit("select");
    reveal_strlit("schedule");
    reveal_strlit("autostart");
    assert("autostart"@.len() != "show"@.len());
    assert("autostart"@ != "show"@);
    assert("autostart"@.len() != "pause"@.len());
    assert("autostart"@ != "pause"@);
    assert("autostart"@.len() != "edit"@.len());
    assert("autostart"@ != "edit"@);
    assert("autostart"@.len() != "select"@.len());
    assert("autostart"@ != "select"@);
    assert("autostart"@.len() != "schedule"@.len());
    assert("autostart"@ != "schedule"@);
}

proof fn lemma_menu_ontop()
    ensures
        crate::tray::command_of("ontop"@) == crate::tray::MenuCommand::ToggleOnTop,
{
    reveal_strlit("show");
    reveal_strlit("pause");
    reveal_strlit("edit");
    reveal_strlit("select");
    reveal_strlit("schedule");
    reveal_strlit("autostart");
    reveal_strlit("ontop");
    assert("ontop"@.len() != "show"@.len());
    assert("ontop"@ != "show"@);
    assert("ontop"@.len() != "edit"@.len());
    assert("ontop"@ != "edit"@);
    assert("ontop"@.len() != "select"@.len());
    assert("ontop"@ != "select"@);
    assert("ontop"@.len() != "schedule"@.len());
    assert("ontop"@ != "schedule"@);
    assert("ontop"@.len() != "autostart"@.len());
    assert("ontop"@ != "autostart"@);
    assert("ontop"@[0] != "pause"@[0]);
}

proof fn lemma_menu_weight()
    ensures
        crate::tray::command_of("weight"@) == crate::tray::MenuCommand::ToggleWeight,
{
    reveal_strlit("show");
    reveal_strlit("pause");
    reveal_strlit("edit");
    reveal_strlit("select");
    reveal_strlit("schedule");
    reveal_strlit("autostart");
    reveal_strlit("ontop");
    reveal_strlit("weight");
    assert("weight"@.len() != "show"@.len());
    assert("weight"@ != "show"@);
    assert("weight"@.len() != "pause"@.len());
    assert("weight"@ != "pause"@);
    assert("weight"@.len() != "edit"@.len());
    assert("weight"@ != "edit"@);
    assert("weight"@.len() != "schedule"@.len());
    assert("weight"@ != "schedule"@);
    assert("weight"@.len() != "autostart"@.len());
    assert("weight"@ != "autostart"@);
    assert("weight"@.len() != "ontop"@.len());
    assert("weight"@ != "ontop"@);
    assert("weight"@[0] != "select"@[0]);
}

proof fn lemma_menu_darkmode()
    ensures
        crate::tray::command_of("darkmode"@) == crate::tray::MenuCommand::ToggleDarkMode,
{
    reveal_strlit("show");
    reveal_strlit("pause");
    reveal_strlit("edit");
    reveal_strlit("select");
    reveal_strlit("schedule");
    reveal_strlit("autostart");
    reveal_strlit("ontop");
    reveal_strlit("weight");
    reveal_strlit("darkmode");
    assert("darkmode"@.len() != "show"@.len());
    assert("darkmode"@ != "show"@);
    assert("darkmode"@.len() != "pause"@.len());
    assert("darkmode"@ != "pause"@);
    assert("darkmode"@.len() != "edit"@.len());
    assert("darkmode"@ != "edit"@);
    assert("darkmode"@.len() != "select"@.len());
    assert("darkmode"@ != "select"@);
    assert("darkmode"@.len() != "autostart"@.len());
    assert("darkmode"@ != "autostart"@);
    assert("darkmode"@.len() != "ontop"@.len());
    assert("darkmode"@ != "ontop"@);
    assert("darkmode"@.len() != "weight"@.len());
    assert("darkmode"@ != "weight"@);
    assert("darkmode"@[0] != "schedule"@[0]);
}

proof fn lemma_menu_close()
    ensures
        crate::tray::command_of("close"@) == crate::tray::MenuCommand::Close,
{
    reveal_strlit("show");
    reveal_strlit("pause");
    reveal_strlit("edit");
    reveal_strlit("select");
    reveal_strlit("schedule");
    reveal_strlit("autostart");
    reveal_strlit("ontop");
    reveal_strlit("weight");
    reveal_strlit("darkmode");
    reveal_strlit("close");
    assert("close"@.len() != "show"@.len());
    assert("close"@ != "show"@);
    assert("close"@.len() != "edit"@.len());
    assert("close"@ != "edit"@);
    assert("close"@.len() != "select"@.len());
    assert("close"@ != "select"@);
    assert("close"@.len() != "schedule"@.len());
    assert("close"@ != "schedule"@);
    assert("close"@.len() != "autostart"@.len());
    assert("close"@ != "autostart"@);
    assert("close"@.len() != "weight"@.len());
    assert("close"@ != "weight"@);
    assert("close"@.len() != "darkmode"@.len());
    assert("close"@ != "darkmode"@);
    assert("close"@[0] != "pause"@[0]);
    assert("close"@[0] != "ontop"@[0]);
}

/// Every item of the tray menu runs its command: show, pause, the three
/// items that open the main window, the four toggles and close; any other
/// id is ignored.
pub proof fn law_menu_commands(id: Seq<char>)
    ensures
        (crate::tray::command_of(id) == crate::tray::MenuCommand::Ignore) == !(id == "show"@ || id == "pause"@ || id == "edit"@ || id == "select"@ || id == "schedule"@ || id == "autostart"@ || id == "ontop"@ || id == "weight"@ || id == "darkmode"@ || id == "close"@),
        id == "show"@ ==> crate::tray::command_of(id) == crate::tray::MenuCommand::Show,
        id == "pause"@ ==> crate::tray::command_of(id) == crate::tray::MenuCommand::TogglePause,
        id == "edit"@ ==> crate::tray::command_of(id) == crate::tray::MenuCommand::OpenMain,
        id == "select"@ ==> crate::tray::command_of(id) == crate::tray::MenuCommand::OpenMain,
        id == "schedule"@ ==> crate::tray::command_of(id) == crate::tray::MenuCommand::OpenMain,
        id == "autostart"@ ==> crate::tray::command_of(id) == crate::tray::MenuCommand::ToggleAutoStart,
        id == "ontop"@ ==> crate::tray::command_of(id) == crate::tray::MenuCommand::ToggleOnTop,
        id == "weight"@ ==> crate::tray::command_of(id) == crate::tray::MenuCommand::ToggleWeight,
        id == "darkmode"@ ==> crate::tray::command_of(id) == crate::tray::MenuCommand::ToggleDarkMode,
        id == "close"@ ==> crate::tray::command_of(id) == crate::tray::MenuCommand::Close,
{
    lemma_menu_show();
    lemma_menu_pause();
    lemma_menu_edit();
    lemma_menu_select();
    lemma_menu_schedule();
    lemma_menu_autostart();
    lemma_menu_ontop();
    lemma_menu_weight();
    lemma_menu_darkmode();
    lemma_menu_close();
}

} // verus!
