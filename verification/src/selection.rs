//! Picking the next quote to show: uniformly among the active quotes, or
//! weighted towards those that were shown less often.
use vstd::prelude::*;

use crate::models::{Quote, Stats};
use crate::random::random_below;
use crate::state::AppData;

verus! {

/// Whether `name` is one of the listed categories.
pub open spec fn listed(cats: Seq<String>, name: Seq<char>) -> bool {
    exists|j: int| 0 <= j < cats.len() && #[trigger] cats[j]@ == name
}

/// A quote takes part in the draw when it is enabled and its category is
/// active (an empty list of active categories means all are active).
pub open spec fn is_active(q: Quote, cats: Seq<String>) -> bool {
    q.enabled && (cats.len() == 0 || listed(cats, q.category@))
}

/// The positions below `n` of the active quotes, in order.
pub open spec fn active_upto(qs: Seq<Quote>, cats: Seq<String>, n: int) -> Seq<int>
    decreases n,
{
    if n <= 0 {
        seq![]
    } else {
        let p = active_upto(qs, cats, n - 1);
        if is_active(qs[n - 1], cats) {
            p.push(n - 1)
        } else {
            p
        }
    }
}

/// The positions of all active quotes, in order.
pub open spec fn active_positions(d: AppData) -> Seq<int> {
    active_upto(d.quotes.quotes@, d.settings.active_categories@, d.quotes.quotes@.len() as int)
}

pub proof fn lemma_active_upto(qs: Seq<Quote>, cats: Seq<String>, n: int)
    requires
        0 <= n <= qs.len(),
    ensures
        active_upto(qs, cats, n).len() <= n,
        forall|k: int|
            0 <= k < active_upto(qs, cats, n).len() ==> 0 <= #[trigger] active_upto(qs, cats, n)[k]
                < n && is_active(qs[active_upto(qs, cats, n)[k]], cats),
        forall|i: int|
            0 <= i < n && #[trigger] is_active(qs[i], cats) ==> active_upto(qs, cats, n).contains(i),
    decreases n,
{
    if n > 0 {
        lemma_active_upto(qs, cats, n - 1);
        let p = active_upto(qs, cats, n - 1);
        if is_active(qs[n - 1], cats) {
            assert(p.push(n - 1)[p.len() as int] == n - 1);
            assert forall|i: int| 0 <= i < n && is_active(qs[i], cats) implies active_upto(
                qs,
                cats,
                n,
            ).contains(i) by {
                if i < n - 1 {
                    let j = choose|j: int| 0 <= j < p.len() && p[j] == i;
                    assert(p.push(n - 1)[j] == i);
                }
            }
        }
    }
}

/// Tests whether the category is one of the listed ones.
pub fn category_listed(cats: &Vec<String>, name: &String) -> (b: bool)
    ensures
        b == listed(cats@, name@),
{
    let mut i: usize = 0;
    while i < cats.len()
        invariant
            i <= cats@.len(),
            forall|j: int| 0 <= j < i ==> #[trigger] cats@[j]@ != name@,
        decreases cats@.len() - i,
    {
        if cats[i].eq(name) {
            return true;
        }
        i += 1;
    }
    false
}

/// Tests whether a quote takes part in the draw.
pub fn quote_is_active(q: &Quote, cats: &Vec<String>) -> (b: bool)
    ensures
        b == is_active(*q, cats@),
{
    q.enabled && (cats.len() == 0 || category_listed(cats, &q.category))
}

/// Lists the positions of the active quotes, in order.
pub fn active_indices(quotes: &Vec<Quote>, cats: &Vec<String>) -> (r: Vec<usize>)
    ensures
        r@.len() == active_upto(quotes@, cats@, quotes@.len() as int).len(),
        forall|k: int|
            0 <= k < r@.len() ==> #[trigger] r@[k] as int == active_upto(
                quotes@,
                cats@,
                quotes@.len() as int,
            )[k],
{
    let mut r: Vec<usize> = Vec::new();
    let mut i: usize = 0;
    while i < quotes.len()
        invariant
            i <= quotes@.len(),
            r@.len() == active_upto(quotes@, cats@, i as int).len(),
            forall|k: int|
                0 <= k < r@.len() ==> #[trigger] r@[k] as int == active_upto(
                    quotes@,
                    cats@,
                    i as int,
                )[k],
        decreases quotes@.len() - i,
    {
        if quote_is_active(&quotes[i], cats) {
            r.push(i);
        }
        i += 1;
    }
    r
}

/// One unit of weight: weights are kept in 64-bit fixed point.
pub open spec fn unit_weight() -> nat {
    0x1_0000_0000_0000_0000
}

/// The weight of a quote shown `c` times: `1 / (c + 1)` in fixed point.
pub open spec fn weight(c: u64) -> nat {
    unit_weight() / (c as nat + 1)
}

/// The weights of the active quotes, in order.
pub open spec fn active_weights(d: AppData) -> Seq<nat> {
    let act = active_positions(d);
    Seq::new(act.len(), |k: int| weight(d.quotes.quotes@[act[k]].show_count))
}

/// The sum of a list of weights.
pub open spec fn total(ws: Seq<nat>) -> nat
    decreases ws.len(),
{
    if ws.len() == 0 {
        0
    } else {
        total(ws.drop_last()) + ws.last()
    }
}

/// The first slot from `k` on whose cumulative weight exceeds `r`, where
/// `acc` is the weight before slot `k`; slot 0 when there is none.
pub open spec fn slot_from(ws: Seq<nat>, r: int, k: int, acc: int) -> int
    decreases ws.len() - k,
{
    if k < 0 || k >= ws.len() {
        0
    } else if r < acc + ws[k] {
        k
    } else {
        slot_from(ws, r, k + 1, acc + ws[k])
    }
}

/// The slot that a draw `r` from `0..total(ws)` selects.
pub open spec fn weighted_slot(ws: Seq<nat>, r: int) -> int {
    slot_from(ws, r, 0, 0)
}

/// The range that the draw for the next pick comes from.
pub open spec fn draw_bound(d: AppData) -> nat {
    if d.settings.weight_mode {
        total(active_weights(d))
    } else {
        active_positions(d).len()
    }
}

/// The position of the quote that a draw selects.
pub open spec fn chosen_position(d: AppData, draw: int) -> int {
    let act = active_positions(d);
    if d.settings.weight_mode {
        act[weighted_slot(active_weights(d), draw)]
    } else {
        act[draw]
    }
}

/// The state after the quote at `p` was shown: its count and both display
/// counters go up by one, and `r` is the quote as it now stands.
pub open spec fn shown_at(old: AppData, new: AppData, p: int, r: Option<Quote>) -> bool {
    let q = old.quotes.quotes@[p];
    &&& 0 <= p < old.quotes.quotes@.len()
    &&& new.quotes.quotes@ == old.quotes.quotes@.update(
        p,
        Quote { show_count: (q.show_count + 1) as u64, ..q },
    )
    &&& new.quotes.categories == old.quotes.categories
    &&& new.settings == old.settings
    &&& new.stats == (Stats {
        total_displayed: (old.stats.total_displayed + 1) as u64,
        today_displayed: (old.stats.today_displayed + 1) as u64,
        ..old.stats
    })
    &&& r == Some(new.quotes.quotes@[p])
}

/// No counter that a pick may raise is at its largest value: neither
/// display counter, nor the count of any active quote.
pub open spec fn counters_below_max(d: AppData) -> bool {
    &&& d.stats.total_displayed < u64::MAX
    &&& d.stats.today_displayed < u64::MAX
    &&& forall|k: int|
        0 <= k < d.quotes.quotes@.len() && is_active(
            #[trigger] d.quotes.quotes@[k],
            d.settings.active_categories@,
        ) ==> d.quotes.quotes@[k].show_count < u64::MAX
}

/// A pick cannot overflow a counter: when some quote is active, no counter
/// it may raise is at its largest value.
pub open spec fn pick_safe(d: AppData) -> bool {
    active_positions(d).len() > 0 ==> counters_below_max(d)
}

proof fn lemma_weight_bounds(c: u64)
    ensures
        1 <= weight(c) <= unit_weight(),
{
    let u = unit_weight();
    let n = c as nat + 1;
    assert(1 <= n <= u);
    assert(u / n <= u) by (nonlinear_arith)
        requires
            1 <= n,
    ;
    assert(u / n >= 1) by (nonlinear_arith)
        requires
            1 <= n <= u,
    ;
}

proof fn lemma_total_prefix(ws: Seq<nat>, k: int)
    requires
        0 <= k < ws.len(),
    ensures
        total(ws.subrange(0, k + 1)) == total(ws.subrange(0, k)) + ws[k],
{
    assert(ws.subrange(0, k + 1).drop_last() =~= ws.subrange(0, k));
}

pub(crate) proof fn lemma_slot_in_range(ws: Seq<nat>, r: int, k: int, acc: int)
    requires
        ws.len() > 0,
    ensures
        0 <= slot_from(ws, r, k, acc) < ws.len(),
    decreases ws.len() - k,
{
    if 0 <= k < ws.len() && !(r < acc + ws[k]) {
        lemma_slot_in_range(ws, r, k + 1, acc + ws[k]);
    }
}

/// Computes the range of the draw for the next pick; also returns the
/// positions of the active quotes and their weights.
fn draw_range(d: &AppData) -> (r: (u128, Vec<usize>, Vec<u128>))
    ensures
        r.0 == draw_bound(*d),
        r.1@.len() == active_positions(*d).len(),
        forall|k: int| 0 <= k < r.1@.len() ==> #[trigger] r.1@[k] as int == active_positions(*d)[k],
        r.2@.len() == r.1@.len(),
        forall|k: int| 0 <= k < r.2@.len() ==> #[trigger] r.2@[k] as nat == active_weights(*d)[k],
        active_positions(*d).len() > 0 ==> r.0 > 0,
{
    let act = active_indices(&d.quotes.quotes, &d.settings.active_categories);
    let ghost spec_act = active_positions(*d);
    proof {
        lemma_active_upto(
            d.quotes.quotes@,
            d.settings.active_categories@,
            d.quotes.quotes@.len() as int,
        );
    }
    let ghost ws = active_weights(*d);
    let mut weights: Vec<u128> = Vec::new();
    let mut sum: u128 = 0;
    let mut k: usize = 0;
    while k < act.len()
        invariant
            k <= act@.len(),
            act@.len() == spec_act.len(),
            spec_act == active_positions(*d),
            ws == active_weights(*d),
            act@.len() <= d.quotes.quotes@.len(),
            forall|j: int| 0 <= j < act@.len() ==> #[trigger] act@[j] as int == spec_act[j],
            forall|j: int|
                0 <= j < spec_act.len() ==> 0 <= #[trigger] spec_act[j] < d.quotes.quotes@.len(),
            weights@.len() == k,
            forall|j: int| 0 <= j < k ==> #[trigger] weights@[j] as nat == ws[j],
            sum == total(ws.subrange(0, k as int)),
            sum <= k * unit_weight(),
        decreases act@.len() - k,
    {
        let c = d.quotes.quotes[act[k]].show_count;
        let w: u128 = 0x1_0000_0000_0000_0000u128 / (c as u128 + 1);
        proof {
            lemma_weight_bounds(c);
            assert(spec_act[k as int] == act@[k as int] as int);
            assert(ws[k as int] == weight(c));
            assert(w == weight(c));
            lemma_total_prefix(ws, k as int);
            assert(k + 1 <= usize::MAX);
            assert((k + 1) * unit_weight() <= usize::MAX * unit_weight()) by (nonlinear_arith)
                requires
                    k + 1 <= usize::MAX,
            ;
            assert(usize::MAX * unit_weight() < u128::MAX) by (nonlinear_arith)
                requires
                    usize::MAX < 0x1_0000_0000_0000_0000,
            ;
            assert((k + 1) * unit_weight() == k * unit_weight() + unit_weight()) by (nonlinear_arith);
        }
        weights.push(w);
        sum = sum + w;
        k += 1;
    }
    assert(ws.subrange(0, k as int) =~= ws);
    let bound = if d.settings.weight_mode {
        sum
    } else {
        act.len() as u128
    };
    proof {
        if act@.len() > 0 && d.settings.weight_mode {
            assert forall|j: int| 0 <= j < ws.len() implies #[trigger] ws[j] >= 1 by {
                lemma_weight_bounds(d.quotes.quotes@[spec_act[j]].show_count);
            }
            lemma_total_positive(ws);
        }
    }
    (bound, act, weights)
}

proof fn lemma_total_positive(ws: Seq<nat>)
    requires
        ws.len() > 0,
        forall|j: int| 0 <= j < ws.len() ==> #[trigger] ws[j] >= 1,
    ensures
        total(ws) >= 1,
    decreases ws.len(),
{
    if ws.len() > 1 {
        lemma_total_positive(ws.drop_last());
    }
}

/// Shows the quote that `draw` selects among the active ones: with weights
/// off, the `draw`-th active quote; with weights on, the first active quote
/// whose cumulative weight exceeds `draw`.
pub fn pick_with_draw(data: &mut AppData, draw: u128) -> (r: Option<Quote>)
    requires
        draw < draw_bound(*old(data)),
        counters_below_max(*old(data)),
    ensures
        shown_at(*old(data), *final(data), chosen_position(*old(data), draw as int), r),
{
    let (bound, act, weights) = draw_range(data);
    proof {
        lemma_active_upto(
            data.quotes.quotes@,
            data.settings.active_categories@,
            data.quotes.quotes@.len() as int,
        );
    }
    let ghost ws = active_weights(*data);
    let slot: usize = if data.settings.weight_mode {
        let mut acc: u128 = 0;
        let mut k: usize = 0;
        let mut found: usize = 0;
        proof {
            lemma_slot_in_range(ws, draw as int, 0, 0);
        }
        while k < weights.len()
            invariant_except_break
                k <= weights@.len(),
                acc == total(ws.subrange(0, k as int)),
                weighted_slot(ws, draw as int) == slot_from(ws, draw as int, k as int, acc as int),
                found == 0,
            invariant
                weights@.len() == ws.len(),
                ws == active_weights(*old(data)),
                forall|j: int| 0 <= j < weights@.len() ==> #[trigger] weights@[j] as nat == ws[j],
                draw < total(ws),
                total(ws) == bound as nat,
                found < ws.len(),
            ensures
                found == weighted_slot(ws, draw as int),
            decreases weights@.len() - k,
        {
            proof {
                lemma_total_prefix(ws, k as int);
                lemma_total_grows(ws, k as int + 1);
            }
            assert(weights@[k as int] as nat == ws[k as int]);
            if draw < acc + weights[k] {
                found = k;
                break;
            }
            acc = acc + weights[k];
            k += 1;
        }
        found
    } else {
        draw as usize
    };
    let p = act[slot];
    assert(p as int == chosen_position(*old(data), draw as int));
    let mut q = data.quotes.quotes[p].duplicate();
    q.show_count = q.show_count + 1;
    data.quotes.quotes.set(p, q);
    data.stats.total_displayed = data.stats.total_displayed + 1;
    data.stats.today_displayed = data.stats.today_displayed + 1;
    Some(data.quotes.quotes[p].duplicate())
}

proof fn lemma_total_grows(ws: Seq<nat>, k: int)
    requires
        0 <= k <= ws.len(),
    ensures
        total(ws.subrange(0, k)) <= total(ws),
    decreases ws.len() - k,
{
    if k < ws.len() {
        lemma_total_grows(ws, k + 1);
        lemma_total_prefix(ws, k);
    } else {
        assert(ws.subrange(0, k) =~= ws);
    }
}

/// What a pick does: nothing, when no quote is active; otherwise it shows
/// the quote that some draw from `0..draw_bound` selects.
pub open spec fn pick_outcome(old: AppData, new: AppData, r: Option<Quote>) -> bool {
    &&& active_positions(old).len() == 0 ==> r is None && new == old
    &&& active_positions(old).len() > 0 ==> exists|draw: int|
        0 <= draw < draw_bound(old) && shown_at(old, new, #[trigger] chosen_position(old, draw), r)
}

/// Picks a quote to show among the active ones and counts the display;
/// `None`, with nothing changed, when no quote is active. The draw comes
/// from the random source; whichever number it gives, the pick is the one
/// that `pick_with_draw` makes for it.
pub fn pick_quote_internal(data: &mut AppData) -> (r: Option<Quote>)
    requires
        pick_safe(*old(data)),
    ensures
        pick_outcome(*old(data), *final(data), r),
{
    let (bound, act, _weights) = draw_range(data);
    if act.len() == 0 {
        return None;
    }
    let draw = random_below(bound);
    let r = pick_with_draw(data, draw);
    assert(shown_at(*old(data), *data, chosen_position(*old(data), draw as int), r));
    r
}

} // verus!
