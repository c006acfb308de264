//! When the scheduler shows a quote: pause, quiet hours, the daily limit and
//! the schedule rules.
use vstd::prelude::*;

use crate::models::{AppSettings, ScheduleRule};
use crate::random::random_below;
use crate::text::{chars_of, parse_u32_range, split_ranges};

verus! {

/// The numbers among the pieces, skipping pieces that do not parse.
pub open spec fn parsed_numbers(pieces: Seq<Seq<char>>) -> Seq<u32>
    decreases pieces.len(),
{
    if pieces.len() == 0 {
        seq![]
    } else {
        let p = parsed_numbers(pieces.drop_last());
        match crate::text::parse_u32(pieces.last()) {
            Some(v) => p.push(v),
            None => p,
        }
    }
}

/// A quiet-hours bound `h:m` as minutes after midnight: the pieces between
/// colons that parse as numbers must be exactly two.
pub open spec fn quiet_bound(s: Seq<char>) -> Option<int> {
    let nums = parsed_numbers(crate::text::split(s, ':'));
    if nums.len() == 2 {
        Some(nums[0] * 60 + nums[1])
    } else {
        None
    }
}

/// Whether `now_minute` falls in the quiet hours from `start` to `end`;
/// a range whose start is after its end wraps around midnight.
pub open spec fn in_quiet_hours(start: Option<String>, end: Option<String>, now_minute: int) -> bool {
    match (start, end) {
        (Some(a), Some(b)) => match (quiet_bound(a@), quiet_bound(b@)) {
            (Some(s), Some(e)) => if s <= e {
                s <= now_minute < e
            } else {
                now_minute >= s || now_minute < e
            },
            _ => false,
        },
        _ => false,
    }
}

/// Reads a quiet-hours bound as minutes after midnight.
pub fn quiet_bound_minutes(s: &String) -> (r: Option<i64>)
    ensures
        match r {
            Some(m) => quiet_bound(s@) == Some(m as int),
            None => quiet_bound(s@) is None,
        },
{
    let chars = chars_of(s.as_str());
    let ranges = split_ranges(&chars, ':');
    let ghost pieces = crate::text::split(chars@, ':');
    let mut nums: Vec<u32> = Vec::new();
    let mut j: usize = 0;
    while j < ranges.len()
        invariant
            j <= ranges@.len(),
            crate::text::ranges_within(ranges@, chars@.len() as int),
            crate::text::pieces(chars@, ranges@) == pieces,
            nums@ == parsed_numbers(pieces.subrange(0, j as int)),
        decreases ranges@.len() - j,
    {
        let (a, b) = ranges[j];
        assert(ranges@[j as int].0 <= ranges@[j as int].1 <= chars@.len());
        let v = parse_u32_range(&chars, a, b);
        proof {
            assert(pieces[j as int] == chars@.subrange(a as int, b as int));
            assert(pieces.subrange(0, j + 1).drop_last() =~= pieces.subrange(0, j as int));
        }
        if let Some(x) = v {
            nums.push(x);
        }
        j += 1;
    }
    assert(pieces.subrange(0, j as int) =~= pieces);
    if nums.len() == 2 {
        Some(nums[0] as i64 * 60 + nums[1] as i64)
    } else {
        None
    }
}

/// Tests whether `now_minute` falls in the quiet hours.
pub fn quiet_now(start: &Option<String>, end: &Option<String>, now_minute: i64) -> (b: bool)
    ensures
        b == in_quiet_hours(*start, *end, now_minute as int),
{
    match (start, end) {
        (Some(a), Some(b)) => match (quiet_bound_minutes(a), quiet_bound_minutes(b)) {
            (Some(s), Some(e)) => {
                if s <= e {
                    now_minute >= s && now_minute < e
                } else {
                    now_minute >= s || now_minute < e
                }
            },
            _ => false,
        },
        _ => false,
    }
}

/// A fixed time `h:m` as minutes after midnight: exactly two pieces between
/// colons, both numbers.
pub open spec fn fixed_minute(s: Seq<char>) -> Option<int> {
    let parts = crate::text::split(s, ':');
    if parts.len() == 2 {
        match (crate::text::parse_u32(parts[0]), crate::text::parse_u32(parts[1])) {
            (Some(h), Some(m)) => Some(h * 60 + m),
            _ => None,
        }
    } else {
        None
    }
}

/// Reads a fixed time as minutes after midnight.
pub fn fixed_time_minutes(s: &String) -> (r: Option<i64>)
    ensures
        match r {
            Some(m) => fixed_minute(s@) == Some(m as int),
            None => fixed_minute(s@) is None,
        },
{
    let chars = chars_of(s.as_str());
    let ranges = split_ranges(&chars, ':');
    let ghost parts = crate::text::split(chars@, ':');
    if ranges.len() != 2 {
        return None;
    }
    let (a0, b0) = ranges[0];
    let (a1, b1) = ranges[1];
    assert(ranges@[0].0 <= ranges@[0].1 <= chars@.len());
    assert(ranges@[1].0 <= ranges@[1].1 <= chars@.len());
    assert(parts[0] == chars@.subrange(a0 as int, b0 as int));
    assert(parts[1] == chars@.subrange(a1 as int, b1 as int));
    match (parse_u32_range(&chars, a0, b0), parse_u32_range(&chars, a1, b1)) {
        (Some(h), Some(m)) => Some(h as i64 * 60 + m as i64),
        _ => None,
    }
}

/// A fixed-time rule is due when the minute changed since it last fired and
/// one of its times names the current minute.
pub open spec fn fixed_time_due(times: Seq<String>, now_minute: int, last_fixed: int) -> bool {
    now_minute != last_fixed && exists|k: int|
        0 <= k < times.len() && fixed_minute(#[trigger] times[k]@) == Some(now_minute)
}

/// Tests whether a fixed-time rule is due.
pub fn fixed_time_is_due(times: &Vec<String>, now_minute: i64, last_fixed: i64) -> (b: bool)
    ensures
        b == fixed_time_due(times@, now_minute as int, last_fixed as int),
{
    if now_minute == last_fixed {
        return false;
    }
    let mut k: usize = 0;
    while k < times.len()
        invariant
            k <= times@.len(),
            now_minute != last_fixed,
            forall|j: int|
                0 <= j < k ==> fixed_minute(#[trigger] times@[j]@) != Some(now_minute as int),
        decreases times@.len() - k,
    {
        if let Some(m) = fixed_time_minutes(&times[k]) {
            if m == now_minute {
                assert(fixed_minute(times@[k as int]@) == Some(now_minute as int));
                return true;
            }
        }
        k += 1;
    }
    false
}

/// The length of the window of a random-range rule, in seconds.
pub open spec fn window_secs(min: u64, max: u64) -> int {
    (if max >= min {
        max
    } else {
        min
    }) * 60
}

/// Whether a rule fires, `elapsed` seconds after the last display, given
/// the draw from `0..window_secs` that a random-range rule inside its window
/// makes: an interval rule fires once its interval has passed; a random-range
/// rule never before its minimum, always after its maximum, and in between
/// when the draw is below the elapsed seconds, which happens with a
/// probability that grows linearly across the window; a fixed-time rule when
/// it is due.
pub open spec fn rule_fires(
    rule: ScheduleRule,
    elapsed: int,
    now_minute: int,
    last_fixed: int,
    draw: int,
) -> bool {
    match rule {
        ScheduleRule::Interval { minutes } => elapsed >= minutes * 60,
        ScheduleRule::RandomRange { min, max } => elapsed >= min * 60 && (elapsed >= window_secs(
            min,
            max,
        ) || draw < elapsed),
        ScheduleRule::FixedTime { times } => fixed_time_due(times@, now_minute, last_fixed),
    }
}

/// A draw that a rule may use: below the window of a random-range rule.
pub open spec fn draw_fits(rule: ScheduleRule, d: int) -> bool {
    0 <= d && match rule {
        ScheduleRule::RandomRange { min, max } => window_secs(min, max) > 0 ==> d < window_secs(
            min,
            max,
        ),
        _ => true,
    }
}

/// Draws, one per rule, that lie in the windows of the random-range rules.
pub open spec fn draws_fit(rules: Seq<ScheduleRule>, draws: Seq<int>) -> bool {
    &&& draws.len() == rules.len()
    &&& forall|i: int| 0 <= i < rules.len() ==> draw_fits(rules[i], #[trigger] draws[i])
}

/// The first rule from `i` on that fires, if any.
pub open spec fn first_firing_from(
    rules: Seq<ScheduleRule>,
    elapsed: int,
    now_minute: int,
    last_fixed: int,
    draws: Seq<int>,
    i: int,
) -> Option<int>
    decreases rules.len() - i,
{
    if i < 0 || i >= rules.len() {
        None
    } else if rule_fires(rules[i], elapsed, now_minute, last_fixed, draws[i]) {
        Some(i)
    } else {
        first_firing_from(rules, elapsed, now_minute, last_fixed, draws, i + 1)
    }
}

/// The first rule that fires, if any.
pub open spec fn first_firing(
    rules: Seq<ScheduleRule>,
    elapsed: int,
    now_minute: int,
    last_fixed: int,
    draws: Seq<int>,
) -> Option<int> {
    first_firing_from(rules, elapsed, now_minute, last_fixed, draws, 0)
}

/// The minute last handled by a fixed-time rule, after evaluation: the
/// current minute when a fixed-time rule fired, else unchanged.
pub open spec fn fixed_after(
    rules: Seq<ScheduleRule>,
    first: Option<int>,
    now_minute: int,
    last_fixed: int,
) -> int {
    match first {
        Some(i) => if rules[i] is FixedTime {
            now_minute
        } else {
            last_fixed
        },
        None => last_fixed,
    }
}

/// What evaluating the rules does with the given draws: it reports whether
/// some rule fired and records the minute of a firing fixed-time rule.
pub open spec fn rules_outcome(
    rules: Seq<ScheduleRule>,
    elapsed: int,
    now_minute: int,
    old_fixed: int,
    draws: Seq<int>,
    fired: bool,
    new_fixed: int,
) -> bool {
    let first = first_firing(rules, elapsed, now_minute, old_fixed, draws);
    &&& fired == first is Some
    &&& new_fixed == fixed_after(rules, first, now_minute, old_fixed)
}

/// Decides one rule given the draw it would use.
pub fn rule_fires_with_draw(
    rule: &ScheduleRule,
    elapsed: i128,
    now_minute: i64,
    last_fixed: i64,
    draw: u128,
) -> (b: bool)
    ensures
        b == rule_fires(*rule, elapsed as int, now_minute as int, last_fixed as int, draw as int),
{
    match rule {
        ScheduleRule::Interval { minutes } => elapsed >= *minutes as i128 * 60,
        ScheduleRule::RandomRange { min, max } => {
            let top: u64 = if *max >= *min {
                *max
            } else {
                *min
            };
            elapsed >= *min as i128 * 60 && (elapsed >= top as i128 * 60 || (elapsed >= 0 && draw
                < elapsed as u128))
        },
        ScheduleRule::FixedTime { times } => fixed_time_is_due(times, now_minute, last_fixed),
    }
}

/// Evaluates the rules in order until one fires, drawing from the random
/// source for a random-range rule inside its window. Whatever numbers the
/// source gives, the outcome is the one that `rules_outcome` describes for
/// some draws that fit the windows.
pub fn evaluate_rules(
    rules: &Vec<ScheduleRule>,
    elapsed: i128,
    now_minute: i64,
    last_fixed: &mut i64,
) -> (fired: bool)
    ensures
        exists|draws: Seq<int>|
            draws_fit(rules@, draws) && rules_outcome(
                rules@,
                elapsed as int,
                now_minute as int,
                *old(last_fixed) as int,
                draws,
                fired,
                *final(last_fixed) as int,
            ),
{
    let ghost fixed0 = *last_fixed as int;
    let ghost mut draws: Seq<int> = seq![];
    let mut i: usize = 0;
    while i < rules.len()
        invariant
            i <= rules@.len(),
            *last_fixed == *old(last_fixed),
            fixed0 == *old(last_fixed) as int,
            draws.len() == i,
            forall|j: int| 0 <= j < i ==> draw_fits(rules@[j], #[trigger] draws[j]),
            forall|j: int|
                0 <= j < i ==> !rule_fires(
                    #[trigger] rules@[j],
                    elapsed as int,
                    now_minute as int,
                    fixed0,
                    draws[j],
                ),
        decreases rules@.len() - i,
    {
        let rule = &rules[i];
        let mut draw: u128 = 0;
        if let ScheduleRule::RandomRange { min, max } = rule {
            let top: u64 = if *max >= *min {
                *max
            } else {
                *min
            };
            let window: i128 = top as i128 * 60;
            if elapsed >= *min as i128 * 60 && elapsed < window {
                draw = random_below(window as u128);
            }
        }
        let fires = rule_fires_with_draw(rule, elapsed, now_minute, *last_fixed, draw);
        let ghost full = draws.push(draw as int);
        if fires {
            let ghost all = full + Seq::new((rules@.len() - i - 1) as nat, |k: int| 0int);
            proof {
                assert(all.len() == rules@.len());
                assert forall|j: int| 0 <= j < rules@.len() implies draw_fits(
                    rules@[j],
                    #[trigger] all[j],
                ) by {
                    if j < i {
                        assert(all[j] == draws[j]);
                    } else if j == i {
                        assert(all[j] == draw as int);
                    } else {
                        assert(all[j] == 0);
                    }
                }
                lemma_first_firing_prefix(
                    rules@,
                    elapsed as int,
                    now_minute as int,
                    fixed0,
                    all,
                    0,
                    i as int,
                );
            }
            if let ScheduleRule::FixedTime { times: _ } = rule {
                *last_fixed = now_minute;
            }
            assert(draws_fit(rules@, all));
            return true;
        }
        proof {
            draws = full;
        }
        i += 1;
    }
    proof {
        lemma_none_firing(rules@, elapsed as int, now_minute as int, fixed0, draws, 0);
    }
    assert(draws_fit(rules@, draws));
    false
}

proof fn lemma_first_firing_prefix(
    rules: Seq<ScheduleRule>,
    elapsed: int,
    now_minute: int,
    fixed: int,
    draws: Seq<int>,
    j: int,
    i: int,
)
    requires
        0 <= j <= i < rules.len(),
        draws.len() == rules.len(),
        forall|m: int|
            j <= m < i ==> !rule_fires(#[trigger] rules[m], elapsed, now_minute, fixed, draws[m]),
        rule_fires(rules[i], elapsed, now_minute, fixed, draws[i]),
    ensures
        first_firing_from(rules, elapsed, now_minute, fixed, draws, j) == Some(i),
    decreases i - j,
{
    if j < i {
        assert(!rule_fires(rules[j], elapsed, now_minute, fixed, draws[j]));
        lemma_first_firing_prefix(rules, elapsed, now_minute, fixed, draws, j + 1, i);
    }
}

proof fn lemma_none_firing(
    rules: Seq<ScheduleRule>,
    elapsed: int,
    now_minute: int,
    fixed: int,
    draws: Seq<int>,
    j: int,
)
    requires
        0 <= j <= rules.len(),
        draws.len() == rules.len(),
        forall|m: int|
            0 <= m < rules.len() ==> !rule_fires(
                #[trigger] rules[m],
                elapsed,
                now_minute,
                fixed,
                draws[m],
            ),
    ensures
        first_firing_from(rules, elapsed, now_minute, fixed, draws, j) is None,
    decreases rules.len() - j,
{
    if j < rules.len() {
        assert(!rule_fires(rules[j], elapsed, now_minute, fixed, draws[j]));
        lemma_none_firing(rules, elapsed, now_minute, fixed, draws, j + 1);
    }
}

/// The scheduler holds a quote back while paused, during quiet hours, and
/// once the daily limit is reached.
pub open spec fn held_back(s: AppSettings, today_displayed: u64, now_minute: int) -> bool {
    ||| s.paused
    ||| in_quiet_hours(s.quiet_hours_start, s.quiet_hours_end, now_minute)
    ||| (s.daily_limit matches Some(limit) && today_displayed >= limit)
}

/// One tick of the scheduler, at `now_ts` seconds (the minute of the day
/// being `now_minute`), with the last display at `last_ts`: whether to show
/// a quote now. `last_fixed` is the minute last handled by a fixed-time rule.
pub fn scheduler_tick(
    settings: &AppSettings,
    today_displayed: u64,
    now_ts: i64,
    now_minute: i64,
    last_ts: i64,
    last_fixed: &mut i64,
) -> (show: bool)
    ensures
        held_back(*settings, today_displayed, now_minute as int) ==> !show && *final(last_fixed)
            == *old(last_fixed),
        !held_back(*settings, today_displayed, now_minute as int) ==> exists|draws: Seq<int>|
            draws_fit(settings.schedule_rules@, draws) && rules_outcome(
                settings.schedule_rules@,
                now_ts - last_ts,
                now_minute as int,
                *old(last_fixed) as int,
                draws,
                show,
                *final(last_fixed) as int,
            ),
{
    if settings.paused {
        return false;
    }
    if quiet_now(&settings.quiet_hours_start, &settings.quiet_hours_end, now_minute) {
        return false;
    }
    if let Some(limit) = settings.daily_limit {
        if today_displayed >= limit {
            return false;
        }
    }
    let elapsed: i128 = now_ts as i128 - last_ts as i128;
    evaluate_rules(&settings.schedule_rules, elapsed, now_minute, last_fixed)
}

/// The time of the last display, in seconds since the epoch.
pub struct LastTriggerTime(pub i64);

impl LastTriggerTime {
    /// Starts the clock at `now`.
    pub fn new(now: i64) -> (t: LastTriggerTime)
        ensures
            t.0 == now,
    {
        LastTriggerTime(now)
    }

    /// Records a display at `now`.
    pub fn update(&mut self, now: i64)
        ensures
            final(self).0 == now,
    {
        self.0 = now;
    }
}

} // verus!
