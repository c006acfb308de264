//! The quote that the next popup shows.
use vstd::prelude::*;

use crate::models::Quote;
use crate::selection::pick_quote_internal;
use crate::state::AppData;

verus! {

/// The quote most recently picked for a popup, until the popup takes it.
pub struct ActiveQuote(pub Option<Quote>);

impl ActiveQuote {
    /// No quote waits for a popup.
    pub fn new() -> (a: ActiveQuote)
        ensures
            a.0 is None,
    {
        ActiveQuote(None)
    }

    /// Keeps `quote` for the next popup, replacing any earlier one.
    pub fn set(&mut self, quote: Quote)
        ensures
            final(self).0 == Some(quote),
    {
        self.0 = Some(quote);
    }

    /// Hands out the waiting quote, if any, and leaves none behind.
    pub fn take(&mut self) -> (r: Option<Quote>)
        ensures
            r == old(self).0,
            final(self).0 is None,
    {
        self.0.take()
    }
}

/// Prepares a popup: unless paused, picks a quote, counts it and keeps it
/// for the popup. Returns whether a popup should open.
pub fn stage_popup_quote(data: &mut AppData, active: &mut ActiveQuote) -> (shown: bool)
    requires
        !old(data).settings.paused ==> crate::selection::pick_safe(*old(data)),
    ensures
        old(data).settings.paused ==> !shown && *final(data) == *old(data) && final(active).0
            == old(active).0,
        !old(data).settings.paused ==> crate::selection::pick_outcome(
            *old(data),
            *final(data),
            if shown {
                final(active).0
            } else {
                None
            },
        ),
        !shown ==> final(active).0 == old(active).0,
{
    if data.settings.paused {
        return false;
    }
    match pick_quote_internal(data) {
        Some(q) => {
            active.set(q);
            true
        },
        None => false,
    }
}

/// The quote a newly opened popup shows: the one kept for it, or else a
/// freshly picked one.
pub fn get_popup_quote(active: &mut ActiveQuote, data: &mut AppData) -> (r: Option<Quote>)
    requires
        old(active).0 is None ==> crate::selection::pick_safe(*old(data)),
    ensures
        final(active).0 is None,
        old(active).0 is Some ==> r == old(active).0 && *final(data) == *old(data),
        old(active).0 is None ==> crate::selection::pick_outcome(*old(data), *final(data), r),
{
    if let Some(q) = active.take() {
        return Some(q);
    }
    pick_quote_internal(data)
}

/// The label of a popup window opened at `millis` milliseconds after the
/// epoch: `popup-` followed by the number.
pub fn popup_label(millis: u128) -> (s: String)
    ensures
        s@ == "popup-"@ + crate::text::decimal(millis as nat),
{
    let mut s = String::from_str("popup-");
    let digits = crate::text::decimal_string(millis);
    s.append(digits.as_str());
    s
}

} // verus!
