//! One check of one product: what its observed stock count means for the
//! alert record, and the laws that the record obeys over successive checks.

use vstd::prelude::*;
use crate::messages::{fetch_failed_event, fetch_failed_text, stock_event, stock_text};
use crate::notice::{ids_of, NotificationState};

verus! {

/// What a check asks of its caller once the stock count is known.
#[derive(PartialEq, Eq, Structural, Clone, Copy, Debug)]
pub enum CheckAction {
    /// In stock and not yet announced: send the alert, then report the
    /// delivery with `finish_check`.
    SendAlert,
    /// Out of stock after an announced streak: the product was forgotten.
    Rearm,
    /// Nothing to do.
    NoChange,
}

/// The action owed for a count, given whether the streak was announced.
pub open spec fn action_for(alerted: bool, count: nat) -> CheckAction {
    if count > 0 && !alerted {
        CheckAction::SendAlert
    } else if count == 0 && alerted {
        CheckAction::Rearm
    } else {
        CheckAction::NoChange
    }
}

/// The record after the first half of a check: a zero count forgets the product.
pub open spec fn rearmed(s: Set<Seq<char>>, id: Seq<char>, count: nat) -> Set<Seq<char>> {
    if count == 0 {
        s.remove(id)
    } else {
        s
    }
}

/// Whether a check of `id` with `count` delivers an alert, when a send
/// would end with `delivered`.
pub open spec fn alert_delivered(
    s: Set<Seq<char>>,
    id: Seq<char>,
    count: nat,
    delivered: bool,
) -> bool {
    action_for(s.contains(id), count) == CheckAction::SendAlert && delivered
}

/// The record after a whole check: `begin_check`, the send if one is owed,
/// and `finish_check` with its outcome.
pub open spec fn after_check(
    s: Set<Seq<char>>,
    id: Seq<char>,
    count: nat,
    delivered: bool,
) -> Set<Seq<char>> {
    if alert_delivered(s, id, count, delivered) {
        rearmed(s, id, count).insert(id)
    } else {
        rearmed(s, id, count)
    }
}

/// The count a check works with: a failed fetch counts as out of stock.
pub open spec fn observed(fetched: Result<usize, String>) -> nat {
    match fetched {
        Ok(n) => n as nat,
        Err(_) => 0,
    }
}

/// Turns the outcome of an inventory fetch into the count the check uses.
pub fn observed_count(fetched: Result<usize, String>) -> (r: usize)
    ensures
        r as nat == observed(fetched),
{
    match fetched {
        Ok(n) => n,
        Err(_) => 0,
    }
}

/// The events a fetch of `id` leads to: a failure first, if it failed, then
/// the count the check goes on with.
pub open spec fn fetch_events(id: Seq<char>, fetched: Result<usize, String>) -> Seq<Seq<char>> {
    let failed = if fetched is Err {
        seq![fetch_failed_text(id)]
    } else {
        Seq::<Seq<char>>::empty()
    };
    failed.push(stock_text(id, observed(fetched)))
}

/// The count a check goes on with, and the events that report it.
pub struct Observation {
    pub count: usize,
    pub events: Vec<String>,
}

/// Reads the outcome of the inventory fetch of `id`: a failure is reported
/// and swallowed, and counts as out of stock.
pub fn observe(id: &str, fetched: Result<usize, String>) -> (r: Observation)
    ensures
        r.count as nat == observed(fetched),
        ids_of(r.events@) == fetch_events(id@, fetched),
{
    let mut events: Vec<String> = Vec::new();
    if fetched.is_err() {
        events.push(fetch_failed_event(id));
    }
    let count = observed_count(fetched);
    events.push(stock_event(id, count));
    assert(ids_of(events@) =~= fetch_events(id@, fetched));
    Observation { count, events }
}

/// The action owed for `count` when the streak is, or is not, announced.
pub fn decide(alerted: bool, count: usize) -> (r: CheckAction)
    ensures
        r == action_for(alerted, count as nat),
{
    if count > 0 && !alerted {
        CheckAction::SendAlert
    } else if count == 0 && alerted {
        CheckAction::Rearm
    } else {
        CheckAction::NoChange
    }
}

impl NotificationState {
    /// Reads and updates the record for one observed count, in one step.
    /// On `SendAlert` the caller sends and then calls `finish_check`.
    pub fn begin_check(&mut self, id: &str, count: usize) -> (r: CheckAction)
        requires
            old(self).wf(),
        ensures
            final(self).wf(),
            r == action_for(old(self)@.contains(id@), count as nat),
            final(self)@ == rearmed(old(self)@, id@, count as nat),
    {
        let alerted = self.has_alerted(id);
        let action = decide(alerted, count);
        if let CheckAction::Rearm = action {
            self.clear(id);
        } else {
            proof {
                if count == 0 {
                    assert(self@.remove(id@) =~= self@);
                }
            }
        }
        action
    }

    /// Records how the send asked for by `action` ended: only a delivered
    /// alert is remembered, so a failed one is tried again on the next sweep.
    pub fn finish_check(&mut self, id: &str, action: CheckAction, delivered: bool)
        requires
            old(self).wf(),
        ensures
            final(self).wf(),
            final(self)@ == (if action == CheckAction::SendAlert && delivered {
                old(self)@.insert(id@)
            } else {
                old(self)@
            }),
    {
        if action == CheckAction::SendAlert && delivered {
            self.mark_alerted(id);
        }
    }
}

} // verus!
