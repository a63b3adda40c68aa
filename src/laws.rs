//! Laws of the alert record over successive checks.

use vstd::prelude::*;
use crate::check::{action_for, after_check, alert_delivered, CheckAction};

verus! {

/// One check: the product, its observed count, and how a send would end.
pub type Check = (Seq<char>, nat, bool);

/// The record after the checks of `cs`, made one after another in order.
pub open spec fn apply_checks(s: Set<Seq<char>>, cs: Seq<Check>) -> Set<Seq<char>>
    decreases cs.len(),
{
    if cs.len() == 0 {
        s
    } else {
        let c = cs.last();
        after_check(apply_checks(s, cs.drop_last()), c.0, c.1, c.2)
    }
}

/// No two checks of `cs` are of the same product.
pub open spec fn distinct_products(cs: Seq<Check>) -> bool {
    forall|i: int, j: int| 0 <= i < j < cs.len() ==> cs[i].0 != cs[j].0
}

/// After a count of zero, a positive count owes exactly one alert, and once
/// it is delivered the product is recorded.
pub proof fn lemma_restock_alerts_once(
    s: Set<Seq<char>>,
    id: Seq<char>,
    count: nat,
    first_delivered: bool,
)
    requires
        count > 0,
    ensures
        ({
            let s1 = after_check(s, id, 0, first_delivered);
            &&& action_for(s.contains(id), 0) != CheckAction::SendAlert
            &&& action_for(s1.contains(id), count) == CheckAction::SendAlert
            &&& after_check(s1, id, count, true).contains(id)
        }),
{
}

/// Two positive counts in a row deliver at most one alert between them.
pub proof fn lemma_stocked_twice_alerts_at_most_once(
    s: Set<Seq<char>>,
    id: Seq<char>,
    c1: nat,
    c2: nat,
    d1: bool,
    d2: bool,
)
    requires
        c1 > 0,
        c2 > 0,
    ensures
        !(alert_delivered(s, id, c1, d1) && alert_delivered(after_check(s, id, c1, d1), id, c2, d2)),
{
}

/// A zero count after a positive one forgets the product, and the next
/// positive count owes one new alert.
pub proof fn lemma_stock_out_rearms(
    s: Set<Seq<char>>,
    id: Seq<char>,
    c1: nat,
    d1: bool,
    d2: bool,
    c3: nat,
)
    requires
        c1 > 0,
        c3 > 0,
    ensures
        ({
            let s2 = after_check(after_check(s, id, c1, d1), id, 0, d2);
            &&& !s2.contains(id)
            &&& action_for(s2.contains(id), c3) == CheckAction::SendAlert
        }),
{
}

/// A send that fails leaves the product unrecorded, so the next positive
/// count asks for the alert again.
pub proof fn lemma_failed_send_retries(s: Set<Seq<char>>, id: Seq<char>, count: nat, next: nat)
    requires
        next > 0,
    ensures
        action_for(s.contains(id), count) == CheckAction::SendAlert ==> {
            &&& !after_check(s, id, count, false).contains(id)
            &&& action_for(after_check(s, id, count, false).contains(id), next)
                == CheckAction::SendAlert
        },
{
}

/// Whether the record holds `x` after one check of `x` that found it so.
pub open spec fn entry_after(held: bool, count: nat, delivered: bool) -> bool {
    if count == 0 {
        false
    } else {
        held || delivered
    }
}

/// Whether the record holds `x` after the checks in `checks`, each made on
/// the record `s`.
pub open spec fn held_after(s: Set<Seq<char>>, checks: Set<Check>, x: Seq<char>) -> bool {
    if exists|c: Check| checks.contains(c) && c.0 == x {
        let c = choose|c: Check| checks.contains(c) && c.0 == x;
        entry_after(s.contains(x), c.1, c.2)
    } else {
        s.contains(x)
    }
}

proof fn lemma_one_check(s: Set<Seq<char>>, id: Seq<char>, count: nat, delivered: bool)
    ensures
        after_check(s, id, count, delivered).contains(id) == entry_after(
            s.contains(id),
            count,
            delivered,
        ),
        forall|y: Seq<char>| y != id ==> after_check(s, id, count, delivered).contains(y) == s.contains(y),
{
}

proof fn lemma_apply_checks_closed(s: Set<Seq<char>>, cs: Seq<Check>, x: Seq<char>)
    requires
        distinct_products(cs),
    ensures
        apply_checks(s, cs).contains(x) == held_after(s, cs.to_set(), x),
    decreases cs.len(),
{
    if cs.len() == 0 {
        assert(cs.to_set() =~= Set::<Check>::empty());
    } else {
        let pre = cs.drop_last();
        let c = cs.last();
        assert(distinct_products(pre));
        lemma_apply_checks_closed(s, pre, x);
        lemma_apply_checks_closed(s, pre, c.0);
        lemma_one_check(apply_checks(s, pre), c.0, c.1, c.2);
        assert(cs =~= pre.push(c));
        assert(cs.to_set() =~= pre.to_set().insert(c)) by {
            pre.lemma_push_to_set_commute(c);
        }
        assert forall|d: Check| pre.to_set().contains(d) implies d.0 != c.0 by {
            let k = pre.index_of(d);
            assert(cs[k] == d);
            assert(cs[cs.len() - 1] == c);
        }
        if x == c.0 {
            assert(!(exists|d: Check| pre.to_set().contains(d) && d.0 == x));
            assert(cs.to_set().contains(c));
            let e = choose|d: Check| cs.to_set().contains(d) && d.0 == x;
            assert(e == c);
        } else {
            assert forall|d: Check| cs.to_set().contains(d) && d.0 == x implies pre.to_set().contains(d) by {}
            if exists|d: Check| pre.to_set().contains(d) && d.0 == x {
                let e1 = choose|d: Check| pre.to_set().contains(d) && d.0 == x;
                assert(cs.to_set().contains(e1));
                let e2 = choose|d: Check| cs.to_set().contains(d) && d.0 == x;
                assert(pre.to_set().contains(e2));
                let k1 = pre.index_of(e1);
                let k2 = pre.index_of(e2);
                assert(pre[k1] == e1 && pre[k2] == e2);
                assert(cs[k1] == e1 && cs[k2] == e2);
                assert(k1 == k2);
                assert(e1 == e2);
            }
        }
    }
}

/// Checks of distinct products leave the same record whatever order they
/// run in: no check's update is lost to another's.
pub proof fn lemma_checks_commute(s: Set<Seq<char>>, cs1: Seq<Check>, cs2: Seq<Check>)
    requires
        distinct_products(cs1),
        distinct_products(cs2),
        cs1.to_set() == cs2.to_set(),
    ensures
        apply_checks(s, cs1) == apply_checks(s, cs2),
{
    assert forall|x: Seq<char>| apply_checks(s, cs1).contains(x) == apply_checks(s, cs2).contains(x) by {
        lemma_apply_checks_closed(s, cs1, x);
        lemma_apply_checks_closed(s, cs2, x);
    }
    assert(apply_checks(s, cs1) =~= apply_checks(s, cs2));
}

} // verus!
