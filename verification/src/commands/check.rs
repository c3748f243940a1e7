//! `prefset check`: whether every configured preference is in place.

use vstd::prelude::*;
use vstd::string::*;

use crate::integrations::{applied, IntegrationChange, PlannedChange};
use crate::util::text::{decimal_nat, decimal_usize};

verus! {

/// How many changes of a plan are not yet in place.
pub open spec fn count_pending(plan: Seq<PlannedChange>) -> nat
    decreases plan.len(),
{
    if plan.len() == 0 {
        0
    } else {
        count_pending(plan.drop_last()) + if applied(plan.last()) {
            0nat
        } else {
            1nat
        }
    }
}

/// The preferences that are not synced, out of how many.
#[derive(Clone, Copy, Debug, PartialEq, Eq, Structural)]
pub struct Unsynced {
    pub differences: usize,
    pub total: usize,
}

/// `prefset check ...`: the number of preferences when all are synced, else
/// how many are not.
pub fn run(plan: &Vec<PlannedChange>) -> (r: Result<usize, Unsynced>)
    ensures
        count_pending(plan@) == 0 ==> r == Ok::<usize, Unsynced>(plan.len()),
        count_pending(plan@) != 0 ==> r == Err::<usize, Unsynced>(
            Unsynced { differences: count_pending(plan@) as usize, total: plan.len() },
        ),
{
    let mut differences: usize = 0;
    let mut i: usize = 0;
    while i < plan.len()
        invariant
            i <= plan.len(),
            differences == count_pending(plan@.subrange(0, i as int)),
            differences <= i,
        decreases plan.len() - i,
    {
        let ghost prefix = plan@.subrange(0, i as int + 1);
        assert(prefix.drop_last() =~= plan@.subrange(0, i as int));
        assert(prefix.last() == plan@[i as int]);
        if !plan[i].is_applied() {
            differences = differences + 1;
        }
        i = i + 1;
    }
    assert(plan@.subrange(0, plan@.len() as int) =~= plan@);
    if differences != 0 {
        Err(Unsynced { differences, total: plan.len() })
    } else {
        Ok(plan.len())
    }
}

/// The report of preferences that are not synced.
pub fn unsynced_message(unsynced: Unsynced) -> (r: String)
    ensures
        r@ == decimal_nat(unsynced.differences as nat) + "/"@ + decimal_nat(unsynced.total as nat)
            + " preferences not synced"@,
{
    decimal_usize(unsynced.differences).concat("/").concat(
        decimal_usize(unsynced.total).as_str(),
    ).concat(" preferences not synced")
}

/// The report when every preference is synced.
pub fn synced_message(total: usize) -> (r: String)
    ensures
        r@ == "all preferences synced ("@ + decimal_nat(total as nat) + " total)"@,
{
    String::from_str("all preferences synced (").concat(decimal_usize(total).as_str()).concat(
        " total)",
    )
}

/// `check` counts every change of a plan that is not in place, whatever its
/// integration: the count is the number of such changes, so a plan with a
/// pending change is never reported synced.
pub proof fn lemma_pending_counts_every_change(plan: Seq<PlannedChange>)
    ensures
        count_pending(plan) == plan.filter(|c: PlannedChange| !applied(c)).len(),
        count_pending(plan) <= plan.len(),
        (exists|i: int| 0 <= i < plan.len() && !applied(#[trigger] plan[i])) ==> count_pending(
            plan,
        ) > 0,
        (forall|i: int| 0 <= i < plan.len() ==> applied(#[trigger] plan[i])) ==> count_pending(
            plan,
        ) == 0,
    decreases plan.len(),
{
    reveal(Seq::filter);
    if plan.len() > 0 {
        let rest = plan.drop_last();
        lemma_pending_counts_every_change(rest);
        if exists|i: int| 0 <= i < plan.len() && !applied(#[trigger] plan[i]) {
            let i = choose|i: int| 0 <= i < plan.len() && !applied(#[trigger] plan[i]);
            if i < rest.len() {
                assert(rest[i] == plan[i]);
            }
        }
        if forall|i: int| 0 <= i < plan.len() ==> applied(#[trigger] plan[i]) {
            assert forall|i: int| 0 <= i < rest.len() implies applied(#[trigger] rest[i]) by {
                assert(rest[i] == plan[i]);
            }
            assert(applied(plan[plan.len() - 1]));
        }
    }
}

} // verus!
