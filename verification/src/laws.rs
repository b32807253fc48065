use vstd::prelude::*;
use crate::errors::ErrorCode;
use crate::errors::TransitionError;
use crate::ledger::Ledger;
use crate::ledger::lemma_mile_idx_some;
use crate::ledger::lemma_mile_idx_unique;
use crate::ledger::lemma_proj_idx_some;
use crate::ledger::lemma_proj_idx_unique;
use crate::ledger::mile_idx;
use crate::ledger::sum_allocated;
use crate::ledger::sum_released;

verus! {

/// Budget conservation: for every project record in a well-formed store,
/// the allocation total never exceeds the budget, and the released total
/// never exceeds the allocation total. Every transition keeps the store
/// well formed, so this holds at all times.
pub proof fn lemma_budget_conservation(l: Ledger, i: int)
    requires
        l.wf(),
        0 <= i < l.projects@.len(),
    ensures
        l.projects@[i].total_allocated <= l.projects@[i].total_budget,
        l.projects@[i].total_released <= l.projects@[i].total_allocated,
{
}

/// A project's allocation total equals the sum of `amount` over all
/// milestones ever created under it.
pub proof fn lemma_allocated_is_milestone_sum(l: Ledger, i: int)
    requires
        l.wf(),
        0 <= i < l.projects@.len(),
    ensures
        l.projects@[i].total_allocated == sum_allocated(l.milestones@, l.projects@[i].id@),
{
}

/// A project's released total equals the sum of `amount` over its
/// released milestones.
pub proof fn lemma_released_is_released_sum(l: Ledger, i: int)
    requires
        l.wf(),
        0 <= i < l.projects@.len(),
    ensures
        l.projects@[i].total_released == sum_released(l.milestones@, l.projects@[i].id@),
{
}

/// Uniqueness by address collision: once some project record carries
/// `id`, a further project creation under the same identifier is refused
/// with the address-in-use failure, whatever the rest of the request
/// holds.
pub proof fn lemma_duplicate_project_refused(
    l: Ledger,
    i: int,
    title: Seq<u8>,
    ministry: Seq<u8>,
    total_budget: u64,
)
    requires
        l.wf(),
        0 <= i < l.projects@.len(),
    ensures
        l.initialize_project_outcome(l.projects@[i].id@, title, ministry, total_budget) == Err::<
            (),
            TransitionError,
        >(TransitionError::AddressInUse),
{
    lemma_proj_idx_some(l.projects@, l.projects@[i].id@, i);
}

/// Uniqueness by address collision: once some milestone record carries
/// the key `(project_id, index)`, a further milestone creation under the
/// same key is refused with the address-in-use failure, whatever the rest
/// of the request holds.
pub proof fn lemma_duplicate_milestone_refused(
    l: Ledger,
    k: int,
    caller: Seq<u8>,
    description: Seq<u8>,
    amount: u64,
)
    requires
        l.wf(),
        0 <= k < l.milestones@.len(),
    ensures
        l.add_milestone_outcome(
            caller,
            l.milestones@[k].project_id@,
            l.milestones@[k].index,
            description,
            amount,
        ) == Err::<(), TransitionError>(TransitionError::AddressInUse),
{
    lemma_mile_idx_some(
        l.milestones@,
        l.milestones@[k].project_id@,
        l.milestones@[k].index,
        k,
    );
}

/// Authorization: a milestone creation signed by any identity other than
/// the project's recorded authority is refused with the unauthorized
/// failure; its operation's contract adds that a refused transition
/// mutates nothing.
pub proof fn lemma_unauthorized_add_refused(
    l: Ledger,
    i: int,
    caller: Seq<u8>,
    index: u8,
    description: Seq<u8>,
    amount: u64,
)
    requires
        l.wf(),
        0 <= i < l.projects@.len(),
        caller != l.projects@[i].authority@,
        mile_idx(l.milestones@, l.projects@[i].id@, index) is None,
    ensures
        l.add_milestone_outcome(caller, l.projects@[i].id@, index, description, amount) == Err::<
            (),
            TransitionError,
        >(TransitionError::Rejected(ErrorCode::UnauthorizedAccess)),
{
    lemma_proj_idx_unique(l.projects@, l.projects@[i].id@, i);
}

/// Authorization: a release signed by any identity other than the
/// project's recorded authority is refused with the unauthorized failure;
/// its operation's contract adds that a refused transition mutates
/// nothing.
pub proof fn lemma_unauthorized_release_refused(
    l: Ledger,
    i: int,
    k: int,
    caller: Seq<u8>,
    proof_url: Seq<u8>,
)
    requires
        l.wf(),
        0 <= k < l.milestones@.len(),
        !l.milestones@[k].is_released,
        0 <= i < l.projects@.len(),
        l.projects@[i].id@ == l.milestones@[k].project_id@,
        caller != l.projects@[i].authority@,
    ensures
        l.release_funds_outcome(
            caller,
            l.milestones@[k].project_id@,
            l.milestones@[k].index,
            proof_url,
        ) == Err::<(), TransitionError>(TransitionError::Rejected(ErrorCode::UnauthorizedAccess)),
{
    lemma_mile_idx_unique(
        l.milestones@,
        l.milestones@[k].project_id@,
        l.milestones@[k].index,
        k,
    );
    lemma_proj_idx_unique(l.projects@, l.milestones@[k].project_id@, i);
}

} // verus!
