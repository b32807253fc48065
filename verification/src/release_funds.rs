use vstd::prelude::*;
use crate::errors::ErrorCode;
use crate::state::Milestone;
use crate::state::Project;

verus! {

/// The one-way release of a milestone: marks it released, records the
/// ledger time and the opaque proof reference, and adds the milestone's
/// amount to the project's released total. The host runtime, not this
/// handler, refuses a milestone that is already released and a caller
/// other than the project's authority. The released-total update is
/// overflow-checked arithmetic; inputs on which it would wrap are
/// excluded up front because wrapping would be fatal.
pub fn handler(
    milestone: &mut Milestone,
    project: &mut Project,
    proof_url: Vec<u8>,
    now: i64,
) -> (r: Result<(), ErrorCode>)
    requires
        old(project).total_released + old(milestone).amount <= u64::MAX,
    ensures
        r is Ok,
        final (milestone).project_id == old(milestone).project_id,
        final (milestone).index == old(milestone).index,
        final (milestone).description == old(milestone).description,
        final (milestone).amount == old(milestone).amount,
        final (milestone).is_released == true,
        final (milestone).released_at == Some(now),
        final (milestone).proof_url == proof_url,
        final (project).id == old(project).id,
        final (project).title == old(project).title,
        final (project).ministry == old(project).ministry,
        final (project).total_budget == old(project).total_budget,
        final (project).total_allocated == old(project).total_allocated,
        final (project).total_released == old(project).total_released + old(milestone).amount,
        final (project).milestone_count == old(project).milestone_count,
        final (project).created_at == old(project).created_at,
        final (project).authority == old(project).authority,
{
    milestone.is_released = true;
    milestone.released_at = Some(now);
    milestone.proof_url = proof_url;
    project.total_released = project.total_released + milestone.amount;
    Ok(())
}

} // verus!
