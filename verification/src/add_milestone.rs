use vstd::prelude::*;
use crate::errors::ErrorCode;
use crate::state::Milestone;
use crate::state::Project;

verus! {

/// The verdict of a milestone creation against its project, in the order
/// the checks run: a non-empty description, a positive amount, then the
/// budget-conservation bound on the new allocation. Arithmetic overflow of
/// the allocation or of the milestone counter is not a verdict here: it is
/// fatal and the handler's preconditions exclude it.
pub open spec fn validation_error(
    project: Project,
    description: Seq<u8>,
    amount: u64,
) -> Option<ErrorCode> {
    if description.len() == 0 {
        Some(ErrorCode::InvalidTitle)
    } else if amount == 0 {
        Some(ErrorCode::InvalidBudget)
    } else if project.total_allocated + amount > project.total_budget {
        Some(ErrorCode::InsufficientBudget)
    } else {
        None
    }
}

/// Creates a milestone under the project and commits its allocation:
/// checks the inputs, checks that the new allocation fits the budget, and
/// on success bumps the project's allocation total and milestone counter.
/// On any validation failure the project record is untouched. Both the
/// allocation sum and the counter increment are overflow-checked
/// arithmetic; inputs on which either would wrap are excluded up front
/// because wrapping would be fatal.
pub fn handler(
    project: &mut Project,
    project_id: Vec<u8>,
    index: u8,
    description: Vec<u8>,
    amount: u64,
) -> (r: Result<Milestone, ErrorCode>)
    requires
        description@.len() > 0 && amount > 0 ==> old(project).total_allocated + amount
            <= u64::MAX,
        validation_error(*old(project), description@, amount) is None ==> old(
            project,
        ).milestone_count < u8::MAX,
    ensures
        match validation_error(*old(project), description@, amount) {
            Some(e) => r == Err::<Milestone, ErrorCode>(e) && *final (project) == *old(project),
            None => {
                &&& r matches Ok(m)
                &&& (r matches Ok(m) ==> {
                    &&& m.project_id == project_id
                    &&& m.index == index
                    &&& m.description == description
                    &&& m.amount == amount
                    &&& m.is_released == false
                    &&& m.released_at is None
                    &&& m.proof_url@.len() == 0
                })
                &&& final (project).id == old(project).id
                &&& final (project).title == old(project).title
                &&& final (project).ministry == old(project).ministry
                &&& final (project).total_budget == old(project).total_budget
                &&& final (project).total_allocated == old(project).total_allocated + amount
                &&& final (project).total_released == old(project).total_released
                &&& final (project).milestone_count == old(project).milestone_count + 1
                &&& final (project).created_at == old(project).created_at
                &&& final (project).authority == old(project).authority
            },
        },
{
    if description.len() == 0 {
        return Err(ErrorCode::InvalidTitle);
    }
    if amount == 0 {
        return Err(ErrorCode::InvalidBudget);
    }
    let new_allocated = project.total_allocated + amount;
    if new_allocated > project.total_budget {
        return Err(ErrorCode::InsufficientBudget);
    }
    let milestone = Milestone {
        project_id,
        index,
        description,
        amount,
        is_released: false,
        released_at: None,
        proof_url: Vec::new(),
    };
    project.milestone_count = project.milestone_count + 1;
    project.total_allocated = new_allocated;
    Ok(milestone)
}

} // verus!
