use vstd::prelude::*;
use crate::errors::ErrorCode;
use crate::state::MAX_PROJECT_ID_LEN;
use crate::state::MAX_TITLE_LEN;
use crate::state::PlatformState;
use crate::state::Project;

verus! {

/// The validation verdict of a project creation, in the order the checks
/// run: identifier cap, then title bounds, then a positive budget.
pub open spec fn validation_error(
    project_id: Seq<u8>,
    title: Seq<u8>,
    total_budget: u64,
) -> Option<ErrorCode> {
    if project_id.len() > MAX_PROJECT_ID_LEN {
        Some(ErrorCode::ProjectIdTooLong)
    } else if title.len() == 0 || title.len() > MAX_TITLE_LEN {
        Some(ErrorCode::InvalidTitle)
    } else if total_budget == 0 {
        Some(ErrorCode::InvalidBudget)
    } else {
        None
    }
}

/// Creates a project under the platform: validates the inputs, fixes the
/// caller as the project's authority, and bumps the platform's project
/// counter. On any validation failure the platform record is untouched.
/// The counter update is overflow-checked arithmetic; a count at the
/// numeric ceiling is excluded up front because wrapping would be fatal.
pub fn handler(
    platform_state: &mut PlatformState,
    project_id: Vec<u8>,
    title: Vec<u8>,
    ministry: Vec<u8>,
    total_budget: u64,
    authority: Vec<u8>,
    now: i64,
) -> (r: Result<Project, ErrorCode>)
    requires
        validation_error(project_id@, title@, total_budget) is None ==> old(
            platform_state,
        ).project_count < u64::MAX,
    ensures
        match validation_error(project_id@, title@, total_budget) {
            Some(e) => r == Err::<Project, ErrorCode>(e) && *final (platform_state) == *old(
                platform_state,
            ),
            None => {
                &&& r matches Ok(p)
                &&& (r matches Ok(p) ==> {
                    &&& p.id == project_id
                    &&& p.title == title
                    &&& p.ministry == ministry
                    &&& p.total_budget == total_budget
                    &&& p.total_allocated == 0
                    &&& p.total_released == 0
                    &&& p.milestone_count == 0
                    &&& p.created_at == now
                    &&& p.authority == authority
                })
                &&& final (platform_state).admin == old(platform_state).admin
                &&& final (platform_state).project_count == old(platform_state).project_count + 1
            },
        },
{
    if project_id.len() > MAX_PROJECT_ID_LEN {
        return Err(ErrorCode::ProjectIdTooLong);
    }
    if title.len() == 0 || title.len() > MAX_TITLE_LEN {
        return Err(ErrorCode::InvalidTitle);
    }
    if total_budget == 0 {
        return Err(ErrorCode::InvalidBudget);
    }
    let project = Project {
        id: project_id,
        title,
        ministry,
        total_budget,
        total_allocated: 0,
        total_released: 0,
        milestone_count: 0,
        created_at: now,
        authority,
    };
    platform_state.project_count = platform_state.project_count + 1;
    Ok(project)
}

} // verus!
