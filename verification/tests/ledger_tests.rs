use openbudget::errors::ErrorCode;
use openbudget::errors::TransitionError;
use openbudget::ledger::Ledger;
use openbudget::state::Milestone;
use openbudget::state::PlatformState;

fn bytes(s: &str) -> Vec<u8> {
    s.as_bytes().to_vec()
}

#[test]
fn full_lifecycle_scenario() {
    let a = bytes("wallet-A");
    let mut l = Ledger::new();

    assert_eq!(l.initialize_platform(a.clone()), Ok(()));
    let registry = l.platform.as_ref().unwrap();
    assert_eq!(registry.admin, a);
    assert_eq!(registry.project_count, 0);

    assert_eq!(
        l.initialize_project(a.clone(), bytes("P1"), bytes("Roads"), bytes("MoT"), 1000, 100),
        Ok(())
    );
    assert_eq!(l.platform.as_ref().unwrap().project_count, 1);
    assert_eq!(l.projects.len(), 1);
    assert_eq!(l.projects[0].id, bytes("P1"));
    assert_eq!(l.projects[0].title, bytes("Roads"));
    assert_eq!(l.projects[0].ministry, bytes("MoT"));
    assert_eq!(l.projects[0].total_budget, 1000);
    assert_eq!(l.projects[0].total_allocated, 0);
    assert_eq!(l.projects[0].total_released, 0);
    assert_eq!(l.projects[0].milestone_count, 0);
    assert_eq!(l.projects[0].created_at, 100);
    assert_eq!(l.projects[0].authority, a);

    assert_eq!(l.add_milestone(a.clone(), bytes("P1"), 0, bytes("Phase1"), 400), Ok(()));
    assert_eq!(l.milestones.len(), 1);
    assert_eq!(l.milestones[0].project_id, bytes("P1"));
    assert_eq!(l.milestones[0].index, 0);
    assert_eq!(l.milestones[0].amount, 400);
    assert!(!l.milestones[0].is_released);
    assert_eq!(l.milestones[0].released_at, None);
    assert!(l.milestones[0].proof_url.is_empty());
    assert_eq!(l.projects[0].total_allocated, 400);
    assert_eq!(l.projects[0].milestone_count, 1);

    assert_eq!(
        l.add_milestone(a.clone(), bytes("P1"), 1, bytes("Phase2"), 700),
        Err(TransitionError::Rejected(ErrorCode::InsufficientBudget))
    );
    assert_eq!(l.milestones.len(), 1);
    assert_eq!(l.projects[0].total_allocated, 400);
    assert_eq!(l.projects[0].milestone_count, 1);

    assert_eq!(
        l.release_funds(a.clone(), bytes("P1"), 0, bytes("ipfs://proof"), 200),
        Ok(())
    );
    assert!(l.milestones[0].is_released);
    assert_eq!(l.milestones[0].released_at, Some(200));
    assert_eq!(l.milestones[0].proof_url, bytes("ipfs://proof"));
    assert_eq!(l.projects[0].total_released, 400);
    assert_eq!(l.projects[0].total_allocated, 400);

    assert_eq!(
        l.release_funds(a.clone(), bytes("P1"), 0, bytes("ipfs://x"), 300),
        Err(TransitionError::Rejected(ErrorCode::MilestoneAlreadyReleased))
    );
    assert_eq!(l.milestones[0].proof_url, bytes("ipfs://proof"));
    assert_eq!(l.projects[0].total_released, 400);
}

#[test]
fn platform_created_once() {
    let mut l = Ledger::new();
    assert_eq!(l.initialize_platform(bytes("A")), Ok(()));
    assert_eq!(l.initialize_platform(bytes("B")), Err(TransitionError::AddressInUse));
    assert_eq!(l.platform.as_ref().unwrap().admin, bytes("A"));
}

#[test]
fn duplicate_project_id_refused() {
    let mut l = Ledger::new();
    l.initialize_platform(bytes("A")).unwrap();
    assert_eq!(
        l.initialize_project(bytes("A"), bytes("P1"), bytes("T"), bytes("M"), 10, 0),
        Ok(())
    );
    assert_eq!(
        l.initialize_project(bytes("B"), bytes("P1"), bytes("Other"), bytes("M2"), 99, 5),
        Err(TransitionError::AddressInUse)
    );
    assert_eq!(l.projects.len(), 1);
    assert_eq!(l.platform.as_ref().unwrap().project_count, 1);
}

#[test]
fn duplicate_milestone_key_refused() {
    let mut l = Ledger::new();
    l.initialize_platform(bytes("A")).unwrap();
    l.initialize_project(bytes("A"), bytes("P1"), bytes("T"), bytes("M"), 100, 0).unwrap();
    assert_eq!(l.add_milestone(bytes("A"), bytes("P1"), 7, bytes("d"), 10), Ok(()));
    assert_eq!(
        l.add_milestone(bytes("A"), bytes("P1"), 7, bytes("other"), 20),
        Err(TransitionError::AddressInUse)
    );
    assert_eq!(l.milestones.len(), 1);
    assert_eq!(l.projects[0].total_allocated, 10);
}

#[test]
fn unauthorized_add_and_release_mutate_nothing() {
    let mut l = Ledger::new();
    l.initialize_platform(bytes("A")).unwrap();
    l.initialize_project(bytes("A"), bytes("P1"), bytes("T"), bytes("M"), 100, 0).unwrap();
    l.add_milestone(bytes("A"), bytes("P1"), 0, bytes("d"), 10).unwrap();

    assert_eq!(
        l.add_milestone(bytes("EVE"), bytes("P1"), 1, bytes("d2"), 10),
        Err(TransitionError::Rejected(ErrorCode::UnauthorizedAccess))
    );
    assert_eq!(l.milestones.len(), 1);
    assert_eq!(l.projects[0].total_allocated, 10);

    assert_eq!(
        l.release_funds(bytes("EVE"), bytes("P1"), 0, bytes("u"), 9),
        Err(TransitionError::Rejected(ErrorCode::UnauthorizedAccess))
    );
    assert!(!l.milestones[0].is_released);
    assert_eq!(l.projects[0].total_released, 0);
}

#[test]
fn project_validation_errors_in_order() {
    let mut l = Ledger::new();
    l.initialize_platform(bytes("A")).unwrap();
    let long_id = vec![b'x'; 33];
    assert_eq!(
        l.initialize_project(bytes("A"), long_id, vec![], bytes("M"), 0, 0),
        Err(TransitionError::Rejected(ErrorCode::ProjectIdTooLong))
    );
    assert_eq!(
        l.initialize_project(bytes("A"), bytes("P1"), vec![], bytes("M"), 0, 0),
        Err(TransitionError::Rejected(ErrorCode::InvalidTitle))
    );
    let long_title = vec![b't'; 101];
    assert_eq!(
        l.initialize_project(bytes("A"), bytes("P1"), long_title, bytes("M"), 5, 0),
        Err(TransitionError::Rejected(ErrorCode::InvalidTitle))
    );
    assert_eq!(
        l.initialize_project(bytes("A"), bytes("P1"), bytes("T"), bytes("M"), 0, 0),
        Err(TransitionError::Rejected(ErrorCode::InvalidBudget))
    );
    assert!(l.projects.is_empty());
    assert_eq!(l.platform.as_ref().unwrap().project_count, 0);
}

#[test]
fn milestone_validation_errors_in_order() {
    let mut l = Ledger::new();
    l.initialize_platform(bytes("A")).unwrap();
    l.initialize_project(bytes("A"), bytes("P1"), bytes("T"), bytes("M"), 100, 0).unwrap();
    assert_eq!(
        l.add_milestone(bytes("A"), bytes("P1"), 0, vec![], 10),
        Err(TransitionError::Rejected(ErrorCode::InvalidTitle))
    );
    assert_eq!(
        l.add_milestone(bytes("A"), bytes("P1"), 0, bytes("d"), 0),
        Err(TransitionError::Rejected(ErrorCode::InvalidBudget))
    );
    assert!(l.milestones.is_empty());
}

#[test]
fn missing_records_refused() {
    let mut l = Ledger::new();
    assert_eq!(
        l.initialize_project(bytes("A"), bytes("P1"), bytes("T"), bytes("M"), 5, 0),
        Err(TransitionError::RecordMissing)
    );
    l.initialize_platform(bytes("A")).unwrap();
    assert_eq!(
        l.add_milestone(bytes("A"), bytes("NOPE"), 0, bytes("d"), 1),
        Err(TransitionError::RecordMissing)
    );
    assert_eq!(
        l.release_funds(bytes("A"), bytes("NOPE"), 0, bytes("u"), 0),
        Err(TransitionError::RecordMissing)
    );
}

#[test]
fn counter_overflow_aborts() {
    let mut l = Ledger {
        platform: Some(PlatformState { admin: bytes("A"), project_count: u64::MAX }),
        projects: Vec::new(),
        milestones: Vec::new(),
    };
    assert_eq!(
        l.initialize_project(bytes("A"), bytes("P1"), bytes("T"), bytes("M"), 5, 0),
        Err(TransitionError::ArithmeticOverflow)
    );
    assert_eq!(l.platform.as_ref().unwrap().project_count, u64::MAX);
}

#[test]
fn allocation_overflow_aborts() {
    let mut l = Ledger::new();
    l.initialize_platform(bytes("A")).unwrap();
    l.initialize_project(bytes("A"), bytes("P1"), bytes("T"), bytes("M"), u64::MAX, 0).unwrap();
    assert_eq!(l.add_milestone(bytes("A"), bytes("P1"), 0, bytes("d"), u64::MAX), Ok(()));
    assert_eq!(
        l.add_milestone(bytes("A"), bytes("P1"), 1, bytes("d"), 1),
        Err(TransitionError::ArithmeticOverflow)
    );
    assert_eq!(l.projects[0].total_allocated, u64::MAX);
    assert_eq!(l.milestones.len(), 1);
}

#[test]
fn milestone_count_overflow_aborts() {
    let mut l = Ledger::new();
    l.initialize_platform(bytes("A")).unwrap();
    l.initialize_project(bytes("A"), bytes("P1"), bytes("T"), bytes("M"), 1000, 0).unwrap();
    for i in 0..255u16 {
        assert_eq!(l.add_milestone(bytes("A"), bytes("P1"), i as u8, bytes("d"), 1), Ok(()));
    }
    assert_eq!(l.projects[0].milestone_count, 255);
    assert_eq!(
        l.add_milestone(bytes("A"), bytes("P1"), 255, bytes("d"), 1),
        Err(TransitionError::ArithmeticOverflow)
    );
    assert_eq!(l.milestones.len(), 255);
}

#[test]
fn capacity_caps_enforced() {
    let mut l = Ledger::new();
    l.initialize_platform(bytes("A")).unwrap();
    let long_ministry = vec![b'm'; 51];
    assert_eq!(
        l.initialize_project(bytes("A"), bytes("P1"), bytes("T"), long_ministry, 5, 0),
        Err(TransitionError::CapacityExceeded)
    );
    l.initialize_project(bytes("A"), bytes("P1"), bytes("T"), bytes("M"), 1000, 0).unwrap();
    let long_desc = vec![b'd'; 201];
    assert_eq!(
        l.add_milestone(bytes("A"), bytes("P1"), 0, long_desc, 5),
        Err(TransitionError::CapacityExceeded)
    );
    l.add_milestone(bytes("A"), bytes("P1"), 0, bytes("d"), 5).unwrap();
    let long_url = vec![b'u'; 201];
    assert_eq!(
        l.release_funds(bytes("A"), bytes("P1"), 0, long_url, 1),
        Err(TransitionError::CapacityExceeded)
    );
    assert!(!l.milestones[0].is_released);
}

#[test]
fn totals_track_milestone_sums() {
    let mut l = Ledger::new();
    l.initialize_platform(bytes("A")).unwrap();
    l.initialize_project(bytes("A"), bytes("P1"), bytes("T"), bytes("M"), 1000, 0).unwrap();
    l.initialize_project(bytes("A"), bytes("P2"), bytes("T"), bytes("M"), 500, 0).unwrap();
    l.add_milestone(bytes("A"), bytes("P1"), 0, bytes("d"), 100).unwrap();
    l.add_milestone(bytes("A"), bytes("P2"), 0, bytes("d"), 200).unwrap();
    l.add_milestone(bytes("A"), bytes("P1"), 1, bytes("d"), 300).unwrap();
    l.release_funds(bytes("A"), bytes("P1"), 1, bytes("u"), 7).unwrap();

    let sum_alloc = |id: &[u8]| -> u64 {
        l.milestones.iter().filter(|m: &&Milestone| m.project_id == id).map(|m| m.amount).sum()
    };
    let sum_rel = |id: &[u8]| -> u64 {
        l.milestones
            .iter()
            .filter(|m: &&Milestone| m.project_id == id && m.is_released)
            .map(|m| m.amount)
            .sum()
    };
    for p in &l.projects {
        assert_eq!(p.total_allocated, sum_alloc(&p.id));
        assert_eq!(p.total_released, sum_rel(&p.id));
        assert!(p.total_allocated <= p.total_budget);
        assert!(p.total_released <= p.total_allocated);
    }
    assert_eq!(l.projects[0].total_allocated, 400);
    assert_eq!(l.projects[0].total_released, 300);
    assert_eq!(l.projects[1].total_allocated, 200);
}

#[test]
fn any_signer_may_create_a_project() {
    let mut l = Ledger::new();
    l.initialize_platform(bytes("A")).unwrap();
    assert_eq!(
        l.initialize_project(bytes("NOT-ADMIN"), bytes("P1"), bytes("T"), bytes("M"), 5, 0),
        Ok(())
    );
    assert_eq!(l.projects[0].authority, bytes("NOT-ADMIN"));
}
