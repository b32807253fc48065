use openbudget::add_milestone;
use openbudget::errors::ErrorCode;
use openbudget::initialize_platform;
use openbudget::initialize_project;
use openbudget::release_funds;
use openbudget::state::PlatformState;
use openbudget::state::Project;

fn bytes(s: &str) -> Vec<u8> {
    s.as_bytes().to_vec()
}

fn sample_project() -> Project {
    Project {
        id: bytes("P1"),
        title: bytes("Roads"),
        ministry: bytes("MoT"),
        total_budget: 1000,
        total_allocated: 0,
        total_released: 0,
        milestone_count: 0,
        created_at: 0,
        authority: bytes("wallet-A"),
    }
}

#[test]
fn platform_handler_sets_admin_and_zero_counter() {
    let p = initialize_platform::handler(bytes("wallet-A"));
    assert_eq!(p.admin, bytes("wallet-A"));
    assert_eq!(p.project_count, 0);
}

#[test]
fn project_handler_validates_before_counting() {
    let mut ps = PlatformState { admin: bytes("A"), project_count: 3 };
    let long_id = vec![b'x'; 33];
    let r = initialize_project::handler(&mut ps, long_id, vec![], bytes("M"), 0, bytes("A"), 0);
    assert!(matches!(r, Err(ErrorCode::ProjectIdTooLong)));
    assert_eq!(ps.project_count, 3);

    let id32 = vec![b'x'; 32];
    let r = initialize_project::handler(&mut ps, id32.clone(), bytes("T"), bytes("M"), 7, bytes("B"), 9);
    let p = r.unwrap();
    assert_eq!(p.id, id32);
    assert_eq!(p.total_budget, 7);
    assert_eq!(p.authority, bytes("B"));
    assert_eq!(p.created_at, 9);
    assert_eq!(ps.project_count, 4);
}

#[test]
fn milestone_handler_fills_whole_budget_exactly() {
    let mut p = sample_project();
    let m = add_milestone::handler(&mut p, bytes("P1"), 0, bytes("d"), 1000).unwrap();
    assert_eq!(m.amount, 1000);
    assert!(!m.is_released);
    assert_eq!(m.released_at, None);
    assert!(m.proof_url.is_empty());
    assert_eq!(p.total_allocated, 1000);
    assert_eq!(p.milestone_count, 1);

    let r = add_milestone::handler(&mut p, bytes("P1"), 1, bytes("d"), 1);
    assert!(matches!(r, Err(ErrorCode::InsufficientBudget)));
    assert_eq!(p.total_allocated, 1000);
    assert_eq!(p.milestone_count, 1);
}

#[test]
fn release_handler_stamps_and_accumulates() {
    let mut p = sample_project();
    let mut m = add_milestone::handler(&mut p, bytes("P1"), 0, bytes("d"), 300).unwrap();
    let r = release_funds::handler(&mut m, &mut p, bytes("ipfs://q"), 77);
    assert_eq!(r, Ok(()));
    assert!(m.is_released);
    assert_eq!(m.released_at, Some(77));
    assert_eq!(m.proof_url, bytes("ipfs://q"));
    assert_eq!(p.total_released, 300);
    assert_eq!(p.total_allocated, 300);
}
