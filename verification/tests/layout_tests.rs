use openbudget::layout::decode_milestone;
use openbudget::layout::decode_platform;
use openbudget::layout::decode_project;
use openbudget::layout::encode_milestone;
use openbudget::layout::encode_platform;
use openbudget::layout::encode_project;
use openbudget::state::Milestone;
use openbudget::state::PlatformState;
use openbudget::state::Project;

fn bytes(s: &str) -> Vec<u8> {
    s.as_bytes().to_vec()
}

fn sample_project() -> Project {
    Project {
        id: bytes("P1"),
        title: bytes("Roads"),
        ministry: bytes("MoT"),
        total_budget: 1000,
        total_allocated: 400,
        total_released: 250,
        milestone_count: 2,
        created_at: -1234567890,
        authority: bytes("wallet-A"),
    }
}

#[test]
fn platform_record_round_trip() {
    let p = PlatformState { admin: bytes("wallet-A"), project_count: 42 };
    let buf = encode_platform(&p);
    assert_eq!(buf.len(), 20 + p.admin.len());
    let q = decode_platform(&buf).unwrap();
    assert_eq!(q.admin, p.admin);
    assert_eq!(q.project_count, p.project_count);
}

#[test]
fn project_record_round_trip() {
    let p = sample_project();
    let buf = encode_project(&p);
    assert_eq!(
        buf.len(),
        57 + p.id.len() + p.title.len() + p.ministry.len() + p.authority.len()
    );
    let q = decode_project(&buf).unwrap();
    assert_eq!(q.id, p.id);
    assert_eq!(q.title, p.title);
    assert_eq!(q.ministry, p.ministry);
    assert_eq!(q.total_budget, p.total_budget);
    assert_eq!(q.total_allocated, p.total_allocated);
    assert_eq!(q.total_released, p.total_released);
    assert_eq!(q.milestone_count, p.milestone_count);
    assert_eq!(q.created_at, p.created_at);
    assert_eq!(q.authority, p.authority);
}

#[test]
fn milestone_record_round_trip_unreleased() {
    let m = Milestone {
        project_id: bytes("P1"),
        index: 3,
        description: bytes("Phase1"),
        amount: 400,
        is_released: false,
        released_at: None,
        proof_url: Vec::new(),
    };
    let buf = encode_milestone(&m);
    assert_eq!(
        buf.len(),
        31 + m.project_id.len() + m.description.len() + m.proof_url.len()
    );
    let q = decode_milestone(&buf).unwrap();
    assert_eq!(q.project_id, m.project_id);
    assert_eq!(q.index, m.index);
    assert_eq!(q.description, m.description);
    assert_eq!(q.amount, m.amount);
    assert_eq!(q.is_released, m.is_released);
    assert_eq!(q.released_at, m.released_at);
    assert_eq!(q.proof_url, m.proof_url);
}

#[test]
fn milestone_record_round_trip_released() {
    let m = Milestone {
        project_id: bytes("P1"),
        index: 0,
        description: bytes("Phase1"),
        amount: 400,
        is_released: true,
        released_at: Some(-7),
        proof_url: bytes("ipfs://proof"),
    };
    let buf = encode_milestone(&m);
    let q = decode_milestone(&buf).unwrap();
    assert_eq!(q.is_released, true);
    assert_eq!(q.released_at, Some(-7));
    assert_eq!(q.proof_url, m.proof_url);
    assert_eq!(q.amount, 400);
}

#[test]
fn u64_fields_keep_extreme_values() {
    let p = PlatformState { admin: Vec::new(), project_count: u64::MAX };
    let q = decode_platform(&encode_platform(&p)).unwrap();
    assert_eq!(q.project_count, u64::MAX);
    assert!(q.admin.is_empty());

    let mut pr = sample_project();
    pr.total_budget = u64::MAX;
    pr.created_at = i64::MIN;
    let q2 = decode_project(&encode_project(&pr)).unwrap();
    assert_eq!(q2.total_budget, u64::MAX);
    assert_eq!(q2.created_at, i64::MIN);
}

#[test]
fn exact_platform_bytes() {
    let p = PlatformState { admin: vec![0xAA, 0xBB], project_count: 258 };
    let buf = encode_platform(&p);
    let mut expected = b"PLATFORM".to_vec();
    expected.extend_from_slice(&[2, 0, 0, 0]);
    expected.extend_from_slice(&[0xAA, 0xBB]);
    expected.extend_from_slice(&[2, 1, 0, 0, 0, 0, 0, 0]);
    assert_eq!(buf, expected);
}

#[test]
fn decoders_reject_malformed_buffers() {
    let p = PlatformState { admin: bytes("x"), project_count: 1 };
    let good = encode_platform(&p);

    let mut wrong_tag = good.clone();
    wrong_tag[0] ^= 0xFF;
    assert!(decode_platform(&wrong_tag).is_none());

    let truncated = good[..good.len() - 1].to_vec();
    assert!(decode_platform(&truncated).is_none());

    let mut trailing = good.clone();
    trailing.push(0);
    assert!(decode_platform(&trailing).is_none());

    assert!(decode_project(&good).is_none());
    assert!(decode_milestone(&good).is_none());

    let m = Milestone {
        project_id: bytes("P1"),
        index: 0,
        description: bytes("d"),
        amount: 1,
        is_released: false,
        released_at: None,
        proof_url: Vec::new(),
    };
    let mut bad_flag = encode_milestone(&m);
    let flag_pos = 25 + m.project_id.len() + m.description.len();
    assert_eq!(bad_flag[flag_pos], 0);
    bad_flag[flag_pos] = 9;
    assert!(decode_milestone(&bad_flag).is_none());
}
