use openbudget::address::milestone_address;
use openbudget::address::platform_address;
use openbudget::address::project_address;

fn bytes(s: &str) -> Vec<u8> {
    s.as_bytes().to_vec()
}

#[test]
fn derivation_is_deterministic() {
    let program = [7u8; 32];
    let first = platform_address(&program).unwrap();
    let second = platform_address(&program).unwrap();
    assert_eq!(first, second);

    let p1 = project_address(&program, &bytes("P1")).unwrap();
    let p1_again = project_address(&program, &bytes("P1")).unwrap();
    assert_eq!(p1, p1_again);

    let m = milestone_address(&program, &bytes("P1"), 0).unwrap();
    let m_again = milestone_address(&program, &bytes("P1"), 0).unwrap();
    assert_eq!(m, m_again);
}

#[test]
fn distinct_inputs_get_distinct_addresses() {
    let program = [7u8; 32];
    let platform = platform_address(&program).unwrap();
    let p1 = project_address(&program, &bytes("P1")).unwrap();
    let p2 = project_address(&program, &bytes("P2")).unwrap();
    let m0 = milestone_address(&program, &bytes("P1"), 0).unwrap();
    let m1 = milestone_address(&program, &bytes("P1"), 1).unwrap();

    assert_ne!(p1.0, p2.0);
    assert_ne!(m0.0, m1.0);
    assert_ne!(platform.0, p1.0);
    assert_ne!(p1.0, m0.0);
}

#[test]
fn derived_address_is_not_an_input() {
    let program = [7u8; 32];
    let (addr, _bump) = platform_address(&program).unwrap();
    assert_ne!(addr, program);

    let other_program = [8u8; 32];
    let (addr2, _bump2) = platform_address(&other_program).unwrap();
    assert_ne!(addr, addr2);
}
