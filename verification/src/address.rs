use vstd::prelude::*;
use crate::state::bytes_clone;

verus! {

/// The address and bump the runtime derives for a program id and a seed
/// sequence, or `None` when the seeds break the runtime's limits or no
/// bump yields a valid address. A pure function of its arguments: the
/// same inputs always yield the same address, which is what lets a
/// derived address stand in for a uniqueness index.
pub uninterp spec fn derived_address(program: Seq<u8>, seeds: Seq<Seq<u8>>) -> Option<
    (Seq<u8>, u8),
>;

/// Relies on Pubkey::try_find_program_address (solana-pubkey, re-exported
/// by anchor-lang): the derived address and its bump depend on the seed
/// bytes and the program id alone; `None` comes only when the seed count
/// or a seed length breaks the limits, or in the statistically improbable
/// case that no bump yields a valid address.
#[verifier::external_body]
fn try_find_address(program_id: &[u8; 32], seeds: &Vec<Vec<u8>>) -> (r: Option<([u8; 32], u8)>)
    ensures
        r matches Some(p) ==> derived_address(program_id@, seeds.deep_view()) == Some((p.0@, p.1)),
        r is None ==> derived_address(program_id@, seeds.deep_view()) is None,
{
    let key = anchor_lang::solana_program::pubkey::Pubkey::new_from_array(*program_id);
    let seed_refs: Vec<&[u8]> = seeds.iter().map(|s| s.as_slice()).collect();
    anchor_lang::solana_program::pubkey::Pubkey::try_find_program_address(&seed_refs, &key).map(
        |p: (anchor_lang::solana_program::pubkey::Pubkey, u8)| (p.0.to_bytes(), p.1),
    )
}

/// The namespace tag of the platform record's address.
pub open spec fn platform_tag() -> Seq<u8> {
    seq![112u8, 108u8, 97u8, 116u8, 102u8, 111u8, 114u8, 109u8]
}

/// The namespace tag of a project record's address.
pub open spec fn project_tag() -> Seq<u8> {
    seq![112u8, 114u8, 111u8, 106u8, 101u8, 99u8, 116u8]
}

/// The namespace tag of a milestone record's address.
pub open spec fn milestone_tag() -> Seq<u8> {
    seq![109u8, 105u8, 108u8, 101u8, 115u8, 116u8, 111u8, 110u8, 101u8]
}

/// The seed sequence of the platform record: its namespace tag alone.
pub open spec fn platform_seeds() -> Seq<Seq<u8>> {
    seq![platform_tag()]
}

/// The seed sequence of a project record: the namespace tag and the
/// project identifier bytes.
pub open spec fn project_seeds(project_id: Seq<u8>) -> Seq<Seq<u8>> {
    seq![project_tag(), project_id]
}

/// The seed sequence of a milestone record: the namespace tag, the
/// project identifier bytes, and the single index byte.
pub open spec fn milestone_seeds(project_id: Seq<u8>, index: u8) -> Seq<Seq<u8>> {
    seq![milestone_tag(), project_id, seq![index]]
}

fn platform_tag_bytes() -> (r: Vec<u8>)
    ensures
        r@ == platform_tag(),
{
    let mut v: Vec<u8> = Vec::new();
    v.push(112);
    v.push(108);
    v.push(97);
    v.push(116);
    v.push(102);
    v.push(111);
    v.push(114);
    v.push(109);
    proof {
        assert(v@ =~= platform_tag());
    }
    v
}

fn project_tag_bytes() -> (r: Vec<u8>)
    ensures
        r@ == project_tag(),
{
    let mut v: Vec<u8> = Vec::new();
    v.push(112);
    v.push(114);
    v.push(111);
    v.push(106);
    v.push(101);
    v.push(99);
    v.push(116);
    proof {
        assert(v@ =~= project_tag());
    }
    v
}

fn milestone_tag_bytes() -> (r: Vec<u8>)
    ensures
        r@ == milestone_tag(),
{
    let mut v: Vec<u8> = Vec::new();
    v.push(109);
    v.push(105);
    v.push(108);
    v.push(101);
    v.push(115);
    v.push(116);
    v.push(111);
    v.push(110);
    v.push(101);
    proof {
        assert(v@ =~= milestone_tag());
    }
    v
}

/// Derives the address of the singleton platform record under the given
/// program id.
pub fn platform_address(program_id: &[u8; 32]) -> (r: Option<([u8; 32], u8)>)
    ensures
        r matches Some(p) ==> derived_address(program_id@, platform_seeds()) == Some((p.0@, p.1)),
        r is None ==> derived_address(program_id@, platform_seeds()) is None,
{
    let mut seeds: Vec<Vec<u8>> = Vec::new();
    seeds.push(platform_tag_bytes());
    proof {
        assert(seeds.deep_view() =~~= platform_seeds());
    }
    try_find_address(program_id, &seeds)
}

/// Derives the address of the project record carrying `project_id` under
/// the given program id.
pub fn project_address(program_id: &[u8; 32], project_id: &Vec<u8>) -> (r: Option<([u8; 32], u8)>)
    ensures
        r matches Some(p) ==> derived_address(program_id@, project_seeds(project_id@)) == Some(
            (p.0@, p.1),
        ),
        r is None ==> derived_address(program_id@, project_seeds(project_id@)) is None,
{
    let mut seeds: Vec<Vec<u8>> = Vec::new();
    seeds.push(project_tag_bytes());
    seeds.push(bytes_clone(project_id));
    proof {
        assert(seeds.deep_view() =~~= project_seeds(project_id@));
    }
    try_find_address(program_id, &seeds)
}

/// Derives the address of the milestone record keyed `(project_id, index)`
/// under the given program id.
pub fn milestone_address(program_id: &[u8; 32], project_id: &Vec<u8>, index: u8) -> (r: Option<
    ([u8; 32], u8),
>)
    ensures
        r matches Some(p) ==> derived_address(program_id@, milestone_seeds(project_id@, index))
            == Some((p.0@, p.1)),
        r is None ==> derived_address(program_id@, milestone_seeds(project_id@, index)) is None,
{
    let mut seeds: Vec<Vec<u8>> = Vec::new();
    seeds.push(milestone_tag_bytes());
    seeds.push(bytes_clone(project_id));
    let mut index_seed: Vec<u8> = Vec::new();
    index_seed.push(index);
    seeds.push(index_seed);
    proof {
        assert(seeds.deep_view() =~~= milestone_seeds(project_id@, index));
    }
    try_find_address(program_id, &seeds)
}

} // verus!
