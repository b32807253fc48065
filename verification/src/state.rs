use vstd::prelude::*;

verus! {

/// Storage cap of a project identifier, in bytes.
pub const MAX_PROJECT_ID_LEN: usize = 32;
/// Storage cap of a project title, in bytes.
pub const MAX_TITLE_LEN: usize = 100;
/// Storage cap of a ministry name, in bytes.
pub const MAX_MINISTRY_LEN: usize = 50;
/// Storage cap of a milestone description, in bytes.
pub const MAX_DESCRIPTION_LEN: usize = 200;
/// Storage cap of a proof reference, in bytes.
pub const MAX_PROOF_URL_LEN: usize = 200;

/// The singleton platform record: the admin that created the platform and a
/// monotone counter of the projects created under it.
pub struct PlatformState {
    /// Identity of the account that created the platform.
    pub admin: Vec<u8>,
    /// Number of projects ever created; never decreases.
    pub project_count: u64,
}

/// A spending project: immutable identity and budget, plus the running
/// allocation and release totals its milestones feed.
pub struct Project {
    /// Identifier, at most 32 bytes, fixed at creation.
    pub id: Vec<u8>,
    /// Title, 1 to 100 bytes.
    pub title: Vec<u8>,
    /// Ministry name, at most 50 bytes; free form.
    pub ministry: Vec<u8>,
    /// Total budget, fixed at creation, greater than zero.
    pub total_budget: u64,
    /// Sum of the amounts of all milestones ever created under the project.
    pub total_allocated: u64,
    /// Sum of the amounts of the milestones already released.
    pub total_released: u64,
    /// Number of milestones created under the project.
    pub milestone_count: u8,
    /// Ledger time of creation.
    pub created_at: i64,
    /// Identity allowed to add milestones and release funds.
    pub authority: Vec<u8>,
}

/// A milestone under a project: a fixed amount that is released at most once.
pub struct Milestone {
    /// Identifier of the parent project (a copy, for lookup and display).
    pub project_id: Vec<u8>,
    /// Caller-assigned position, unique per project by address collision.
    pub index: u8,
    /// Description, 1 to 200 bytes.
    pub description: Vec<u8>,
    /// Amount allocated to the milestone, fixed at creation, greater than zero.
    pub amount: u64,
    /// Whether the funds were released; goes false to true exactly once.
    pub is_released: bool,
    /// Ledger time of the release; absent until then.
    pub released_at: Option<i64>,
    /// Opaque proof reference; empty until the release sets it.
    pub proof_url: Vec<u8>,
}

impl Project {
    /// Well-formedness of a project record: the field caps and the budget
    /// conservation bounds, which hold at all times.
    pub open spec fn wf(self) -> bool {
        &&& self.id@.len() <= MAX_PROJECT_ID_LEN
        &&& 1 <= self.title@.len() <= MAX_TITLE_LEN
        &&& self.ministry@.len() <= MAX_MINISTRY_LEN
        &&& self.total_budget > 0
        &&& self.total_allocated <= self.total_budget
        &&& self.total_released <= self.total_allocated
    }
}

impl Milestone {
    /// Well-formedness of a milestone record: the field caps, and the
    /// release fields present exactly when the milestone is released.
    pub open spec fn wf(self) -> bool {
        &&& self.project_id@.len() <= MAX_PROJECT_ID_LEN
        &&& 1 <= self.description@.len() <= MAX_DESCRIPTION_LEN
        &&& self.amount > 0
        &&& self.proof_url@.len() <= MAX_PROOF_URL_LEN
        &&& (self.is_released <==> self.released_at is Some)
        &&& (!self.is_released ==> self.proof_url@.len() == 0)
    }
}

/// Compares two byte strings for equality; the identity and key comparison
/// every authorization and lookup goes through.
pub fn bytes_eq(a: &Vec<u8>, b: &Vec<u8>) -> (r: bool)
    ensures
        r == (a@ == b@),
{
    if a.len() != b.len() {
        return false;
    }
    let mut i: usize = 0;
    while i < a.len()
        invariant
            i <= a.len(),
            a.len() == b.len(),
            forall|j: int| 0 <= j < i ==> a@[j] == b@[j],
        decreases a.len() - i,
    {
        if a[i] != b[i] {
            return false;
        }
        i += 1;
    }
    proof {
        assert(a@ =~= b@);
    }
    true
}

/// Copies a byte string; record creation stores copies of caller-supplied
/// keys.
pub fn bytes_clone(v: &Vec<u8>) -> (r: Vec<u8>)
    ensures
        r@ == v@,
{
    let mut r: Vec<u8> = Vec::new();
    let mut i: usize = 0;
    while i < v.len()
        invariant
            i <= v.len(),
            r@ =~= v@.subrange(0, i as int),
        decreases v.len() - i,
    {
        r.push(v[i]);
        i += 1;
    }
    proof {
        assert(r@ =~= v@);
    }
    r
}

} // verus!
