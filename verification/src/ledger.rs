use vstd::prelude::*;
use crate::errors::ErrorCode;
use crate::errors::TransitionError;
use crate::state::MAX_DESCRIPTION_LEN;
use crate::state::MAX_MINISTRY_LEN;
use crate::state::MAX_PROOF_URL_LEN;
use crate::state::Milestone;
use crate::state::PlatformState;
use crate::state::Project;
use crate::state::bytes_eq;

verus! {

/// Index of a project record carrying `id`, or `None` when no record does.
pub open spec fn proj_idx(s: Seq<Project>, id: Seq<u8>) -> Option<int>
    decreases s.len(),
{
    if s.len() == 0 {
        None
    } else if s.last().id@ == id {
        Some(s.len() - 1)
    } else {
        proj_idx(s.drop_last(), id)
    }
}

/// Index of a milestone record keyed `(id, index)`, or `None` when no
/// record is.
pub open spec fn mile_idx(s: Seq<Milestone>, id: Seq<u8>, index: u8) -> Option<int>
    decreases s.len(),
{
    if s.len() == 0 {
        None
    } else if s.last().project_id@ == id && s.last().index == index {
        Some(s.len() - 1)
    } else {
        mile_idx(s.drop_last(), id, index)
    }
}

/// What one milestone contributes to its project's allocation total.
pub open spec fn alloc_part(m: Milestone, id: Seq<u8>) -> int {
    if m.project_id@ == id {
        m.amount as int
    } else {
        0
    }
}

/// What one milestone contributes to its project's released total.
pub open spec fn released_part(m: Milestone, id: Seq<u8>) -> int {
    if m.project_id@ == id && m.is_released {
        m.amount as int
    } else {
        0
    }
}

/// What one milestone contributes to its project's milestone count.
pub open spec fn count_part(m: Milestone, id: Seq<u8>) -> int {
    if m.project_id@ == id {
        1
    } else {
        0
    }
}

/// Sum of `amount` over all milestones under the project `id`.
pub open spec fn sum_allocated(ms: Seq<Milestone>, id: Seq<u8>) -> int
    decreases ms.len(),
{
    if ms.len() == 0 {
        0
    } else {
        sum_allocated(ms.drop_last(), id) + alloc_part(ms.last(), id)
    }
}

/// Sum of `amount` over the released milestones under the project `id`.
pub open spec fn sum_released(ms: Seq<Milestone>, id: Seq<u8>) -> int
    decreases ms.len(),
{
    if ms.len() == 0 {
        0
    } else {
        sum_released(ms.drop_last(), id) + released_part(ms.last(), id)
    }
}

/// Number of milestones under the project `id`.
pub open spec fn count_for(ms: Seq<Milestone>, id: Seq<u8>) -> int
    decreases ms.len(),
{
    if ms.len() == 0 {
        0
    } else {
        count_for(ms.drop_last(), id) + count_part(ms.last(), id)
    }
}

/// A found project index is in range and carries the id; a `None` means no
/// record carries it.
pub proof fn lemma_proj_idx_props(s: Seq<Project>, id: Seq<u8>)
    ensures
        match proj_idx(s, id) {
            Some(i) => 0 <= i < s.len() && s[i].id@ == id,
            None => forall|j: int| 0 <= j < s.len() ==> (#[trigger] s[j]).id@ != id,
        },
    decreases s.len(),
{
    if s.len() > 0 && s.last().id@ != id {
        lemma_proj_idx_props(s.drop_last(), id);
        match proj_idx(s.drop_last(), id) {
            Some(i) => {
                assert(s[i] == s.drop_last()[i]);
            },
            None => {
                assert forall|j: int| 0 <= j < s.len() implies (#[trigger] s[j]).id@ != id by {
                    if j < s.len() - 1 {
                        assert(s[j] == s.drop_last()[j]);
                    } else {
                        assert(s[j] == s.last());
                    }
                }
            },
        }
    }
}

/// When some record carries the id, the lookup finds one.
pub proof fn lemma_proj_idx_some(s: Seq<Project>, id: Seq<u8>, i: int)
    requires
        0 <= i < s.len(),
        s[i].id@ == id,
    ensures
        proj_idx(s, id) is Some,
    decreases s.len(),
{
    if s.last().id@ != id {
        lemma_proj_idx_some(s.drop_last(), id, i);
    }
}

/// A found milestone index is in range and carries the key; a `None` means
/// no record carries it.
pub proof fn lemma_mile_idx_props(s: Seq<Milestone>, id: Seq<u8>, index: u8)
    ensures
        match mile_idx(s, id, index) {
            Some(k) => 0 <= k < s.len() && s[k].project_id@ == id && s[k].index == index,
            None => forall|j: int|
                0 <= j < s.len() ==> !((#[trigger] s[j]).project_id@ == id && s[j].index == index),
        },
    decreases s.len(),
{
    if s.len() > 0 && !(s.last().project_id@ == id && s.last().index == index) {
        lemma_mile_idx_props(s.drop_last(), id, index);
        match mile_idx(s.drop_last(), id, index) {
            Some(k) => {
                assert(s[k] == s.drop_last()[k]);
            },
            None => {
                assert forall|j: int|
                    0 <= j < s.len() implies !((#[trigger] s[j]).project_id@ == id && s[j].index
                    == index) by {
                    if j < s.len() - 1 {
                        assert(s[j] == s.drop_last()[j]);
                    } else {
                        assert(s[j] == s.last());
                    }
                }
            },
        }
    }
}

/// When some record carries the key, the lookup finds one.
pub proof fn lemma_mile_idx_some(s: Seq<Milestone>, id: Seq<u8>, index: u8, k: int)
    requires
        0 <= k < s.len(),
        s[k].project_id@ == id,
        s[k].index == index,
    ensures
        mile_idx(s, id, index) is Some,
    decreases s.len(),
{
    if !(s.last().project_id@ == id && s.last().index == index) {
        lemma_mile_idx_some(s.drop_last(), id, index, k);
    }
}

/// Appending a milestone adds exactly its own contribution to each total.
pub proof fn lemma_sums_push(ms: Seq<Milestone>, m: Milestone, id: Seq<u8>)
    ensures
        sum_allocated(ms.push(m), id) == sum_allocated(ms, id) + alloc_part(m, id),
        sum_released(ms.push(m), id) == sum_released(ms, id) + released_part(m, id),
        count_for(ms.push(m), id) == count_for(ms, id) + count_part(m, id),
{
    assert(ms.push(m).drop_last() =~= ms);
    assert(ms.push(m).last() == m);
}

/// Replacing the milestone at `k` changes each total by the difference of
/// the two records' contributions.
pub proof fn lemma_sums_update(ms: Seq<Milestone>, k: int, m: Milestone, id: Seq<u8>)
    requires
        0 <= k < ms.len(),
    ensures
        sum_allocated(ms.update(k, m), id) == sum_allocated(ms, id) - alloc_part(ms[k], id)
            + alloc_part(m, id),
        sum_released(ms.update(k, m), id) == sum_released(ms, id) - released_part(ms[k], id)
            + released_part(m, id),
        count_for(ms.update(k, m), id) == count_for(ms, id) - count_part(ms[k], id) + count_part(
            m,
            id,
        ),
    decreases ms.len(),
{
    let t = ms.update(k, m);
    if k == ms.len() - 1 {
        assert(t.drop_last() =~= ms.drop_last());
        assert(t.last() == m);
    } else {
        assert(t.drop_last() =~= ms.drop_last().update(k, m));
        assert(t.last() == ms.last());
        lemma_sums_update(ms.drop_last(), k, m, id);
    }
}

/// The released total never exceeds the allocation total: each milestone
/// contributes to the released sum at most what it contributes to the
/// allocation sum.
pub proof fn lemma_released_le_allocated(ms: Seq<Milestone>, id: Seq<u8>)
    ensures
        0 <= sum_released(ms, id) <= sum_allocated(ms, id),
        0 <= count_for(ms, id),
    decreases ms.len(),
{
    if ms.len() > 0 {
        lemma_released_le_allocated(ms.drop_last(), id);
    }
}

/// An unreleased milestone's amount still fits between the released and
/// the allocation totals of its project.
pub proof fn lemma_release_fits(ms: Seq<Milestone>, k: int, id: Seq<u8>)
    requires
        0 <= k < ms.len(),
        ms[k].project_id@ == id,
        !ms[k].is_released,
    ensures
        sum_released(ms, id) + ms[k].amount <= sum_allocated(ms, id),
    decreases ms.len(),
{
    if k == ms.len() - 1 {
        lemma_released_le_allocated(ms.drop_last(), id);
    } else {
        lemma_release_fits(ms.drop_last(), k, id);
    }
}

/// When no milestone carries the id, every total for that id is zero.
pub proof fn lemma_sums_absent(ms: Seq<Milestone>, id: Seq<u8>)
    requires
        forall|j: int| 0 <= j < ms.len() ==> (#[trigger] ms[j]).project_id@ != id,
    ensures
        sum_allocated(ms, id) == 0,
        sum_released(ms, id) == 0,
        count_for(ms, id) == 0,
    decreases ms.len(),
{
    if ms.len() > 0 {
        assert(forall|j: int|
            0 <= j < ms.drop_last().len() ==> (#[trigger] ms.drop_last()[j]).project_id@ != id);
        lemma_sums_absent(ms.drop_last(), id);
    }
}

/// Under unique identifiers, the lookup returns exactly the index that
/// carries the id.
pub proof fn lemma_proj_idx_unique(s: Seq<Project>, id: Seq<u8>, i: int)
    requires
        0 <= i < s.len(),
        s[i].id@ == id,
        forall|a: int, b: int|
            #![trigger s[a], s[b]]
            0 <= a < b < s.len() ==> s[a].id@ != s[b].id@,
    ensures
        proj_idx(s, id) == Some(i),
{
    lemma_proj_idx_props(s, id);
    match proj_idx(s, id) {
        Some(i2) => {
            if i2 != i {
                assert(s[if i2 < i {
                    i2
                } else {
                    i
                }].id@ != s[if i2 < i {
                    i
                } else {
                    i2
                }].id@);
            }
        },
        None => {
            assert(s[i].id@ != id);
        },
    }
}

/// Under unique keys, the lookup returns exactly the index that carries
/// the key.
pub proof fn lemma_mile_idx_unique(s: Seq<Milestone>, id: Seq<u8>, index: u8, k: int)
    requires
        0 <= k < s.len(),
        s[k].project_id@ == id,
        s[k].index == index,
        forall|a: int, b: int|
            #![trigger s[a], s[b]]
            0 <= a < b < s.len() ==> !(s[a].project_id@ == s[b].project_id@ && s[a].index
                == s[b].index),
    ensures
        mile_idx(s, id, index) == Some(k),
{
    lemma_mile_idx_props(s, id, index);
    match mile_idx(s, id, index) {
        Some(k2) => {
            if k2 != k {
                let a = if k2 < k {
                    k2
                } else {
                    k
                };
                let b = if k2 < k {
                    k
                } else {
                    k2
                };
                assert(!(s[a].project_id@ == s[b].project_id@ && s[a].index == s[b].index));
            }
        },
        None => {
            assert(!(s[k].project_id@ == id && s[k].index == index));
        },
    }
}

/// How a successful milestone creation rewrites its project record: the
/// allocation total grows by the amount, the milestone counter by one,
/// and every other field is kept.
pub open spec fn allocation_applied(p0: Project, p1: Project, amount: u64) -> bool {
    &&& p1.id == p0.id
    &&& p1.title == p0.title
    &&& p1.ministry == p0.ministry
    &&& p1.total_budget == p0.total_budget
    &&& p1.total_allocated == p0.total_allocated + amount
    &&& p1.total_released == p0.total_released
    &&& p1.milestone_count == p0.milestone_count + 1
    &&& p1.created_at == p0.created_at
    &&& p1.authority == p0.authority
}

/// How a successful release rewrites its project record: the released
/// total grows by the amount and every other field is kept.
pub open spec fn release_applied(p0: Project, p1: Project, amount: u64) -> bool {
    &&& p1.id == p0.id
    &&& p1.title == p0.title
    &&& p1.ministry == p0.ministry
    &&& p1.total_budget == p0.total_budget
    &&& p1.total_allocated == p0.total_allocated
    &&& p1.total_released == p0.total_released + amount
    &&& p1.milestone_count == p0.milestone_count
    &&& p1.created_at == p0.created_at
    &&& p1.authority == p0.authority
}

/// How a successful release rewrites its milestone record: released once
/// and for all, stamped with the ledger time and the proof reference, and
/// every other field kept.
pub open spec fn milestone_released(m0: Milestone, m1: Milestone, proof_url: Vec<u8>, now: i64) -> bool {
    &&& m1.project_id == m0.project_id
    &&& m1.index == m0.index
    &&& m1.description == m0.description
    &&& m1.amount == m0.amount
    &&& m1.is_released == true
    &&& m1.released_at == Some(now)
    &&& m1.proof_url == proof_url
}

/// The record store a transition runs against, as the host runtime keeps
/// it: at most one platform record, and project and milestone records
/// located by the keys their derived addresses encode. Creation against an
/// occupied key and mutation against a missing one fail, which is the sole
/// existence and uniqueness mechanism.
pub struct Ledger {
    /// The singleton platform record, absent until initialized.
    pub platform: Option<PlatformState>,
    /// The project records, one per project identifier.
    pub projects: Vec<Project>,
    /// The milestone records, one per (project identifier, index) pair.
    pub milestones: Vec<Milestone>,
}

impl Ledger {
    /// The store's invariant: every record well formed, keys unique,
    /// every milestone under an existing project, and each project's
    /// totals equal to the sums over its milestones.
    pub open spec fn wf(self) -> bool {
        &&& forall|i: int|
            0 <= i < self.projects@.len() ==> (#[trigger] self.projects@[i]).wf()
        &&& forall|i: int|
            0 <= i < self.milestones@.len() ==> (#[trigger] self.milestones@[i]).wf()
        &&& forall|i: int, j: int|
            #![trigger self.projects@[i], self.projects@[j]]
            0 <= i < j < self.projects@.len() ==> self.projects@[i].id@ != self.projects@[j].id@
        &&& forall|i: int, j: int|
            #![trigger self.milestones@[i], self.milestones@[j]]
            0 <= i < j < self.milestones@.len() ==> !(self.milestones@[i].project_id@
                == self.milestones@[j].project_id@ && self.milestones@[i].index
                == self.milestones@[j].index)
        &&& forall|i: int|
            0 <= i < self.milestones@.len() ==> proj_idx(
                self.projects@,
                (#[trigger] self.milestones@[i]).project_id@,
            ) is Some
        &&& forall|i: int|
            0 <= i < self.projects@.len() ==> {
                let p = #[trigger] self.projects@[i];
                &&& p.total_allocated == sum_allocated(self.milestones@, p.id@)
                &&& p.total_released == sum_released(self.milestones@, p.id@)
                &&& p.milestone_count == count_for(self.milestones@, p.id@)
            }
    }

    /// An empty store: nothing initialized, no records.
    pub fn new() -> (r: Ledger)
        ensures
            r.wf(),
            r.platform is None,
            r.projects@.len() == 0,
            r.milestones@.len() == 0,
    {
        Ledger { platform: None, projects: Vec::new(), milestones: Vec::new() }
    }

    /// The exact outcome of a platform initialization: refused when the
    /// singleton record already exists, created otherwise.
    pub open spec fn initialize_platform_outcome(self) -> Result<(), TransitionError> {
        if self.platform is Some {
            Err(TransitionError::AddressInUse)
        } else {
            Ok(())
        }
    }

    /// The exact outcome of a project creation, in the order the checks
    /// run: occupied project address, missing platform record, the
    /// handler's input validation, the overflow-checked counter bump, and
    /// the record's ministry capacity at commit.
    pub open spec fn initialize_project_outcome(
        self,
        project_id: Seq<u8>,
        title: Seq<u8>,
        ministry: Seq<u8>,
        total_budget: u64,
    ) -> Result<(), TransitionError> {
        if proj_idx(self.projects@, project_id) is Some {
            Err(TransitionError::AddressInUse)
        } else if self.platform is None {
            Err(TransitionError::RecordMissing)
        } else {
            match crate::initialize_project::validation_error(project_id, title, total_budget) {
                Some(e) => Err(TransitionError::Rejected(e)),
                None => if self.platform->Some_0.project_count == u64::MAX {
                    Err(TransitionError::ArithmeticOverflow)
                } else if ministry.len() > MAX_MINISTRY_LEN {
                    Err(TransitionError::CapacityExceeded)
                } else {
                    Ok(())
                },
            }
        }
    }

    /// The exact outcome of a milestone creation, in the order the checks
    /// run: occupied milestone address, missing project record, the
    /// authority check, the handler's input validation with the
    /// overflow-checked allocation sum inside it, the overflow-checked
    /// milestone counter, and the record's description capacity at commit.
    pub open spec fn add_milestone_outcome(
        self,
        caller: Seq<u8>,
        project_id: Seq<u8>,
        index: u8,
        description: Seq<u8>,
        amount: u64,
    ) -> Result<(), TransitionError> {
        if mile_idx(self.milestones@, project_id, index) is Some {
            Err(TransitionError::AddressInUse)
        } else {
            match proj_idx(self.projects@, project_id) {
                None => Err(TransitionError::RecordMissing),
                Some(i) => {
                    let p = self.projects@[i];
                    if p.authority@ != caller {
                        Err(TransitionError::Rejected(ErrorCode::UnauthorizedAccess))
                    } else if description.len() == 0 {
                        Err(TransitionError::Rejected(ErrorCode::InvalidTitle))
                    } else if amount == 0 {
                        Err(TransitionError::Rejected(ErrorCode::InvalidBudget))
                    } else if p.total_allocated + amount > u64::MAX {
                        Err(TransitionError::ArithmeticOverflow)
                    } else if p.total_allocated + amount > p.total_budget {
                        Err(TransitionError::Rejected(ErrorCode::InsufficientBudget))
                    } else if p.milestone_count == u8::MAX {
                        Err(TransitionError::ArithmeticOverflow)
                    } else if description.len() > MAX_DESCRIPTION_LEN {
                        Err(TransitionError::CapacityExceeded)
                    } else {
                        Ok(())
                    }
                },
            }
        }
    }

    /// The exact outcome of a release, in the order the checks run:
    /// missing milestone record, a milestone already released, missing
    /// project record, the authority check, and the record's proof
    /// reference capacity at commit. The overflow-checked released sum
    /// never aborts: in a well-formed store an unreleased amount always
    /// fits under the allocation total.
    pub open spec fn release_funds_outcome(
        self,
        caller: Seq<u8>,
        project_id: Seq<u8>,
        index: u8,
        proof_url: Seq<u8>,
    ) -> Result<(), TransitionError> {
        match mile_idx(self.milestones@, project_id, index) {
            None => Err(TransitionError::RecordMissing),
            Some(k) => if self.milestones@[k].is_released {
                Err(TransitionError::Rejected(ErrorCode::MilestoneAlreadyReleased))
            } else {
                match proj_idx(self.projects@, project_id) {
                    None => Err(TransitionError::RecordMissing),
                    Some(i) => if self.projects@[i].authority@ != caller {
                        Err(TransitionError::Rejected(ErrorCode::UnauthorizedAccess))
                    } else if proof_url.len() > MAX_PROOF_URL_LEN {
                        Err(TransitionError::CapacityExceeded)
                    } else {
                        Ok(())
                    },
                }
            },
        }
    }

    /// Locates the project record carrying `id`.
    fn find_project(&self, id: &Vec<u8>) -> (r: Option<usize>)
        ensures
            match r {
                Some(i) => i < self.projects@.len() && self.projects@[i as int].id@ == id@,
                None => forall|j: int|
                    0 <= j < self.projects@.len() ==> (#[trigger] self.projects@[j]).id@ != id@,
            },
    {
        let mut i: usize = 0;
        while i < self.projects.len()
            invariant
                i <= self.projects@.len(),
                forall|j: int| 0 <= j < i ==> (#[trigger] self.projects@[j]).id@ != id@,
            decreases self.projects@.len() - i,
        {
            if bytes_eq(&self.projects[i].id, id) {
                return Some(i);
            }
            i += 1;
        }
        None
    }

    /// Locates the milestone record keyed `(id, index)`.
    fn find_milestone(&self, id: &Vec<u8>, index: u8) -> (r: Option<usize>)
        ensures
            match r {
                Some(k) => k < self.milestones@.len() && self.milestones@[k as int].project_id@
                    == id@ && self.milestones@[k as int].index == index,
                None => forall|j: int|
                    0 <= j < self.milestones@.len() ==> !((#[trigger] self.milestones@[j]).project_id@
                        == id@ && self.milestones@[j].index == index),
            },
    {
        let mut k: usize = 0;
        while k < self.milestones.len()
            invariant
                k <= self.milestones@.len(),
                forall|j: int|
                    0 <= j < k ==> !((#[trigger] self.milestones@[j]).project_id@ == id@
                        && self.milestones@[j].index == index),
            decreases self.milestones@.len() - k,
        {
            if self.milestones[k].index == index && bytes_eq(&self.milestones[k].project_id, id) {
                return Some(k);
            }
            k += 1;
        }
        None
    }

    /// One-time creation of the platform record; refused once it exists.
    pub fn initialize_platform(&mut self, caller: Vec<u8>) -> (r: Result<(), TransitionError>)
        requires
            old(self).wf(),
        ensures
            final (self).wf(),
            r == old(self).initialize_platform_outcome(),
            r is Err ==> *final (self) == *old(self),
            r is Ok ==> (final (self).platform matches Some(ps) && ps.admin == caller
                && ps.project_count == 0),
            r is Ok ==> final (self).projects == old(self).projects && final (self).milestones
                == old(self).milestones,
    {
        if self.platform.is_some() {
            return Err(TransitionError::AddressInUse);
        }
        self.platform = Some(crate::initialize_platform::handler(caller));
        Ok(())
    }

    /// Creates a project record at its derived address and bumps the
    /// platform's project counter; all-or-nothing: on any failure the
    /// store is left exactly as it was.
    pub fn initialize_project(
        &mut self,
        caller: Vec<u8>,
        project_id: Vec<u8>,
        title: Vec<u8>,
        ministry: Vec<u8>,
        total_budget: u64,
        now: i64,
    ) -> (r: Result<(), TransitionError>)
        requires
            old(self).wf(),
        ensures
            final (self).wf(),
            r == old(self).initialize_project_outcome(project_id@, title@, ministry@, total_budget),
            r is Err ==> *final (self) == *old(self),
            r is Ok ==> {
                &&& final (self).projects@.len() == old(self).projects@.len() + 1
                &&& forall|j: int|
                    0 <= j < old(self).projects@.len() ==> final (self).projects@[j] == old(
                        self,
                    ).projects@[j]
                &&& ({
                    let p = final (self).projects@.last();
                    &&& p.id == project_id
                    &&& p.title == title
                    &&& p.ministry == ministry
                    &&& p.total_budget == total_budget
                    &&& p.total_allocated == 0
                    &&& p.total_released == 0
                    &&& p.milestone_count == 0
                    &&& p.created_at == now
                    &&& p.authority == caller
                })
                &&& final (self).milestones == old(self).milestones
                &&& (old(self).platform matches Some(ps0) && final (self).platform matches Some(
                    ps1,
                ) && ps1.admin == ps0.admin && ps1.project_count == ps0.project_count + 1)
            },
    {
        let ghost ps0 = self.projects@;
        let ghost ms0 = self.milestones@;
        match self.find_project(&project_id) {
            Some(i) => {
                proof {
                    lemma_proj_idx_some(ps0, project_id@, i as int);
                }
                return Err(TransitionError::AddressInUse);
            },
            None => {
                proof {
                    lemma_proj_idx_props(ps0, project_id@);
                }
            },
        }
        if self.platform.is_none() {
            return Err(TransitionError::RecordMissing);
        }
        if project_id.len() > crate::state::MAX_PROJECT_ID_LEN {
            return Err(TransitionError::Rejected(ErrorCode::ProjectIdTooLong));
        }
        if title.len() == 0 || title.len() > crate::state::MAX_TITLE_LEN {
            return Err(TransitionError::Rejected(ErrorCode::InvalidTitle));
        }
        if total_budget == 0 {
            return Err(TransitionError::Rejected(ErrorCode::InvalidBudget));
        }
        match &self.platform {
            Some(ps) => {
                if ps.project_count == u64::MAX {
                    return Err(TransitionError::ArithmeticOverflow);
                }
            },
            None => {},
        }
        if ministry.len() > MAX_MINISTRY_LEN {
            return Err(TransitionError::CapacityExceeded);
        }
        let handler_result = match &mut self.platform {
            Some(ps) => crate::initialize_project::handler(
                ps,
                project_id,
                title,
                ministry,
                total_budget,
                caller,
                now,
            ),
            None => {
                return Err(TransitionError::RecordMissing);
            },
        };
        match handler_result {
            Ok(p) => {
                proof {
                    assert(forall|j: int|
                        0 <= j < ms0.len() ==> (#[trigger] ms0[j]).project_id@ != project_id@) by {
                        assert forall|j: int|
                            0 <= j < ms0.len() implies (#[trigger] ms0[j]).project_id@
                            != project_id@ by {
                            assert(proj_idx(ps0, ms0[j].project_id@) is Some);
                            lemma_proj_idx_props(ps0, ms0[j].project_id@);
                        }
                    }
                    lemma_sums_absent(ms0, project_id@);
                }
                self.projects.push(p);
                proof {
                    let ps1 = self.projects@;
                    assert(ps1 =~= ps0.push(p));
                    assert forall|j: int|
                        0 <= j < ms0.len() implies proj_idx(
                        ps1,
                        (#[trigger] ms0[j]).project_id@,
                    ) is Some by {
                        lemma_proj_idx_props(ps0, ms0[j].project_id@);
                        match proj_idx(ps0, ms0[j].project_id@) {
                            Some(w) => {
                                assert(ps1[w] == ps0[w]);
                                lemma_proj_idx_some(ps1, ms0[j].project_id@, w);
                            },
                            None => {},
                        }
                    }
                    assert(self.wf());
                }
                Ok(())
            },
            Err(e) => Err(TransitionError::Rejected(e)),
        }
    }

    /// Creates a milestone record at its derived address, commits its
    /// allocation to the project, and bumps the project's milestone
    /// counter; all-or-nothing: on any failure the store is left exactly
    /// as it was.
    pub fn add_milestone(
        &mut self,
        caller: Vec<u8>,
        project_id: Vec<u8>,
        index: u8,
        description: Vec<u8>,
        amount: u64,
    ) -> (r: Result<(), TransitionError>)
        requires
            old(self).wf(),
        ensures
            final (self).wf(),
            r == old(self).add_milestone_outcome(caller@, project_id@, index, description@, amount),
            r is Err ==> *final (self) == *old(self),
            r is Ok ==> {
                &&& final (self).milestones@.len() == old(self).milestones@.len() + 1
                &&& forall|j: int|
                    0 <= j < old(self).milestones@.len() ==> final (self).milestones@[j] == old(
                        self,
                    ).milestones@[j]
                &&& ({
                    let m = final (self).milestones@.last();
                    &&& m.project_id == project_id
                    &&& m.index == index
                    &&& m.description == description
                    &&& m.amount == amount
                    &&& m.is_released == false
                    &&& m.released_at is None
                    &&& m.proof_url@.len() == 0
                })
                &&& final (self).platform == old(self).platform
                &&& final (self).projects@.len() == old(self).projects@.len()
                &&& (proj_idx(old(self).projects@, project_id@) matches Some(i) ==> {
                    &&& forall|j: int|
                        0 <= j < old(self).projects@.len() && j != i ==> final (self).projects@[j]
                            == old(self).projects@[j]
                    &&& allocation_applied(
                        old(self).projects@[i],
                        final (self).projects@[i],
                        amount,
                    )
                })
            },
    {
        let ghost ps0 = self.projects@;
        let ghost ms0 = self.milestones@;
        match self.find_milestone(&project_id, index) {
            Some(k) => {
                proof {
                    lemma_mile_idx_some(ms0, project_id@, index, k as int);
                }
                return Err(TransitionError::AddressInUse);
            },
            None => {
                proof {
                    lemma_mile_idx_props(ms0, project_id@, index);
                }
            },
        }
        let i = match self.find_project(&project_id) {
            Some(i) => {
                proof {
                    lemma_proj_idx_unique(ps0, project_id@, i as int);
                }
                i
            },
            None => {
                proof {
                    lemma_proj_idx_props(ps0, project_id@);
                }
                return Err(TransitionError::RecordMissing);
            },
        };
        if !bytes_eq(&caller, &self.projects[i].authority) {
            return Err(TransitionError::Rejected(ErrorCode::UnauthorizedAccess));
        }
        if description.len() == 0 {
            return Err(TransitionError::Rejected(ErrorCode::InvalidTitle));
        }
        if amount == 0 {
            return Err(TransitionError::Rejected(ErrorCode::InvalidBudget));
        }
        if amount > u64::MAX - self.projects[i].total_allocated {
            return Err(TransitionError::ArithmeticOverflow);
        }
        if self.projects[i].total_allocated + amount > self.projects[i].total_budget {
            return Err(TransitionError::Rejected(ErrorCode::InsufficientBudget));
        }
        if self.projects[i].milestone_count == u8::MAX {
            return Err(TransitionError::ArithmeticOverflow);
        }
        if description.len() > MAX_DESCRIPTION_LEN {
            return Err(TransitionError::CapacityExceeded);
        }
        let mut p = self.projects.remove(i);
        let handler_result = crate::add_milestone::handler(
            &mut p,
            project_id,
            index,
            description,
            amount,
        );
        self.projects.insert(i, p);
        proof {
            assert(self.projects@ =~= ps0.update(i as int, self.projects@[i as int]));
        }
        match handler_result {
            Ok(m) => {
                self.milestones.push(m);
                proof {
                    let ps1 = self.projects@;
                    let ms1 = self.milestones@;
                    assert(ms1 =~= ms0.push(m));
                    assert forall|id: Seq<u8>| true implies {
                        &&& sum_allocated(ms1, id) == sum_allocated(ms0, id) + alloc_part(m, id)
                        &&& sum_released(ms1, id) == sum_released(ms0, id) + released_part(m, id)
                        &&& count_for(ms1, id) == count_for(ms0, id) + count_part(m, id)
                    } by {
                        lemma_sums_push(ms0, m, id);
                    }
                    assert forall|j: int|
                        0 <= j < ms1.len() implies proj_idx(
                        ps1,
                        (#[trigger] ms1[j]).project_id@,
                    ) is Some by {
                        if j < ms0.len() {
                            lemma_proj_idx_props(ps0, ms0[j].project_id@);
                            match proj_idx(ps0, ms0[j].project_id@) {
                                Some(w) => {
                                    assert(ps1[w].id@ == ps0[w].id@);
                                    lemma_proj_idx_some(ps1, ms0[j].project_id@, w);
                                },
                                None => {},
                            }
                        } else {
                            assert(ms1[j] == m);
                            assert(ps1[i as int].id@ == project_id@);
                            lemma_proj_idx_some(ps1, project_id@, i as int);
                        }
                    }
                    assert(self.wf());
                }
                Ok(())
            },
            Err(_) => {
                proof {
                    assert(false);
                }
                Err(TransitionError::RecordMissing)
            },
        }
    }

    /// Releases a milestone once and for all: stamps it with the ledger
    /// time and the proof reference and adds its amount to the project's
    /// released total; all-or-nothing: on any failure the store is left
    /// exactly as it was. The released sum is overflow-checked but can
    /// never wrap here: in a well-formed store it stays under the
    /// allocation total, which the budget already bounds.
    pub fn release_funds(
        &mut self,
        caller: Vec<u8>,
        project_id: Vec<u8>,
        index: u8,
        proof_url: Vec<u8>,
        now: i64,
    ) -> (r: Result<(), TransitionError>)
        requires
            old(self).wf(),
        ensures
            final (self).wf(),
            r == old(self).release_funds_outcome(caller@, project_id@, index, proof_url@),
            r is Err ==> *final (self) == *old(self),
            r is Ok ==> {
                &&& final (self).platform == old(self).platform
                &&& final (self).milestones@.len() == old(self).milestones@.len()
                &&& final (self).projects@.len() == old(self).projects@.len()
                &&& (mile_idx(old(self).milestones@, project_id@, index) matches Some(k) ==> {
                    &&& forall|j: int|
                        0 <= j < old(self).milestones@.len() && j != k ==> final (self).milestones@[j]
                            == old(self).milestones@[j]
                    &&& milestone_released(
                        old(self).milestones@[k],
                        final (self).milestones@[k],
                        proof_url,
                        now,
                    )
                })
                &&& (mile_idx(old(self).milestones@, project_id@, index) matches Some(k)
                    && proj_idx(old(self).projects@, project_id@) matches Some(i) ==> {
                    &&& forall|j: int|
                        0 <= j < old(self).projects@.len() && j != i ==> final (self).projects@[j]
                            == old(self).projects@[j]
                    &&& release_applied(
                        old(self).projects@[i],
                        final (self).projects@[i],
                        old(self).milestones@[k].amount,
                    )
                })
            },
    {
        let ghost ps0 = self.projects@;
        let ghost ms0 = self.milestones@;
        let k = match self.find_milestone(&project_id, index) {
            Some(k) => {
                proof {
                    lemma_mile_idx_unique(ms0, project_id@, index, k as int);
                }
                k
            },
            None => {
                proof {
                    lemma_mile_idx_props(ms0, project_id@, index);
                }
                return Err(TransitionError::RecordMissing);
            },
        };
        if self.milestones[k].is_released {
            return Err(TransitionError::Rejected(ErrorCode::MilestoneAlreadyReleased));
        }
        let i = match self.find_project(&project_id) {
            Some(i) => {
                proof {
                    lemma_proj_idx_unique(ps0, project_id@, i as int);
                }
                i
            },
            None => {
                proof {
                    lemma_proj_idx_props(ps0, project_id@);
                }
                return Err(TransitionError::RecordMissing);
            },
        };
        if !bytes_eq(&caller, &self.projects[i].authority) {
            return Err(TransitionError::Rejected(ErrorCode::UnauthorizedAccess));
        }
        if proof_url.len() > MAX_PROOF_URL_LEN {
            return Err(TransitionError::CapacityExceeded);
        }
        let mut m = self.milestones.remove(k);
        let mut p = self.projects.remove(i);
        proof {
            lemma_release_fits(ms0, k as int, project_id@);
        }
        let handler_result = crate::release_funds::handler(&mut m, &mut p, proof_url, now);
        self.milestones.insert(k, m);
        self.projects.insert(i, p);
        proof {
            let ps1 = self.projects@;
            let ms1 = self.milestones@;
            assert(ms1 =~= ms0.update(k as int, ms1[k as int]));
            assert(ps1 =~= ps0.update(i as int, ps1[i as int]));
            let mk = ms1[k as int];
            assert forall|id: Seq<u8>| true implies {
                &&& sum_allocated(ms1, id) == sum_allocated(ms0, id) - alloc_part(
                    ms0[k as int],
                    id,
                ) + alloc_part(mk, id)
                &&& sum_released(ms1, id) == sum_released(ms0, id) - released_part(
                    ms0[k as int],
                    id,
                ) + released_part(mk, id)
                &&& count_for(ms1, id) == count_for(ms0, id) - count_part(ms0[k as int], id)
                    + count_part(mk, id)
            } by {
                lemma_sums_update(ms0, k as int, mk, id);
            }
            assert forall|j: int|
                0 <= j < ms1.len() implies proj_idx(
                ps1,
                (#[trigger] ms1[j]).project_id@,
            ) is Some by {
                assert(ms1[j].project_id@ == ms0[j].project_id@);
                lemma_proj_idx_props(ps0, ms0[j].project_id@);
                match proj_idx(ps0, ms0[j].project_id@) {
                    Some(w) => {
                        assert(ps1[w].id@ == ps0[w].id@);
                        lemma_proj_idx_some(ps1, ms0[j].project_id@, w);
                    },
                    None => {},
                }
            }
            assert(self.wf());
        }
        match handler_result {
            Ok(_) => Ok(()),
            Err(_) => {
                proof {
                    assert(false);
                }
                Err(TransitionError::RecordMissing)
            },
        }
    }
}

} // verus!
