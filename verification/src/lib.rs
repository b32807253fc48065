//! State-transition core of an append-only public-spending ledger: a
//! platform registry counts projects, each project allocates its budget
//! to milestones, and the project's authority releases a milestone's
//! funds exactly once against a proof reference. Every handler validates
//! its inputs, keeps the conservation invariants — allocation within
//! budget, releases within allocation, totals equal to the milestone
//! sums — and mutates nothing when it fails. Record addressing, byte
//! layouts and the record store of the host runtime are modeled and
//! verified alongside the handlers.

pub mod add_milestone;
pub mod address;
pub mod errors;
pub mod initialize_platform;
pub mod initialize_project;
pub mod laws;
pub mod layout;
pub mod ledger;
pub mod release_funds;
pub mod state;
