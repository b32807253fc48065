use vstd::prelude::*;

verus! {

/// The business failures a handler reports. Each validation failure names
/// exactly one of these kinds, and a failed transition mutates nothing.
#[derive(Clone, Copy, PartialEq, Eq, Structural, Debug)]
pub enum ErrorCode {
    /// The project identifier is longer than 32 bytes.
    ProjectIdTooLong,
    /// The title is empty or longer than 100 bytes.
    InvalidTitle,
    /// A budget or milestone amount of zero.
    InvalidBudget,
    /// The milestone amount does not fit in the project's remaining budget.
    InsufficientBudget,
    /// The caller is not the recorded authority of the project.
    UnauthorizedAccess,
    /// The milestone has already been released.
    MilestoneAlreadyReleased,
}

/// The outcome classes of a whole transition, as the host runtime reports
/// them: the handler's own failures plus the record-store failures
/// (occupied or missing addresses, storage capacity) and the fatal
/// overflow class for counter or sum arithmetic that would wrap.
#[derive(Clone, Copy, PartialEq, Eq, Structural, Debug)]
pub enum TransitionError {
    /// A create targeted an address that already holds a record.
    AddressInUse,
    /// A mutation targeted an address that holds no record.
    RecordMissing,
    /// A counter or sum update would wrap; the transition aborts.
    ArithmeticOverflow,
    /// A field does not fit the record's fixed storage capacity.
    CapacityExceeded,
    /// The handler rejected the request with a business error.
    Rejected(ErrorCode),
}

} // verus!
