use vstd::prelude::*;

verus! {

/// Business-rule rejections surfaced synchronously by every operation.
///
/// All of these are non-retryable rejections, never transient failures: an
/// operation that returns one of them has made no state change at all.
#[derive(Clone, Copy, Debug, PartialEq, Eq, Structural)]
pub enum AjoError {
    /// Group creation was given a contribution amount of zero.
    ContributionAmountZero,
    /// Group creation was given a negative contribution amount.
    ContributionAmountNegative,
    /// Group creation was given a cycle duration of zero seconds.
    CycleDurationZero,
    /// Group creation was given a member cap below two.
    MaxMembersBelowMinimum,
    /// No group is stored under the given id.
    GroupNotFound,
    /// The joining address is already a member of the group.
    AlreadyMember,
    /// The group already holds as many members as its cap allows.
    GroupFull,
    /// The contributing address is not a member of the group.
    NotMember,
    /// The group is terminal (completed or cancelled); no mutation succeeds.
    GroupComplete,
    /// The member already contributed in the current cycle.
    AlreadyContributed,
    /// Not every member has contributed in the current cycle yet.
    IncompleteContributions,
    /// The caller is not the group's creator.
    Unauthorized,
}

} // verus!
