use vstd::prelude::*;
use crate::errors::AjoError;
use crate::storage::{ContribKey, Store, StoreModel};
use crate::types::{Address, Group, GroupModel};

verus! {

/// Every member of the group has a contribution record for the given cycle.
pub open spec fn all_contributed(s: StoreModel, g: GroupModel, cycle: u32) -> bool {
    forall|i: int|
        0 <= i < g.members.len() ==> #[trigger] s.contributions.contains(
            ContribKey(g.id, cycle, g.members[i]),
        )
}

/// Checks whether an address is a member of the group.
pub fn is_member(members: &Vec<Address>, address: &Address) -> (r: bool)
    ensures
        r == members@.contains(*address),
{
    let mut i: usize = 0;
    while i < members.len()
        invariant
            i <= members.len(),
            forall|j: int| 0 <= j < i ==> members@[j] != *address,
        decreases members.len() - i,
    {
        if members[i] == *address {
            return true;
        }
        i += 1;
    }
    false
}

/// Checks whether every member has contributed for the group's current
/// cycle; stops at the first member who has not.
pub fn all_members_contributed(store: &Store, group: &Group) -> (r: bool)
    ensures
        r == all_contributed(store@, group@, group@.current_cycle),
{
    let mut i: usize = 0;
    while i < group.members.len()
        invariant
            i <= group.members.len(),
            forall|j: int|
                0 <= j < i ==> #[trigger] store@.contributions.contains(
                    ContribKey(group@.id, group@.current_cycle, group@.members[j]),
                ),
        decreases group.members.len() - i,
    {
        if !crate::storage::has_contributed(
            store,
            group.id,
            group.current_cycle,
            &group.members[i],
        ) {
            return false;
        }
        i += 1;
    }
    true
}

/// The product of the contribution amount and the member count stays within
/// the signed 128-bit range.
pub open spec fn payout_amount_fits(g: GroupModel) -> bool {
    i128::MIN <= g.contribution_amount * g.members.len() <= i128::MAX
}

/// The total paid out in one cycle: the fixed contribution amount times the
/// member count. The caller must rule out overflow rather than let the
/// product wrap.
pub fn calculate_payout_amount(group: &Group) -> (r: i128)
    requires
        payout_amount_fits(group@),
    ensures
        r == group@.contribution_amount * group@.members.len(),
{
    let member_count = group.members.len() as i128;
    group.contribution_amount * member_count
}

/// The first rejection, if any, that the group-creation parameters earn, in
/// the order the guards are checked: a zero amount, a negative amount, a
/// zero duration, a cap below two.
pub open spec fn params_error(amount: i128, duration: u64, max_members: u32) -> Option<AjoError> {
    if amount == 0 {
        Some(AjoError::ContributionAmountZero)
    } else if amount < 0 {
        Some(AjoError::ContributionAmountNegative)
    } else if duration == 0 {
        Some(AjoError::CycleDurationZero)
    } else if max_members < 2 {
        Some(AjoError::MaxMembersBelowMinimum)
    } else {
        None
    }
}

/// Checks group parameters before creation: the contribution amount must be
/// strictly positive, the cycle duration strictly positive, and the member
/// cap at least two. Pure: no state is read or written.
pub fn validate_group_params(amount: i128, duration: u64, max_members: u32) -> (r: Result<
    (),
    AjoError,
>)
    ensures
        r == match params_error(amount, duration, max_members) {
            Some(e) => Err::<(), AjoError>(e),
            None => Ok::<(), AjoError>(()),
        },
        r is Ok <==> amount > 0 && duration > 0 && max_members >= 2,
{
    if amount == 0 {
        return Err(AjoError::ContributionAmountZero);
    } else if amount < 0 {
        return Err(AjoError::ContributionAmountNegative);
    }
    if duration == 0 {
        return Err(AjoError::CycleDurationZero);
    }
    if max_members < 2 {
        return Err(AjoError::MaxMembersBelowMinimum);
    }
    Ok(())
}

} // verus!
