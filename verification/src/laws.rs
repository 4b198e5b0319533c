//! The laws the engine obeys, each proved from the state-machine spec
//! functions that the engine's contracts are stated over.

use vstd::prelude::*;
use crate::errors::AjoError;
use crate::lifecycle::{cancel_apply, cancel_error, contribute_apply, contribute_error,
    create_apply, join_apply, join_error, payout_apply, payout_error};
use crate::storage::{PayoutKey, StoreModel, in_rotation_prefix};
use crate::types::Address;
use crate::utils::{all_contributed, params_error};

verus! {

/// A group created with valid parameters starts with the creator as its only
/// member, the cycle counter at 1, and both terminal flags off — so reading
/// it back right after creation returns exactly that group.
pub proof fn lemma_created_group_initial_state(
    s: StoreModel,
    creator: Address,
    amount: i128,
    duration: u64,
    max_members: u32,
    now: u64,
)
    requires
        params_error(amount, duration, max_members) is None,
    ensures
        ({
            let id = (s.counter + 1) as u64;
            let t = create_apply(s, creator, amount, duration, max_members, now);
            &&& t.groups.contains_key(id)
            &&& t.groups[id].members =~= seq![creator]
            &&& t.groups[id].creator == creator
            &&& t.groups[id].contribution_amount == amount
            &&& t.groups[id].current_cycle == 1
            &&& !t.groups[id].is_complete
            &&& !t.groups[id].is_cancelled
        }),
{
}

/// A group stored in a well-formed store never holds more members than its
/// cap allows.
pub proof fn lemma_members_within_cap(s: StoreModel, group_id: u64)
    requires
        s.wf(),
        s.groups.contains_key(group_id),
    ensures
        s.groups[group_id].members.len() <= s.groups[group_id].max_members,
{
}

/// Joining a live group that already holds as many members as its cap is
/// rejected with `GroupFull`.
pub proof fn lemma_join_beyond_cap_fails(s: StoreModel, member: Address, group_id: u64)
    requires
        s.groups.contains_key(group_id),
        !s.groups[group_id].is_complete,
        !s.groups[group_id].members.contains(member),
        s.groups[group_id].members.len() >= s.groups[group_id].max_members,
    ensures
        join_error(s, member, group_id) == Some(AjoError::GroupFull),
{
}

/// A second contribution by the same member in the same cycle always fails
/// with `AlreadyContributed`; that the rejected call leaves the ledger
/// unchanged is part of `contribute`'s own contract.
pub proof fn lemma_second_contribution_rejected(s: StoreModel, member: Address, group_id: u64)
    requires
        contribute_error(s, member, group_id) is None,
    ensures
        contribute_error(contribute_apply(s, member, group_id), member, group_id) == Some(
            AjoError::AlreadyContributed,
        ),
{
}

/// A payout of a live group succeeds exactly when every member has
/// contributed for the current cycle. Which member is paid, and how much, is
/// pinned by `execute_payout`'s contract: the member at index
/// `current_cycle - 1`, and the contribution amount times the member count.
pub proof fn lemma_payout_iff_all_contributed(s: StoreModel, group_id: u64)
    requires
        s.groups.contains_key(group_id),
        !s.groups[group_id].is_complete,
    ensures
        payout_error(s, group_id) is None <==> all_contributed(
            s,
            s.groups[group_id],
            s.groups[group_id].current_cycle,
        ),
{
}

/// The payout of the rotation's last cycle — the `members.len()`-th
/// successful payout — marks the group complete.
pub proof fn lemma_final_payout_completes(s: StoreModel, group_id: u64, now: u64)
    requires
        s.groups.contains_key(group_id),
        s.groups[group_id].current_cycle == s.groups[group_id].members.len(),
    ensures
        payout_apply(s, group_id, now).groups[group_id].is_complete,
{
}

/// Once a group is terminal, no mutation succeeds: join, contribution, and
/// payout are all rejected with `GroupComplete`.
pub proof fn lemma_terminal_group_rejects(s: StoreModel, member: Address, group_id: u64)
    requires
        s.groups.contains_key(group_id),
        s.groups[group_id].is_complete,
    ensures
        join_error(s, member, group_id) == Some(AjoError::GroupComplete),
        contribute_error(s, member, group_id) == Some(AjoError::GroupComplete),
        payout_error(s, group_id) == Some(AjoError::GroupComplete),
{
}

/// In a well-formed store, a group that completed its rotation (and was not
/// cancelled) has paid every one of its members: one payout per member, as
/// many payouts as members.
pub proof fn lemma_complete_group_paid_everyone(s: StoreModel, group_id: u64)
    requires
        s.wf(),
        s.groups.contains_key(group_id),
        s.groups[group_id].is_complete,
        !s.groups[group_id].is_cancelled,
    ensures
        forall|i: int|
            0 <= i < s.groups[group_id].members.len() ==> #[trigger] s.payouts.contains(
                PayoutKey(group_id, s.groups[group_id].members[i]),
            ),
{
    let g = s.groups[group_id];
    assert(g.current_cycle == g.members.len() + 1);
    assert forall|i: int| 0 <= i < g.members.len() implies s.payouts.contains(
        PayoutKey(group_id, g.members[i]),
    ) by {
        assert(in_rotation_prefix(g.members, g.current_cycle - 1, g.members[i]));
    }
}

/// In a well-formed store, the set of members a group has paid numbers
/// exactly `current_cycle - 1`: the cycle counter counts the payouts already
/// executed, plus one, so completion arrives after exactly `members.len()`
/// successful payouts.
pub proof fn lemma_cycle_counts_payouts(s: StoreModel, group_id: u64)
    requires
        s.wf(),
        s.groups.contains_key(group_id),
    ensures
        Set::new(|m: Address| s.payouts.contains(PayoutKey(group_id, m))).len() == s.groups[group_id].current_cycle
            - 1,
{
    let g = s.groups[group_id];
    let c = g.current_cycle as int;
    let paid = Set::new(|m: Address| s.payouts.contains(PayoutKey(group_id, m)));
    let prefix = g.members.take(c - 1);
    assert forall|m: Address| paid.contains(m) <==> prefix.to_set().contains(m) by {
        assert(s.payouts.contains(PayoutKey(group_id, m)) <==> in_rotation_prefix(
            g.members,
            c - 1,
            m,
        ));
        assert(in_rotation_prefix(g.members, c - 1, m) <==> prefix.contains(m)) by {
            if in_rotation_prefix(g.members, c - 1, m) {
                let i = choose|i: int|
                    0 <= i < c - 1 && i < g.members.len() && g.members[i] == m;
                assert(prefix[i] == m);
            }
            if prefix.contains(m) {
                let i = choose|i: int| 0 <= i < prefix.len() && prefix[i] == m;
                assert(g.members[i] == m);
            }
        }
    }
    assert(paid =~= prefix.to_set());
    assert(prefix.no_duplicates());
    prefix.unique_seq_to_set();
}

/// Only the creator may cancel, and only before the group is terminal: any
/// other caller is rejected with `Unauthorized` whatever the group's state;
/// the creator succeeds exactly while the group is live, and afterwards gets
/// `GroupComplete` — an already-cancelled group reports that same guard, not
/// a distinct error.
pub proof fn lemma_cancel_authorization(s: StoreModel, caller: Address, group_id: u64)
    requires
        s.groups.contains_key(group_id),
    ensures
        caller != s.groups[group_id].creator ==> cancel_error(s, caller, group_id) == Some(
            AjoError::Unauthorized,
        ),
        caller == s.groups[group_id].creator && !s.groups[group_id].is_complete ==> cancel_error(
            s,
            caller,
            group_id,
        ) is None,
        caller == s.groups[group_id].creator && s.groups[group_id].is_complete ==> cancel_error(
            s,
            caller,
            group_id,
        ) == Some(AjoError::GroupComplete),
{
}

/// Cancellation is terminal and irrevocable: it sets both flags at once.
pub proof fn lemma_cancel_sets_terminal_flags(s: StoreModel, group_id: u64)
    requires
        s.groups.contains_key(group_id),
    ensures
        cancel_apply(s, group_id).groups[group_id].is_complete,
        cancel_apply(s, group_id).groups[group_id].is_cancelled,
{
}

/// A ledger record, once written, is never unset: every transition leaves
/// the set of contribution records and the set of payout records intact or
/// grows it. Contributions recorded for a cancelled group's interrupted
/// cycle therefore stay in the ledger.
pub proof fn lemma_records_never_unset(
    s: StoreModel,
    member: Address,
    caller: Address,
    group_id: u64,
    amount: i128,
    duration: u64,
    max_members: u32,
    now: u64,
)
    ensures
        s.contributions.subset_of(
            create_apply(s, caller, amount, duration, max_members, now).contributions,
        ),
        s.contributions.subset_of(join_apply(s, member, group_id).contributions),
        s.contributions.subset_of(contribute_apply(s, member, group_id).contributions),
        s.contributions.subset_of(payout_apply(s, group_id, now).contributions),
        s.contributions.subset_of(cancel_apply(s, group_id).contributions),
        s.payouts.subset_of(create_apply(s, caller, amount, duration, max_members, now).payouts),
        s.payouts.subset_of(join_apply(s, member, group_id).payouts),
        s.payouts.subset_of(contribute_apply(s, member, group_id).payouts),
        s.payouts.subset_of(payout_apply(s, group_id, now).payouts),
        s.payouts.subset_of(cancel_apply(s, group_id).payouts),
{
}

/// The cycle counter never decreases: a payout advances it by exactly one,
/// and no other mutation touches it.
pub proof fn lemma_cycle_monotonic(
    s: StoreModel,
    member: Address,
    group_id: u64,
    now: u64,
)
    requires
        s.groups.contains_key(group_id),
        s.groups[group_id].current_cycle < u32::MAX,
    ensures
        payout_apply(s, group_id, now).groups[group_id].current_cycle == s.groups[group_id].current_cycle
            + 1,
        join_apply(s, member, group_id).groups[group_id].current_cycle
            == s.groups[group_id].current_cycle,
        contribute_apply(s, member, group_id).groups[group_id].current_cycle
            == s.groups[group_id].current_cycle,
        cancel_apply(s, group_id).groups[group_id].current_cycle
            == s.groups[group_id].current_cycle,
{
}

} // verus!
