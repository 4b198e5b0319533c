use vstd::prelude::*;
use crate::errors::AjoError;
use crate::storage;
use crate::storage::{ContribKey, PayoutKey, Store, StoreModel, empty_store_model,
    in_rotation_prefix, paid_records_match};
use crate::types::{Address, Event, Group, GroupModel};
use crate::utils;
use crate::utils::{all_contributed, params_error, payout_amount_fits};

verus! {

// ---------------------------------------------------------------------------
// The state machine, stated mathematically: for each operation, the first
// guard it fails (in the order the guards are checked), and the store it
// leaves behind when no guard fails. The executable engine below is proved
// to return exactly these errors and to effect exactly these transitions.
// ---------------------------------------------------------------------------
/// The group a successful creation stores: the creator is the sole member,
/// the cycle counter starts at 1, and both terminal flags are off.
pub open spec fn new_group_model(
    id: u64,
    creator: Address,
    amount: i128,
    duration: u64,
    max_members: u32,
    now: u64,
) -> GroupModel {
    GroupModel {
        id,
        creator,
        members: seq![creator],
        contribution_amount: amount,
        cycle_duration: duration,
        max_members,
        current_cycle: 1,
        cycle_start_time: now,
        is_complete: false,
        is_cancelled: false,
    }
}

/// The store after a successful creation: the counter advanced by one and the
/// new group filed under the new id.
pub open spec fn create_apply(
    s: StoreModel,
    creator: Address,
    amount: i128,
    duration: u64,
    max_members: u32,
    now: u64,
) -> StoreModel {
    let id = (s.counter + 1) as u64;
    StoreModel {
        counter: id,
        groups: s.groups.insert(
            id,
            new_group_model(id, creator, amount, duration, max_members, now),
        ),
        ..s
    }
}

/// The first guard a join fails: no such group, a terminal group, an address
/// that is already a member, or a group at its cap.
pub open spec fn join_error(s: StoreModel, member: Address, group_id: u64) -> Option<AjoError> {
    if !s.groups.contains_key(group_id) {
        Some(AjoError::GroupNotFound)
    } else {
        let g = s.groups[group_id];
        if g.is_complete {
            Some(AjoError::GroupComplete)
        } else if g.members.contains(member) {
            Some(AjoError::AlreadyMember)
        } else if g.members.len() >= g.max_members {
            Some(AjoError::GroupFull)
        } else {
            None
        }
    }
}

/// The store after a successful join: the member appended to the end of the
/// rotation, everything else unchanged.
pub open spec fn join_apply(s: StoreModel, member: Address, group_id: u64) -> StoreModel {
    let g = s.groups[group_id];
    StoreModel {
        groups: s.groups.insert(group_id, (GroupModel { members: g.members.push(member), ..g })),
        ..s
    }
}

/// The first guard a contribution fails: no such group, a terminal group, a
/// non-member, or a contribution already recorded for this member in the
/// current cycle.
pub open spec fn contribute_error(s: StoreModel, member: Address, group_id: u64) -> Option<
    AjoError,
> {
    if !s.groups.contains_key(group_id) {
        Some(AjoError::GroupNotFound)
    } else {
        let g = s.groups[group_id];
        if g.is_complete {
            Some(AjoError::GroupComplete)
        } else if !g.members.contains(member) {
            Some(AjoError::NotMember)
        } else if s.has_contributed(group_id, g.current_cycle, member) {
            Some(AjoError::AlreadyContributed)
        } else {
            None
        }
    }
}

/// The store after a successful contribution: exactly one record added, for
/// this member in the group's current cycle; the group record unchanged.
pub open spec fn contribute_apply(s: StoreModel, member: Address, group_id: u64) -> StoreModel {
    StoreModel {
        contributions: s.contributions.insert(
            ContribKey(group_id, s.groups[group_id].current_cycle, member),
        ),
        ..s
    }
}

/// The first guard a payout fails: no such group, a terminal group, or a
/// cycle some member has not contributed to. Payout is permissionless: no
/// caller-identity guard.
pub open spec fn payout_error(s: StoreModel, group_id: u64) -> Option<AjoError> {
    if !s.groups.contains_key(group_id) {
        Some(AjoError::GroupNotFound)
    } else {
        let g = s.groups[group_id];
        if g.is_complete {
            Some(AjoError::GroupComplete)
        } else if !all_contributed(s, g, g.current_cycle) {
            Some(AjoError::IncompleteContributions)
        } else {
            None
        }
    }
}

/// The member a payout of the group's current cycle goes to: rotation order
/// is join order, so cycle `c` pays the member at index `c - 1`.
pub open spec fn payout_recipient(s: StoreModel, group_id: u64) -> Address {
    let g = s.groups[group_id];
    g.members[g.current_cycle - 1]
}

/// The store after a successful payout: the recipient's payout record set,
/// the cycle counter advanced by exactly one, and — when the rotation has run
/// through every member — the group marked complete; otherwise the new
/// cycle's start time is recorded.
pub open spec fn payout_apply(s: StoreModel, group_id: u64, now: u64) -> StoreModel {
    let g = s.groups[group_id];
    let completing = g.current_cycle == g.members.len();
    StoreModel {
        groups: s.groups.insert(
            group_id,
            (GroupModel {
                current_cycle: (g.current_cycle + 1) as u32,
                is_complete: completing || g.is_complete,
                cycle_start_time: if completing {
                    g.cycle_start_time
                } else {
                    now
                },
                ..g
            }),
        ),
        payouts: s.payouts.insert(PayoutKey(group_id, payout_recipient(s, group_id))),
        ..s
    }
}

/// The first guard a cancellation fails: no such group, a caller other than
/// the creator, or a group already terminal (an already-cancelled group
/// reports the same completeness guard, not a distinct error).
pub open spec fn cancel_error(s: StoreModel, caller: Address, group_id: u64) -> Option<AjoError> {
    if !s.groups.contains_key(group_id) {
        Some(AjoError::GroupNotFound)
    } else {
        let g = s.groups[group_id];
        if caller != g.creator {
            Some(AjoError::Unauthorized)
        } else if g.is_complete {
            Some(AjoError::GroupComplete)
        } else {
            None
        }
    }
}

/// The store after a successful cancellation: both terminal flags set and
/// nothing else changed. Contributions already recorded for the interrupted
/// cycle stay in the ledger but are never paid out.
pub open spec fn cancel_apply(s: StoreModel, group_id: u64) -> StoreModel {
    let g = s.groups[group_id];
    StoreModel {
        groups: s.groups.insert(
            group_id,
            (GroupModel { is_complete: true, is_cancelled: true, ..g }),
        ),
        ..s
    }
}

/// Machine limits a payout must respect for the stored group: the pooled
/// total fits in an `i128`, and the cycle counter can still advance.
pub open spec fn payout_bounds(s: StoreModel, group_id: u64) -> bool {
    s.groups.contains_key(group_id) ==> {
        let g = s.groups[group_id];
        &&& payout_amount_fits(g)
        &&& g.members.len() < u32::MAX
    }
}

// ---------------------------------------------------------------------------
// Preservation of the global invariant by each transition.
// ---------------------------------------------------------------------------
proof fn lemma_create_preserves_wf(
    s: StoreModel,
    creator: Address,
    amount: i128,
    duration: u64,
    max_members: u32,
    now: u64,
)
    requires
        s.wf(),
        params_error(amount, duration, max_members) is None,
        s.counter < u64::MAX,
    ensures
        create_apply(s, creator, amount, duration, max_members, now).wf(),
{
    let t = create_apply(s, creator, amount, duration, max_members, now);
    let id = (s.counter + 1) as u64;
    let ng = new_group_model(id, creator, amount, duration, max_members, now);
    assert(ng.members.len() == 1);
    assert(ng.members[0] == creator);
    assert(ng.valid());
    assert(paid_records_match(t, id)) by {
        assert forall|m: Address| !t.payouts.contains(PayoutKey(id, m)) by {
            if t.payouts.contains(PayoutKey(id, m)) {
                assert(s.payouts.contains(PayoutKey(id, m)));
                assert(PayoutKey(id, m).0 <= s.counter);
            }
        }
    }
    assert forall|k: u64| #[trigger] t.groups.contains_key(k) && k != id implies {
        &&& t.groups[k] == s.groups[k]
        &&& paid_records_match(t, k)
    } by {
        assert(s.groups.contains_key(k));
        assert(forall|m: Address| #[trigger]
            t.payouts.contains(PayoutKey(k, m)) == s.payouts.contains(PayoutKey(k, m)));
    }
}

proof fn lemma_join_preserves_wf(s: StoreModel, member: Address, group_id: u64)
    requires
        s.wf(),
        join_error(s, member, group_id) is None,
    ensures
        join_apply(s, member, group_id).wf(),
{
    let t = join_apply(s, member, group_id);
    let g = s.groups[group_id];
    let g2 = t.groups[group_id];
    assert(g2.members == g.members.push(member));
    assert(g2.valid()) by {
        assert(g2.members[0] == g.members[0]);
        assert(forall|i: int| 0 <= i < g.members.len() ==> g2.members[i] == g.members[i]);
        assert(g2.members[g.members.len() as int] == member);
        assert(!g.members.contains(member));
        assert forall|i: int, j: int| 0 <= i < j < g2.members.len() implies g2.members[i]
            != g2.members[j] by {
            if j < g.members.len() {
                assert(g.members[i] != g.members[j]);
            } else {
                assert(g2.members[j] == member);
                assert(g.members[i] != member) by {
                    if g.members[i] == member {
                        assert(g.members.contains(member));
                    }
                }
            }
        }
    }
    assert(paid_records_match(t, group_id)) by {
        assert(g.current_cycle <= g.members.len());
        assert forall|m: Address| #[trigger] t.payouts.contains(PayoutKey(group_id, m))
            <==> in_rotation_prefix(g2.members, g2.current_cycle - 1, m) by {
            assert(t.payouts.contains(PayoutKey(group_id, m)) == s.payouts.contains(
                PayoutKey(group_id, m),
            ));
            assert(in_rotation_prefix(g.members, g.current_cycle - 1, m)
                <==> in_rotation_prefix(g2.members, g2.current_cycle - 1, m)) by {
                assert(forall|i: int|
                    0 <= i < g.members.len() ==> g2.members[i] == g.members[i]);
            }
        }
    }
    assert forall|k: u64| #[trigger] t.groups.contains_key(k) && k != group_id implies {
        &&& t.groups[k] == s.groups[k]
        &&& paid_records_match(t, k)
    } by {
        assert(s.groups.contains_key(k));
        assert(forall|m: Address| #[trigger]
            t.payouts.contains(PayoutKey(k, m)) == s.payouts.contains(PayoutKey(k, m)));
    }
}

proof fn lemma_contribute_preserves_wf(s: StoreModel, member: Address, group_id: u64)
    requires
        s.wf(),
        contribute_error(s, member, group_id) is None,
    ensures
        contribute_apply(s, member, group_id).wf(),
{
    let t = contribute_apply(s, member, group_id);
    assert(1 <= group_id <= s.counter);
    assert forall|k: u64| #[trigger] t.groups.contains_key(k) implies paid_records_match(
        t,
        k,
    ) by {
        assert(s.groups.contains_key(k));
        assert(t.groups[k] == s.groups[k]);
        assert(forall|m: Address| #[trigger]
            t.payouts.contains(PayoutKey(k, m)) == s.payouts.contains(PayoutKey(k, m)));
    }
    assert forall|c: ContribKey| #[trigger] t.contributions.contains(c) implies 1 <= c.0
        <= t.counter by {
        if c != ContribKey(group_id, s.groups[group_id].current_cycle, member) {
            assert(s.contributions.contains(c));
        }
    }
}

proof fn lemma_payout_preserves_wf(s: StoreModel, group_id: u64, now: u64)
    requires
        s.wf(),
        payout_error(s, group_id) is None,
        payout_bounds(s, group_id),
    ensures
        payout_apply(s, group_id, now).wf(),
{
    let t = payout_apply(s, group_id, now);
    let g = s.groups[group_id];
    let g2 = t.groups[group_id];
    let c = g.current_cycle as int;
    let recipient = g.members[c - 1];
    assert(!g.is_complete);
    assert(c <= g.members.len());
    assert(g2.valid());
    assert(paid_records_match(t, group_id)) by {
        assert forall|m: Address| #[trigger] t.payouts.contains(PayoutKey(group_id, m))
            <==> in_rotation_prefix(g2.members, g2.current_cycle - 1, m) by {
            assert(t.payouts.contains(PayoutKey(group_id, m)) == (s.payouts.contains(
                PayoutKey(group_id, m),
            ) || m == recipient));
            assert(s.payouts.contains(PayoutKey(group_id, m)) <==> in_rotation_prefix(
                g.members,
                c - 1,
                m,
            ));
            assert((in_rotation_prefix(g.members, c - 1, m) || m == recipient)
                <==> in_rotation_prefix(g.members, c, m)) by {
                if m == recipient {
                    assert(0 <= c - 1 < c && c - 1 < g.members.len() && g.members[c - 1] == m);
                }
            }
            assert(g2.members == g.members);
            assert(g2.current_cycle - 1 == c);
        }
    }
    assert forall|k: u64| #[trigger] t.groups.contains_key(k) && k != group_id implies {
        &&& t.groups[k] == s.groups[k]
        &&& paid_records_match(t, k)
    } by {
        assert(s.groups.contains_key(k));
        assert forall|m: Address| #[trigger] t.payouts.contains(PayoutKey(k, m)) == s.payouts.contains(
            PayoutKey(k, m),
        ) by {
            assert(PayoutKey(k, m) != PayoutKey(group_id, recipient));
        }
    }
    assert forall|p: PayoutKey| #[trigger] t.payouts.contains(p) implies 1 <= p.0 <= t.counter by {
        if p != PayoutKey(group_id, recipient) {
            assert(s.payouts.contains(p));
        }
    }
}

proof fn lemma_cancel_preserves_wf(s: StoreModel, caller: Address, group_id: u64)
    requires
        s.wf(),
        cancel_error(s, caller, group_id) is None,
    ensures
        cancel_apply(s, group_id).wf(),
{
    let t = cancel_apply(s, group_id);
    let g = s.groups[group_id];
    let g2 = t.groups[group_id];
    assert(!g.is_complete);
    assert(g.current_cycle <= g.members.len());
    assert(g2.valid());
    assert forall|k: u64| #[trigger] t.groups.contains_key(k) implies paid_records_match(
        t,
        k,
    ) by {
        assert(s.groups.contains_key(k));
        assert(forall|m: Address| #[trigger]
            t.payouts.contains(PayoutKey(k, m)) == s.payouts.contains(PayoutKey(k, m)));
        if k != group_id {
            assert(t.groups[k] == s.groups[k]);
        } else {
            assert(g2.members == g.members && g2.current_cycle == g.current_cycle);
        }
    }
}

// ---------------------------------------------------------------------------
// The engine.
// ---------------------------------------------------------------------------
/// The lifecycle engine: the store it works against and the events it has
/// emitted, in order. Every public operation loads the group, applies its
/// guards in a fixed order, and either rejects with the first failing guard —
/// touching nothing — or applies its whole effect and appends its events.
pub struct AjoLedger {
    /// The persistent state, as this transaction sees it.
    pub store: Store,
    /// Every event emitted so far, oldest first.
    pub events: Vec<Event>,
}

impl AjoLedger {
    /// The engine's invariant: the store is well-formed.
    pub open spec fn wf(self) -> bool {
        self.store.wf()
    }

    /// A fresh engine over an empty store.
    pub fn new() -> (r: AjoLedger)
        ensures
            r.wf(),
            r.store@ == empty_store_model(),
            r.events@ == Seq::<Event>::empty(),
    {
        AjoLedger { store: Store::new(), events: Vec::new() }
    }

    /// Creates a group: validates the parameters, allocates the next id,
    /// stores the group with the creator as sole member and the cycle counter
    /// at 1, and emits the `created` event. Returns the new group's id.
    pub fn create_group(
        &mut self,
        creator: Address,
        amount: i128,
        duration: u64,
        max_members: u32,
        now: u64,
    ) -> (r: Result<u64, AjoError>)
        requires
            old(self).wf(),
            old(self).store.counter < u64::MAX,
        ensures
            final(self).wf(),
            match params_error(amount, duration, max_members) {
                Some(e) => {
                    &&& r == Err::<u64, AjoError>(e)
                    &&& final(self).store@ == old(self).store@
                    &&& final(self).events@ == old(self).events@
                },
                None => {
                    let id = (old(self).store@.counter + 1) as u64;
                    &&& r == Ok::<u64, AjoError>(id)
                    &&& final(self).store@ == create_apply(
                        old(self).store@,
                        creator,
                        amount,
                        duration,
                        max_members,
                        now,
                    )
                    &&& final(self).events@ == old(self).events@.push(
                        (Event::Created { group_id: id, creator, amount, max_members }),
                    )
                },
            },
    {
        if let Err(e) = utils::validate_group_params(amount, duration, max_members) {
            return Err(e);
        }
        let id = storage::get_next_group_id(&mut self.store);
        let mut members: Vec<Address> = Vec::new();
        members.push(creator);
        let group = Group {
            id,
            creator,
            members,
            contribution_amount: amount,
            cycle_duration: duration,
            max_members,
            current_cycle: 1,
            cycle_start_time: now,
            is_complete: false,
            is_cancelled: false,
        };
        storage::store_group(&mut self.store, id, &group);
        self.events.push(Event::Created { group_id: id, creator, amount, max_members });
        proof {
            assert(group@.members =~= seq![creator]);
            assert(group@ == new_group_model(id, creator, amount, duration, max_members, now));
            assert(self.store@ == create_apply(
                old(self).store@,
                creator,
                amount,
                duration,
                max_members,
                now,
            ));
            lemma_create_preserves_wf(
                old(self).store@,
                creator,
                amount,
                duration,
                max_members,
                now,
            );
        }
        Ok(id)
    }

    /// Adds a member to an open group, at the end of the rotation, and emits
    /// the `joined` event.
    pub fn join_group(&mut self, member: Address, group_id: u64) -> (r: Result<(), AjoError>)
        requires
            old(self).wf(),
        ensures
            final(self).wf(),
            match join_error(old(self).store@, member, group_id) {
                Some(e) => {
                    &&& r == Err::<(), AjoError>(e)
                    &&& final(self).store@ == old(self).store@
                    &&& final(self).events@ == old(self).events@
                },
                None => {
                    &&& r == Ok::<(), AjoError>(())
                    &&& final(self).store@ == join_apply(old(self).store@, member, group_id)
                    &&& final(self).events@ == old(self).events@.push(
                        (Event::Joined { group_id, member }),
                    )
                },
            },
    {
        let mut group = match storage::get_group(&self.store, group_id) {
            Some(g) => g,
            None => {
                return Err(AjoError::GroupNotFound);
            },
        };
        if group.is_complete {
            return Err(AjoError::GroupComplete);
        }
        if utils::is_member(&group.members, &member) {
            return Err(AjoError::AlreadyMember);
        }
        if group.members.len() >= group.max_members as usize {
            return Err(AjoError::GroupFull);
        }
        group.members.push(member);
        storage::store_group(&mut self.store, group_id, &group);
        self.events.push(Event::Joined { group_id, member });
        proof {
            assert(self.store@ == join_apply(old(self).store@, member, group_id));
            lemma_join_preserves_wf(old(self).store@, member, group_id);
        }
        Ok(())
    }

    /// Records the caller's contribution for the group's current cycle and
    /// emits the `contrib` event. A second contribution by the same member in
    /// the same cycle is rejected, leaving the ledger unchanged.
    pub fn contribute(&mut self, member: Address, group_id: u64) -> (r: Result<(), AjoError>)
        requires
            old(self).wf(),
        ensures
            final(self).wf(),
            match contribute_error(old(self).store@, member, group_id) {
                Some(e) => {
                    &&& r == Err::<(), AjoError>(e)
                    &&& final(self).store@ == old(self).store@
                    &&& final(self).events@ == old(self).events@
                },
                None => {
                    let g = old(self).store@.groups[group_id];
                    &&& r == Ok::<(), AjoError>(())
                    &&& final(self).store@ == contribute_apply(old(self).store@, member, group_id)
                    &&& final(self).events@ == old(self).events@.push(
                        (Event::Contributed {
                            group_id,
                            cycle: g.current_cycle,
                            member,
                            amount: g.contribution_amount,
                        }),
                    )
                },
            },
    {
        let group = match storage::get_group(&self.store, group_id) {
            Some(g) => g,
            None => {
                return Err(AjoError::GroupNotFound);
            },
        };
        if group.is_complete {
            return Err(AjoError::GroupComplete);
        }
        if !utils::is_member(&group.members, &member) {
            return Err(AjoError::NotMember);
        }
        if storage::has_contributed(&self.store, group_id, group.current_cycle, &member) {
            return Err(AjoError::AlreadyContributed);
        }
        storage::store_contribution(&mut self.store, group_id, group.current_cycle, &member, true);
        self.events.push(
            Event::Contributed {
                group_id,
                cycle: group.current_cycle,
                member,
                amount: group.contribution_amount,
            },
        );
        proof {
            assert(self.store@ == contribute_apply(old(self).store@, member, group_id));
            lemma_contribute_preserves_wf(old(self).store@, member, group_id);
        }
        Ok(())
    }

    /// Pays the pooled total of the current cycle — the contribution amount
    /// times the member count — to the member whose turn it is, then advances
    /// the cycle by exactly one. Emits `payout`, then `complete` when every
    /// member has now been paid, else `cycle`. Permissionless: any caller may
    /// trigger it once contributions are complete. Returns the recipient and
    /// the amount paid.
    pub fn execute_payout(&mut self, group_id: u64, now: u64) -> (r: Result<
        (Address, i128),
        AjoError,
    >)
        requires
            old(self).wf(),
            payout_bounds(old(self).store@, group_id),
        ensures
            final(self).wf(),
            match payout_error(old(self).store@, group_id) {
                Some(e) => {
                    &&& r == Err::<(Address, i128), AjoError>(e)
                    &&& final(self).store@ == old(self).store@
                    &&& final(self).events@ == old(self).events@
                },
                None => {
                    let g = old(self).store@.groups[group_id];
                    let recipient = payout_recipient(old(self).store@, group_id);
                    let amount = (g.contribution_amount * g.members.len()) as i128;
                    let completing = g.current_cycle == g.members.len();
                    &&& r == Ok::<(Address, i128), AjoError>((recipient, amount))
                    &&& final(self).store@ == payout_apply(old(self).store@, group_id, now)
                    &&& final(self).events@ == old(self).events@.push(
                        (Event::PayoutExecuted {
                            group_id,
                            cycle: g.current_cycle,
                            recipient,
                            amount,
                        }),
                    ).push(
                        if completing {
                            (Event::Completed { group_id })
                        } else {
                            (Event::CycleAdvanced {
                                group_id,
                                new_cycle: (g.current_cycle + 1) as u32,
                                cycle_start_time: now,
                            })
                        },
                    )
                },
            },
    {
        let group = match storage::get_group(&self.store, group_id) {
            Some(g) => g,
            None => {
                return Err(AjoError::GroupNotFound);
            },
        };
        if group.is_complete {
            return Err(AjoError::GroupComplete);
        }
        if !utils::all_members_contributed(&self.store, &group) {
            return Err(AjoError::IncompleteContributions);
        }
        let cycle = group.current_cycle;
        let recipient = group.members[(cycle - 1) as usize];
        let amount = utils::calculate_payout_amount(&group);
        let completing = (cycle as usize) == group.members.len();
        storage::mark_payout_received(&mut self.store, group_id, &recipient);
        let mut group = group;
        group.current_cycle = cycle + 1;
        if completing {
            group.is_complete = true;
        } else {
            group.cycle_start_time = now;
        }
        storage::store_group(&mut self.store, group_id, &group);
        self.events.push(Event::PayoutExecuted { group_id, cycle, recipient, amount });
        if completing {
            self.events.push(Event::Completed { group_id });
        } else {
            self.events.push(
                Event::CycleAdvanced { group_id, new_cycle: cycle + 1, cycle_start_time: now },
            );
        }
        proof {
            assert(self.store@ == payout_apply(old(self).store@, group_id, now));
            lemma_payout_preserves_wf(old(self).store@, group_id, now);
        }
        Ok((recipient, amount))
    }

    /// Cancels an open group: only the creator may cancel, and only while the
    /// group is not yet terminal. Sets both terminal flags; every later join,
    /// contribution, or payout is rejected with `GroupComplete`.
    pub fn cancel_group(&mut self, caller: Address, group_id: u64) -> (r: Result<(), AjoError>)
        requires
            old(self).wf(),
        ensures
            final(self).wf(),
            match cancel_error(old(self).store@, caller, group_id) {
                Some(e) => {
                    &&& r == Err::<(), AjoError>(e)
                    &&& final(self).store@ == old(self).store@
                    &&& final(self).events@ == old(self).events@
                },
                None => {
                    &&& r == Ok::<(), AjoError>(())
                    &&& final(self).store@ == cancel_apply(old(self).store@, group_id)
                    &&& final(self).events@ == old(self).events@
                },
            },
    {
        let mut group = match storage::get_group(&self.store, group_id) {
            Some(g) => g,
            None => {
                return Err(AjoError::GroupNotFound);
            },
        };
        if caller != group.creator {
            return Err(AjoError::Unauthorized);
        }
        if group.is_complete {
            return Err(AjoError::GroupComplete);
        }
        group.is_complete = true;
        group.is_cancelled = true;
        storage::store_group(&mut self.store, group_id, &group);
        proof {
            assert(self.store@ == cancel_apply(old(self).store@, group_id));
            lemma_cancel_preserves_wf(old(self).store@, caller, group_id);
        }
        Ok(())
    }

    /// Reads a group; fails with `GroupNotFound` when no record exists.
    pub fn get_group(&self, group_id: u64) -> (r: Result<Group, AjoError>)
        ensures
            match r {
                Ok(g) => self.store@.groups.contains_key(group_id) && g@
                    == self.store@.groups[group_id],
                Err(e) => e == AjoError::GroupNotFound && !self.store@.groups.contains_key(
                    group_id,
                ),
            },
    {
        match storage::get_group(&self.store, group_id) {
            Some(g) => Ok(g),
            None => Err(AjoError::GroupNotFound),
        }
    }

    /// Reads a group's terminal flag; fails with `GroupNotFound` when no
    /// record exists.
    pub fn is_complete(&self, group_id: u64) -> (r: Result<bool, AjoError>)
        ensures
            match r {
                Ok(b) => self.store@.groups.contains_key(group_id) && b
                    == self.store@.groups[group_id].is_complete,
                Err(e) => e == AjoError::GroupNotFound && !self.store@.groups.contains_key(
                    group_id,
                ),
            },
    {
        match storage::get_group(&self.store, group_id) {
            Some(g) => Ok(g.is_complete),
            None => Err(AjoError::GroupNotFound),
        }
    }
}

} // verus!
