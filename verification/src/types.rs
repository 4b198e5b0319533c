use vstd::prelude::*;

verus! {

/// A participant's identity, as handed over by the host's authentication
/// layer. The engine performs no cryptographic checks itself: it trusts the
/// address once the host has verified that the caller authorized the call.
#[derive(Clone, Copy, Debug, PartialEq, Eq, Structural)]
pub struct Address {
    pub id: u64,
}

/// One rotating-savings circle.
#[derive(Debug, PartialEq, Eq)]
pub struct Group {
    /// Assigned once at creation; immutable, unique, monotonically increasing.
    pub id: u64,
    /// The member who created the group; the only principal allowed to cancel.
    pub creator: Address,
    /// Insertion order is the payout rotation order; the creator is always at
    /// index 0; duplicates are forbidden.
    pub members: Vec<Address>,
    /// Fixed per-member, per-cycle amount; strictly positive for the life of
    /// the group.
    pub contribution_amount: i128,
    /// Seconds per cycle; strictly positive. Informational: the engine does
    /// not enforce contribution timing.
    pub cycle_duration: u64,
    /// Membership cap; at least 2.
    pub max_members: u32,
    /// Starts at 1; increases by exactly 1 each time a payout executes.
    pub current_cycle: u32,
    /// Ledger timestamp recorded when the current cycle began.
    pub cycle_start_time: u64,
    /// Terminal flag: set once every member has been paid, or on cancellation.
    pub is_complete: bool,
    /// Set only by cancellation; implies `is_complete`.
    pub is_cancelled: bool,
}

/// The mathematical value of a [`Group`]: the same fields, with the member
/// list abstracted to a sequence.
pub ghost struct GroupModel {
    pub id: u64,
    pub creator: Address,
    pub members: Seq<Address>,
    pub contribution_amount: i128,
    pub cycle_duration: u64,
    pub max_members: u32,
    pub current_cycle: u32,
    pub cycle_start_time: u64,
    pub is_complete: bool,
    pub is_cancelled: bool,
}

impl View for Group {
    type V = GroupModel;

    open spec fn view(&self) -> GroupModel {
        GroupModel {
            id: self.id,
            creator: self.creator,
            members: self.members@,
            contribution_amount: self.contribution_amount,
            cycle_duration: self.cycle_duration,
            max_members: self.max_members,
            current_cycle: self.current_cycle,
            cycle_start_time: self.cycle_start_time,
            is_complete: self.is_complete,
            is_cancelled: self.is_cancelled,
        }
    }
}

impl GroupModel {
    /// Well-formedness of a stored group, established at creation and
    /// preserved by every operation:
    /// parameters are in range, the creator leads a duplicate-free member
    /// list no longer than the cap, the cycle counter stays between 1 and
    /// one past the rotation length, completion is reached exactly when the
    /// rotation has run through (unless cancelled), and cancellation implies
    /// completion.
    pub open spec fn valid(self) -> bool {
        &&& self.contribution_amount > 0
        &&& self.cycle_duration > 0
        &&& self.max_members >= 2
        &&& 1 <= self.members.len() <= self.max_members
        &&& self.members[0] == self.creator
        &&& (forall|i: int, j: int|
            0 <= i < j < self.members.len() ==> self.members[i] != self.members[j])
        &&& 1 <= self.current_cycle <= self.members.len() + 1
        &&& (self.current_cycle == self.members.len() + 1 ==> self.is_complete)
        &&& (self.is_complete && !self.is_cancelled ==> self.current_cycle == self.members.len()
            + 1)
        &&& (self.is_cancelled ==> self.is_complete && self.current_cycle <= self.members.len())
    }
}

impl Clone for Group {
    /// Cloning preserves the group's mathematical value.
    fn clone(&self) -> (r: Group)
        ensures
            r@ == self@,
    {
        Group {
            id: self.id,
            creator: self.creator,
            members: clone_addresses(&self.members),
            contribution_amount: self.contribution_amount,
            cycle_duration: self.cycle_duration,
            max_members: self.max_members,
            current_cycle: self.current_cycle,
            cycle_start_time: self.cycle_start_time,
            is_complete: self.is_complete,
            is_cancelled: self.is_cancelled,
        }
    }
}

/// Copies a member list element by element.
fn clone_addresses(v: &Vec<Address>) -> (r: Vec<Address>)
    ensures
        r@ == v@,
{
    let mut r: Vec<Address> = Vec::new();
    let mut i: usize = 0;
    while i < v.len()
        invariant
            i <= v.len(),
            r@ == v@.subrange(0, i as int),
        decreases v.len() - i,
    {
        r.push(v[i]);
        proof {
            assert(v@.subrange(0, i as int).push(v@[i as int]) =~= v@.subrange(0, i as int + 1));
        }
        i += 1;
    }
    proof {
        assert(v@.subrange(0, v@.len() as int) =~= v@);
    }
    r
}

/// One lifecycle event, as the engine emits it: a symbolic tag, the group id,
/// and an operation-specific payload of plain values. The transport that
/// delivers events to observers belongs to the host, not to this crate.
#[derive(Clone, Copy, Debug, PartialEq, Eq, Structural)]
pub enum Event {
    /// A group was created.
    Created { group_id: u64, creator: Address, amount: i128, max_members: u32 },
    /// A member joined a group.
    Joined { group_id: u64, member: Address },
    /// A member contributed the fixed amount for the given cycle.
    Contributed { group_id: u64, cycle: u32, member: Address, amount: i128 },
    /// The pooled total of a cycle was paid out to its recipient.
    PayoutExecuted { group_id: u64, cycle: u32, recipient: Address, amount: i128 },
    /// A payout executed and more cycles remain; the next cycle began.
    CycleAdvanced { group_id: u64, new_cycle: u32, cycle_start_time: u64 },
    /// The final payout executed; the group is complete.
    Completed { group_id: u64 },
}

impl Event {
    /// The symbolic tag that the host transport would carry as the event's
    /// primary topic.
    pub open spec fn spec_tag(self) -> Seq<char> {
        match self {
            Event::Created { .. } => "created"@,
            Event::Joined { .. } => "joined"@,
            Event::Contributed { .. } => "contrib"@,
            Event::PayoutExecuted { .. } => "payout"@,
            Event::CycleAdvanced { .. } => "cycle"@,
            Event::Completed { .. } => "complete"@,
        }
    }

    /// The event's primary topic.
    pub fn tag(&self) -> (r: &'static str)
        ensures
            r@ == self.spec_tag(),
    {
        match self {
            Event::Created { .. } => "created",
            Event::Joined { .. } => "joined",
            Event::Contributed { .. } => "contrib",
            Event::PayoutExecuted { .. } => "payout",
            Event::CycleAdvanced { .. } => "cycle",
            Event::Completed { .. } => "complete",
        }
    }

    /// The id of the group the event concerns: its secondary topic.
    pub open spec fn spec_group_id(self) -> u64 {
        match self {
            Event::Created { group_id, .. } => group_id,
            Event::Joined { group_id, .. } => group_id,
            Event::Contributed { group_id, .. } => group_id,
            Event::PayoutExecuted { group_id, .. } => group_id,
            Event::CycleAdvanced { group_id, .. } => group_id,
            Event::Completed { group_id, .. } => group_id,
        }
    }

    /// The id of the group the event concerns.
    pub fn group_id(&self) -> (r: u64)
        ensures
            r == self.spec_group_id(),
    {
        match self {
            Event::Created { group_id, .. } => *group_id,
            Event::Joined { group_id, .. } => *group_id,
            Event::Contributed { group_id, .. } => *group_id,
            Event::PayoutExecuted { group_id, .. } => *group_id,
            Event::CycleAdvanced { group_id, .. } => *group_id,
            Event::Completed { group_id, .. } => *group_id,
        }
    }
}

} // verus!
