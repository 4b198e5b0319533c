use vstd::prelude::*;
use std::collections::HashMap;
use crate::types::{Address, Group, GroupModel};

verus! {

broadcast use vstd::std_specs::hash::group_hash_axioms;

/// A contribution record's key: (group id, cycle number, member).
#[derive(Clone, Copy, Debug, PartialEq, Eq, Structural)]
pub struct ContribKey(pub u64, pub u32, pub Address);

/// A payout record's key: (group id, member).
#[derive(Clone, Copy, Debug, PartialEq, Eq, Structural)]
pub struct PayoutKey(pub u64, pub Address);

/// A tagged key for the host's key-value store: one variant per kind of
/// record the engine keeps, so that key construction stays centralized.
#[derive(Clone, Copy, Debug, PartialEq, Eq, Structural)]
pub enum StorageKey {
    /// The process-wide group-id counter.
    GroupCounter,
    /// A group record, keyed by group id.
    Group(u64),
    /// A contribution record, keyed by (group id, cycle, member).
    Contribution(u64, u32, Address),
    /// A payout record, keyed by (group id, member).
    PayoutReceived(u64, Address),
}

impl StorageKey {
    /// The short symbolic tag under which records of this kind are filed.
    pub open spec fn spec_symbol(self) -> Seq<char> {
        match self {
            StorageKey::GroupCounter => "GCOUNTER"@,
            StorageKey::Group(..) => "GROUP"@,
            StorageKey::Contribution(..) => "CONTRIB"@,
            StorageKey::PayoutReceived(..) => "PAYOUT"@,
        }
    }

    /// The short symbolic tag under which records of this kind are filed.
    pub fn to_symbol(&self) -> (r: &'static str)
        ensures
            r@ == self.spec_symbol(),
    {
        match self {
            StorageKey::GroupCounter => "GCOUNTER",
            StorageKey::Group(..) => "GROUP",
            StorageKey::Contribution(..) => "CONTRIB",
            StorageKey::PayoutReceived(..) => "PAYOUT",
        }
    }
}

/// The mathematical value of a [`Store`]: the counter, the group registry as
/// a map, and the two ledgers as the sets of keys whose records read true.
pub ghost struct StoreModel {
    pub counter: u64,
    pub groups: Map<u64, GroupModel>,
    pub contributions: Set<ContribKey>,
    pub payouts: Set<PayoutKey>,
}

/// Whether `m` stands among the first `n` members of the rotation.
pub open spec fn in_rotation_prefix(members: Seq<Address>, n: int, m: Address) -> bool {
    exists|i: int| 0 <= i < n && i < members.len() && members[i] == m
}

/// The payout ledger agrees with group `k`'s cycle counter: exactly the
/// members already rotated through — the first `current_cycle - 1` of the
/// member list — hold a payout record.
pub open spec fn paid_records_match(s: StoreModel, k: u64) -> bool
    recommends
        s.groups.contains_key(k),
{
    forall|m: Address| #[trigger]
        s.payouts.contains(PayoutKey(k, m)) <==> in_rotation_prefix(
            s.groups[k].members,
            s.groups[k].current_cycle - 1,
            m,
        )
}

impl StoreModel {
    /// A missing contribution record reads back as false.
    pub open spec fn has_contributed(self, group_id: u64, cycle: u32, member: Address) -> bool {
        self.contributions.contains(ContribKey(group_id, cycle, member))
    }

    /// A missing payout record reads back as false.
    pub open spec fn has_been_paid(self, group_id: u64, member: Address) -> bool {
        self.payouts.contains(PayoutKey(group_id, member))
    }

    /// The engine's global invariant, holding after every operation: every
    /// stored group is filed under its own id, drawn from the counter, and
    /// internally valid; its payout records agree with its cycle counter;
    /// and no ledger record points past the counter.
    pub open spec fn wf(self) -> bool {
        &&& (forall|k: u64| #[trigger] self.groups.contains_key(k) ==> {
            &&& self.groups[k].id == k
            &&& 1 <= k <= self.counter
            &&& self.groups[k].valid()
            &&& paid_records_match(self, k)
        })
        &&& (forall|c: ContribKey| #[trigger]
            self.contributions.contains(c) ==> 1 <= c.0 <= self.counter)
        &&& (forall|p: PayoutKey| #[trigger] self.payouts.contains(p) ==> 1 <= p.0 <= self.counter)
    }
}

/// The empty store: counter at zero, no groups, no records.
pub open spec fn empty_store_model() -> StoreModel {
    StoreModel {
        counter: 0,
        groups: Map::empty(),
        contributions: Set::empty(),
        payouts: Set::empty(),
    }
}

/// The persistent state the engine works against, modeled explicitly: the
/// hosting environment serializes operations, so one value of this type
/// stands for the store as one transaction sees it.
pub struct Store {
    /// The group-id counter; a missing counter reads back as zero.
    pub counter: u64,
    /// The group registry.
    pub groups: HashMap<u64, Group>,
    /// Keys of the contribution records that read true.
    pub contributions: Vec<ContribKey>,
    /// Keys of the payout records that read true.
    pub payouts: Vec<PayoutKey>,
}

impl View for Store {
    type V = StoreModel;

    open spec fn view(&self) -> StoreModel {
        StoreModel {
            counter: self.counter,
            groups: self.groups@.map_values(|g: Group| g@),
            contributions: self.contributions@.to_set(),
            payouts: self.payouts@.to_set(),
        }
    }
}

impl Store {
    /// The representation keeps each ledger key at most once.
    pub open spec fn tidy(self) -> bool {
        self.contributions@.no_duplicates() && self.payouts@.no_duplicates()
    }

    /// Representation invariant together with the model-level invariant.
    pub open spec fn wf(self) -> bool {
        self.tidy() && self@.wf()
    }

    /// An empty store.
    pub fn new() -> (r: Store)
        ensures
            r.wf(),
            r@ == empty_store_model(),
    {
        let r = Store {
            counter: 0,
            groups: HashMap::new(),
            contributions: Vec::new(),
            payouts: Vec::new(),
        };
        proof {
            assert(r@.groups =~= Map::<u64, GroupModel>::empty());
            assert(r@.contributions =~= Set::<ContribKey>::empty());
            assert(r@.payouts =~= Set::<PayoutKey>::empty());
            assert(r@ =~= empty_store_model());
        }
        r
    }
}

/// Reads the group-id counter, increments it, persists it, and returns the
/// new value. A single linear counter: ids are unique across all calls and
/// never reused, even after a group is removed.
pub fn get_next_group_id(store: &mut Store) -> (r: u64)
    requires
        old(store).counter < u64::MAX,
    ensures
        r == old(store).counter + 1,
        final(store)@ == (StoreModel { counter: r, ..old(store)@ }),
        final(store).contributions@ == old(store).contributions@,
        final(store).payouts@ == old(store).payouts@,
{
    let next: u64 = store.counter + 1;
    store.counter = next;
    next
}

/// Persists a group under the given id, replacing any previous record.
pub fn store_group(store: &mut Store, group_id: u64, group: &Group)
    ensures
        final(store)@ == (StoreModel {
            groups: old(store)@.groups.insert(group_id, group@),
            ..old(store)@
        }),
        final(store).contributions@ == old(store).contributions@,
        final(store).payouts@ == old(store).payouts@,
{
    store.groups.insert(group_id, group.clone());
    proof {
        assert(store.groups@.map_values(|g: Group| g@) =~= old(store).groups@.map_values(
            |g: Group| g@,
        ).insert(group_id, group@));
    }
}

/// Reads the group stored under an id. `None` means no record exists, which
/// the engine reports as `GroupNotFound`, distinctly from any stored group.
pub fn get_group(store: &Store, group_id: u64) -> (r: Option<Group>)
    ensures
        match r {
            Some(g) => store@.groups.contains_key(group_id) && g@ == store@.groups[group_id],
            None => !store@.groups.contains_key(group_id),
        },
{
    match store.groups.get(&group_id) {
        Some(g) => Some(g.clone()),
        None => None,
    }
}

/// Removes the group stored under an id: the administrative delete, not part
/// of the normal lifecycle. The counter never hands the id out again.
pub fn remove_group(store: &mut Store, group_id: u64)
    ensures
        final(store)@ == (StoreModel {
            groups: old(store)@.groups.remove(group_id),
            ..old(store)@
        }),
        final(store).contributions@ == old(store).contributions@,
        final(store).payouts@ == old(store).payouts@,
{
    store.groups.remove(&group_id);
    proof {
        assert(store.groups@.map_values(|g: Group| g@) =~= old(store).groups@.map_values(
            |g: Group| g@,
        ).remove(group_id));
    }
}

/// Finds the position of a contribution key, if present.
fn find_contribution(v: &Vec<ContribKey>, key: ContribKey) -> (r: Option<usize>)
    ensures
        match r {
            Some(i) => i < v@.len() && v@[i as int] == key,
            None => !v@.contains(key),
        },
{
    let mut i: usize = 0;
    while i < v.len()
        invariant
            i <= v.len(),
            forall|j: int| 0 <= j < i ==> v@[j] != key,
        decreases v.len() - i,
    {
        if v[i] == key {
            return Some(i);
        }
        i += 1;
    }
    None
}

/// Finds the position of a payout key, if present.
fn find_payout(v: &Vec<PayoutKey>, key: PayoutKey) -> (r: Option<usize>)
    ensures
        match r {
            Some(i) => i < v@.len() && v@[i as int] == key,
            None => !v@.contains(key),
        },
{
    let mut i: usize = 0;
    while i < v.len()
        invariant
            i <= v.len(),
            forall|j: int| 0 <= j < i ==> v@[j] != key,
        decreases v.len() - i,
    {
        if v[i] == key {
            return Some(i);
        }
        i += 1;
    }
    None
}

/// Removing the only occurrence of an element takes exactly it out of the
/// sequence's set of elements, and keeps the sequence duplicate-free.
proof fn lemma_remove_unique_to_set<T>(s: Seq<T>, i: int)
    requires
        s.no_duplicates(),
        0 <= i < s.len(),
    ensures
        s.remove(i).to_set() =~= s.to_set().remove(s[i]),
        s.remove(i).no_duplicates(),
{
    let t = s.remove(i);
    assert forall|x: T| t.contains(x) implies s.contains(x) && x != s[i] by {
        let j = choose|j: int| 0 <= j < t.len() && t[j] == x;
        if j < i {
            assert(s[j] == x);
        } else {
            assert(s[j + 1] == x);
        }
    }
    assert forall|x: T| s.contains(x) && x != s[i] implies t.contains(x) by {
        let j = choose|j: int| 0 <= j < s.len() && s[j] == x;
        if j < i {
            assert(t[j] == x);
        } else {
            assert(t[j - 1] == x);
        }
    }
}

/// Sets the (group, cycle, member) contribution record to `paid`. A missing
/// record means false, so setting false removes the record. Idempotent at
/// this layer: the engine rejects a duplicate contribution before calling it.
pub fn store_contribution(
    store: &mut Store,
    group_id: u64,
    cycle: u32,
    member: &Address,
    paid: bool,
)
    requires
        old(store).tidy(),
    ensures
        final(store).tidy(),
        final(store)@ == (StoreModel {
            contributions: if paid {
                old(store)@.contributions.insert(ContribKey(group_id, cycle, *member))
            } else {
                old(store)@.contributions.remove(ContribKey(group_id, cycle, *member))
            },
            ..old(store)@
        }),
        final(store).payouts@ == old(store).payouts@,
{
    let key = ContribKey(group_id, cycle, *member);
    let found = find_contribution(&store.contributions, key);
    if paid {
        if found.is_none() {
            store.contributions.push(key);
            proof {
                assert(store.contributions@.to_set() =~= old(
                    store,
                )@.contributions.insert(key)) by {
                    assert(forall|x: ContribKey|
                        store.contributions@.contains(x) <==> (old(
                            store,
                        ).contributions@.contains(x) || x == key)) by {
                        assert(store.contributions@.last() == key);
                        assert(forall|j: int|
                            0 <= j < old(store).contributions@.len() ==> store.contributions@[j]
                                == old(store).contributions@[j]);
                    }
                }
                assert(store.contributions@.no_duplicates());
            }
        } else {
            proof {
                assert(store.contributions@.to_set() =~= old(store)@.contributions.insert(key));
            }
        }
    } else {
        match found {
            Some(i) => {
                proof {
                    lemma_remove_unique_to_set(store.contributions@, i as int);
                }
                store.contributions.remove(i);
            },
            None => {
                proof {
                    assert(store.contributions@.to_set() =~= old(
                        store,
                    )@.contributions.remove(key));
                }
            },
        }
    }
}

/// Reads a contribution record; a key never written reads back as false.
pub fn has_contributed(store: &Store, group_id: u64, cycle: u32, member: &Address) -> (r: bool)
    ensures
        r == store@.has_contributed(group_id, cycle, *member),
{
    find_contribution(&store.contributions, ContribKey(group_id, cycle, *member)).is_some()
}

/// Marks a member as having received their payout; the record is never unset.
pub fn mark_payout_received(store: &mut Store, group_id: u64, member: &Address)
    requires
        old(store).tidy(),
    ensures
        final(store).tidy(),
        final(store)@ == (StoreModel {
            payouts: old(store)@.payouts.insert(PayoutKey(group_id, *member)),
            ..old(store)@
        }),
        final(store).contributions@ == old(store).contributions@,
{
    let key = PayoutKey(group_id, *member);
    if find_payout(&store.payouts, key).is_none() {
        store.payouts.push(key);
        proof {
            assert(store.payouts@.to_set() =~= old(store)@.payouts.insert(key)) by {
                assert(forall|x: PayoutKey|
                    store.payouts@.contains(x) <==> (old(store).payouts@.contains(x) || x
                        == key)) by {
                    assert(store.payouts@.last() == key);
                    assert(forall|j: int|
                        0 <= j < old(store).payouts@.len() ==> store.payouts@[j] == old(
                            store,
                        ).payouts@[j]);
                }
            }
            assert(store.payouts@.no_duplicates());
        }
    } else {
        proof {
            assert(store.payouts@.to_set() =~= old(store)@.payouts.insert(key));
        }
    }
}

/// Reads a payout record; a key never written reads back as false.
pub fn has_received_payout(store: &Store, group_id: u64, member: &Address) -> (r: bool)
    ensures
        r == store@.has_been_paid(group_id, *member),
{
    find_payout(&store.payouts, PayoutKey(group_id, *member)).is_some()
}

/// Reads the contribution status of each listed member for a cycle, in the
/// order the members are given.
pub fn get_cycle_contributions(
    store: &Store,
    group_id: u64,
    cycle: u32,
    members: &Vec<Address>,
) -> (r: Vec<(Address, bool)>)
    ensures
        r@.len() == members@.len(),
        forall|i: int|
            0 <= i < members@.len() ==> r@[i] == (
                members@[i],
                store@.has_contributed(group_id, cycle, members@[i]),
            ),
{
    let mut r: Vec<(Address, bool)> = Vec::new();
    let mut i: usize = 0;
    while i < members.len()
        invariant
            i <= members.len(),
            r@.len() == i,
            forall|j: int|
                0 <= j < i ==> r@[j] == (
                    members@[j],
                    store@.has_contributed(group_id, cycle, members@[j]),
                ),
        decreases members.len() - i,
    {
        let paid = has_contributed(store, group_id, cycle, &members[i]);
        r.push((members[i], paid));
        i += 1;
    }
    r
}

} // verus!
