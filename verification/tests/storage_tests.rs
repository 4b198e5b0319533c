use ajo::storage::{
    get_cycle_contributions, get_group, get_next_group_id, has_contributed, has_received_payout,
    mark_payout_received, remove_group, store_contribution, store_group, Store, StorageKey,
};
use ajo::types::{Address, Group};
use ajo::utils::{calculate_payout_amount, is_member};

fn sample_group(id: u64, creator: Address) -> Group {
    Group {
        id,
        creator,
        members: vec![creator],
        contribution_amount: 100_000_000i128,
        cycle_duration: 604_800u64,
        max_members: 5u32,
        current_cycle: 1u32,
        cycle_start_time: 0u64,
        is_complete: false,
        is_cancelled: false,
    }
}

#[test]
fn test_storage_key_symbols() {
    let member = Address { id: 9 };
    assert_eq!(StorageKey::GroupCounter.to_symbol(), "GCOUNTER");
    assert_eq!(StorageKey::Group(1).to_symbol(), "GROUP");
    assert_eq!(StorageKey::Contribution(1, 2, member).to_symbol(), "CONTRIB");
    assert_eq!(StorageKey::PayoutReceived(1, member).to_symbol(), "PAYOUT");
}

#[test]
fn test_next_group_id_counts_up_from_one() {
    let mut store = Store::new();
    assert_eq!(get_next_group_id(&mut store), 1);
    assert_eq!(get_next_group_id(&mut store), 2);
    assert_eq!(get_next_group_id(&mut store), 3);
}

#[test]
fn test_store_get_remove_group() {
    let mut store = Store::new();
    let creator = Address { id: 5 };
    let id = get_next_group_id(&mut store);
    let group = sample_group(id, creator);

    assert!(get_group(&store, id).is_none());
    store_group(&mut store, id, &group);
    assert_eq!(get_group(&store, id), Some(group));
    // Ids never seen are distinct from stored-but-default groups.
    assert!(get_group(&store, id + 1).is_none());

    remove_group(&mut store, id);
    assert!(get_group(&store, id).is_none());
}

#[test]
fn test_contribution_records_default_false() {
    let mut store = Store::new();
    let member = Address { id: 7 };

    // A key never written reads back as false.
    assert!(!has_contributed(&store, 1, 1, &member));

    store_contribution(&mut store, 1, 1, &member, true);
    assert!(has_contributed(&store, 1, 1, &member));
    // Other cycles and members are untouched.
    assert!(!has_contributed(&store, 1, 2, &member));
    assert!(!has_contributed(&store, 2, 1, &member));

    // Setting a record back to false removes it.
    store_contribution(&mut store, 1, 1, &member, false);
    assert!(!has_contributed(&store, 1, 1, &member));
}

#[test]
fn test_payout_records_default_false() {
    let mut store = Store::new();
    let member = Address { id: 7 };
    let other = Address { id: 8 };

    assert!(!has_received_payout(&store, 1, &member));
    mark_payout_received(&mut store, 1, &member);
    // Marking twice keeps the record set.
    mark_payout_received(&mut store, 1, &member);
    assert!(has_received_payout(&store, 1, &member));
    assert!(!has_received_payout(&store, 1, &other));
    assert!(!has_received_payout(&store, 2, &member));
}

#[test]
fn test_get_cycle_contributions_keeps_member_order() {
    let mut store = Store::new();
    let a = Address { id: 1 };
    let b = Address { id: 2 };
    let c = Address { id: 3 };
    store_contribution(&mut store, 4, 1, &a, true);
    store_contribution(&mut store, 4, 1, &c, true);

    let statuses = get_cycle_contributions(&store, 4, 1, &vec![a, b, c]);
    assert_eq!(statuses, vec![(a, true), (b, false), (c, true)]);
}

#[test]
fn test_is_member() {
    let a = Address { id: 1 };
    let b = Address { id: 2 };
    let c = Address { id: 3 };
    let members = vec![a, b];
    assert!(is_member(&members, &a));
    assert!(is_member(&members, &b));
    assert!(!is_member(&members, &c));
    assert!(!is_member(&Vec::new(), &a));
}

#[test]
fn test_calculate_payout_amount() {
    let creator = Address { id: 5 };
    let mut group = sample_group(1, creator);
    group.members.push(Address { id: 6 });
    group.members.push(Address { id: 7 });
    assert_eq!(calculate_payout_amount(&group), 300_000_000i128);
}
