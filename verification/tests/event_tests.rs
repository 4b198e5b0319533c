use ajo::lifecycle::AjoLedger;
use ajo::types::{Address, Event};

/// A fresh engine and three distinct participants.
fn setup_test_env() -> (AjoLedger, Address, Address, Address) {
    let ledger = AjoLedger::new();
    let creator = Address { id: 1 };
    let member2 = Address { id: 2 };
    let member3 = Address { id: 3 };
    (ledger, creator, member2, member3)
}

#[test]
fn test_group_created_event() {
    let (mut ledger, creator, _, _) = setup_test_env();

    let contribution = 100_000_000i128;
    let cycle_duration = 604_800u64;
    let max_members = 10u32;

    let group_id = ledger
        .create_group(creator, contribution, cycle_duration, max_members, 0)
        .unwrap();

    let last = *ledger.events.last().unwrap();
    assert_eq!(last.tag(), "created");
    assert_eq!(last.group_id(), group_id);

    match last {
        Event::Created { creator: c, amount, max_members: m, .. } => {
            assert_eq!(c, creator);
            assert_eq!(amount, contribution);
            assert_eq!(m, max_members);
        }
        other => panic!("expected a created event, got {:?}", other),
    }
}

#[test]
fn test_member_joined_event() {
    let (mut ledger, creator, member2, _) = setup_test_env();

    let group_id = ledger
        .create_group(creator, 100_000_000i128, 604_800u64, 10u32, 0)
        .unwrap();

    ledger.join_group(member2, group_id).unwrap();

    let last = *ledger.events.last().unwrap();
    assert_eq!(last.tag(), "joined");
    assert_eq!(last.group_id(), group_id);

    match last {
        Event::Joined { member, .. } => assert_eq!(member, member2),
        other => panic!("expected a joined event, got {:?}", other),
    }
}

#[test]
fn test_contribution_made_event() {
    let (mut ledger, creator, member2, _) = setup_test_env();

    let contribution = 100_000_000i128;
    let group_id = ledger
        .create_group(creator, contribution, 604_800u64, 3u32, 0)
        .unwrap();
    ledger.join_group(member2, group_id).unwrap();

    ledger.contribute(creator, group_id).unwrap();

    let last = *ledger.events.last().unwrap();
    assert_eq!(last.tag(), "contrib");
    assert_eq!(last.group_id(), group_id);

    match last {
        Event::Contributed { cycle, member, amount, .. } => {
            assert_eq!(cycle, 1u32);
            assert_eq!(member, creator);
            assert_eq!(amount, contribution);
        }
        other => panic!("expected a contrib event, got {:?}", other),
    }
}

#[test]
fn test_payout_executed_event() {
    let (mut ledger, creator, member2, member3) = setup_test_env();

    let contribution = 100_000_000i128;
    let group_id = ledger
        .create_group(creator, contribution, 604_800u64, 3u32, 0)
        .unwrap();
    ledger.join_group(member2, group_id).unwrap();
    ledger.join_group(member3, group_id).unwrap();

    ledger.contribute(creator, group_id).unwrap();
    ledger.contribute(member2, group_id).unwrap();
    ledger.contribute(member3, group_id).unwrap();

    ledger.execute_payout(group_id, 0).unwrap();

    // Second to last event (last is the cycle advance)
    let event = ledger.events[ledger.events.len() - 2];
    assert_eq!(event.tag(), "payout");
    assert_eq!(event.group_id(), group_id);

    match event {
        Event::PayoutExecuted { cycle, recipient, amount, .. } => {
            assert_eq!(cycle, 1u32);
            assert_eq!(recipient, creator);
            assert_eq!(amount, contribution * 3);
        }
        other => panic!("expected a payout event, got {:?}", other),
    }
}

#[test]
fn test_cycle_advanced_event() {
    let (mut ledger, creator, member2, member3) = setup_test_env();

    let group_id = ledger
        .create_group(creator, 100_000_000i128, 604_800u64, 3u32, 0)
        .unwrap();
    ledger.join_group(member2, group_id).unwrap();
    ledger.join_group(member3, group_id).unwrap();

    ledger.contribute(creator, group_id).unwrap();
    ledger.contribute(member2, group_id).unwrap();
    ledger.contribute(member3, group_id).unwrap();

    ledger.execute_payout(group_id, 0).unwrap();

    let last = *ledger.events.last().unwrap();
    assert_eq!(last.tag(), "cycle");
    assert_eq!(last.group_id(), group_id);

    match last {
        Event::CycleAdvanced { new_cycle, .. } => {
            assert_eq!(new_cycle, 2u32); // New cycle number
            // The cycle start time is whatever timestamp the host handed in.
        }
        other => panic!("expected a cycle event, got {:?}", other),
    }
}

#[test]
fn test_group_completed_event() {
    let (mut ledger, creator, member2, member3) = setup_test_env();

    let group_id = ledger
        .create_group(creator, 100_000_000i128, 604_800u64, 3u32, 0)
        .unwrap();
    ledger.join_group(member2, group_id).unwrap();
    ledger.join_group(member3, group_id).unwrap();

    // Complete all cycles
    for _ in 0..3 {
        ledger.contribute(creator, group_id).unwrap();
        ledger.contribute(member2, group_id).unwrap();
        ledger.contribute(member3, group_id).unwrap();
        ledger.execute_payout(group_id, 0).unwrap();
    }

    let last = *ledger.events.last().unwrap();
    assert_eq!(last.tag(), "complete");
    assert_eq!(last.group_id(), group_id);
}

#[test]
fn test_all_events_include_group_id() {
    let (mut ledger, creator, member2, member3) = setup_test_env();

    let group_id = ledger
        .create_group(creator, 100_000_000i128, 604_800u64, 3u32, 0)
        .unwrap();
    ledger.join_group(member2, group_id).unwrap();
    ledger.join_group(member3, group_id).unwrap();
    ledger.contribute(creator, group_id).unwrap();
    ledger.contribute(member2, group_id).unwrap();
    ledger.contribute(member3, group_id).unwrap();
    ledger.execute_payout(group_id, 0).unwrap();

    // Verify all events carry the group id as their secondary topic
    for event in ledger.events.iter() {
        assert_eq!(event.group_id(), group_id);
    }
}

#[test]
fn test_contribution_events_include_amount() {
    let (mut ledger, creator, member2, _) = setup_test_env();

    let contribution = 100_000_000i128;
    let group_id = ledger
        .create_group(creator, contribution, 604_800u64, 3u32, 0)
        .unwrap();
    ledger.join_group(member2, group_id).unwrap();

    ledger.contribute(creator, group_id).unwrap();
    ledger.contribute(member2, group_id).unwrap();

    // Find contribution events
    let mut contrib_count = 0u32;
    for event in ledger.events.iter() {
        if let Event::Contributed { amount, .. } = event {
            assert_eq!(*amount, contribution);
            contrib_count += 1;
        }
    }

    assert_eq!(contrib_count, 2);
}

#[test]
fn test_payout_events_include_recipient_and_amount() {
    let (mut ledger, creator, member2, member3) = setup_test_env();

    let contribution = 100_000_000i128;
    let group_id = ledger
        .create_group(creator, contribution, 604_800u64, 3u32, 0)
        .unwrap();
    ledger.join_group(member2, group_id).unwrap();
    ledger.join_group(member3, group_id).unwrap();

    // First cycle
    ledger.contribute(creator, group_id).unwrap();
    ledger.contribute(member2, group_id).unwrap();
    ledger.contribute(member3, group_id).unwrap();
    ledger.execute_payout(group_id, 0).unwrap();

    // Find payout event
    let mut found = false;
    for event in ledger.events.iter() {
        if let Event::PayoutExecuted { recipient, amount, .. } = event {
            assert_eq!(*recipient, creator); // First recipient
            assert_eq!(*amount, contribution * 3); // Total pool
            found = true;
        }
    }

    assert!(found, "Payout event not found");
}

#[test]
fn test_event_order_in_lifecycle() {
    let (mut ledger, creator, member2, _) = setup_test_env();

    let group_id = ledger
        .create_group(creator, 100_000_000i128, 604_800u64, 2u32, 0)
        .unwrap();
    ledger.join_group(member2, group_id).unwrap();
    ledger.contribute(creator, group_id).unwrap();
    ledger.contribute(member2, group_id).unwrap();
    ledger.execute_payout(group_id, 0).unwrap();

    let mut symbols = Vec::new();
    for event in ledger.events.iter() {
        symbols.push(event.tag());
    }

    assert_eq!(symbols[0], "created");
    assert_eq!(symbols[1], "joined");
    assert_eq!(symbols[2], "contrib");
    assert_eq!(symbols[3], "contrib");
    assert_eq!(symbols[4], "payout");
    assert_eq!(symbols[5], "cycle");
}
