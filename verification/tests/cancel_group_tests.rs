use ajo::errors::AjoError;
use ajo::lifecycle::AjoLedger;
use ajo::types::Address;

/// A fresh engine and three distinct participants.
fn setup_test_env() -> (AjoLedger, Address, Address, Address) {
    let ledger = AjoLedger::new();
    let creator = Address { id: 1 };
    let member2 = Address { id: 2 };
    let member3 = Address { id: 3 };
    (ledger, creator, member2, member3)
}

// ──────────────────────────────────────────
// Happy path
// ──────────────────────────────────────────

#[test]
fn test_cancel_group_by_creator() {
    let (mut ledger, creator, member2, _) = setup_test_env();

    // Create group and add a member
    let group_id = ledger
        .create_group(creator, 100_000_000i128, 604_800u64, 5u32, 0)
        .unwrap();
    ledger.join_group(member2, group_id).unwrap();

    // Creator cancels
    ledger.cancel_group(creator, group_id).unwrap();

    // Group should now be complete and cancelled
    let group = ledger.get_group(group_id).unwrap();
    assert_eq!(group.is_complete, true);
    assert_eq!(group.is_cancelled, true);
}

#[test]
fn test_cancel_group_with_contributions() {
    let (mut ledger, creator, member2, member3) = setup_test_env();

    // Create group with 3 members
    let group_id = ledger
        .create_group(creator, 100_000_000i128, 604_800u64, 3u32, 0)
        .unwrap();
    ledger.join_group(member2, group_id).unwrap();
    ledger.join_group(member3, group_id).unwrap();

    // All members contribute in cycle 1
    ledger.contribute(creator, group_id).unwrap();
    ledger.contribute(member2, group_id).unwrap();
    ledger.contribute(member3, group_id).unwrap();

    // Execute payout for cycle 1, advancing to cycle 2
    ledger.execute_payout(group_id, 0).unwrap();

    // Some members contribute in cycle 2
    ledger.contribute(creator, group_id).unwrap();

    // Creator cancels mid-cycle
    ledger.cancel_group(creator, group_id).unwrap();

    // Verify state
    let group = ledger.get_group(group_id).unwrap();
    assert_eq!(group.is_complete, true);
    assert_eq!(group.is_cancelled, true);
    assert_eq!(group.current_cycle, 2); // Was on cycle 2 when cancelled
}

#[test]
fn test_cancel_group_only_creator_as_member() {
    let (mut ledger, creator, _, _) = setup_test_env();

    // Create group with just the creator
    let group_id = ledger
        .create_group(creator, 100_000_000i128, 604_800u64, 5u32, 0)
        .unwrap();

    // Cancel immediately
    ledger.cancel_group(creator, group_id).unwrap();

    let group = ledger.get_group(group_id).unwrap();
    assert_eq!(group.is_complete, true);
    assert_eq!(group.is_cancelled, true);
}

// ──────────────────────────────────────────
// Authorization / guard checks
// ──────────────────────────────────────────

#[test]
fn test_cancel_group_not_creator_fails() {
    let (mut ledger, creator, member2, _) = setup_test_env();

    let group_id = ledger
        .create_group(creator, 100_000_000i128, 604_800u64, 5u32, 0)
        .unwrap();
    ledger.join_group(member2, group_id).unwrap();

    // Non-creator tries to cancel
    let result = ledger.cancel_group(member2, group_id);
    assert_eq!(result, Err(AjoError::Unauthorized));
}

#[test]
fn test_cancel_completed_group_fails() {
    let (mut ledger, creator, member2, _) = setup_test_env();

    // Create a 2-member group and complete it
    let group_id = ledger
        .create_group(creator, 100_000_000i128, 604_800u64, 2u32, 0)
        .unwrap();
    ledger.join_group(member2, group_id).unwrap();

    // Complete both cycles
    ledger.contribute(creator, group_id).unwrap();
    ledger.contribute(member2, group_id).unwrap();
    ledger.execute_payout(group_id, 0).unwrap();

    ledger.contribute(creator, group_id).unwrap();
    ledger.contribute(member2, group_id).unwrap();
    ledger.execute_payout(group_id, 0).unwrap();

    assert_eq!(ledger.is_complete(group_id), Ok(true));

    // Try to cancel completed group
    let result = ledger.cancel_group(creator, group_id);
    assert_eq!(result, Err(AjoError::GroupComplete));
}

#[test]
fn test_cancel_already_cancelled_fails() {
    let (mut ledger, creator, _, _) = setup_test_env();

    let group_id = ledger
        .create_group(creator, 100_000_000i128, 604_800u64, 5u32, 0)
        .unwrap();

    // Cancel once
    ledger.cancel_group(creator, group_id).unwrap();

    // Try to cancel again — is_complete is true so GroupComplete is returned
    let result = ledger.cancel_group(creator, group_id);
    assert_eq!(result, Err(AjoError::GroupComplete));
}

// ──────────────────────────────────────────
// Post-cancellation behavior
// ──────────────────────────────────────────

#[test]
fn test_no_join_after_cancel() {
    let (mut ledger, creator, _, _) = setup_test_env();

    let group_id = ledger
        .create_group(creator, 100_000_000i128, 604_800u64, 5u32, 0)
        .unwrap();
    ledger.cancel_group(creator, group_id).unwrap();

    // Try to join cancelled group
    let new_member = Address { id: 4 };
    let result = ledger.join_group(new_member, group_id);
    assert_eq!(result, Err(AjoError::GroupComplete));
}

#[test]
fn test_no_contribute_after_cancel() {
    let (mut ledger, creator, member2, _) = setup_test_env();

    let group_id = ledger
        .create_group(creator, 100_000_000i128, 604_800u64, 5u32, 0)
        .unwrap();
    ledger.join_group(member2, group_id).unwrap();
    ledger.cancel_group(creator, group_id).unwrap();

    // Try to contribute to cancelled group
    let result = ledger.contribute(creator, group_id);
    assert_eq!(result, Err(AjoError::GroupComplete));
}

#[test]
fn test_no_payout_after_cancel() {
    let (mut ledger, creator, member2, member3) = setup_test_env();

    let group_id = ledger
        .create_group(creator, 100_000_000i128, 604_800u64, 3u32, 0)
        .unwrap();
    ledger.join_group(member2, group_id).unwrap();
    ledger.join_group(member3, group_id).unwrap();

    // All contribute then cancel before payout
    ledger.contribute(creator, group_id).unwrap();
    ledger.contribute(member2, group_id).unwrap();
    ledger.contribute(member3, group_id).unwrap();
    ledger.cancel_group(creator, group_id).unwrap();

    // Try to execute payout on cancelled group
    let result = ledger.execute_payout(group_id, 0);
    assert_eq!(result, Err(AjoError::GroupComplete));
}
