use ghost_core::chainghost::{Error, Event, IntentStatus, Pallet};
use ghost_core::Origin;

fn new_test_store() -> Pallet {
    Pallet::new(100, 50)
}

#[test]
fn execute_intent_works() {
    let mut chain_ghost = new_test_store();
    chain_ghost.set_block_number(1);

    let metadata = b"Swap 100 USDC to ETH".to_vec();

    // Execute intent
    assert_eq!(
        chain_ghost.execute_intent(Origin::Signed(1), metadata.clone()),
        Ok(())
    );

    // Verify intent was created
    let intent = chain_ghost.intent_by_id(0).expect("Intent should exist");
    assert_eq!(intent.intent_id, 0);
    assert_eq!(intent.account, 1);
    assert_eq!(intent.status, IntentStatus::Pending);
    assert_eq!(intent.metadata, metadata);

    // Verify intent was added to account's list
    let account_intents = chain_ghost.intents_by_account(1);
    assert_eq!(account_intents.len(), 1);
    assert_eq!(account_intents[0], 0);

    // Verify next intent ID was incremented
    assert_eq!(chain_ghost.next_intent_id(), 1);

    // Verify event was emitted
    assert_eq!(
        chain_ghost.last_event(),
        Some(&Event::IntentExecuted {
            intent_id: 0,
            account: 1,
            timestamp: 1,
        })
    );
}

#[test]
fn execute_multiple_intents_works() {
    let mut chain_ghost = new_test_store();
    chain_ghost.set_block_number(1);

    // Execute first intent
    assert_eq!(
        chain_ghost.execute_intent(Origin::Signed(1), b"First intent".to_vec()),
        Ok(())
    );

    // Execute second intent
    assert_eq!(
        chain_ghost.execute_intent(Origin::Signed(1), b"Second intent".to_vec()),
        Ok(())
    );

    // Verify both intents were created
    assert!(chain_ghost.intent_by_id(0).is_some());
    assert!(chain_ghost.intent_by_id(1).is_some());

    // Verify account has both intents
    let account_intents = chain_ghost.intents_by_account(1);
    assert_eq!(account_intents.len(), 2);
    assert_eq!(account_intents[0], 0);
    assert_eq!(account_intents[1], 1);
}

#[test]
fn execute_intent_max_intents_per_account_fails() {
    let mut chain_ghost = new_test_store();
    chain_ghost.set_block_number(1);

    // Fill up account's intent slots
    for i in 0..100 {
        assert_eq!(
            chain_ghost.execute_intent(Origin::Signed(1), format!("Intent {}", i).into_bytes()),
            Ok(())
        );
    }

    // Verify account has 100 intents
    let account_intents = chain_ghost.intents_by_account(1);
    assert_eq!(account_intents.len(), 100);

    // Try to add one more intent (should fail)
    assert_eq!(
        chain_ghost.execute_intent(Origin::Signed(1), b"Extra intent".to_vec()),
        Err(Error::MaxIntentsPerAccountExceeded)
    );
}

#[test]
fn record_journey_works() {
    let mut chain_ghost = new_test_store();
    chain_ghost.set_block_number(1);

    // Create intent first
    assert_eq!(
        chain_ghost.execute_intent(Origin::Signed(1), b"Test intent".to_vec()),
        Ok(())
    );

    chain_ghost.set_block_number(2);

    // Record journey step
    let description = b"Step 1: Transaction initiated".to_vec();
    assert_eq!(
        chain_ghost.record_journey(Origin::Signed(1), 0, description.clone()),
        Ok(())
    );

    // Verify journey step was recorded
    let journey_steps = chain_ghost.journey_by_intent(0).unwrap();
    assert_eq!(journey_steps.len(), 1);
    assert_eq!(journey_steps[0].step_id, 0);
    assert_eq!(journey_steps[0].description, description);
    assert_eq!(journey_steps[0].timestamp, 2);

    // Verify event was emitted
    assert_eq!(
        chain_ghost.last_event(),
        Some(&Event::JourneyRecorded {
            intent_id: 0,
            step_count: 1,
        })
    );
}

#[test]
fn record_multiple_journey_steps_works() {
    let mut chain_ghost = new_test_store();
    chain_ghost.set_block_number(1);

    // Create intent
    assert_eq!(
        chain_ghost.execute_intent(Origin::Signed(1), b"Test intent".to_vec()),
        Ok(())
    );

    // Record multiple journey steps
    for i in 0..5u64 {
        chain_ghost.set_block_number(i + 2);
        assert_eq!(
            chain_ghost.record_journey(Origin::Signed(1), 0, format!("Step {}", i).into_bytes()),
            Ok(())
        );
    }

    // Verify all steps were recorded
    let journey_steps = chain_ghost.journey_by_intent(0).unwrap();
    assert_eq!(journey_steps.len(), 5);

    // Verify step IDs are sequential
    for i in 0..5 {
        assert_eq!(journey_steps[i].step_id, i as u32);
    }
}

#[test]
fn record_journey_intent_not_found_fails() {
    let mut chain_ghost = new_test_store();
    chain_ghost.set_block_number(1);

    // Try to record journey for non-existent intent
    assert_eq!(
        chain_ghost.record_journey(Origin::Signed(1), 999, b"Step 1".to_vec()),
        Err(Error::IntentNotFound)
    );
}

#[test]
fn record_journey_not_owner_fails() {
    let mut chain_ghost = new_test_store();
    chain_ghost.set_block_number(1);

    // Account 1 creates intent
    assert_eq!(
        chain_ghost.execute_intent(Origin::Signed(1), b"Test intent".to_vec()),
        Ok(())
    );

    // Account 2 tries to record journey (should fail)
    assert_eq!(
        chain_ghost.record_journey(Origin::Signed(2), 0, b"Step 1".to_vec()),
        Err(Error::NotIntentOwner)
    );
}

#[test]
fn record_journey_max_steps_exceeded_fails() {
    let mut chain_ghost = new_test_store();
    chain_ghost.set_block_number(1);

    // Create intent
    assert_eq!(
        chain_ghost.execute_intent(Origin::Signed(1), b"Test intent".to_vec()),
        Ok(())
    );

    // Fill up journey steps (max is 50)
    for i in 0..50 {
        assert_eq!(
            chain_ghost.record_journey(Origin::Signed(1), 0, format!("Step {}", i).into_bytes()),
            Ok(())
        );
    }

    // Verify we have 50 steps
    let journey_steps = chain_ghost.journey_by_intent(0).unwrap();
    assert_eq!(journey_steps.len(), 50);

    // Try to add one more step (should fail)
    assert_eq!(
        chain_ghost.record_journey(Origin::Signed(1), 0, b"Extra step".to_vec()),
        Err(Error::MaxJourneyStepsExceeded)
    );
}

#[test]
fn update_intent_status_works() {
    let mut chain_ghost = new_test_store();
    chain_ghost.set_block_number(1);

    // Create intent
    assert_eq!(
        chain_ghost.execute_intent(Origin::Signed(1), b"Test intent".to_vec()),
        Ok(())
    );

    // Verify initial status is Pending
    let intent = chain_ghost.intent_by_id(0).unwrap();
    assert_eq!(intent.status, IntentStatus::Pending);

    // Update status to Executed
    assert_eq!(
        chain_ghost.update_intent_status(Origin::Signed(1), 0, IntentStatus::Executed.as_u8()),
        Ok(())
    );

    // Verify status was updated
    let intent = chain_ghost.intent_by_id(0).unwrap();
    assert_eq!(intent.status, IntentStatus::Executed);

    // Verify event was emitted
    assert_eq!(
        chain_ghost.last_event(),
        Some(&Event::IntentStatusUpdated {
            intent_id: 0,
            old_status: IntentStatus::Pending.as_u8(),
            new_status: IntentStatus::Executed.as_u8(),
        })
    );
}

#[test]
fn update_intent_status_intent_not_found_fails() {
    let mut chain_ghost = new_test_store();
    chain_ghost.set_block_number(1);

    // Try to update non-existent intent
    assert_eq!(
        chain_ghost.update_intent_status(Origin::Signed(1), 999, IntentStatus::Executed.as_u8()),
        Err(Error::IntentNotFound)
    );
}

#[test]
fn update_intent_status_not_owner_fails() {
    let mut chain_ghost = new_test_store();
    chain_ghost.set_block_number(1);

    // Account 1 creates intent
    assert_eq!(
        chain_ghost.execute_intent(Origin::Signed(1), b"Test intent".to_vec()),
        Ok(())
    );

    // Account 2 tries to update status (should fail)
    assert_eq!(
        chain_ghost.update_intent_status(Origin::Signed(2), 0, IntentStatus::Executed.as_u8()),
        Err(Error::NotIntentOwner)
    );
}

#[test]
fn update_intent_status_to_failed_works() {
    let mut chain_ghost = new_test_store();
    chain_ghost.set_block_number(1);

    // Create intent
    assert_eq!(
        chain_ghost.execute_intent(Origin::Signed(1), b"Test intent".to_vec()),
        Ok(())
    );

    // Update status to Failed
    assert_eq!(
        chain_ghost.update_intent_status(Origin::Signed(1), 0, IntentStatus::Failed.as_u8()),
        Ok(())
    );

    // Verify status was updated
    let intent = chain_ghost.intent_by_id(0).unwrap();
    assert_eq!(intent.status, IntentStatus::Failed);
}

#[test]
fn complete_workflow_execute_journey_status_works() {
    let mut chain_ghost = new_test_store();
    chain_ghost.set_block_number(1);

    // Step 1: Execute intent
    assert_eq!(
        chain_ghost.execute_intent(Origin::Signed(1), b"Swap 100 USDC to ETH on Arbitrum".to_vec()),
        Ok(())
    );

    // Step 2: Record journey steps
    chain_ghost.set_block_number(2);
    assert_eq!(
        chain_ghost.record_journey(Origin::Signed(1), 0, b"Analyzing best routes...".to_vec()),
        Ok(())
    );

    chain_ghost.set_block_number(3);
    assert_eq!(
        chain_ghost.record_journey(
            Origin::Signed(1),
            0,
            b"Route selected: Arbitrum via Uniswap V3".to_vec()
        ),
        Ok(())
    );

    chain_ghost.set_block_number(4);
    assert_eq!(
        chain_ghost.record_journey(
            Origin::Signed(1),
            0,
            b"Transaction submitted to mempool".to_vec()
        ),
        Ok(())
    );

    // Step 3: Update status to Executed
    chain_ghost.set_block_number(5);
    assert_eq!(
        chain_ghost.update_intent_status(Origin::Signed(1), 0, IntentStatus::Executed.as_u8()),
        Ok(())
    );

    // Verify final state
    let intent = chain_ghost.intent_by_id(0).unwrap();
    assert_eq!(intent.status, IntentStatus::Executed);

    let journey_steps = chain_ghost.journey_by_intent(0).unwrap();
    assert_eq!(journey_steps.len(), 3);
}

#[test]
fn metadata_truncation_works() {
    let mut chain_ghost = new_test_store();
    chain_ghost.set_block_number(1);

    // Create metadata larger than 256 bytes
    let large_metadata = vec![b'A'; 300];

    // Execute intent with large metadata
    assert_eq!(
        chain_ghost.execute_intent(Origin::Signed(1), large_metadata.clone()),
        Ok(())
    );

    // Verify metadata was truncated to 256 bytes
    let intent = chain_ghost.intent_by_id(0).unwrap();
    assert_eq!(intent.metadata.len(), 256);
    assert_eq!(intent.metadata, vec![b'A'; 256]);
}

#[test]
fn journey_description_truncation_works() {
    let mut chain_ghost = new_test_store();
    chain_ghost.set_block_number(1);

    // Create intent
    assert_eq!(
        chain_ghost.execute_intent(Origin::Signed(1), b"Test intent".to_vec()),
        Ok(())
    );

    // Create description larger than 512 bytes
    let large_description = vec![b'B'; 600];

    // Record journey with large description
    assert_eq!(
        chain_ghost.record_journey(Origin::Signed(1), 0, large_description.clone()),
        Ok(())
    );

    // Verify description was truncated to 512 bytes
    let journey_steps = chain_ghost.journey_by_intent(0).unwrap();
    assert_eq!(journey_steps[0].description.len(), 512);
}

#[test]
fn multiple_accounts_independent_intents_works() {
    let mut chain_ghost = new_test_store();
    chain_ghost.set_block_number(1);

    // Account 1 creates intents
    assert_eq!(
        chain_ghost.execute_intent(Origin::Signed(1), b"Account 1 intent 1".to_vec()),
        Ok(())
    );
    assert_eq!(
        chain_ghost.execute_intent(Origin::Signed(1), b"Account 1 intent 2".to_vec()),
        Ok(())
    );

    // Account 2 creates intents
    assert_eq!(
        chain_ghost.execute_intent(Origin::Signed(2), b"Account 2 intent 1".to_vec()),
        Ok(())
    );

    // Verify account 1 has 2 intents
    let account1_intents = chain_ghost.intents_by_account(1);
    assert_eq!(account1_intents.len(), 2);

    // Verify account 2 has 1 intent
    let account2_intents = chain_ghost.intents_by_account(2);
    assert_eq!(account2_intents.len(), 1);

    // Verify intent ownership
    let intent0 = chain_ghost.intent_by_id(0).unwrap();
    assert_eq!(intent0.account, 1);

    let intent2 = chain_ghost.intent_by_id(2).unwrap();
    assert_eq!(intent2.account, 2);
}

#[test]
fn failed_creation_consumes_no_identifier() {
    // A store whose cap is a single intent per account.
    let mut chain_ghost = Pallet::new(1, 50);
    chain_ghost.set_block_number(1);

    assert_eq!(
        chain_ghost.execute_intent(Origin::Signed(1), b"first".to_vec()),
        Ok(())
    );
    assert_eq!(chain_ghost.next_intent_id(), 1);

    // A rejected creation must not consume an identifier.
    assert_eq!(
        chain_ghost.execute_intent(Origin::Signed(1), b"second".to_vec()),
        Err(Error::MaxIntentsPerAccountExceeded)
    );
    assert_eq!(chain_ghost.next_intent_id(), 1);

    // Another account still receives the next identifier in sequence.
    assert_eq!(
        chain_ghost.execute_intent(Origin::Signed(2), b"third".to_vec()),
        Ok(())
    );
    assert_eq!(chain_ghost.intent_by_id(1).unwrap().account, 2);
}

#[test]
fn unsigned_intent_calls_are_rejected() {
    let mut chain_ghost = new_test_store();
    assert_eq!(
        chain_ghost.execute_intent(Origin::Root, b"payload".to_vec()),
        Err(Error::BadOrigin)
    );
    assert_eq!(
        chain_ghost.record_journey(Origin::Root, 0, b"step".to_vec()),
        Err(Error::BadOrigin)
    );
    assert_eq!(
        chain_ghost.update_intent_status(Origin::Root, 0, 1),
        Err(Error::BadOrigin)
    );
    // Nothing was created and no identifier was consumed.
    assert_eq!(chain_ghost.next_intent_id(), 0);
    assert_eq!(chain_ghost.last_event(), None);
    assert_eq!(chain_ghost.intents_by_account(1).len(), 0);
}

#[test]
fn status_codes_round_trip() {
    assert_eq!(IntentStatus::from_u8(0), Some(IntentStatus::Pending));
    assert_eq!(IntentStatus::from_u8(1), Some(IntentStatus::Executed));
    assert_eq!(IntentStatus::from_u8(2), Some(IntentStatus::Failed));
    assert_eq!(IntentStatus::from_u8(3), None);
    assert_eq!(IntentStatus::Pending.as_u8(), 0);
    assert_eq!(IntentStatus::Executed.as_u8(), 1);
    assert_eq!(IntentStatus::Failed.as_u8(), 2);
}

#[test]
fn any_status_may_follow_any_other() {
    // No transition graph is enforced: Executed may go back to Pending.
    let mut chain_ghost = new_test_store();
    chain_ghost.set_block_number(1);

    assert_eq!(
        chain_ghost.execute_intent(Origin::Signed(1), b"Test intent".to_vec()),
        Ok(())
    );
    assert_eq!(
        chain_ghost.update_intent_status(Origin::Signed(1), 0, IntentStatus::Executed.as_u8()),
        Ok(())
    );
    assert_eq!(
        chain_ghost.update_intent_status(Origin::Signed(1), 0, IntentStatus::Pending.as_u8()),
        Ok(())
    );
    assert_eq!(
        chain_ghost.intent_by_id(0).unwrap().status,
        IntentStatus::Pending
    );

    // A status code outside the enumeration is rejected.
    assert_eq!(
        chain_ghost.update_intent_status(Origin::Signed(1), 0, 3),
        Err(Error::InvalidIntentStatus)
    );
}
