use ghost_core::chainghost::Pallet as ChainGhost;
use ghost_core::g3mail::Pallet as G3Mail;
use ghost_core::types::{IntentResponse, JourneyStepResponse, MessageResponse};
use ghost_core::Origin;

#[test]
fn intent_response_carries_stored_fields() {
    let mut chain_ghost = ChainGhost::new(100, 50);
    chain_ghost.set_block_number(7);
    assert_eq!(
        chain_ghost.execute_intent(Origin::Signed(4), b"payload".to_vec()),
        Ok(())
    );
    assert_eq!(
        chain_ghost.record_journey(Origin::Signed(4), 0, b"first step".to_vec()),
        Ok(())
    );

    let intent = chain_ghost.intent_by_id(0).unwrap();
    let response = IntentResponse::from_intent(intent);
    assert_eq!(response.intent_id, 0);
    assert_eq!(response.account, 4);
    assert_eq!(response.status, intent.status);
    assert_eq!(response.timestamp, 7);
    assert_eq!(response.metadata, b"payload".to_vec());

    let steps = chain_ghost.journey_by_intent(0).unwrap();
    let step_response = JourneyStepResponse::from_step(&steps[0]);
    assert_eq!(step_response.step_id, 0);
    assert_eq!(step_response.description, b"first step".to_vec());
    assert_eq!(step_response.timestamp, 7);
}

#[test]
fn message_response_carries_stored_fields() {
    let mut g3mail = G3Mail::new(1000, 128, 128);
    g3mail.set_block_number(3);
    assert_eq!(
        g3mail.register_public_key(Origin::Signed(2), vec![9u8; 64]),
        Ok(())
    );
    assert_eq!(
        g3mail.send_message(Origin::Signed(1), 2, vec![5u8; 46]),
        Ok(())
    );

    let message = g3mail.messages_by_recipient(2, 0).unwrap();
    let response = MessageResponse::from_pointer(message);
    assert_eq!(response.message_id, 0);
    assert_eq!(response.sender, 1);
    assert_eq!(response.recipient, 2);
    assert_eq!(response.cid, vec![5u8; 46]);
    assert_eq!(response.timestamp, 3);
    assert!(!response.read);
}
