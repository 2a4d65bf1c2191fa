//! Query-surface response records: the plain shapes the stores' records are
//! handed outward in.

use vstd::prelude::*;

verus! {

use crate::chainghost::Intent;
use crate::chainghost::IntentStatus;
use crate::chainghost::JourneyStep;
use crate::clone_bytes;
use crate::g3mail::MessagePointer;

/// An intent as handed outward.
#[derive(Clone, Debug, PartialEq, Eq)]
pub struct IntentResponse {
    pub intent_id: u64,
    pub account: u64,
    pub status: IntentStatus,
    pub timestamp: u64,
    pub metadata: Vec<u8>,
}

/// Whether a response reports exactly this intent's fields.
pub open spec fn intent_response_matches(r: IntentResponse, intent: Intent) -> bool {
    &&& r.intent_id == intent.intent_id
    &&& r.account == intent.account
    &&& r.status == intent.status
    &&& r.timestamp == intent.timestamp
    &&& r.metadata@ == intent.metadata@
}

impl IntentResponse {
    /// The response carrying exactly the stored intent's fields.
    pub fn from_intent(intent: &Intent) -> (r: IntentResponse)
        ensures
            intent_response_matches(r, *intent),
    {
        IntentResponse {
            intent_id: intent.intent_id,
            account: intent.account,
            status: intent.status,
            timestamp: intent.timestamp,
            metadata: clone_bytes(&intent.metadata),
        }
    }
}

/// A journey step as handed outward.
#[derive(Clone, Debug, PartialEq, Eq)]
pub struct JourneyStepResponse {
    pub step_id: u32,
    pub description: Vec<u8>,
    pub timestamp: u64,
}

/// Whether a response reports exactly this journey step's fields.
pub open spec fn step_response_matches(r: JourneyStepResponse, step: JourneyStep) -> bool {
    &&& r.step_id == step.step_id
    &&& r.description@ == step.description@
    &&& r.timestamp == step.timestamp
}

impl JourneyStepResponse {
    /// The response carrying exactly the stored step's fields.
    pub fn from_step(step: &JourneyStep) -> (r: JourneyStepResponse)
        ensures
            step_response_matches(r, *step),
    {
        JourneyStepResponse {
            step_id: step.step_id,
            description: clone_bytes(&step.description),
            timestamp: step.timestamp,
        }
    }
}

/// A message pointer as handed outward.
#[derive(Clone, Debug, PartialEq, Eq)]
pub struct MessageResponse {
    pub message_id: u64,
    pub sender: u64,
    pub recipient: u64,
    pub cid: Vec<u8>,
    pub timestamp: u64,
    pub read: bool,
}

/// Whether a response reports exactly this message pointer's fields.
pub open spec fn message_response_matches(r: MessageResponse, message: MessagePointer) -> bool {
    &&& r.message_id == message.message_id
    &&& r.sender == message.sender
    &&& r.recipient == message.recipient
    &&& r.cid@ == message.cid@
    &&& r.timestamp == message.timestamp
    &&& r.read == message.read
}

impl MessageResponse {
    /// The response carrying exactly the stored pointer's fields.
    pub fn from_pointer(message: &MessagePointer) -> (r: MessageResponse)
        ensures
            message_response_matches(r, *message),
    {
        MessageResponse {
            message_id: message.message_id,
            sender: message.sender,
            recipient: message.recipient,
            cid: clone_bytes(&message.cid),
            timestamp: message.timestamp,
            read: message.read,
        }
    }
}

} // verus!
