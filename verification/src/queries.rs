//! The read-only query surface over the stores: every lookup is total, and
//! what it returns is pinned to the stored records.

use vstd::prelude::*;

verus! {

use crate::chainghost;
use crate::chainghost::IntentStatus;
use crate::clone_bytes;
use crate::g3mail;
use crate::types::IntentResponse;
use crate::types::JourneyStepResponse;
use crate::types::MessageResponse;
use crate::types::intent_response_matches;
use crate::types::message_response_matches;
use crate::types::step_response_matches;

/// The intent with this identifier, shaped for the query surface.
pub fn get_intent(store: &chainghost::Pallet, intent_id: u64) -> (r: Option<IntentResponse>)
    ensures
        match r {
            Some(response) => store.has_intent(intent_id) && intent_response_matches(
                response,
                store.spec_intent(intent_id),
            ),
            None => !store.has_intent(intent_id),
        },
{
    match store.intent_by_id(intent_id) {
        Some(intent) => Some(IntentResponse::from_intent(intent)),
        None => None,
    }
}

/// The status of the intent with this identifier, if it exists.
pub fn get_intent_status(store: &chainghost::Pallet, intent_id: u64) -> (r: Option<IntentStatus>)
    ensures
        match r {
            Some(status) => store.has_intent(intent_id) && status == store.spec_intent(
                intent_id,
            ).status,
            None => !store.has_intent(intent_id),
        },
{
    match store.intent_by_id(intent_id) {
        Some(intent) => Some(intent.status),
        None => None,
    }
}

/// All journey steps of an intent, in order; an unknown intent has none.
pub fn get_journey_steps(store: &chainghost::Pallet, intent_id: u64) -> (r: Vec<
    JourneyStepResponse,
>)
    ensures
        r@.len() == store.spec_journey(intent_id).len(),
        forall|k: int|
            0 <= k < r@.len() ==> step_response_matches(
                #[trigger] r@[k],
                store.spec_journey(intent_id)[k],
            ),
{
    let mut out: Vec<JourneyStepResponse> = Vec::new();
    match store.journey_by_intent(intent_id) {
        Some(steps) => {
            let n = steps.len();
            let mut k: usize = 0;
            while k < n
                invariant
                    k <= n,
                    n == steps@.len(),
                    steps@ == store.spec_journey(intent_id),
                    out@.len() == k,
                    forall|j: int|
                        0 <= j < k ==> step_response_matches(
                            #[trigger] out@[j],
                            store.spec_journey(intent_id)[j],
                        ),
                decreases n - k,
            {
                out.push(JourneyStepResponse::from_step(&steps[k]));
                k = k + 1;
            }
        },
        None => {},
    }
    out
}

/// The registered public key of an account, if it has one, as owned bytes.
pub fn get_public_key(store: &g3mail::Pallet, account: u64) -> (r: Option<Vec<u8>>)
    ensures
        match r {
            Some(key) => store.has_public_key(account) && key@ == store.spec_public_key(account),
            None => !store.has_public_key(account),
        },
{
    match store.public_keys(account) {
        Some(key) => Some(clone_bytes(key)),
        None => None,
    }
}

/// One message of a recipient's inbox, shaped for the query surface.
pub fn get_message(store: &g3mail::Pallet, recipient: u64, message_id: u64) -> (r: Option<
    MessageResponse,
>)
    ensures
        match r {
            Some(response) => store.has_message(recipient, message_id)
                && message_response_matches(response, store.spec_message(recipient, message_id)),
            None => !store.has_message(recipient, message_id),
        },
{
    match store.messages_by_recipient(recipient, message_id) {
        Some(message) => Some(MessageResponse::from_pointer(message)),
        None => None,
    }
}

/// Every message of a recipient's inbox with its identifier, in ascending
/// identifier order: exactly the identifiers the store holds for it.
pub fn get_messages_by_recipient(store: &g3mail::Pallet, recipient: u64) -> (r: Vec<
    (u64, MessageResponse),
>)
    requires
        store.wf(),
    ensures
        forall|k: int|
            0 <= k < r@.len() ==> {
                &&& store.has_message(recipient, (#[trigger] r@[k]).0)
                &&& message_response_matches(r@[k].1, store.spec_message(recipient, r@[k].0))
            },
        forall|m: u64|
            #[trigger] store.has_message(recipient, m) ==> exists|k: int|
                0 <= k < r@.len() && (#[trigger] r@[k]).0 == m,
        forall|k1: int, k2: int| 0 <= k1 < k2 < r@.len() ==> r@[k1].0 < r@[k2].0,
{
    let n = store.next_message_id();
    let mut out: Vec<(u64, MessageResponse)> = Vec::new();
    let mut m: u64 = 0;
    while m < n
        invariant
            m <= n,
            n == store.spec_next_message_id(),
            forall|k: int|
                0 <= k < out@.len() ==> {
                    &&& (#[trigger] out@[k]).0 < m
                    &&& store.has_message(recipient, out@[k].0)
                    &&& message_response_matches(out@[k].1, store.spec_message(
                        recipient,
                        out@[k].0,
                    ))
                },
            forall|id: u64|
                id < m && #[trigger] store.has_message(recipient, id) ==> exists|k: int|
                    0 <= k < out@.len() && (#[trigger] out@[k]).0 == id,
            forall|k1: int, k2: int| 0 <= k1 < k2 < out@.len() ==> out@[k1].0 < out@[k2].0,
        decreases n - m,
    {
        let ghost prefix = out@;
        match store.messages_by_recipient(recipient, m) {
            Some(message) => {
                out.push((m, MessageResponse::from_pointer(message)));
                proof {
                    assert(out@[prefix.len() as int].0 == m);
                    assert forall|id: u64|
                        id < m + 1 && #[trigger] store.has_message(recipient, id)
                            implies exists|k: int|
                            0 <= k < out@.len() && (#[trigger] out@[k]).0 == id by {
                        if id < m {
                            let k = choose|k: int|
                                0 <= k < prefix.len() && (#[trigger] prefix[k]).0 == id;
                            assert(out@[k].0 == id);
                        } else {
                            assert(out@[prefix.len() as int].0 == id);
                        }
                    }
                }
            },
            None => {},
        }
        m = m + 1;
    }
    proof {
        store.lemma_identifiers_monotone();
    }
    out
}

} // verus!
