//! Intent ledger: create and track user intents, append-only journey steps,
//! and owner-gated status updates, all under per-account capacity bounds.

use vstd::prelude::*;
use std::collections::HashMap;

verus! {

use crate::Origin;
use crate::clip;

/// Unique identifier of an intent, allocated from a monotone counter.
pub type IntentId = u64;

/// Metadata blobs longer than this are silently cut to this many bytes.
pub const MAX_METADATA_BYTES: usize = 256;

/// Journey step descriptions longer than this are silently cut to this many bytes.
pub const MAX_DESCRIPTION_BYTES: usize = 512;

/// Lifecycle state of an intent. Any state may follow any other: the store
/// enforces no transition graph, only ownership.
#[derive(Clone, Copy, Debug, PartialEq, Eq, Structural)]
pub enum IntentStatus {
    Pending,
    Executed,
    Failed,
}

impl IntentStatus {
    /// Numeric code of a status, as carried in events.
    pub open spec fn spec_as_u8(self) -> u8 {
        match self {
            IntentStatus::Pending => 0,
            IntentStatus::Executed => 1,
            IntentStatus::Failed => 2,
        }
    }

    /// Status decoded from a numeric code; codes above 2 decode to nothing.
    pub open spec fn spec_from_u8(value: u8) -> Option<IntentStatus> {
        if value == 0 {
            Some(IntentStatus::Pending)
        } else if value == 1 {
            Some(IntentStatus::Executed)
        } else if value == 2 {
            Some(IntentStatus::Failed)
        } else {
            None
        }
    }

    pub fn as_u8(&self) -> (r: u8)
        ensures
            r == self.spec_as_u8(),
    {
        match self {
            IntentStatus::Pending => 0,
            IntentStatus::Executed => 1,
            IntentStatus::Failed => 2,
        }
    }

    pub fn from_u8(value: u8) -> (r: Option<IntentStatus>)
        ensures
            r == IntentStatus::spec_from_u8(value),
    {
        match value {
            0 => Some(IntentStatus::Pending),
            1 => Some(IntentStatus::Executed),
            2 => Some(IntentStatus::Failed),
            _ => None,
        }
    }
}

/// An intent record: identity, owner, status, creation block, bounded metadata.
#[derive(Clone, Debug, PartialEq, Eq)]
pub struct Intent {
    pub intent_id: IntentId,
    pub account: u64,
    pub status: IntentStatus,
    pub timestamp: u64,
    pub metadata: Vec<u8>,
}

/// One step of an intent's journey; `step_id` is the step's position in the list.
#[derive(Clone, Debug, PartialEq, Eq)]
pub struct JourneyStep {
    pub step_id: u32,
    pub description: Vec<u8>,
    pub timestamp: u64,
}

/// Events appended on every successful mutation, in order.
#[derive(Clone, Copy, Debug, PartialEq, Eq, Structural)]
pub enum Event {
    IntentExecuted { intent_id: IntentId, account: u64, timestamp: u64 },
    IntentStatusUpdated { intent_id: IntentId, old_status: u8, new_status: u8 },
    JourneyRecorded { intent_id: IntentId, step_count: u32 },
}

/// Errors returned by the intent ledger; every failure leaves state unchanged.
#[derive(Clone, Copy, Debug, PartialEq, Eq, Structural)]
pub enum Error {
    BadOrigin,
    IntentNotFound,
    NotIntentOwner,
    MaxIntentsPerAccountExceeded,
    MaxJourneyStepsExceeded,
    InvalidIntentStatus,
}

/// The intent ledger store. One instance owns all its maps; every mutating
/// operation validates first and writes only after every check has passed.
pub struct Pallet {
    max_intents_per_account: u32,
    max_journey_steps_per_intent: u32,
    block_number: u64,
    next_intent_id: IntentId,
    intents: HashMap<IntentId, Intent>,
    intents_by_account: HashMap<u64, Vec<IntentId>>,
    journeys: HashMap<IntentId, Vec<JourneyStep>>,
    events: Vec<Event>,
}

impl Pallet {
    /// Configured cap on the number of intents one account may own.
    pub closed spec fn spec_max_intents_per_account(self) -> u32 {
        self.max_intents_per_account
    }

    /// Configured cap on the number of journey steps one intent may hold.
    pub closed spec fn spec_max_journey_steps(self) -> u32 {
        self.max_journey_steps_per_intent
    }

    /// The logical clock value stamped into new records.
    pub closed spec fn spec_block_number(self) -> u64 {
        self.block_number
    }

    /// The identifier the next successful creation will receive.
    pub closed spec fn spec_next_intent_id(self) -> IntentId {
        self.next_intent_id
    }

    /// Whether an intent with this identifier exists.
    pub closed spec fn has_intent(self, intent_id: IntentId) -> bool {
        self.intents@.contains_key(intent_id)
    }

    /// The stored intent record; meaningful only when `has_intent` holds.
    pub closed spec fn spec_intent(self, intent_id: IntentId) -> Intent
        recommends
            self.has_intent(intent_id),
    {
        self.intents@[intent_id]
    }

    /// The identifiers of the intents this account owns, in creation order.
    pub closed spec fn spec_account_intents(self, account: u64) -> Seq<IntentId> {
        if self.intents_by_account@.contains_key(account) {
            self.intents_by_account@[account]@
        } else {
            Seq::empty()
        }
    }

    /// The journey steps recorded for this intent, in order.
    pub closed spec fn spec_journey(self, intent_id: IntentId) -> Seq<JourneyStep> {
        if self.journeys@.contains_key(intent_id) {
            self.journeys@[intent_id]@
        } else {
            Seq::empty()
        }
    }

    /// All events emitted so far, oldest first.
    pub closed spec fn spec_events(self) -> Seq<Event> {
        self.events@
    }

    /// Well-formedness: capacity bounds hold, identifiers are consistent with
    /// the counter, the per-account index lists exactly intents owned by that
    /// account in ascending identifier order, and journey steps are numbered
    /// contiguously from zero.
    pub closed spec fn wf(self) -> bool {
        &&& forall|i: IntentId| self.intents@.contains_key(i) ==> {
            &&& (#[trigger] self.intents@[i]).intent_id == i
            &&& i < self.next_intent_id
            &&& self.intents@[i].metadata@.len() <= MAX_METADATA_BYTES
        }
        &&& forall|a: u64|
            (#[trigger] self.spec_account_intents(a)).len() <= self.max_intents_per_account
        &&& forall|a: u64, k: int|
            0 <= k < self.spec_account_intents(a).len() ==> {
                &&& self.intents@.contains_key(#[trigger] self.spec_account_intents(a)[k])
                &&& self.intents@[self.spec_account_intents(a)[k]].account == a
            }
        &&& forall|a: u64, k1: int, k2: int|
            0 <= k1 < k2 < self.spec_account_intents(a).len()
                ==> #[trigger] self.spec_account_intents(a)[k1]
                    < #[trigger] self.spec_account_intents(a)[k2]
        &&& forall|i: IntentId|
            (#[trigger] self.spec_journey(i)).len() <= self.max_journey_steps_per_intent
        &&& forall|i: IntentId, k: int|
            0 <= k < self.spec_journey(i).len() ==> {
                &&& (#[trigger] self.spec_journey(i)[k]).step_id == k
                &&& self.spec_journey(i)[k].description@.len() <= MAX_DESCRIPTION_BYTES
            }
        &&& forall|i: IntentId|
            self.journeys@.contains_key(i) ==> self.intents@.contains_key(i)
    }

    /// A fresh, empty ledger with the given capacity bounds.
    pub fn new(max_intents_per_account: u32, max_journey_steps_per_intent: u32) -> (r: Pallet)
        ensures
            r.wf(),
            r.spec_max_intents_per_account() == max_intents_per_account,
            r.spec_max_journey_steps() == max_journey_steps_per_intent,
            r.spec_block_number() == 0,
            r.spec_next_intent_id() == 0,
            forall|i: IntentId| !r.has_intent(i),
            forall|a: u64| r.spec_account_intents(a) == Seq::<IntentId>::empty(),
            forall|i: IntentId| r.spec_journey(i) == Seq::<JourneyStep>::empty(),
            r.spec_events() == Seq::<Event>::empty(),
    {
        Pallet {
            max_intents_per_account,
            max_journey_steps_per_intent,
            block_number: 0,
            next_intent_id: 0,
            intents: HashMap::new(),
            intents_by_account: HashMap::new(),
            journeys: HashMap::new(),
            events: Vec::new(),
        }
    }

    /// Advance the logical clock; nothing else changes.
    pub fn set_block_number(&mut self, n: u64)
        ensures
            final(self).spec_block_number() == n,
            old(self).wf() ==> final(self).wf(),
            final(self).spec_max_intents_per_account()
                == old(self).spec_max_intents_per_account(),
            final(self).spec_max_journey_steps() == old(self).spec_max_journey_steps(),
            final(self).spec_next_intent_id() == old(self).spec_next_intent_id(),
            forall|i: IntentId| final(self).has_intent(i) == old(self).has_intent(i),
            forall|i: IntentId|
                old(self).has_intent(i) ==> final(self).spec_intent(i) == old(self).spec_intent(i),
            forall|a: u64|
                final(self).spec_account_intents(a) == old(self).spec_account_intents(a),
            forall|i: IntentId| final(self).spec_journey(i) == old(self).spec_journey(i),
            final(self).spec_events() == old(self).spec_events(),
    {
        self.block_number = n;
        proof {
            assert forall|a: u64| self.spec_account_intents(a)
                == old(self).spec_account_intents(a) by {
                assert(self.intents_by_account@ == old(self).intents_by_account@);
            }
            assert forall|i: IntentId| self.spec_journey(i) == old(self).spec_journey(i) by {
                assert(self.journeys@ == old(self).journeys@);
            }
        }
    }

    /// Create a new intent owned by the signing account.
    ///
    /// The identifier is taken from the monotone counter only after the
    /// per-account capacity check has passed, so a failed call never consumes
    /// an identifier. Oversize metadata is stored cut to `MAX_METADATA_BYTES`.
    pub fn execute_intent(&mut self, origin: Origin, metadata: Vec<u8>) -> (r: Result<(), Error>)
        requires
            old(self).wf(),
            // machine limit: the identifier counter must not saturate
            old(self).spec_next_intent_id() < u64::MAX,
        ensures
            final(self).wf(),
            final(self).spec_max_intents_per_account()
                == old(self).spec_max_intents_per_account(),
            final(self).spec_max_journey_steps() == old(self).spec_max_journey_steps(),
            final(self).spec_block_number() == old(self).spec_block_number(),
            r == Ok::<(), Error>(()) <==> (origin matches Origin::Signed(who)
                && old(self).spec_account_intents(who).len()
                    < old(self).spec_max_intents_per_account()),
            origin is Root ==> r == Err::<(), Error>(Error::BadOrigin),
            (origin matches Origin::Signed(who)
                && old(self).spec_account_intents(who).len()
                    >= old(self).spec_max_intents_per_account())
                ==> r == Err::<(), Error>(Error::MaxIntentsPerAccountExceeded),
            r is Err ==> *final(self) == *old(self),
            r is Ok ==> (origin matches Origin::Signed(who) && {
                let nid = old(self).spec_next_intent_id();
                &&& final(self).spec_next_intent_id() == nid + 1
                &&& !old(self).has_intent(nid)
                &&& final(self).has_intent(nid)
                &&& final(self).spec_intent(nid).intent_id == nid
                &&& final(self).spec_intent(nid).account == who
                &&& final(self).spec_intent(nid).status == IntentStatus::Pending
                &&& final(self).spec_intent(nid).timestamp == old(self).spec_block_number()
                &&& final(self).spec_intent(nid).metadata@
                    == clip(metadata@, MAX_METADATA_BYTES as nat)
                &&& forall|j: IntentId|
                    j != nid ==> final(self).has_intent(j) == old(self).has_intent(j)
                &&& forall|j: IntentId|
                    j != nid && old(self).has_intent(j)
                        ==> final(self).spec_intent(j) == old(self).spec_intent(j)
                &&& final(self).spec_account_intents(who)
                    == old(self).spec_account_intents(who).push(nid)
                &&& forall|a: u64|
                    a != who ==> final(self).spec_account_intents(a)
                        == old(self).spec_account_intents(a)
                &&& forall|i: IntentId| final(self).spec_journey(i) == old(self).spec_journey(i)
                &&& final(self).spec_events() == old(self).spec_events().push(
                    (Event::IntentExecuted {
                        intent_id: nid,
                        account: who,
                        timestamp: old(self).spec_block_number(),
                    }),
                )
            }),
    {
        let who = match origin {
            Origin::Signed(a) => a,
            Origin::Root => {
                return Err(Error::BadOrigin);
            },
        };

        // Capacity is checked before the counter is touched, so a failed call
        // never consumes an identifier.
        let cur_len: usize = match self.intents_by_account.get(&who) {
            Some(list) => list.len(),
            None => 0,
        };
        if cur_len >= self.max_intents_per_account as usize {
            return Err(Error::MaxIntentsPerAccountExceeded);
        }

        let intent_id = self.next_intent_id;
        self.next_intent_id = intent_id + 1;

        let mut metadata = metadata;
        metadata.truncate(MAX_METADATA_BYTES);

        let timestamp = self.block_number;
        let intent = Intent {
            intent_id,
            account: who,
            status: IntentStatus::Pending,
            timestamp,
            metadata,
        };
        self.intents.insert(intent_id, intent);

        let mut list: Vec<IntentId> = match self.intents_by_account.remove(&who) {
            Some(list) => list,
            None => Vec::new(),
        };
        list.push(intent_id);
        self.intents_by_account.insert(who, list);

        self.events.push(Event::IntentExecuted { intent_id, account: who, timestamp });

        proof {
            assert(self.spec_account_intents(who)
                =~= old(self).spec_account_intents(who).push(intent_id));
            assert forall|a: u64|
                a != who implies self.spec_account_intents(a)
                    == old(self).spec_account_intents(a) by {
                assert(self.intents_by_account@.contains_key(a)
                    == old(self).intents_by_account@.contains_key(a));
            }
            assert forall|i: IntentId| self.spec_journey(i) == old(self).spec_journey(i) by {
                assert(self.journeys@ == old(self).journeys@);
            }
        }
        Ok(())
    }

    /// Append a journey step to an intent the signing account owns.
    ///
    /// The step's identifier is the step list's length at the time of the
    /// call, so identifiers are contiguous from zero. Oversize descriptions
    /// are stored cut to `MAX_DESCRIPTION_BYTES`.
    pub fn record_journey(
        &mut self,
        origin: Origin,
        intent_id: IntentId,
        description: Vec<u8>,
    ) -> (r: Result<(), Error>)
        requires
            old(self).wf(),
        ensures
            final(self).wf(),
            final(self).spec_max_intents_per_account()
                == old(self).spec_max_intents_per_account(),
            final(self).spec_max_journey_steps() == old(self).spec_max_journey_steps(),
            final(self).spec_block_number() == old(self).spec_block_number(),
            final(self).spec_next_intent_id() == old(self).spec_next_intent_id(),
            origin is Root ==> r == Err::<(), Error>(Error::BadOrigin),
            (origin is Signed && !old(self).has_intent(intent_id))
                ==> r == Err::<(), Error>(Error::IntentNotFound),
            (origin matches Origin::Signed(who) && old(self).has_intent(intent_id)
                && old(self).spec_intent(intent_id).account != who)
                ==> r == Err::<(), Error>(Error::NotIntentOwner),
            (origin matches Origin::Signed(who) && old(self).has_intent(intent_id)
                && old(self).spec_intent(intent_id).account == who
                && old(self).spec_journey(intent_id).len()
                    >= old(self).spec_max_journey_steps())
                ==> r == Err::<(), Error>(Error::MaxJourneyStepsExceeded),
            r == Ok::<(), Error>(()) <==> (origin matches Origin::Signed(who)
                && old(self).has_intent(intent_id)
                && old(self).spec_intent(intent_id).account == who
                && old(self).spec_journey(intent_id).len()
                    < old(self).spec_max_journey_steps()),
            r is Err ==> *final(self) == *old(self),
            r is Ok ==> {
                let n = old(self).spec_journey(intent_id).len();
                &&& final(self).spec_journey(intent_id).len() == n + 1
                &&& final(self).spec_journey(intent_id)[n as int].step_id == n
                &&& final(self).spec_journey(intent_id)[n as int].description@
                    == clip(description@, MAX_DESCRIPTION_BYTES as nat)
                &&& final(self).spec_journey(intent_id)[n as int].timestamp
                    == old(self).spec_block_number()
                &&& forall|k: int|
                    0 <= k < n ==> final(self).spec_journey(intent_id)[k]
                        == old(self).spec_journey(intent_id)[k]
                &&& forall|i: IntentId|
                    i != intent_id ==> final(self).spec_journey(i) == old(self).spec_journey(i)
                &&& forall|i: IntentId| final(self).has_intent(i) == old(self).has_intent(i)
                &&& forall|i: IntentId|
                    old(self).has_intent(i) ==> final(self).spec_intent(i)
                        == old(self).spec_intent(i)
                &&& forall|a: u64|
                    final(self).spec_account_intents(a) == old(self).spec_account_intents(a)
                &&& final(self).spec_events() == old(self).spec_events().push(
                    (Event::JourneyRecorded {
                        intent_id,
                        step_count: (n + 1) as u32,
                    }),
                )
            },
    {
        let who = match origin {
            Origin::Signed(a) => a,
            Origin::Root => {
                return Err(Error::BadOrigin);
            },
        };

        let owner: u64 = match self.intents.get(&intent_id) {
            Some(intent) => intent.account,
            None => {
                return Err(Error::IntentNotFound);
            },
        };
        if owner != who {
            return Err(Error::NotIntentOwner);
        }

        let cur_len: usize = match self.journeys.get(&intent_id) {
            Some(steps) => steps.len(),
            None => 0,
        };
        if cur_len >= self.max_journey_steps_per_intent as usize {
            return Err(Error::MaxJourneyStepsExceeded);
        }

        let mut description = description;
        description.truncate(MAX_DESCRIPTION_BYTES);

        let mut steps: Vec<JourneyStep> = match self.journeys.remove(&intent_id) {
            Some(steps) => steps,
            None => Vec::new(),
        };
        let step_id = steps.len() as u32;
        steps.push(JourneyStep { step_id, description, timestamp: self.block_number });
        let step_count = steps.len() as u32;
        self.journeys.insert(intent_id, steps);

        self.events.push(Event::JourneyRecorded { intent_id, step_count });

        proof {
            assert forall|a: u64| self.spec_account_intents(a)
                == old(self).spec_account_intents(a) by {
                assert(self.intents_by_account@ == old(self).intents_by_account@);
            }
            assert(self.spec_journey(intent_id)
                =~= old(self).spec_journey(intent_id).push(self.spec_journey(intent_id).last()));
            assert forall|i: IntentId|
                i != intent_id implies self.spec_journey(i) == old(self).spec_journey(i) by {
                assert(self.journeys@.contains_key(i) == old(self).journeys@.contains_key(i));
            }
        }
        Ok(())
    }

    /// Set the status of an intent the signing account owns. Any status may
    /// replace any other; only ownership and the status code are checked.
    pub fn update_intent_status(
        &mut self,
        origin: Origin,
        intent_id: IntentId,
        new_status: u8,
    ) -> (r: Result<(), Error>)
        requires
            old(self).wf(),
        ensures
            final(self).wf(),
            final(self).spec_max_intents_per_account()
                == old(self).spec_max_intents_per_account(),
            final(self).spec_max_journey_steps() == old(self).spec_max_journey_steps(),
            final(self).spec_block_number() == old(self).spec_block_number(),
            final(self).spec_next_intent_id() == old(self).spec_next_intent_id(),
            origin is Root ==> r == Err::<(), Error>(Error::BadOrigin),
            (origin is Signed && IntentStatus::spec_from_u8(new_status) is None)
                ==> r == Err::<(), Error>(Error::InvalidIntentStatus),
            (origin is Signed && IntentStatus::spec_from_u8(new_status) is Some
                && !old(self).has_intent(intent_id))
                ==> r == Err::<(), Error>(Error::IntentNotFound),
            (origin matches Origin::Signed(who) && IntentStatus::spec_from_u8(new_status) is Some
                && old(self).has_intent(intent_id)
                && old(self).spec_intent(intent_id).account != who)
                ==> r == Err::<(), Error>(Error::NotIntentOwner),
            r == Ok::<(), Error>(()) <==> (origin matches Origin::Signed(who)
                && IntentStatus::spec_from_u8(new_status) is Some
                && old(self).has_intent(intent_id)
                && old(self).spec_intent(intent_id).account == who),
            r is Err ==> *final(self) == *old(self),
            r is Ok ==> {
                let status = IntentStatus::spec_from_u8(new_status)->Some_0;
                &&& final(self).has_intent(intent_id)
                &&& final(self).spec_intent(intent_id).status == status
                &&& final(self).spec_intent(intent_id).intent_id
                    == old(self).spec_intent(intent_id).intent_id
                &&& final(self).spec_intent(intent_id).account
                    == old(self).spec_intent(intent_id).account
                &&& final(self).spec_intent(intent_id).timestamp
                    == old(self).spec_intent(intent_id).timestamp
                &&& final(self).spec_intent(intent_id).metadata
                    == old(self).spec_intent(intent_id).metadata
                &&& forall|j: IntentId|
                    j != intent_id ==> final(self).has_intent(j) == old(self).has_intent(j)
                &&& forall|j: IntentId|
                    j != intent_id && old(self).has_intent(j)
                        ==> final(self).spec_intent(j) == old(self).spec_intent(j)
                &&& forall|a: u64|
                    final(self).spec_account_intents(a) == old(self).spec_account_intents(a)
                &&& forall|i: IntentId| final(self).spec_journey(i) == old(self).spec_journey(i)
                &&& final(self).spec_events() == old(self).spec_events().push(
                    (Event::IntentStatusUpdated {
                        intent_id,
                        old_status: old(self).spec_intent(intent_id).status.spec_as_u8(),
                        new_status: status.spec_as_u8(),
                    }),
                )
            },
    {
        let who = match origin {
            Origin::Signed(a) => a,
            Origin::Root => {
                return Err(Error::BadOrigin);
            },
        };

        let status = match IntentStatus::from_u8(new_status) {
            Some(s) => s,
            None => {
                return Err(Error::InvalidIntentStatus);
            },
        };

        let owner: u64 = match self.intents.get(&intent_id) {
            Some(intent) => intent.account,
            None => {
                return Err(Error::IntentNotFound);
            },
        };
        if owner != who {
            return Err(Error::NotIntentOwner);
        }

        // The lookup above proved the record is present.
        let mut intent = self.intents.remove(&intent_id).unwrap();

        let old_status = intent.status;
        intent.status = status;
        self.intents.insert(intent_id, intent);

        self.events.push(Event::IntentStatusUpdated {
            intent_id,
            old_status: old_status.as_u8(),
            new_status: status.as_u8(),
        });

        proof {
            assert(self.intents@ =~= old(self).intents@.insert(
                intent_id,
                self.intents@[intent_id],
            ));
            assert forall|a: u64| self.spec_account_intents(a)
                == old(self).spec_account_intents(a) by {
                assert(self.intents_by_account@ == old(self).intents_by_account@);
            }
            assert forall|i: IntentId| self.spec_journey(i) == old(self).spec_journey(i) by {
                assert(self.journeys@ == old(self).journeys@);
            }
        }
        Ok(())
    }

    /// The next identifier the counter will hand out.
    pub fn next_intent_id(&self) -> (r: IntentId)
        ensures
            r == self.spec_next_intent_id(),
    {
        self.next_intent_id
    }

    /// Look an intent up by its identifier.
    pub fn intent_by_id(&self, intent_id: IntentId) -> (r: Option<&Intent>)
        ensures
            match r {
                Some(intent) => self.has_intent(intent_id)
                    && *intent == self.spec_intent(intent_id),
                None => !self.has_intent(intent_id),
            },
    {
        self.intents.get(&intent_id)
    }

    /// The identifiers of the intents this account owns, in creation order;
    /// an unknown account owns none.
    pub fn intents_by_account(&self, account: u64) -> (r: Vec<IntentId>)
        ensures
            r@ == self.spec_account_intents(account),
    {
        let mut out: Vec<IntentId> = Vec::new();
        match self.intents_by_account.get(&account) {
            Some(list) => {
                let n = list.len();
                let mut k: usize = 0;
                while k < n
                    invariant
                        k <= n,
                        n == list@.len(),
                        out@ == list@.take(k as int),
                    decreases n - k,
                {
                    out.push(list[k]);
                    proof {
                        assert(out@ =~= list@.take(k + 1 as int));
                    }
                    k = k + 1;
                }
                proof {
                    assert(list@.take(n as int) =~= list@);
                }
            },
            None => {},
        }
        out
    }

    /// The journey steps recorded for an intent; an intent with no recorded
    /// steps (or an unknown one) yields nothing.
    pub fn journey_by_intent(&self, intent_id: IntentId) -> (r: Option<&Vec<JourneyStep>>)
        ensures
            match r {
                Some(steps) => steps@ == self.spec_journey(intent_id)
                    && self.spec_journey(intent_id).len() > 0,
                None => self.spec_journey(intent_id).len() == 0,
            },
    {
        let r = self.journeys.get(&intent_id);
        match r {
            Some(steps) => {
                if steps.len() == 0 {
                    None
                } else {
                    Some(steps)
                }
            },
            None => None,
        }
    }

    /// Bound invariants: in every well-formed ledger, no account's intent
    /// index exceeds its cap, no intent's journey exceeds its cap, and every
    /// journey's step identifiers are exactly its positions, in order.
    pub proof fn lemma_bounds(self)
        requires
            self.wf(),
        ensures
            forall|a: u64|
                self.spec_account_intents(a).len() <= self.spec_max_intents_per_account(),
            forall|i: IntentId| self.spec_journey(i).len() <= self.spec_max_journey_steps(),
            forall|i: IntentId, k: int|
                0 <= k < self.spec_journey(i).len() ==> self.spec_journey(i)[k].step_id == k,
            forall|i: IntentId, k: int|
                0 <= k < self.spec_journey(i).len() ==> self.spec_journey(
                    i,
                )[k].description@.len() <= MAX_DESCRIPTION_BYTES,
            forall|i: IntentId|
                self.has_intent(i) ==> self.spec_intent(i).metadata@.len() <= MAX_METADATA_BYTES,
    {
        assert forall|i: IntentId|
            self.has_intent(i) implies self.spec_intent(i).metadata@.len()
            <= MAX_METADATA_BYTES by {
            assert(self.intents@[i].intent_id == i);
        }
    }

    /// Monotone identifiers: every stored intent's identifier sits below the
    /// counter, so no later successful creation can ever reuse it; and the
    /// identifier a record carries is the one it is stored under, immutably.
    pub proof fn lemma_identifiers_monotone(self)
        requires
            self.wf(),
        ensures
            forall|i: IntentId| self.has_intent(i) ==> i < self.spec_next_intent_id(),
            forall|i: IntentId| self.has_intent(i) ==> self.spec_intent(i).intent_id == i,
    {
        assert forall|i: IntentId|
            self.has_intent(i) implies i < self.spec_next_intent_id()
            && self.spec_intent(i).intent_id == i by {
            assert(self.intents@[i].intent_id == i);
        }
    }

    /// The most recently emitted event, if any mutation has succeeded yet.
    pub fn last_event(&self) -> (r: Option<&Event>)
        ensures
            match r {
                Some(event) => self.spec_events().len() > 0
                    && *event == self.spec_events().last(),
                None => self.spec_events().len() == 0,
            },
    {
        if self.events.len() == 0 {
            None
        } else {
            Some(&self.events[self.events.len() - 1])
        }
    }
}

} // verus!
