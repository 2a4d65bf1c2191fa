//! Message pointer store: per-account public keys (write-once) and bounded
//! per-recipient inboxes of pointers to off-chain message content.

use vstd::prelude::*;
use std::collections::HashMap;

verus! {

use crate::Origin;
use crate::hashing::blake2b256_of;
use crate::hashing::blake2b_256;

/// Unique identifier of a message, allocated from a monotone counter shared
/// by all recipients.
pub type MessageId = u64;

/// Registered public keys must be at least this many bytes long.
pub const MIN_PUBLIC_KEY_BYTES: usize = 32;

/// Splits a packed `(recipient, message id)` key into its two halves.
pub const KEY_SPLIT: u128 = 0x1_0000_0000_0000_0000;

/// An on-chain pointer to a message stored off-chain: who sent it, who
/// receives it, the content pointer, and whether it has been read.
#[derive(Clone, Debug, PartialEq, Eq)]
pub struct MessagePointer {
    pub message_id: MessageId,
    pub sender: u64,
    pub recipient: u64,
    pub cid: Vec<u8>,
    pub timestamp: u64,
    pub read: bool,
}

/// Events appended on every successful mutation, in order. A registered key
/// is published only as its one-way hash.
#[derive(Clone, Debug, PartialEq, Eq)]
pub enum Event {
    PublicKeyRegistered { account: u64, key_hash: Vec<u8> },
    MessageSent {
        message_id: MessageId,
        sender: u64,
        recipient: u64,
        cid: Vec<u8>,
        timestamp: u64,
    },
    MessageRead { message_id: MessageId, recipient: u64 },
}

/// Errors returned by the message pointer store; every failure leaves state
/// unchanged.
#[derive(Clone, Copy, Debug, PartialEq, Eq, Structural)]
pub enum Error {
    BadOrigin,
    PublicKeyAlreadyRegistered,
    PublicKeyNotFound,
    RecipientPublicKeyNotFound,
    MessageNotFound,
    NotMessageRecipient,
    MaxInboxMessagesExceeded,
    InvalidPublicKeyLength,
    InvalidCidLength,
}

/// The packed composite key under which a recipient's message is stored.
pub closed spec fn spec_key_of(recipient: u64, message_id: MessageId) -> u128 {
    ((recipient as u128) * KEY_SPLIT + (message_id as u128)) as u128
}

/// The recipient half of a packed key.
pub closed spec fn spec_key_recipient(key: u128) -> u64 {
    (key / KEY_SPLIT) as u64
}

/// The message-id half of a packed key.
pub closed spec fn spec_key_message(key: u128) -> u64 {
    (key % KEY_SPLIT) as u64
}

/// Packing a pair and splitting it again gives the pair back, so distinct
/// pairs pack to distinct keys.
proof fn lemma_key_roundtrip(recipient: u64, message_id: MessageId)
    ensures
        spec_key_recipient(spec_key_of(recipient, message_id)) == recipient,
        spec_key_message(spec_key_of(recipient, message_id)) == message_id,
{
    let r = recipient as int;
    let m = message_id as int;
    let split = KEY_SPLIT as int;
    assert((r * split + m) / split == r && (r * split + m) % split == m)
        by (nonlinear_arith)
        requires
            0 <= r,
            0 <= m < split,
    ;
}

/// The message pointer store. One instance owns all its maps; every mutating
/// operation validates first and writes only after every check has passed.
pub struct Pallet {
    max_inbox_messages: u32,
    max_public_key_length: u32,
    max_cid_length: u32,
    block_number: u64,
    next_message_id: MessageId,
    public_keys: HashMap<u64, Vec<u8>>,
    messages: HashMap<u128, MessagePointer>,
    inbox_counts: HashMap<u64, u32>,
    events: Vec<Event>,
}

impl Pallet {
    /// Configured cap on how many messages one inbox may ever receive.
    pub closed spec fn spec_max_inbox_messages(self) -> u32 {
        self.max_inbox_messages
    }

    /// Configured cap on the length of a registered public key.
    pub closed spec fn spec_max_public_key_length(self) -> u32 {
        self.max_public_key_length
    }

    /// Configured cap on the length of a content pointer.
    pub closed spec fn spec_max_cid_length(self) -> u32 {
        self.max_cid_length
    }

    /// The logical clock value stamped into new records.
    pub closed spec fn spec_block_number(self) -> u64 {
        self.block_number
    }

    /// The identifier the next successful send will receive.
    pub closed spec fn spec_next_message_id(self) -> MessageId {
        self.next_message_id
    }

    /// Whether this account has registered a public key.
    pub closed spec fn has_public_key(self, account: u64) -> bool {
        self.public_keys@.contains_key(account)
    }

    /// The registered key bytes; meaningful only when `has_public_key` holds.
    pub closed spec fn spec_public_key(self, account: u64) -> Seq<u8>
        recommends
            self.has_public_key(account),
    {
        self.public_keys@[account]@
    }

    /// Whether this recipient holds a message under this identifier.
    pub closed spec fn has_message(self, recipient: u64, message_id: MessageId) -> bool {
        self.messages@.contains_key(spec_key_of(recipient, message_id))
    }

    /// The stored message pointer; meaningful only when `has_message` holds.
    pub closed spec fn spec_message(self, recipient: u64, message_id: MessageId) -> MessagePointer
        recommends
            self.has_message(recipient, message_id),
    {
        self.messages@[spec_key_of(recipient, message_id)]
    }

    /// How many messages this recipient has ever been delivered.
    pub closed spec fn spec_inbox_count(self, account: u64) -> u32 {
        if self.inbox_counts@.contains_key(account) {
            self.inbox_counts@[account]
        } else {
            0
        }
    }

    /// All events emitted so far, oldest first.
    pub closed spec fn spec_events(self) -> Seq<Event> {
        self.events@
    }

    /// Well-formedness: registered keys are within their length bounds, every
    /// stored message sits under the key of its own recipient and identifier,
    /// carries a non-empty bounded pointer, was sent to a recipient with a
    /// registered key, and no inbox count exceeds its cap.
    pub closed spec fn wf(self) -> bool {
        &&& forall|a: u64| self.public_keys@.contains_key(a) ==> {
            &&& MIN_PUBLIC_KEY_BYTES <= (#[trigger] self.public_keys@[a])@.len()
            &&& self.public_keys@[a]@.len() <= self.max_public_key_length
        }
        &&& forall|k: u128| self.messages@.contains_key(k) ==> {
            &&& (#[trigger] self.messages@[k]).message_id == spec_key_message(k)
            &&& self.messages@[k].recipient == spec_key_recipient(k)
            &&& self.messages@[k].message_id < self.next_message_id
            &&& 1 <= self.messages@[k].cid@.len() <= self.max_cid_length
            &&& self.public_keys@.contains_key(self.messages@[k].recipient)
        }
        &&& forall|a: u64| #[trigger] self.spec_inbox_count(a) <= self.max_inbox_messages
    }

    /// A fresh, empty store with the given capacity bounds.
    pub fn new(max_inbox_messages: u32, max_public_key_length: u32, max_cid_length: u32) -> (r:
        Pallet)
        ensures
            r.wf(),
            r.spec_max_inbox_messages() == max_inbox_messages,
            r.spec_max_public_key_length() == max_public_key_length,
            r.spec_max_cid_length() == max_cid_length,
            r.spec_block_number() == 0,
            r.spec_next_message_id() == 0,
            forall|a: u64| !r.has_public_key(a),
            forall|a: u64, m: MessageId| !r.has_message(a, m),
            forall|a: u64| r.spec_inbox_count(a) == 0,
            r.spec_events() == Seq::<Event>::empty(),
    {
        Pallet {
            max_inbox_messages,
            max_public_key_length,
            max_cid_length,
            block_number: 0,
            next_message_id: 0,
            public_keys: HashMap::new(),
            messages: HashMap::new(),
            inbox_counts: HashMap::new(),
            events: Vec::new(),
        }
    }

    /// Advance the logical clock; nothing else changes.
    pub fn set_block_number(&mut self, n: u64)
        ensures
            final(self).spec_block_number() == n,
            old(self).wf() ==> final(self).wf(),
            final(self).spec_max_inbox_messages() == old(self).spec_max_inbox_messages(),
            final(self).spec_max_public_key_length() == old(self).spec_max_public_key_length(),
            final(self).spec_max_cid_length() == old(self).spec_max_cid_length(),
            final(self).spec_next_message_id() == old(self).spec_next_message_id(),
            forall|a: u64| final(self).has_public_key(a) == old(self).has_public_key(a),
            forall|a: u64|
                old(self).has_public_key(a) ==> final(self).spec_public_key(a)
                    == old(self).spec_public_key(a),
            forall|a: u64, m: MessageId|
                final(self).has_message(a, m) == old(self).has_message(a, m),
            forall|a: u64, m: MessageId|
                old(self).has_message(a, m) ==> final(self).spec_message(a, m)
                    == old(self).spec_message(a, m),
            forall|a: u64| final(self).spec_inbox_count(a) == old(self).spec_inbox_count(a),
            final(self).spec_events() == old(self).spec_events(),
    {
        self.block_number = n;
        proof {
            assert forall|a: u64| self.spec_inbox_count(a) == old(self).spec_inbox_count(a) by {
                assert(self.inbox_counts@ == old(self).inbox_counts@);
            }
        }
    }

    /// Register the signing account's public key; one key per account, ever.
    ///
    /// The key must be between `MIN_PUBLIC_KEY_BYTES` and the configured cap,
    /// and the emitted event carries only the key's one-way hash.
    pub fn register_public_key(&mut self, origin: Origin, public_key: Vec<u8>) -> (r: Result<
        (),
        Error,
    >)
        requires
            old(self).wf(),
        ensures
            final(self).wf(),
            final(self).spec_max_inbox_messages() == old(self).spec_max_inbox_messages(),
            final(self).spec_max_public_key_length() == old(self).spec_max_public_key_length(),
            final(self).spec_max_cid_length() == old(self).spec_max_cid_length(),
            final(self).spec_block_number() == old(self).spec_block_number(),
            final(self).spec_next_message_id() == old(self).spec_next_message_id(),
            origin is Root ==> r == Err::<(), Error>(Error::BadOrigin),
            (origin matches Origin::Signed(who) && old(self).has_public_key(who))
                ==> r == Err::<(), Error>(Error::PublicKeyAlreadyRegistered),
            (origin matches Origin::Signed(who) && !old(self).has_public_key(who)
                && !(MIN_PUBLIC_KEY_BYTES <= public_key@.len()
                    && public_key@.len() <= old(self).spec_max_public_key_length()))
                ==> r == Err::<(), Error>(Error::InvalidPublicKeyLength),
            r == Ok::<(), Error>(()) <==> (origin matches Origin::Signed(who)
                && !old(self).has_public_key(who)
                && MIN_PUBLIC_KEY_BYTES <= public_key@.len()
                && public_key@.len() <= old(self).spec_max_public_key_length()),
            r is Err ==> *final(self) == *old(self),
            r is Ok ==> (origin matches Origin::Signed(who) && {
                &&& final(self).has_public_key(who)
                &&& final(self).spec_public_key(who) == public_key@
                &&& forall|a: u64|
                    a != who ==> final(self).has_public_key(a) == old(self).has_public_key(a)
                &&& forall|a: u64|
                    a != who && old(self).has_public_key(a)
                        ==> final(self).spec_public_key(a) == old(self).spec_public_key(a)
                &&& forall|a: u64, m: MessageId|
                    final(self).has_message(a, m) == old(self).has_message(a, m)
                &&& forall|a: u64, m: MessageId|
                    old(self).has_message(a, m) ==> final(self).spec_message(a, m)
                        == old(self).spec_message(a, m)
                &&& forall|a: u64| final(self).spec_inbox_count(a) == old(self).spec_inbox_count(a)
                &&& final(self).spec_events().len() == old(self).spec_events().len() + 1
                &&& forall|k: int|
                    0 <= k < old(self).spec_events().len()
                        ==> final(self).spec_events()[k] == old(self).spec_events()[k]
                &&& (final(self).spec_events().last() matches Event::PublicKeyRegistered {
                    account,
                    key_hash,
                } && account == who && key_hash@ == blake2b256_of(public_key@))
            }),
    {
        let who = match origin {
            Origin::Signed(a) => a,
            Origin::Root => {
                return Err(Error::BadOrigin);
            },
        };

        if self.public_keys.contains_key(&who) {
            return Err(Error::PublicKeyAlreadyRegistered);
        }

        let key_len = public_key.len();
        if key_len < MIN_PUBLIC_KEY_BYTES || key_len > self.max_public_key_length as usize {
            return Err(Error::InvalidPublicKeyLength);
        }

        let key_hash = blake2b_256(public_key.as_slice());
        self.public_keys.insert(who, public_key);
        self.events.push(Event::PublicKeyRegistered { account: who, key_hash });

        proof {
            assert forall|a: u64| self.spec_inbox_count(a) == old(self).spec_inbox_count(a) by {
                assert(self.inbox_counts@ == old(self).inbox_counts@);
            }
        }
        Ok(())
    }

    /// Deliver a content pointer to a recipient's inbox.
    ///
    /// The recipient must have a registered key, the pointer must be
    /// non-empty and within its cap, and the inbox must be under its cap.
    /// Only then is the next message identifier consumed.
    pub fn send_message(&mut self, origin: Origin, recipient: u64, cid: Vec<u8>) -> (r: Result<
        (),
        Error,
    >)
        requires
            old(self).wf(),
            // machine limit: the identifier counter must not saturate
            old(self).spec_next_message_id() < u64::MAX,
        ensures
            final(self).wf(),
            final(self).spec_max_inbox_messages() == old(self).spec_max_inbox_messages(),
            final(self).spec_max_public_key_length() == old(self).spec_max_public_key_length(),
            final(self).spec_max_cid_length() == old(self).spec_max_cid_length(),
            final(self).spec_block_number() == old(self).spec_block_number(),
            origin is Root ==> r == Err::<(), Error>(Error::BadOrigin),
            (origin is Signed && !old(self).has_public_key(recipient))
                ==> r == Err::<(), Error>(Error::RecipientPublicKeyNotFound),
            (origin is Signed && old(self).has_public_key(recipient)
                && !(1 <= cid@.len() && cid@.len() <= old(self).spec_max_cid_length()))
                ==> r == Err::<(), Error>(Error::InvalidCidLength),
            (origin is Signed && old(self).has_public_key(recipient)
                && 1 <= cid@.len() && cid@.len() <= old(self).spec_max_cid_length()
                && old(self).spec_inbox_count(recipient) >= old(self).spec_max_inbox_messages())
                ==> r == Err::<(), Error>(Error::MaxInboxMessagesExceeded),
            r == Ok::<(), Error>(()) <==> (origin is Signed
                && old(self).has_public_key(recipient)
                && 1 <= cid@.len() && cid@.len() <= old(self).spec_max_cid_length()
                && old(self).spec_inbox_count(recipient) < old(self).spec_max_inbox_messages()),
            r is Err ==> *final(self) == *old(self),
            r is Ok ==> (origin matches Origin::Signed(sender) && {
                let nid = old(self).spec_next_message_id();
                &&& final(self).spec_next_message_id() == nid + 1
                &&& !old(self).has_message(recipient, nid)
                &&& final(self).has_message(recipient, nid)
                &&& final(self).spec_message(recipient, nid).message_id == nid
                &&& final(self).spec_message(recipient, nid).sender == sender
                &&& final(self).spec_message(recipient, nid).recipient == recipient
                &&& final(self).spec_message(recipient, nid).cid@ == cid@
                &&& final(self).spec_message(recipient, nid).timestamp
                    == old(self).spec_block_number()
                &&& final(self).spec_message(recipient, nid).read == false
                &&& forall|a: u64, m: MessageId|
                    !(a == recipient && m == nid) ==> final(self).has_message(a, m)
                        == old(self).has_message(a, m)
                &&& forall|a: u64, m: MessageId|
                    !(a == recipient && m == nid) && old(self).has_message(a, m)
                        ==> final(self).spec_message(a, m) == old(self).spec_message(a, m)
                &&& final(self).spec_inbox_count(recipient)
                    == old(self).spec_inbox_count(recipient) + 1
                &&& forall|a: u64|
                    a != recipient ==> final(self).spec_inbox_count(a)
                        == old(self).spec_inbox_count(a)
                &&& forall|a: u64| final(self).has_public_key(a) == old(self).has_public_key(a)
                &&& forall|a: u64|
                    old(self).has_public_key(a) ==> final(self).spec_public_key(a)
                        == old(self).spec_public_key(a)
                &&& final(self).spec_events().len() == old(self).spec_events().len() + 1
                &&& forall|k: int|
                    0 <= k < old(self).spec_events().len()
                        ==> final(self).spec_events()[k] == old(self).spec_events()[k]
                &&& (final(self).spec_events().last() matches Event::MessageSent {
                    message_id,
                    sender: ev_sender,
                    recipient: ev_recipient,
                    cid: ev_cid,
                    timestamp,
                } && message_id == nid && ev_sender == sender && ev_recipient == recipient
                    && ev_cid@ == cid@ && timestamp == old(self).spec_block_number())
            }),
    {
        let sender = match origin {
            Origin::Signed(a) => a,
            Origin::Root => {
                return Err(Error::BadOrigin);
            },
        };

        if !self.public_keys.contains_key(&recipient) {
            return Err(Error::RecipientPublicKeyNotFound);
        }

        let cid_len = cid.len();
        if cid_len == 0 || cid_len > self.max_cid_length as usize {
            return Err(Error::InvalidCidLength);
        }

        let current_count: u32 = match self.inbox_counts.get(&recipient) {
            Some(c) => *c,
            None => 0,
        };
        if current_count >= self.max_inbox_messages {
            return Err(Error::MaxInboxMessagesExceeded);
        }

        let message_id = self.next_message_id;
        self.next_message_id = message_id + 1;

        let timestamp = self.block_number;
        let event_cid = crate::clone_bytes(&cid);
        let message = MessagePointer {
            message_id,
            sender,
            recipient,
            cid,
            timestamp,
            read: false,
        };

        let key = composite_key(recipient, message_id);
        self.messages.insert(key, message);
        self.inbox_counts.insert(recipient, current_count + 1);
        self.events.push(Event::MessageSent {
            message_id,
            sender,
            recipient,
            cid: event_cid,
            timestamp,
        });

        proof {
            lemma_key_roundtrip(recipient, message_id);
            assert forall|a: u64, m: MessageId|
                !(a == recipient && m == message_id) implies self.messages@.contains_key(
                spec_key_of(a, m),
            ) == old(self).messages@.contains_key(spec_key_of(a, m)) && (old(
                self,
            ).messages@.contains_key(spec_key_of(a, m)) ==> self.messages@[spec_key_of(a, m)]
                == old(self).messages@[spec_key_of(a, m)]) by {
                lemma_key_roundtrip(a, m);
            }
            assert forall|a: u64|
                a != recipient implies self.spec_inbox_count(a) == old(self).spec_inbox_count(
                a,
            ) by {
                assert(self.inbox_counts@.contains_key(a) == old(
                    self,
                ).inbox_counts@.contains_key(a));
            }
        }
        Ok(())
    }

    /// Mark one of the caller's own messages as read; marking an already-read
    /// message again succeeds and changes nothing further.
    ///
    /// Only the caller's own inbox is searched, so a message belonging to
    /// someone else is indistinguishable from a missing one.
    pub fn mark_message_read(&mut self, origin: Origin, message_id: MessageId) -> (r: Result<
        (),
        Error,
    >)
        requires
            old(self).wf(),
        ensures
            final(self).wf(),
            final(self).spec_max_inbox_messages() == old(self).spec_max_inbox_messages(),
            final(self).spec_max_public_key_length() == old(self).spec_max_public_key_length(),
            final(self).spec_max_cid_length() == old(self).spec_max_cid_length(),
            final(self).spec_block_number() == old(self).spec_block_number(),
            final(self).spec_next_message_id() == old(self).spec_next_message_id(),
            origin is Root ==> r == Err::<(), Error>(Error::BadOrigin),
            (origin matches Origin::Signed(who) && !old(self).has_message(who, message_id))
                ==> r == Err::<(), Error>(Error::MessageNotFound),
            r == Ok::<(), Error>(()) <==> (origin matches Origin::Signed(who)
                && old(self).has_message(who, message_id)),
            r is Err ==> *final(self) == *old(self),
            r is Ok ==> (origin matches Origin::Signed(who) && {
                &&& final(self).has_message(who, message_id)
                &&& final(self).spec_message(who, message_id).read == true
                &&& final(self).spec_message(who, message_id).message_id
                    == old(self).spec_message(who, message_id).message_id
                &&& final(self).spec_message(who, message_id).sender
                    == old(self).spec_message(who, message_id).sender
                &&& final(self).spec_message(who, message_id).recipient
                    == old(self).spec_message(who, message_id).recipient
                &&& final(self).spec_message(who, message_id).cid
                    == old(self).spec_message(who, message_id).cid
                &&& final(self).spec_message(who, message_id).timestamp
                    == old(self).spec_message(who, message_id).timestamp
                &&& forall|a: u64, m: MessageId|
                    !(a == who && m == message_id) ==> final(self).has_message(a, m)
                        == old(self).has_message(a, m)
                &&& forall|a: u64, m: MessageId|
                    !(a == who && m == message_id) && old(self).has_message(a, m)
                        ==> final(self).spec_message(a, m) == old(self).spec_message(a, m)
                &&& forall|a: u64| final(self).has_public_key(a) == old(self).has_public_key(a)
                &&& forall|a: u64|
                    old(self).has_public_key(a) ==> final(self).spec_public_key(a)
                        == old(self).spec_public_key(a)
                &&& forall|a: u64| final(self).spec_inbox_count(a) == old(self).spec_inbox_count(a)
                &&& final(self).spec_events() == old(self).spec_events().push(
                    (Event::MessageRead { message_id, recipient: who }),
                )
            }),
    {
        let who = match origin {
            Origin::Signed(a) => a,
            Origin::Root => {
                return Err(Error::BadOrigin);
            },
        };

        let key = composite_key(who, message_id);
        if !self.messages.contains_key(&key) {
            return Err(Error::MessageNotFound);
        }

        // The check above proved the record is present.
        let mut message = self.messages.remove(&key).unwrap();
        message.read = true;
        self.messages.insert(key, message);

        self.events.push(Event::MessageRead { message_id, recipient: who });

        proof {
            lemma_key_roundtrip(who, message_id);
            assert(self.messages@ =~= old(self).messages@.insert(key, self.messages@[key]));
            assert forall|a: u64, m: MessageId|
                !(a == who && m == message_id) implies self.messages@.contains_key(
                spec_key_of(a, m),
            ) == old(self).messages@.contains_key(spec_key_of(a, m)) && (old(
                self,
            ).messages@.contains_key(spec_key_of(a, m)) ==> self.messages@[spec_key_of(a, m)]
                == old(self).messages@[spec_key_of(a, m)]) by {
                lemma_key_roundtrip(a, m);
            }
            assert forall|a: u64| self.spec_inbox_count(a) == old(self).spec_inbox_count(a) by {
                assert(self.inbox_counts@ == old(self).inbox_counts@);
            }
        }
        Ok(())
    }

    /// The registered public key of an account, if it has one.
    pub fn public_keys(&self, account: u64) -> (r: Option<&Vec<u8>>)
        ensures
            match r {
                Some(key) => self.has_public_key(account)
                    && key@ == self.spec_public_key(account),
                None => !self.has_public_key(account),
            },
    {
        self.public_keys.get(&account)
    }

    /// The next identifier the counter will hand out.
    pub fn next_message_id(&self) -> (r: MessageId)
        ensures
            r == self.spec_next_message_id(),
    {
        self.next_message_id
    }

    /// Look a message up by its recipient and identifier.
    pub fn messages_by_recipient(&self, recipient: u64, message_id: MessageId) -> (r: Option<
        &MessagePointer,
    >)
        ensures
            match r {
                Some(message) => self.has_message(recipient, message_id)
                    && *message == self.spec_message(recipient, message_id),
                None => !self.has_message(recipient, message_id),
            },
    {
        let key = composite_key(recipient, message_id);
        self.messages.get(&key)
    }

    /// How many messages this recipient has ever been delivered; an unknown
    /// account has received none.
    pub fn inbox_count(&self, account: u64) -> (r: u32)
        ensures
            r == self.spec_inbox_count(account),
    {
        match self.inbox_counts.get(&account) {
            Some(c) => *c,
            None => 0,
        }
    }

    /// Bound invariant: in every well-formed store, no inbox count exceeds
    /// the configured cap.
    pub proof fn lemma_inbox_bounded(self)
        requires
            self.wf(),
        ensures
            forall|a: u64| self.spec_inbox_count(a) <= self.spec_max_inbox_messages(),
    {
    }

    /// Monotone identifiers, and message record invariants: every stored
    /// message's identifier sits below the counter, so no later successful
    /// send can ever reuse it; the record carries the identity it is stored
    /// under; its content pointer is non-empty and within the cap; and its
    /// recipient registered a key before it was delivered.
    pub proof fn lemma_identifiers_monotone(self)
        requires
            self.wf(),
        ensures
            forall|a: u64, m: MessageId|
                self.has_message(a, m) ==> m < self.spec_next_message_id(),
            forall|a: u64, m: MessageId|
                self.has_message(a, m) ==> self.spec_message(a, m).message_id == m
                    && self.spec_message(a, m).recipient == a,
            forall|a: u64, m: MessageId|
                self.has_message(a, m) ==> 1 <= self.spec_message(a, m).cid@.len()
                    <= self.spec_max_cid_length(),
            forall|a: u64, m: MessageId| self.has_message(a, m) ==> self.has_public_key(a),
    {
        assert forall|a: u64, m: MessageId|
            self.has_message(a, m) implies m < self.spec_next_message_id()
            && self.spec_message(a, m).message_id == m && self.spec_message(a, m).recipient == a
            && 1 <= self.spec_message(a, m).cid@.len() <= self.spec_max_cid_length()
            && self.has_public_key(a) by {
            lemma_key_roundtrip(a, m);
            assert(self.messages@[spec_key_of(a, m)].message_id
                == spec_key_message(spec_key_of(a, m)));
        }
    }

    /// The most recently emitted event, if any mutation has succeeded yet.
    pub fn last_event(&self) -> (r: Option<&Event>)
        ensures
            match r {
                Some(event) => self.spec_events().len() > 0
                    && *event == self.spec_events().last(),
                None => self.spec_events().len() == 0,
            },
    {
        if self.events.len() == 0 {
            None
        } else {
            Some(&self.events[self.events.len() - 1])
        }
    }
}

/// The packed map key for a recipient's message.
fn composite_key(recipient: u64, message_id: MessageId) -> (r: u128)
    ensures
        r == spec_key_of(recipient, message_id),
{
    (recipient as u128) * KEY_SPLIT + (message_id as u128)
}

} // verus!
