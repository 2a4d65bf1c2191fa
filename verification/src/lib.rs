//! Verified core of the Ghost Protocol ledgers.
//!
//! Three bounded, indexed stores share one structural pattern: per-account
//! state under strict capacity bounds, auto-incrementing identifiers,
//! secondary indexes, and paired counters, all mutated only inside
//! all-or-nothing transitions.
//!
//! - `chainghost`: intents and their append-only journey steps.
//! - `g3mail`: per-account public keys and bounded message-pointer inboxes.
//! - `ghonity`: the follow graph with derived counters and reputation scores.

use vstd::prelude::*;

pub mod account_mapping;
pub mod chainghost;
pub mod g3mail;
pub mod ghonity;
pub mod hashing;
pub mod queries;
pub mod rate_limit;
pub mod storage;
pub mod text;
pub mod types;

verus! {

/// An owned copy of a byte vector, equal to its source.
pub fn clone_bytes(v: &Vec<u8>) -> (r: Vec<u8>)
    ensures
        r@ == v@,
{
    let r = v.clone();
    proof {
        assert(r@ =~= v@);
    }
    r
}

/// A byte sequence cut to at most `cap` bytes: inputs over the cap keep
/// exactly their first `cap` bytes, shorter ones are unchanged.
pub open spec fn clip(s: Seq<u8>, cap: nat) -> Seq<u8> {
    if s.len() <= cap {
        s
    } else {
        s.take(cap as int)
    }
}

/// The caller identity attached to an operation: either an ordinary signed
/// account or the privileged root class. Authentication itself happens
/// outside the core; the stores only inspect which class called.
#[derive(Clone, Copy, Debug, PartialEq, Eq, Structural)]
pub enum Origin {
    /// The privileged (governance) caller class.
    Root,
    /// An ordinary account, already authenticated by the runtime.
    Signed(u64),
}

} // verus!
