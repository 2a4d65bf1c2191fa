//! Conversion between 32-byte native account identifiers and 20-byte
//! EVM-style addresses, both held as plain byte vectors.

use vstd::prelude::*;

verus! {

use crate::hashing::blake2b256_of;
use crate::hashing::blake2b_256;

/// Bytes of a native account identifier.
pub const ACCOUNT_ID_BYTES: usize = 32;

/// Bytes of an EVM-style address.
pub const ADDRESS_BYTES: usize = 20;

/// The domain-separated input from which an address's account identifier is
/// derived: the address prefixed with the bytes of `evm:`.
pub open spec fn evm_domain(address: Seq<u8>) -> Seq<u8> {
    seq![101u8, 118u8, 109u8, 58u8] + address
}

/// An account identifier converted to an address: its first twenty bytes.
///
/// The conversion is deterministic, and it inverts `h160_to_ss58` only for
/// accounts that were themselves derived from addresses.
pub fn ss58_to_h160(account_id: &Vec<u8>) -> (r: Vec<u8>)
    requires
        account_id@.len() == ACCOUNT_ID_BYTES,
    ensures
        r@ == account_id@.take(ADDRESS_BYTES as int),
{
    let mut r: Vec<u8> = Vec::new();
    let mut k: usize = 0;
    while k < ADDRESS_BYTES
        invariant
            k <= ADDRESS_BYTES,
            account_id@.len() == ACCOUNT_ID_BYTES,
            r@ == account_id@.take(k as int),
        decreases ADDRESS_BYTES - k,
    {
        r.push(account_id[k]);
        proof {
            assert(r@ =~= account_id@.take(k + 1 as int));
        }
        k = k + 1;
    }
    r
}

/// An address converted to an account identifier: the 32-byte hash of the
/// domain-separated address, so distinct addresses give distinct accounts
/// and the conversion is deterministic.
pub fn h160_to_ss58(address: &Vec<u8>) -> (r: Vec<u8>)
    requires
        address@.len() == ADDRESS_BYTES,
    ensures
        r@ == blake2b256_of(evm_domain(address@)),
        r@.len() == ACCOUNT_ID_BYTES,
{
    let mut data: Vec<u8> = Vec::new();
    data.push(101);
    data.push(118);
    data.push(109);
    data.push(58);
    let mut k: usize = 0;
    while k < ADDRESS_BYTES
        invariant
            k <= ADDRESS_BYTES,
            address@.len() == ADDRESS_BYTES,
            data@ == seq![101u8, 118u8, 109u8, 58u8] + address@.take(k as int),
        decreases ADDRESS_BYTES - k,
    {
        data.push(address[k]);
        proof {
            assert(data@ =~= seq![101u8, 118u8, 109u8, 58u8] + address@.take(k + 1 as int));
        }
        k = k + 1;
    }
    proof {
        assert(data@ =~= evm_domain(address@));
    }
    blake2b_256(data.as_slice())
}

/// Whether an address survives the round trip through its derived account
/// identifier: whether the derived account's first twenty bytes are the
/// address again. The derivation hashes, so this generally does not hold.
pub fn verify_evm_roundtrip(address: &Vec<u8>) -> (r: bool)
    requires
        address@.len() == ADDRESS_BYTES,
    ensures
        r == (blake2b256_of(evm_domain(address@)).take(ADDRESS_BYTES as int) == address@),
{
    let account_id = h160_to_ss58(address);
    let recovered = ss58_to_h160(&account_id);
    let r = bytes_equal(&recovered, address);
    proof {
        if recovered@ == address@ {
            assert(blake2b256_of(evm_domain(address@)).take(ADDRESS_BYTES as int) == address@);
        }
    }
    r
}

/// Whether two byte vectors hold the same bytes.
fn bytes_equal(a: &Vec<u8>, b: &Vec<u8>) -> (r: bool)
    ensures
        r == (a@ == b@),
{
    if a.len() != b.len() {
        proof {
            assert(a@ != b@);
        }
        return false;
    }
    let n = a.len();
    let mut k: usize = 0;
    while k < n
        invariant
            k <= n,
            n == a@.len(),
            n == b@.len(),
            forall|j: int| 0 <= j < k ==> a@[j] == b@[j],
        decreases n - k,
    {
        if a[k] != b[k] {
            proof {
                assert(a@[k as int] != b@[k as int]);
            }
            return false;
        }
        k = k + 1;
    }
    proof {
        assert(a@ =~= b@);
    }
    true
}

} // verus!
