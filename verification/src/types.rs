//! Plain value types shared by every module.

use vstd::prelude::*;

verus! {

/// A 32-byte hash.
pub type H256 = [u8; 32];

/// A validator's account: its 32-byte public key.
pub type AccountId = [u8; 32];

/// A consensus authority: its 32-byte public key.
pub type AuthorityId = [u8; 32];

/// A 64-byte signature.
pub type Signature = [u8; 64];

/// Height of a block.
pub type BlockNumber = u64;

/// Seconds since the Unix epoch.
pub type Timestamp = u64;

/// Transaction index of an account.
pub type Nonce = u64;

/// A point on the node's monotonic clock, in microseconds.
pub type Instant = u64;

/// Microseconds in one second.
pub const MICROS_PER_SECOND: u64 = 1_000_000;

/// Whether two 32-byte values hold the same bytes.
pub fn same_bytes(a: &[u8; 32], b: &[u8; 32]) -> (r: bool)
    ensures
        r == (a@ == b@),
{
    let mut i: usize = 0;
    while i < 32
        invariant
            i <= 32,
            forall|k: int| 0 <= k < i ==> a@[k] == b@[k],
        decreases 32 - i,
    {
        if a[i] != b[i] {
            return false;
        }
        i += 1;
    }
    assert(a@ =~= b@);
    true
}

} // verus!
