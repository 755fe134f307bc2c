//! What the proposer reads of the transaction pool.

use vstd::prelude::*;
use crate::types::{same_bytes, AccountId, Nonce, H256};

verus! {

/// What the proposer reads of one pending transaction.
#[derive(Clone, Copy, Debug)]
pub struct PendingTransaction {
    /// The account that signed it, if any did.
    pub sender: Option<AccountId>,
    /// The sender's transaction index.
    pub index: Nonce,
    /// The bytes that it takes on the wire.
    pub encoded_size: usize,
    /// Its hash, by which the pool knows it.
    pub hash: H256,
}

/// Whether `account` sent the transaction.
pub open spec fn sent_by(transaction: PendingTransaction, account: Seq<u8>) -> bool {
    match transaction.sender {
        Some(sender) => sender@ == account,
        None => false,
    }
}

/// The greatest index among the pending transactions of `account`, if it has
/// any.
pub open spec fn greatest_pending(pending: Seq<PendingTransaction>, account: Seq<u8>) -> Option<
    Nonce,
>
    decreases pending.len(),
{
    if pending.len() == 0 {
        None
    } else {
        let before = greatest_pending(pending.drop_last(), account);
        let last = pending.last();
        if !sent_by(last, account) {
            before
        } else if before is Some && before.unwrap() > last.index {
            before
        } else {
            Some(last.index)
        }
    }
}

/// What `greatest_pending` names: `None` exactly when the account has
/// nothing pending, else an index of one of its pending transactions that
/// none of the others exceeds.
pub proof fn lemma_greatest_pending(pending: Seq<PendingTransaction>, account: Seq<u8>)
    ensures
        greatest_pending(pending, account) is None <==> forall|i: int|
            0 <= i < pending.len() ==> !sent_by(#[trigger] pending[i], account),
        greatest_pending(pending, account) is Some ==> exists|i: int|
            0 <= i < pending.len() && sent_by(#[trigger] pending[i], account) && pending[i].index
                == greatest_pending(pending, account).unwrap(),
        forall|i: int|
            0 <= i < pending.len() && sent_by(#[trigger] pending[i], account) ==> pending[i].index
                <= greatest_pending(pending, account).unwrap(),
    decreases pending.len(),
{
    if pending.len() > 0 {
        let front = pending.drop_last();
        lemma_greatest_pending(front, account);
        let all = greatest_pending(pending, account);
        let before = greatest_pending(front, account);
        assert forall|i: int| 0 <= i < front.len() implies front[i] == pending[i] by {}
        if all is None {
            assert forall|i: int| 0 <= i < pending.len() implies !sent_by(
                #[trigger] pending[i],
                account,
            ) by {
                if i < front.len() {
                    assert(!sent_by(front[i], account));
                }
            }
        } else {
            if sent_by(pending.last(), account) && !(before is Some && before.unwrap()
                > pending.last().index) {
                assert(sent_by(pending[pending.len() - 1], account));
            } else {
                let i = choose|i: int|
                    0 <= i < front.len() && sent_by(#[trigger] front[i], account) && front[i].index
                        == before.unwrap();
                assert(sent_by(pending[i], account));
            }
            assert forall|i: int|
                0 <= i < pending.len() && sent_by(
                    #[trigger] pending[i],
                    account,
                ) implies pending[i].index <= all.unwrap() by {
                if i < front.len() {
                    assert(sent_by(front[i], account));
                }
            }
        }
    }
}

/// The greatest index among the pending transactions that `account` sent.
pub fn greatest_pending_index(pending: &[PendingTransaction], account: &AccountId) -> (r: Option<
    Nonce,
>)
    ensures
        r == greatest_pending(pending@, account@),
{
    let mut best: Option<Nonce> = None;
    let mut i: usize = 0;
    while i < pending.len()
        invariant
            i <= pending.len(),
            best == greatest_pending(pending@.take(i as int), account@),
        decreases pending.len() - i,
    {
        proof {
            assert(pending@.take(i + 1).drop_last() =~= pending@.take(i as int));
        }
        let transaction = &pending[i];
        let is_ours = match &transaction.sender {
            Some(sender) => same_bytes(sender, account),
            None => false,
        };
        if is_ours {
            best = match best {
                Some(greatest) => if greatest > transaction.index {
                    Some(greatest)
                } else {
                    Some(transaction.index)
                },
                None => Some(transaction.index),
            };
        }
        i += 1;
    }
    assert(pending@.take(i as int) =~= pending@);
    best
}

} // verus!
