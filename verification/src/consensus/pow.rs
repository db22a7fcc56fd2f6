//! Proof of work: a block's hash must start with `difficulty` zero digits.

use vstd::prelude::*;
use crate::block::{Block, BlockView, UserView, block_digest, block_hash};
use crate::blockchain::Blockchain;
use crate::encoding::{hex_encode, hex_lower, lemma_hex_zero_digit};
use crate::user::{UsersList, apply_transactions, transactions_fit};

verus! {

/// Proof-of-work consensus with an adaptive difficulty.
#[derive(Clone)]
pub struct PoW {
    pub difficulty: u64,
}

/// The time between blocks that the difficulty aims at, in milliseconds.
pub const TARGET_BLOCK_MILLIS: i64 = 60_000;

/// The hexadecimal text of a digest starts with `difficulty` zeros.
pub open spec fn proof_of_work_met(digest: Seq<u8>, difficulty: u64) -> bool {
    &&& difficulty <= hex_lower(digest).len()
    &&& forall|i: int| 0 <= i < difficulty ==> #[trigger] hex_lower(digest)[i] == '0'
}

/// A block that proof-of-work mining produced passes validation under the
/// adjusted difficulty, and its transfers are then applied.
pub proof fn lemma_mined_block_validates(
    old_pow: PoW,
    new_pow: PoW,
    chain: Seq<BlockView>,
    b0: BlockView,
    b1: BlockView,
    users0: Seq<UserView>,
    users1: Seq<UserView>,
    valid: bool,
)
    requires
        PoW::mine_outcome(old_pow, new_pow, chain, b0, b1, true),
        new_pow.validate_outcome(b1, users0, users1, valid),
    ensures
        valid,
        users1 == apply_transactions(users0, b1.data),
{
}

/// Mining moves the difficulty by the time since the chain's last block:
/// up by one when the new block came less than 60 000 ms later, down by
/// one (not below zero) when more than 60 000 ms later, unchanged at
/// exactly 60 000 ms or on an empty chain.
pub proof fn lemma_difficulty_follows_block_time(
    old_pow: PoW,
    new_pow: PoW,
    chain: Seq<BlockView>,
    b0: BlockView,
    b1: BlockView,
    r: bool,
)
    requires
        PoW::mine_outcome(old_pow, new_pow, chain, b0, b1, r),
    ensures
        chain.len() == 0 ==> new_pow.difficulty == old_pow.difficulty,
        chain.len() > 0 && b0.timestamp - chain.last().timestamp > 60_000 ==> new_pow.difficulty == if old_pow.difficulty
            == 0 {
            0
        } else {
            old_pow.difficulty - 1
        },
        chain.len() > 0 && b0.timestamp - chain.last().timestamp < 60_000 && old_pow.difficulty < u64::MAX
            ==> new_pow.difficulty == old_pow.difficulty + 1,
        chain.len() > 0 && b0.timestamp - chain.last().timestamp == 60_000 ==> new_pow.difficulty
            == old_pow.difficulty,
{
}

/// Proof of work accepts a block exactly when its stored hash is the hash
/// of its header and the digest's first `difficulty` hexadecimal digits
/// are all zero: digit `2j` is the high nibble of byte `j` and digit
/// `2j + 1` its low nibble.
pub proof fn lemma_accepts_leading_zero_digits(pow: PoW, b: BlockView)
    ensures
        pow.accepts(b) <==> {
            let digest = block_digest(b);
            &&& b.hash == hex_lower(digest)
            &&& pow.difficulty <= 2 * digest.len()
            &&& forall|j: int|
                0 <= j < digest.len() ==> (2 * j < pow.difficulty ==> #[trigger] digest[j] / 16 == 0) && (2 * j
                    + 1 < pow.difficulty ==> digest[j] % 16 == 0)
        },
{
    let digest = block_digest(b);
    let d = pow.difficulty as int;
    if d <= 2 * digest.len() {
        assert forall|i: int| 0 <= i < d implies (hex_lower(digest)[i] == '0') == ((if i % 2 == 0 {
            digest[i / 2] / 16
        } else {
            digest[i / 2] % 16
        }) == 0) by {
            lemma_hex_zero_digit(digest, i);
        }
        if forall|j: int|
            0 <= j < digest.len() ==> (2 * j < d ==> #[trigger] digest[j] / 16 == 0) && (2 * j + 1 < d
                ==> digest[j] % 16 == 0) {
            assert forall|i: int| 0 <= i < d implies #[trigger] hex_lower(digest)[i] == '0' by {
                let j = i / 2;
                assert(digest[j] / 16 == 0 || 2 * j >= d);
                lemma_hex_zero_digit(digest, i);
            }
        }
        if forall|i: int| 0 <= i < d ==> #[trigger] hex_lower(digest)[i] == '0' {
            assert forall|j: int| 0 <= j < digest.len() implies (2 * j < d ==> #[trigger] digest[j] / 16 == 0)
                && (2 * j + 1 < d ==> digest[j] % 16 == 0) by {
                if 2 * j < d {
                    lemma_hex_zero_digit(digest, 2 * j);
                    assert(hex_lower(digest)[2 * j] == '0');
                }
                if 2 * j + 1 < d {
                    lemma_hex_zero_digit(digest, 2 * j + 1);
                    assert(hex_lower(digest)[2 * j + 1] == '0');
                }
            }
        }
    }
}

impl PoW {
    /// The block's own hash is right and meets the difficulty.
    pub open spec fn accepts(self, b: BlockView) -> bool {
        &&& proof_of_work_met(block_digest(b), self.difficulty)
        &&& b.hash == block_hash(b)
    }

    /// The difficulty after seeing a new block: one more when it came
    /// sooner than the target after the chain's last block, one less (not
    /// below zero) when later, unchanged when on time or on an empty chain.
    pub open spec fn adjusted_difficulty(self, chain: Seq<BlockView>, b: BlockView) -> u64 {
        if chain.len() == 0 {
            self.difficulty
        } else {
            let dt = b.timestamp - chain.last().timestamp;
            if dt < TARGET_BLOCK_MILLIS {
                (self.difficulty + 1) as u64
            } else if dt > TARGET_BLOCK_MILLIS {
                if self.difficulty == 0 { 0 } else { (self.difficulty - 1) as u64 }
            } else {
                self.difficulty
            }
        }
    }

    /// The adjustment stays within the ranges of `i64` (the time step) and
    /// `u64` (the difficulty).
    pub open spec fn can_adjust(self, chain: Seq<BlockView>, b: BlockView) -> bool {
        chain.len() > 0 ==> {
            let dt = b.timestamp - chain.last().timestamp;
            &&& i64::MIN <= dt <= i64::MAX
            &&& dt < TARGET_BLOCK_MILLIS ==> self.difficulty < u64::MAX
        }
    }

    /// What mining leaves behind.  The difficulty is adjusted.  On success
    /// the block carries the least nonce whose digest meets the new
    /// difficulty, and its hash, so the new state accepts it.  On failure
    /// no nonce meets it and the nonce is left at its maximum.
    pub open spec fn mine_outcome(
        old_pow: PoW,
        new_pow: PoW,
        chain: Seq<BlockView>,
        b0: BlockView,
        b1: BlockView,
        r: bool,
    ) -> bool {
        &&& new_pow.difficulty == old_pow.adjusted_difficulty(chain, b0)
        &&& r ==> {
            &&& b1 == b0.with_nonce(b1.nonce).with_hash(block_hash(b0.with_nonce(b1.nonce)))
            &&& new_pow.accepts(b1)
            &&& forall|n: u64|
                n < b1.nonce ==> !proof_of_work_met(
                    block_digest(#[trigger] b0.with_nonce(n)),
                    new_pow.difficulty,
                )
        }
        &&& !r ==> {
            &&& b1 == b0.with_nonce(u64::MAX)
            &&& forall|n: u64| !proof_of_work_met(block_digest(#[trigger] b0.with_nonce(n)), new_pow.difficulty)
        }
    }

    /// What validation leaves behind: the answer is whether the block is
    /// accepted, and only then are its transfers applied to the users.
    pub open spec fn validate_outcome(
        self,
        b: BlockView,
        users0: Seq<UserView>,
        users1: Seq<UserView>,
        r: bool,
    ) -> bool {
        &&& r == self.accepts(b)
        &&& users1 == if r { apply_transactions(users0, b.data) } else { users0 }
    }

    /// Whether a 32-byte digest meets the difficulty.
    pub fn meets_difficulty(&self, digest: &Vec<u8>) -> (r: bool)
        requires
            digest@.len() == 32,
        ensures
            r == proof_of_work_met(digest@, self.difficulty),
    {
        if self.difficulty > 64 {
            return false;
        }
        let d = self.difficulty as usize;
        let mut k: usize = 0;
        while k < d
            invariant
                d == self.difficulty,
                d <= 64,
                digest@.len() == 32,
                k <= d,
                forall|i: int| 0 <= i < k ==> #[trigger] hex_lower(digest@)[i] == '0',
            decreases d - k,
        {
            let byte = digest[k / 2];
            let nibble = if k % 2 == 0 { byte / 16 } else { byte % 16 };
            proof {
                lemma_hex_zero_digit(digest@, k as int);
            }
            if nibble != 0 {
                return false;
            }
            k = k + 1;
        }
        true
    }

    /// Adjusts the difficulty against the chain's last block, then searches
    /// nonces upward from zero for one whose hash meets it, and stores that
    /// nonce and hash in the block.
    pub fn mine_block(&mut self, block: &mut Block, blockchain: &Blockchain) -> (r: bool)
        requires
            old(self).can_adjust(blockchain@, old(block)@),
        ensures
            PoW::mine_outcome(*old(self), *final(self), blockchain@, old(block)@, final(block)@, r),
    {
        let n = blockchain.blocks.len();
        if n > 0 {
            let last = &blockchain.blocks[n - 1];
            let actual_time = block.timestamp - last.timestamp;
            if actual_time < TARGET_BLOCK_MILLIS {
                self.difficulty = self.difficulty + 1;
            } else if actual_time > TARGET_BLOCK_MILLIS {
                self.difficulty = self.difficulty.saturating_sub(1);
            }
        }
        let ghost b0 = block@;
        assert(self.difficulty == old(self).adjusted_difficulty(blockchain@, b0));
        block.nonce = 0;
        loop
            invariant
                b0 == old(block)@,
                self.difficulty == old(self).adjusted_difficulty(blockchain@, b0),
                block@ == b0.with_nonce(block.nonce),
                forall|m: u64|
                    m < block.nonce ==> !proof_of_work_met(
                        block_digest(#[trigger] b0.with_nonce(m)),
                        self.difficulty,
                    ),
            decreases u64::MAX - block.nonce,
        {
            let digest = block.compute_digest();
            if self.meets_difficulty(&digest) {
                block.hash = hex_encode(digest.as_slice());
                proof {
                    let b1 = block@;
                    assert(b1 =~= b0.with_nonce(b1.nonce).with_hash(block_hash(b0.with_nonce(b1.nonce))));
                    assert(block_digest(b1) == block_digest(b0.with_nonce(b1.nonce)));
                }
                return true;
            }
            if block.nonce == u64::MAX {
                proof {
                    assert forall|n: u64| !proof_of_work_met(block_digest(#[trigger] b0.with_nonce(n)), self.difficulty) by {
                        if n < block.nonce {
                        }
                    }
                }
                return false;
            }
            block.nonce = block.nonce + 1;
        }
    }

    /// Checks the block's hash and difficulty; when both hold, applies the
    /// block's transfers to the users.
    pub fn validate_block(&self, block: &Block, user_list: &mut UsersList) -> (r: bool)
        requires
            self.accepts(block@) ==> transactions_fit(old(user_list)@, block@.data),
        ensures
            self.validate_outcome(block@, old(user_list)@, final(user_list)@, r),
    {
        let digest = block.compute_digest();
        let hash = hex_encode(digest.as_slice());
        let validation_result = self.meets_difficulty(&digest) && hash == block.hash;
        if validation_result {
            user_list.apply_transactions(&block.data);
            true
        } else {
            false
        }
    }
}

} // verus!
