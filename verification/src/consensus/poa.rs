//! Proof of authority: a block is sealed by one of a list of validators.

use vstd::prelude::*;
use crate::block::{Block, BlockView, UserView, block_hash};
use crate::blockchain::Blockchain;
use crate::crypto::random_index;
use crate::user::{UsersList, apply_transactions, transactions_fit};

verus! {

/// Proof-of-authority consensus over a list of validator public keys.
#[derive(Clone)]
pub struct PoA {
    pub validator_list: Vec<String>,
}

impl View for PoA {
    type V = Seq<Seq<char>>;

    open spec fn view(&self) -> Seq<Seq<char>> {
        self.validator_list@.map_values(|v: String| v@)
    }
}

/// A block that proof-of-authority mining produced passes validation by
/// the same authority: its nonce becomes 0 and its transfers are applied.
pub proof fn lemma_mined_block_validates(
    poa: PoA,
    b0: BlockView,
    b1: BlockView,
    b2: BlockView,
    users0: Seq<UserView>,
    users1: Seq<UserView>,
    valid: bool,
)
    requires
        poa.mine_outcome(b0, b1, true),
        poa.validate_outcome(b1, b2, users0, users1, valid),
    ensures
        valid,
        b2 == b1.with_nonce(0),
        users1 == apply_transactions(users0, b1.data),
{
}

impl PoA {
    /// The block's own hash is right and its validator is on the list.
    pub open spec fn accepts(self, b: BlockView) -> bool {
        &&& b.hash == block_hash(b)
        &&& self@.contains(b.validator)
    }

    /// The block sealed by the validator at position `pick`: its hash and
    /// validator set, the rest as it was.
    pub open spec fn sealed(self, b: BlockView, pick: int) -> BlockView {
        b.with_hash(block_hash(b)).with_validator(self@[pick])
    }

    /// What mining leaves behind.  It succeeds exactly when there is a
    /// validator; the block is then sealed by one of them, which the list
    /// accepts.  On failure the block is untouched.
    pub open spec fn mine_outcome(self, b0: BlockView, b1: BlockView, r: bool) -> bool {
        &&& r == (self@.len() > 0)
        &&& r ==> exists|pick: int| 0 <= pick < self@.len() && b1 == #[trigger] self.sealed(b0, pick)
        &&& r ==> self.accepts(b1)
        &&& !r ==> b1 == b0
    }

    /// What validation leaves behind: the answer is whether the block is
    /// accepted; the nonce is set to 0 on success and 1 on failure, and only
    /// on success are the transfers applied to the users.
    pub open spec fn validate_outcome(
        self,
        b0: BlockView,
        b1: BlockView,
        users0: Seq<UserView>,
        users1: Seq<UserView>,
        r: bool,
    ) -> bool {
        &&& r == self.accepts(b0)
        &&& b1 == b0.with_nonce(if r { 0 } else { 1 })
        &&& users1 == if r { apply_transactions(users0, b0.data) } else { users0 }
    }

    /// An authority with no validators.
    pub fn new() -> (r: PoA)
        ensures
            r@ == Seq::<Seq<char>>::empty(),
    {
        PoA { validator_list: Vec::new() }
    }

    /// Whether `v` is on the validator list.
    pub fn has_validator(&self, v: &String) -> (r: bool)
        ensures
            r == self@.contains(v@),
    {
        let n = self.validator_list.len();
        let mut i: usize = 0;
        while i < n
            invariant
                n == self@.len(),
                i <= n,
                forall|j: int| 0 <= j < i ==> #[trigger] self@[j] != v@,
            decreases n - i,
        {
            if self.validator_list[i] == *v {
                assert(self@[i as int] == v@);
                return true;
            }
            i = i + 1;
        }
        false
    }

    /// Seals the block with the validator at position `pick`: sets its hash
    /// and its validator.
    pub fn seal_block(&self, block: &mut Block, pick: usize)
        requires
            pick < self@.len(),
        ensures
            final(block)@ == self.sealed(old(block)@, pick as int),
            self.accepts(final(block)@),
    {
        let hash = block.compute_hash();
        block.hash = hash;
        block.validator = self.validator_list[pick].clone();
        proof {
            assert(block@ =~= self.sealed(old(block)@, pick as int));
            assert(self@[pick as int] == block@.validator);
        }
    }

    /// Picks a validator at random and seals the block with it; fails when
    /// there are no validators.
    pub fn mine_block(&mut self, block: &mut Block, _blockchain: &Blockchain) -> (r: bool)
        ensures
            final(self)@ == old(self)@,
            old(self).mine_outcome(old(block)@, final(block)@, r),
    {
        if self.validator_list.len() == 0 {
            return false;
        }
        let random_index = random_index(self.validator_list.len());
        self.seal_block(block, random_index);
        proof {
            assert(self.sealed(old(block)@, random_index as int) == block@);
        }
        true
    }

    /// Checks the block's hash and validator; on success sets its nonce to 0
    /// and applies its transfers to the users, on failure sets its nonce to 1.
    pub fn validate_block(&self, block: &mut Block, user_list: &mut UsersList) -> (r: bool)
        requires
            self.accepts(old(block)@) ==> transactions_fit(old(user_list)@, old(block)@.data),
        ensures
            self.validate_outcome(old(block)@, final(block)@, old(user_list)@, final(user_list)@, r),
    {
        let expected_hash = block.compute_hash();
        let hash_matches = block.hash == expected_hash;
        let validator_valid = self.has_validator(&block.validator);
        if hash_matches && validator_valid {
            block.nonce = 0;
            user_list.apply_transactions(&block.data);
            true
        } else {
            block.nonce = 1;
            false
        }
    }
}

} // verus!
