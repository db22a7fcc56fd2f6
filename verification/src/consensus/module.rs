//! The hybrid consensus: large blocks by proof of work, small ones by
//! proof of authority.

use vstd::prelude::*;
use crate::block::{Block, BlockView, UserView, total_amount};
use crate::blockchain::Blockchain;
use crate::consensus::poa::PoA;
use crate::consensus::pow::PoW;
use crate::user::{UsersList, apply_transactions, transactions_fit};

verus! {

/// Blocks whose transfers add up to more than this go to proof of work;
/// the others to proof of authority.
pub const POW_THRESHOLD: u64 = 1000;

/// A consensus mechanism: it mines a block onto a chain and validates a
/// block against the users' balances.
pub trait Consensus {
    /// The inputs on which validation stays within the ranges of its integers.
    spec fn validate_ready(&self, block: BlockView, users: Seq<UserView>) -> bool;

    /// The inputs on which mining stays within the ranges of its integers.
    spec fn mine_ready(&self, chain: Seq<BlockView>, block: BlockView) -> bool;

    /// Checks a block and, when it is accepted, applies its transfers.
    fn validate_block(&self, block: &mut Block, user_list: &mut UsersList) -> (r: bool)
        requires
            self.validate_ready(old(block)@, old(user_list)@),
    ;

    /// Prepares a block for the chain; reports whether it succeeded.
    fn mine_block(&mut self, block: &mut Block, blockchain: &Blockchain) -> (r: bool)
        requires
            old(self).mine_ready(blockchain@, old(block)@),
    ;
}

/// One of the two mechanisms.
pub enum HybridConsensus {
    PoW(PoW),
    PoA(PoA),
}

impl HybridConsensus {
    /// The mechanism accepts the block, and the block's size is the one
    /// this mechanism handles.
    pub open spec fn accepts(self, b: BlockView) -> bool {
        match self {
            HybridConsensus::PoW(p) => total_amount(b.data) > POW_THRESHOLD && p.accepts(b),
            HybridConsensus::PoA(a) => total_amount(b.data) <= POW_THRESHOLD && a.accepts(b),
        }
    }

    /// What mining leaves behind: the chosen mechanism mines when the
    /// block's size is the one it handles; otherwise mining fails and
    /// nothing changes.
    pub open spec fn mine_outcome(
        old_c: HybridConsensus,
        new_c: HybridConsensus,
        chain: Seq<BlockView>,
        b0: BlockView,
        b1: BlockView,
        r: bool,
    ) -> bool {
        match old_c {
            HybridConsensus::PoW(p) => if total_amount(b0.data) > POW_THRESHOLD {
                new_c matches HybridConsensus::PoW(q) && PoW::mine_outcome(p, q, chain, b0, b1, r)
            } else {
                !r && new_c == old_c && b1 == b0
            },
            HybridConsensus::PoA(a) => if total_amount(b0.data) <= POW_THRESHOLD {
                new_c matches HybridConsensus::PoA(q) && q@ == a@ && a.mine_outcome(b0, b1, r)
            } else {
                !r && new_c == old_c && b1 == b0
            },
        }
    }

    /// What validation leaves behind: the chosen mechanism validates when
    /// the block's size is the one it handles; otherwise it is rejected and
    /// nothing changes.
    pub open spec fn validate_outcome(
        self,
        b0: BlockView,
        b1: BlockView,
        users0: Seq<UserView>,
        users1: Seq<UserView>,
        r: bool,
    ) -> bool {
        match self {
            HybridConsensus::PoW(p) => if total_amount(b0.data) > POW_THRESHOLD {
                b1 == b0 && p.validate_outcome(b0, users0, users1, r)
            } else {
                !r && b1 == b0 && users1 == users0
            },
            HybridConsensus::PoA(a) => if total_amount(b0.data) <= POW_THRESHOLD {
                a.validate_outcome(b0, b1, users0, users1, r)
            } else {
                !r && b1 == b0 && users1 == users0
            },
        }
    }
}

/// A block that the hybrid mined passes the hybrid's validation (as
/// mining left it), and its transfers are then applied.
pub proof fn lemma_mined_block_validates(
    c0: HybridConsensus,
    c1: HybridConsensus,
    chain: Seq<BlockView>,
    b0: BlockView,
    b1: BlockView,
    b2: BlockView,
    users0: Seq<UserView>,
    users1: Seq<UserView>,
    valid: bool,
)
    requires
        HybridConsensus::mine_outcome(c0, c1, chain, b0, b1, true),
        c1.validate_outcome(b1, b2, users0, users1, valid),
    ensures
        valid,
        users1 == apply_transactions(users0, b1.data),
{
}

impl Consensus for HybridConsensus {
    open spec fn validate_ready(&self, block: BlockView, users: Seq<UserView>) -> bool {
        &&& total_amount(block.data) <= u64::MAX
        &&& self.accepts(block) ==> transactions_fit(users, block.data)
    }

    open spec fn mine_ready(&self, chain: Seq<BlockView>, block: BlockView) -> bool {
        &&& total_amount(block.data) <= u64::MAX
        &&& match *self {
            HybridConsensus::PoW(p) => total_amount(block.data) > POW_THRESHOLD ==> p.can_adjust(chain, block),
            HybridConsensus::PoA(_) => true,
        }
    }

    /// Hands the block to the mechanism when its size fits; rejects it otherwise.
    fn validate_block(&self, block: &mut Block, user_list: &mut UsersList) -> (r: bool)
        ensures
            r == self.accepts(old(block)@),
            self.validate_outcome(old(block)@, final(block)@, old(user_list)@, final(user_list)@, r),
    {
        let tx_total_amount = block.total_transaction();
        match self {
            HybridConsensus::PoW(pow) => {
                if tx_total_amount > POW_THRESHOLD {
                    pow.validate_block(block, user_list)
                } else {
                    false
                }
            },
            HybridConsensus::PoA(poa) => {
                if tx_total_amount <= POW_THRESHOLD {
                    poa.validate_block(block, user_list)
                } else {
                    false
                }
            },
        }
    }

    /// Hands the block to the mechanism when its size fits; fails otherwise.
    fn mine_block(&mut self, block: &mut Block, blockchain: &Blockchain) -> (r: bool)
        ensures
            HybridConsensus::mine_outcome(*old(self), *final(self), blockchain@, old(block)@, final(block)@, r),
            r ==> final(self).accepts(final(block)@),
    {
        let tx_count = block.total_transaction();
        match self {
            HybridConsensus::PoW(pow) => {
                if tx_count > POW_THRESHOLD {
                    pow.mine_block(block, blockchain)
                } else {
                    false
                }
            },
            HybridConsensus::PoA(poa) => {
                if tx_count <= POW_THRESHOLD {
                    poa.mine_block(block, blockchain)
                } else {
                    false
                }
            },
        }
    }
}

} // verus!
