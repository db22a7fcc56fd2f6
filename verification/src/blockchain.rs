//! The chain of blocks.

use vstd::prelude::*;
use crate::block::{Block, BlockView, Transaction, TransactionView, UserView, total_amount, push_transactions_debug, transactions_debug, transactions_view};
use crate::consensus::module::{Consensus, HybridConsensus, POW_THRESHOLD};
use crate::consensus::poa::PoA;
use crate::consensus::pow::TARGET_BLOCK_MILLIS;
use crate::crypto::now_millis;
use crate::text::{decimal, push_decimal, push_signed_decimal, signed_decimal};
use crate::user::{UsersList, apply_transactions, transactions_fit};

verus! {

/// The blocks, genesis first.
pub struct Blockchain {
    pub blocks: Vec<Block>,
}

impl View for Blockchain {
    type V = Seq<BlockView>;

    open spec fn view(&self) -> Seq<BlockView> {
        self.blocks@.map_values(|b: Block| b@)
    }
}

/// Every block sits at the position its index names, and every block after
/// the first carries its predecessor's hash.
pub open spec fn well_linked(blocks: Seq<BlockView>) -> bool {
    &&& forall|i: int| 0 <= i < blocks.len() ==> (#[trigger] blocks[i]).index == i as u32
    &&& forall|i: int| 0 < i < blocks.len() ==> (#[trigger] blocks[i]).prev_hash == blocks[i - 1].hash
}

/// How a block is listed: index, timestamp, transactions, previous hash,
/// hash, nonce and validator, separated by commas.
pub open spec fn block_line(b: BlockView) -> Seq<char> {
    decimal(b.index as nat) + ","@ + signed_decimal(b.timestamp as int) + ","@ + transactions_debug(b.data)
        + ","@ + b.prev_hash + ","@ + b.hash + ","@ + decimal(b.nonce as nat) + ","@ + b.validator
}

/// The block `add_block` prepares before mining: the next index, the last
/// block's hash (or `"0"` on an empty chain), the transactions, the time,
/// and an empty hash, nonce and validator.
pub open spec fn fresh_block(chain: Seq<BlockView>, data: Seq<TransactionView>, timestamp: i64) -> BlockView {
    BlockView {
        index: chain.len() as u32,
        timestamp,
        data,
        prev_hash: if chain.len() > 0 { chain.last().hash } else { "0"@ },
        hash: Seq::empty(),
        nonce: 0,
        validator: Seq::empty(),
    }
}

/// One run of `add_block` that got past its range checks: the fresh block
/// made at time `t` could be mined, mining under `c0` (becoming `c1`) gave
/// `b1` and the answer `added`; when added, `b1` is appended, the
/// mechanism accepts it and its transfers are applied, else nothing changes.
pub open spec fn add_step(
    chain0: Seq<BlockView>,
    chain1: Seq<BlockView>,
    c0: HybridConsensus,
    c1: HybridConsensus,
    users0: Seq<UserView>,
    users1: Seq<UserView>,
    data: Seq<TransactionView>,
    t: i64,
    b1: BlockView,
    added: bool,
) -> bool {
    let b0 = fresh_block(chain0, data, t);
    &&& c0.mine_ready(chain0, b0)
    &&& HybridConsensus::mine_outcome(c0, c1, chain0, b0, b1, added)
    &&& added ==> {
        &&& chain1 == chain0.push(b1)
        &&& c1.accepts(b1)
        &&& users1 == apply_transactions(users0, b1.data)
    }
    &&& !added ==> chain1 == chain0 && users1 == users0
}

/// What `add_block_at` does with the fresh block made at time `t`.  When
/// mining it would leave an integer range, the answer is `None` and nothing
/// changes.  Otherwise it is mined; if that succeeds but the transfers
/// would leave the range of a `u64`, the answer is `None` and the chain and
/// users are unchanged; in every other case the answer is `Some` and the
/// run is the one [`add_step`] describes.
pub open spec fn add_outcome(
    chain0: Seq<BlockView>,
    chain1: Seq<BlockView>,
    c0: HybridConsensus,
    c1: HybridConsensus,
    users0: Seq<UserView>,
    users1: Seq<UserView>,
    data: Seq<TransactionView>,
    t: i64,
    r: Option<bool>,
) -> bool {
    let b0 = fresh_block(chain0, data, t);
    &&& !c0.mine_ready(chain0, b0) ==> r is None && c1 == c0
    &&& r is None ==> chain1 == chain0 && users1 == users0
    &&& (r is None && c0.mine_ready(chain0, b0)) ==> {
        &&& !transactions_fit(users0, data)
        &&& exists|b1: BlockView| #[trigger] HybridConsensus::mine_outcome(c0, c1, chain0, b0, b1, true)
    }
    &&& (c0.mine_ready(chain0, b0) && transactions_fit(users0, data)) ==> r is Some
    &&& r is Some ==> exists|b1: BlockView|
        #[trigger] add_step(chain0, chain1, c0, c1, users0, users1, data, t, b1, r->0)
}

/// Under proof of authority with at least one validator, adding a block
/// whose transfers total at most 1000 and fit the balances always succeeds,
/// whatever the number of transactions (none included): the block, holding
/// exactly those transactions, is appended after the old chain and its
/// transfers are applied.
pub proof fn lemma_authority_adds_fitting_block(
    chain0: Seq<BlockView>,
    chain1: Seq<BlockView>,
    authority: PoA,
    c1: HybridConsensus,
    users0: Seq<UserView>,
    users1: Seq<UserView>,
    data: Seq<TransactionView>,
    t: i64,
    r: Option<bool>,
)
    requires
        add_outcome(chain0, chain1, HybridConsensus::PoA(authority), c1, users0, users1, data, t, r),
        authority@.len() > 0,
        total_amount(data) <= 1000,
        transactions_fit(users0, data),
    ensures
        r == Some(true),
        chain1.len() == chain0.len() + 1,
        chain1.subrange(0, chain0.len() as int) == chain0,
        chain1.last().data == data,
        chain1.last().index == chain0.len() as u32,
        chain1.last().timestamp == t,
        authority@.contains(chain1.last().validator),
        users1 == apply_transactions(users0, data),
{
    let b0 = fresh_block(chain0, data, t);
    assert(HybridConsensus::PoA(authority).mine_ready(chain0, b0));
    let b1 = choose|b1: BlockView| #[trigger] add_step(chain0, chain1, HybridConsensus::PoA(authority), c1, users0, users1, data, t, b1, r->0);
    assert(add_step(chain0, chain1, HybridConsensus::PoA(authority), c1, users0, users1, data, t, b1, r->0));
    assert(r->0);
    assert(chain1 == chain0.push(b1));
    assert(chain1.subrange(0, chain0.len() as int) =~= chain0);
    let pick = choose|pick: int| 0 <= pick < authority@.len() && b1 == #[trigger] authority.sealed(b0, pick);
    assert(authority@.contains(b1.validator)) by {
        assert(authority@[pick] == b1.validator);
    }
}

impl Blockchain {
    /// A chain holding only the genesis block: index 0, previous hash `"0"`,
    /// no transactions, hash `"genesis"`, nonce 0 and no validator.
    pub fn new() -> (r: Blockchain)
        ensures
            r@.len() == 1,
            r@[0].index == 0,
            r@[0].prev_hash == "0"@,
            r@[0].data.len() == 0,
            r@[0].hash == "genesis"@,
            r@[0].nonce == 0,
            r@[0].validator.len() == 0,
            well_linked(r@),
    {
        let genesis_block = Block::new(0, "0".to_string(), Vec::new(), "genesis".to_string(), 0, String::new());
        let mut blocks: Vec<Block> = Vec::new();
        blocks.push(genesis_block);
        let r = Blockchain { blocks };
        proof {
            assert(r@[0] == genesis_block@);
        }
        r
    }

    /// Whether mining `block` onto this chain under `consensus` stays within
    /// the ranges of its integers.
    pub fn ready_to_mine(&self, consensus: &HybridConsensus, block: &Block) -> (r: bool)
        ensures
            r == consensus.mine_ready(self@, block@),
    {
        let total = match block.checked_total() {
            Some(t) => t,
            None => {
                return false;
            },
        };
        match consensus {
            HybridConsensus::PoW(pow) => {
                if total > POW_THRESHOLD && self.blocks.len() > 0 {
                    let last = &self.blocks[self.blocks.len() - 1];
                    let dt: i128 = block.timestamp as i128 - last.timestamp as i128;
                    if dt < i64::MIN as i128 || dt > i64::MAX as i128 {
                        return false;
                    }
                    if dt < TARGET_BLOCK_MILLIS as i128 && pow.difficulty == u64::MAX {
                        return false;
                    }
                }
                true
            },
            HybridConsensus::PoA(_) => true,
        }
    }

    /// Builds the next block from `data` stamped with `timestamp`, mines it
    /// under `consensus` and validates it against `user_list`; on success
    /// the block is appended and its transfers applied.  `Some(true)`:
    /// added; `Some(false)`: mining failed and nothing changed; `None`:
    /// mining or applying the transfers would leave the range of an
    /// integer, and the chain and users are unchanged (see [`add_outcome`]).
    pub fn add_block_at(
        &mut self,
        data: Vec<Transaction>,
        timestamp: i64,
        consensus: &mut HybridConsensus,
        user_list: &mut UsersList,
    ) -> (r: Option<bool>)
        ensures
            add_outcome(
                old(self)@,
                final(self)@,
                *old(consensus),
                *final(consensus),
                old(user_list)@,
                final(user_list)@,
                transactions_view(data@),
                timestamp,
                r,
            ),
            r == Some(true) ==> final(self)@.len() == old(self)@.len() + 1,
            well_linked(old(self)@) ==> well_linked(final(self)@),
    {
        let index = #[verifier::truncate] (self.blocks.len() as u32);
        let prev_hash = if self.blocks.len() > 0 {
            self.blocks[self.blocks.len() - 1].hash.clone()
        } else {
            "0".to_string()
        };
        let ghost dv = transactions_view(data@);
        let mut new_block = Block {
            index,
            timestamp,
            data,
            prev_hash,
            hash: String::new(),
            nonce: 0,
            validator: String::new(),
        };
        let ghost b0 = new_block@;
        assert(b0 == fresh_block(old(self)@, dv, timestamp));
        if !self.ready_to_mine(consensus, &new_block) {
            return None;
        }
        let mined = consensus.mine_block(&mut new_block, self);
        let ghost b1 = new_block@;
        if !mined {
            proof {
                assert(add_step(old(self)@, final(self)@, *old(consensus), *final(consensus), old(user_list)@, final(user_list)@, dv, timestamp, b1, false));
                let res: Option<bool> = Some(false);
                assert(res->0 == false);
                assert(exists|b2: BlockView| #[trigger] add_step(old(self)@, final(self)@, *old(consensus), *final(consensus), old(user_list)@, final(user_list)@, dv, timestamp, b2, res->0));
            }
            return Some(false);
        }
        assert(b1.data == b0.data);
        if !user_list.transfers_fit(&new_block.data) {
            proof {
                assert(HybridConsensus::mine_outcome(*old(consensus), *final(consensus), old(self)@, b0, b1, true));
            }
            return None;
        }
        if consensus.validate_block(&mut new_block, user_list) {
            self.blocks.push(new_block);
            proof {
                assert(self@ =~= old(self)@.push(b1));
                assert(b1.index == b0.index && b1.prev_hash == b0.prev_hash);
                assert(add_step(old(self)@, final(self)@, *old(consensus), *final(consensus), old(user_list)@, final(user_list)@, dv, timestamp, b1, true));
                let res: Option<bool> = Some(true);
                assert(res->0 == true);
                assert(exists|b2: BlockView| #[trigger] add_step(old(self)@, final(self)@, *old(consensus), *final(consensus), old(user_list)@, final(user_list)@, dv, timestamp, b2, res->0));
            }
            Some(true)
        } else {
            Some(false)
        }
    }

    /// [`Blockchain::add_block_at`] with the current time.
    pub fn add_block(&mut self, data: Vec<Transaction>, consensus: &mut HybridConsensus, user_list: &mut UsersList) -> (r: Option<bool>)
        ensures
            exists|t: i64|
                #[trigger] add_outcome(
                    old(self)@,
                    final(self)@,
                    *old(consensus),
                    *final(consensus),
                    old(user_list)@,
                    final(user_list)@,
                    transactions_view(data@),
                    t,
                    r,
                ),
            r == Some(true) ==> final(self)@.len() == old(self)@.len() + 1,
            well_linked(old(self)@) ==> well_linked(final(self)@),
    {
        let ghost dv = transactions_view(data@);
        let timestamp = now_millis();
        let r = self.add_block_at(data, timestamp, consensus, user_list);
        proof {
            assert(add_outcome(old(self)@, final(self)@, *old(consensus), *final(consensus), old(user_list)@, final(user_list)@, dv, timestamp, r));
        }
        r
    }

    /// One line per block, genesis first, for listing (see [`block_line`]).
    pub fn block_lines(&self) -> (r: Vec<String>)
        ensures
            r@.len() == self@.len(),
            forall|i: int| 0 <= i < r@.len() ==> (#[trigger] r@[i])@ == block_line(self@[i]),
    {
        let mut lines: Vec<String> = Vec::new();
        let n = self.blocks.len();
        let mut i: usize = 0;
        while i < n
            invariant
                n == self@.len(),
                i <= n,
                lines@.len() == i,
                forall|j: int| 0 <= j < i ==> (#[trigger] lines@[j])@ == block_line(self@[j]),
            decreases n - i,
        {
            let block = &self.blocks[i];
            let mut line = String::new();
            push_decimal(&mut line, block.index as u64);
            line.append(",");
            push_signed_decimal(&mut line, block.timestamp);
            line.append(",");
            push_transactions_debug(&mut line, &block.data);
            line.append(",");
            line.append(block.prev_hash.as_str());
            line.append(",");
            line.append(block.hash.as_str());
            line.append(",");
            push_decimal(&mut line, block.nonce);
            line.append(",");
            line.append(block.validator.as_str());
            proof {
                assert(line@ =~= block_line(self@[i as int]));
            }
            lines.push(line);
            i = i + 1;
        }
        lines
    }
}

} // verus!
