use hybrid_chain::block::{Block, Transaction, User};
use hybrid_chain::blockchain::Blockchain;
use hybrid_chain::consensus::module::{Consensus, HybridConsensus};
use hybrid_chain::consensus::poa::PoA;
use hybrid_chain::consensus::pow::PoW;
use hybrid_chain::user::UsersList;

fn plain_user(key: &str, balance: u64) -> User {
    User {
        username: key.to_string(),
        password: String::new(),
        public_key: key.to_string(),
        encrypted_private_key: String::new(),
        salt: String::new(),
        nonce: String::new(),
        balance,
        is_validator: false,
    }
}

fn users(entries: &[(&str, u64)]) -> UsersList {
    UsersList { users: entries.iter().map(|(k, b)| plain_user(k, *b)).collect() }
}

fn balances(list: &UsersList) -> Vec<u64> {
    list.users.iter().map(|u| u.balance).collect()
}

fn block_at(timestamp: i64, data: Vec<Transaction>) -> Block {
    Block {
        index: 1,
        timestamp,
        data,
        prev_hash: "genesis".to_string(),
        hash: String::new(),
        nonce: 0,
        validator: String::new(),
    }
}

fn chain_with_last_at(timestamp: i64) -> Blockchain {
    let mut chain = Blockchain::new();
    chain.blocks[0].timestamp = timestamp;
    chain
}

#[test]
fn transfers_move_balances_in_order() {
    let mut list = users(&[("a", 10), ("b", 5), ("c", 0)]);
    let txs = vec![Transaction::new("a", "b", 7), Transaction::new("b", "c", 12)];
    assert!(list.transfers_fit(&txs));
    list.apply_transactions(&txs);
    assert_eq!(balances(&list), vec![3, 0, 12]);
}

#[test]
fn transfers_with_unknown_parties_touch_only_known_ones() {
    let mut list = users(&[("a", 10), ("b", 5)]);
    list.apply_transaction(&Transaction::new("nobody", "b", 4));
    assert_eq!(balances(&list), vec![10, 9]);
    list.apply_transaction(&Transaction::new("a", "nobody", 3));
    assert_eq!(balances(&list), vec![7, 9]);
    list.apply_transaction(&Transaction::new("a", "a", 7));
    assert_eq!(balances(&list), vec![7, 9]);
}

#[test]
fn transfers_go_to_first_user_with_the_key() {
    let mut list = users(&[("a", 10), ("b", 1), ("b", 1)]);
    assert_eq!(list.find_by_key(&"b".to_string()), Some(1));
    assert_eq!(list.find_by_key(&"z".to_string()), None);
    list.apply_transaction(&Transaction::new("a", "b", 4));
    assert_eq!(balances(&list), vec![6, 5, 1]);
}

#[test]
fn transfers_between_registered_users_conserve_total() {
    let mut list = users(&[("a", 10), ("b", 5), ("c", 7)]);
    let txs = vec![Transaction::new("a", "b", 3), Transaction::new("c", "a", 7), Transaction::new("b", "c", 8)];
    let before: u64 = balances(&list).iter().sum();
    list.apply_transactions(&txs);
    let after: u64 = balances(&list).iter().sum();
    assert_eq!(before, after);
    assert_eq!(list.users[0].public_key, "a");
    assert_eq!(list.users[2].username, "c");
}

#[test]
fn transfers_fit_detects_overdraft_and_overflow() {
    let list = users(&[("a", 10), ("b", u64::MAX - 1)]);
    assert!(!list.transfers_fit(&vec![Transaction::new("a", "b", 11)]));
    assert!(!list.transfers_fit(&vec![Transaction::new("a", "b", 2)]));
    assert!(list.transfers_fit(&vec![Transaction::new("a", "b", 1)]));
    assert!(!list.transfers_fit(&vec![Transaction::new("a", "x", 6), Transaction::new("a", "x", 6)]));
    assert!(list.transfers_fit(&vec![Transaction::new("b", "a", 5), Transaction::new("a", "x", 15)]));
}

#[test]
fn pow_mining_raises_difficulty_for_fast_blocks_and_finds_least_nonce() {
    let chain = chain_with_last_at(1_000_000);
    let mut pow = PoW { difficulty: 0 };
    let mut block = block_at(1_000_500, vec![Transaction::new("a", "b", 2000)]);
    block.nonce = 99;
    assert!(pow.mine_block(&mut block, &chain));
    assert_eq!(pow.difficulty, 1);
    assert!(block.hash.starts_with('0'));
    assert_eq!(block.hash, block.compute_hash());
    for n in 0..block.nonce {
        let mut other = block.clone();
        other.nonce = n;
        assert!(!other.compute_hash().starts_with('0'));
    }
}

#[test]
fn pow_difficulty_follows_block_time() {
    let chain = chain_with_last_at(0);
    let mut pow = PoW { difficulty: 2 };
    let mut slow = block_at(60_001, vec![]);
    assert!(pow.mine_block(&mut slow, &chain));
    assert_eq!(pow.difficulty, 1);
    let mut on_time = block_at(60_000, vec![]);
    assert!(pow.mine_block(&mut on_time, &chain));
    assert_eq!(pow.difficulty, 1);
    let mut pow0 = PoW { difficulty: 0 };
    let mut slow0 = block_at(120_000, vec![]);
    assert!(pow0.mine_block(&mut slow0, &chain));
    assert_eq!(pow0.difficulty, 0);
    assert_eq!(slow0.nonce, 0);
    let mut empty = Blockchain::new();
    empty.blocks.clear();
    let mut pow3 = PoW { difficulty: 1 };
    let mut b = block_at(5, vec![]);
    assert!(pow3.mine_block(&mut b, &empty));
    assert_eq!(pow3.difficulty, 1);
}

#[test]
fn pow_validates_mined_block_and_applies_transfers() {
    let chain = chain_with_last_at(1_000_000);
    let mut pow = PoW { difficulty: 0 };
    let mut block = block_at(2_000_000, vec![Transaction::new("a", "b", 4)]);
    assert!(pow.mine_block(&mut block, &chain));
    let mut list = users(&[("a", 10), ("b", 0)]);
    assert!(pow.validate_block(&block, &mut list));
    assert_eq!(balances(&list), vec![6, 4]);
}

#[test]
fn pow_rejects_wrong_hash_or_difficulty() {
    let mut list = users(&[("a", 10), ("b", 0)]);
    let mut block = block_at(5, vec![Transaction::new("a", "b", 4)]);
    block.hash = "0000".to_string();
    assert!(!PoW { difficulty: 0 }.validate_block(&block, &mut list));
    block.hash = block.compute_hash();
    assert!(!PoW { difficulty: 65 }.validate_block(&block, &mut list));
    assert_eq!(balances(&list), vec![10, 0]);
    assert!(PoW { difficulty: 0 }.validate_block(&block, &mut list));
    assert_eq!(balances(&list), vec![6, 4]);
}

#[test]
fn poa_mining_needs_a_validator() {
    let chain = Blockchain::new();
    let mut poa = PoA::new();
    let mut block = block_at(5, vec![]);
    assert!(!poa.mine_block(&mut block, &chain));
    assert_eq!(block.hash, "");
    assert_eq!(block.validator, "");
}

#[test]
fn poa_seals_with_a_listed_validator() {
    let chain = Blockchain::new();
    let mut poa = PoA { validator_list: vec!["v1".to_string(), "v2".to_string(), "v3".to_string()] };
    for _ in 0..10 {
        let mut block = block_at(5, vec![Transaction::new("a", "b", 1)]);
        assert!(poa.mine_block(&mut block, &chain));
        assert!(poa.validator_list.contains(&block.validator));
        assert_eq!(block.hash, block.compute_hash());
        assert_eq!(block.nonce, 0);
    }
    let mut block = block_at(5, vec![]);
    poa.seal_block(&mut block, 1);
    assert_eq!(block.validator, "v2");
    assert_eq!(block.hash, block.compute_hash());
    assert!(poa.has_validator(&"v3".to_string()));
    assert!(!poa.has_validator(&"v4".to_string()));
}

#[test]
fn poa_validation_sets_nonce_and_applies_transfers() {
    let poa = PoA { validator_list: vec!["v".to_string()] };
    let mut list = users(&[("a", 10), ("b", 0)]);
    let mut block = block_at(5, vec![Transaction::new("a", "b", 4)]);
    block.nonce = 9;
    poa.seal_block(&mut block, 0);
    let mut good = block.clone();
    assert!(poa.validate_block(&mut good, &mut list));
    assert_eq!(good.nonce, 0);
    assert_eq!(balances(&list), vec![6, 4]);
    let mut outsider = block.clone();
    outsider.validator = "x".to_string();
    assert!(!poa.validate_block(&mut outsider, &mut list));
    assert_eq!(outsider.nonce, 1);
    let mut tampered = block.clone();
    tampered.prev_hash = "other".to_string();
    assert!(!poa.validate_block(&mut tampered, &mut list));
    assert_eq!(tampered.nonce, 1);
    assert_eq!(balances(&list), vec![6, 4]);
}

#[test]
fn hybrid_routes_by_block_size() {
    let chain = Blockchain::new();
    let mut small_poa = HybridConsensus::PoA(PoA { validator_list: vec!["v".to_string()] });
    let mut small = block_at(5, vec![Transaction::new("a", "b", 1000)]);
    assert!(small_poa.mine_block(&mut small, &chain));
    let mut list = users(&[("a", 5000), ("b", 0)]);
    assert!(small_poa.validate_block(&mut small, &mut list));
    assert_eq!(balances(&list), vec![4000, 1000]);

    let mut big = block_at(5, vec![Transaction::new("a", "b", 1001)]);
    assert!(!small_poa.mine_block(&mut big, &chain));
    assert!(!small_poa.validate_block(&mut big, &mut list));
    assert_eq!(big.nonce, 0);

    let mut pow = HybridConsensus::PoW(PoW { difficulty: 0 });
    let mut tiny = block_at(5, vec![Transaction::new("a", "b", 1)]);
    assert!(!pow.mine_block(&mut tiny, &chain));
    let mut large = block_at(5, vec![Transaction::new("a", "b", 600), Transaction::new("a", "b", 600)]);
    assert!(pow.mine_block(&mut large, &chain));
    assert!(pow.validate_block(&mut large, &mut list));
    assert_eq!(balances(&list), vec![2800, 2200]);
}

#[test]
fn add_block_appends_linked_block() {
    let mut chain = Blockchain::new();
    let mut list = users(&[("a", 100), ("b", 0)]);
    let mut consensus = HybridConsensus::PoA(PoA { validator_list: vec!["v".to_string()] });
    assert_eq!(chain.add_block(vec![Transaction::new("a", "b", 30)], &mut consensus, &mut list), Some(true));
    assert_eq!(chain.add_block(vec![Transaction::new("b", "a", 5)], &mut consensus, &mut list), Some(true));
    assert_eq!(chain.blocks.len(), 3);
    for i in 1..chain.blocks.len() {
        assert_eq!(chain.blocks[i].index as usize, i);
        assert_eq!(chain.blocks[i].prev_hash, chain.blocks[i - 1].hash);
        assert_eq!(chain.blocks[i].hash, chain.blocks[i].compute_hash());
        assert_eq!(chain.blocks[i].validator, "v");
    }
    assert_eq!(chain.blocks[1].prev_hash, "genesis");
    assert_eq!(balances(&list), vec![75, 25]);
}

#[test]
fn add_block_by_proof_of_work() {
    let mut chain = Blockchain::new();
    let mut list = users(&[("a", 5000), ("b", 0)]);
    let mut consensus = HybridConsensus::PoW(PoW { difficulty: 0 });
    assert_eq!(chain.add_block(vec![Transaction::new("a", "b", 2000)], &mut consensus, &mut list), Some(true));
    assert_eq!(chain.blocks.len(), 2);
    assert!(chain.blocks[1].hash.starts_with('0'));
    match &consensus {
        HybridConsensus::PoW(p) => assert_eq!(p.difficulty, 1),
        HybridConsensus::PoA(_) => panic!("consensus changed kind"),
    }
    assert_eq!(balances(&list), vec![3000, 2000]);
}

#[test]
fn add_block_reports_failed_mining() {
    let mut chain = Blockchain::new();
    let mut list = users(&[("a", 100), ("b", 0)]);
    let mut no_validators = HybridConsensus::PoA(PoA::new());
    assert_eq!(chain.add_block(vec![Transaction::new("a", "b", 30)], &mut no_validators, &mut list), Some(false));
    let mut wrong_kind = HybridConsensus::PoA(PoA { validator_list: vec!["v".to_string()] });
    assert_eq!(chain.add_block(vec![Transaction::new("a", "b", 3000)], &mut wrong_kind, &mut list), Some(false));
    assert_eq!(chain.blocks.len(), 1);
    assert_eq!(balances(&list), vec![100, 0]);
}

#[test]
fn add_block_refuses_out_of_range_arithmetic() {
    let mut chain = Blockchain::new();
    let mut consensus = HybridConsensus::PoA(PoA { validator_list: vec!["v".to_string()] });
    let mut overdraft = users(&[("a", 10), ("b", 0)]);
    assert_eq!(chain.add_block(vec![Transaction::new("a", "b", 30)], &mut consensus, &mut overdraft), None);
    let mut list = users(&[("a", 10), ("b", u64::MAX)]);
    assert_eq!(chain.add_block(vec![Transaction::new("a", "b", 1)], &mut consensus, &mut list), None);
    let mut huge = HybridConsensus::PoW(PoW { difficulty: 0 });
    let txs = vec![Transaction::new("a", "b", u64::MAX), Transaction::new("a", "b", 1)];
    assert_eq!(chain.add_block(txs, &mut huge, &mut list), None);
    assert_eq!(chain.blocks.len(), 1);
    assert_eq!(balances(&list), vec![10, u64::MAX]);
    assert_eq!(balances(&overdraft), vec![10, 0]);
}

#[test]
fn ready_to_mine_checks_time_and_difficulty_ranges() {
    let chain = chain_with_last_at(i64::MIN);
    let pow = HybridConsensus::PoW(PoW { difficulty: 0 });
    let far = block_at(i64::MAX, vec![Transaction::new("a", "b", 2000)]);
    assert!(!chain.ready_to_mine(&pow, &far));
    let near_chain = chain_with_last_at(0);
    let maxed = HybridConsensus::PoW(PoW { difficulty: u64::MAX });
    let soon = block_at(10, vec![Transaction::new("a", "b", 2000)]);
    assert!(!near_chain.ready_to_mine(&maxed, &soon));
    let late = block_at(100_000, vec![Transaction::new("a", "b", 2000)]);
    assert!(near_chain.ready_to_mine(&maxed, &late));
    assert!(near_chain.ready_to_mine(&pow, &soon));
}

#[test]
fn add_block_at_uses_the_given_time() {
    let mut chain = chain_with_last_at(1_000_000);
    let mut list = users(&[("a", 5000), ("b", 0)]);
    let mut consensus = HybridConsensus::PoW(PoW { difficulty: 0 });
    assert_eq!(
        chain.add_block_at(vec![Transaction::new("a", "b", 2000)], 1_200_000, &mut consensus, &mut list),
        Some(true)
    );
    assert_eq!(chain.blocks[1].timestamp, 1_200_000);
    assert_eq!(chain.blocks[1].index, 1);
    assert_eq!(chain.blocks[1].prev_hash, "genesis");
    match &consensus {
        HybridConsensus::PoW(p) => assert_eq!(p.difficulty, 0),
        HybridConsensus::PoA(_) => panic!("consensus changed kind"),
    }
    assert_eq!(balances(&list), vec![3000, 2000]);
}

#[test]
fn add_block_at_refuses_an_overflowing_time_step() {
    let mut chain = chain_with_last_at(-10);
    let mut list = users(&[("a", 5000), ("b", 0)]);
    let mut consensus = HybridConsensus::PoW(PoW { difficulty: 0 });
    assert_eq!(
        chain.add_block_at(vec![Transaction::new("a", "b", 2000)], i64::MAX, &mut consensus, &mut list),
        None
    );
    assert_eq!(chain.blocks.len(), 1);
    assert_eq!(balances(&list), vec![5000, 0]);
    let mut poa = HybridConsensus::PoA(PoA { validator_list: vec!["v".to_string()] });
    assert_eq!(chain.add_block_at(vec![Transaction::new("a", "b", 20)], i64::MAX, &mut poa, &mut list), Some(true));
}
