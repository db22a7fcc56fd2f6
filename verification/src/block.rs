//! Users, transactions and blocks, with the text a block's hash covers.

use vstd::prelude::*;
use vstd::utf8::*;
use crate::crypto::{debug_escape, debug_escaped, now_millis, sha256, sha256_digest};
use crate::encoding::{hex_encode, hex_lower};
use crate::text::{decimal, push_decimal, push_signed_decimal, signed_decimal};

verus! {

/// A registered user: credentials, key material and balance.
#[derive(Debug, Clone)]
pub struct User {
    pub username: String,
    pub password: String,
    pub public_key: String,
    pub encrypted_private_key: String,
    pub salt: String,
    pub nonce: String,
    pub balance: u64,
    pub is_validator: bool,
}

/// A transfer of `amount` from `sender` to `receiver` (both hex public keys).
#[derive(Debug, Clone)]
pub struct Transaction {
    pub sender: String,
    pub receiver: String,
    pub amount: u64,
    pub signature: String,
    pub message: String,
}

/// A block of transactions, linked to its predecessor by `prev_hash`.
#[derive(Debug, Clone)]
pub struct Block {
    pub index: u32,
    pub timestamp: i64,
    pub data: Vec<Transaction>,
    pub prev_hash: String,
    pub hash: String,
    pub nonce: u64,
    pub validator: String,
}

/// The mathematical content of a [`User`].
pub struct UserView {
    pub username: Seq<char>,
    pub password: Seq<char>,
    pub public_key: Seq<char>,
    pub encrypted_private_key: Seq<char>,
    pub salt: Seq<char>,
    pub nonce: Seq<char>,
    pub balance: u64,
    pub is_validator: bool,
}

/// The mathematical content of a [`Transaction`].
pub struct TransactionView {
    pub sender: Seq<char>,
    pub receiver: Seq<char>,
    pub amount: u64,
    pub signature: Seq<char>,
    pub message: Seq<char>,
}

/// The mathematical content of a [`Block`].
pub struct BlockView {
    pub index: u32,
    pub timestamp: i64,
    pub data: Seq<TransactionView>,
    pub prev_hash: Seq<char>,
    pub hash: Seq<char>,
    pub nonce: u64,
    pub validator: Seq<char>,
}

impl View for User {
    type V = UserView;

    open spec fn view(&self) -> UserView {
        UserView {
            username: self.username@,
            password: self.password@,
            public_key: self.public_key@,
            encrypted_private_key: self.encrypted_private_key@,
            salt: self.salt@,
            nonce: self.nonce@,
            balance: self.balance,
            is_validator: self.is_validator,
        }
    }
}

impl View for Transaction {
    type V = TransactionView;

    open spec fn view(&self) -> TransactionView {
        TransactionView {
            sender: self.sender@,
            receiver: self.receiver@,
            amount: self.amount,
            signature: self.signature@,
            message: self.message@,
        }
    }
}

/// The views of a sequence of transactions.
pub open spec fn transactions_view(ts: Seq<Transaction>) -> Seq<TransactionView> {
    ts.map_values(|t: Transaction| t@)
}

impl View for Block {
    type V = BlockView;

    open spec fn view(&self) -> BlockView {
        BlockView {
            index: self.index,
            timestamp: self.timestamp,
            data: transactions_view(self.data@),
            prev_hash: self.prev_hash@,
            hash: self.hash@,
            nonce: self.nonce,
            validator: self.validator@,
        }
    }
}

/// The sum of the amounts of a sequence of transactions.
pub open spec fn total_amount(ts: Seq<TransactionView>) -> nat
    decreases ts.len(),
{
    if ts.len() == 0 {
        0
    } else {
        total_amount(ts.drop_last()) + ts.last().amount as nat
    }
}

/// How `{:?}` prints a transaction.
pub open spec fn transaction_debug(t: TransactionView) -> Seq<char> {
    "Transaction { sender: "@ + debug_escaped(t.sender) + ", receiver: "@ + debug_escaped(t.receiver)
        + ", amount: "@ + decimal(t.amount as nat) + ", signature: "@ + debug_escaped(t.signature)
        + ", message: "@ + debug_escaped(t.message) + " }"@
}

/// The transactions printed one after another, separated by `", "`.
pub open spec fn transactions_debug_items(ts: Seq<TransactionView>) -> Seq<char>
    decreases ts.len(),
{
    if ts.len() == 0 {
        Seq::empty()
    } else if ts.len() == 1 {
        transaction_debug(ts[0])
    } else {
        transactions_debug_items(ts.drop_last()) + ", "@ + transaction_debug(ts.last())
    }
}

/// How `{:?}` prints a list of transactions.
pub open spec fn transactions_debug(ts: Seq<TransactionView>) -> Seq<char> {
    "["@ + transactions_debug_items(ts) + "]"@
}

/// The text a block's hash covers: index, timestamp, transactions,
/// previous hash and nonce, separated by commas.
pub open spec fn block_header(b: BlockView) -> Seq<char> {
    decimal(b.index as nat) + ","@ + signed_decimal(b.timestamp as int) + ","@ + transactions_debug(b.data)
        + ","@ + b.prev_hash + ","@ + decimal(b.nonce as nat)
}

/// The SHA-256 digest of a block's header text (its UTF-8 bytes).
pub open spec fn block_digest(b: BlockView) -> Seq<u8> {
    sha256_digest(encode_utf8(block_header(b)))
}

/// The hexadecimal hash a block is expected to carry.
pub open spec fn block_hash(b: BlockView) -> Seq<char> {
    hex_lower(block_digest(b))
}

impl BlockView {
    /// The same block with another nonce.
    pub open spec fn with_nonce(self, nonce: u64) -> BlockView {
        BlockView { nonce, ..self }
    }

    /// The same block with another validator.
    pub open spec fn with_validator(self, validator: Seq<char>) -> BlockView {
        BlockView { validator, ..self }
    }

    /// The same block with another hash.
    pub open spec fn with_hash(self, hash: Seq<char>) -> BlockView {
        BlockView { hash, ..self }
    }
}

/// A block's expected hash covers its index, time, transactions, previous
/// hash and nonce only: setting its hash or its validator leaves it as it was.
pub proof fn lemma_hash_ignores_seal(b: BlockView, hash: Seq<char>, validator: Seq<char>)
    ensures
        block_hash(b.with_hash(hash).with_validator(validator)) == block_hash(b),
{
    assert(block_header(b.with_hash(hash).with_validator(validator)) == block_header(b));
}

fn push_transaction_debug(s: &mut String, t: &Transaction)
    ensures
        final(s)@ == old(s)@ + transaction_debug(t@),
{
    s.append("Transaction { sender: ");
    s.append(debug_escape(t.sender.as_str()).as_str());
    s.append(", receiver: ");
    s.append(debug_escape(t.receiver.as_str()).as_str());
    s.append(", amount: ");
    push_decimal(s, t.amount);
    s.append(", signature: ");
    s.append(debug_escape(t.signature.as_str()).as_str());
    s.append(", message: ");
    s.append(debug_escape(t.message.as_str()).as_str());
    s.append(" }");
    proof {
        assert(s@ =~= old(s)@ + transaction_debug(t@));
    }
}

/// Appends `{:?}` of a list of transactions.
pub fn push_transactions_debug(s: &mut String, ts: &Vec<Transaction>)
    ensures
        final(s)@ == old(s)@ + transactions_debug(transactions_view(ts@)),
{
    let ghost start = s@;
    let ghost tv = transactions_view(ts@);
    s.append("[");
    let n = ts.len();
    let mut i: usize = 0;
    while i < n
        invariant
            n == ts@.len(),
            tv == transactions_view(ts@),
            i <= n,
            s@ == start + "["@ + transactions_debug_items(tv.take(i as int)),
        decreases n - i,
    {
        let ghost before = s@;
        if i > 0 {
            s.append(", ");
        }
        push_transaction_debug(s, &ts[i]);
        proof {
            let pre = tv.take(i as int);
            let post = tv.take(i + 1);
            assert(post.drop_last() =~= pre);
            assert(post.last() == ts@[i as int]@);
            if i == 0 {
                assert(pre.len() == 0);
                assert(transactions_debug_items(pre) =~= Seq::<char>::empty());
                assert(s@ =~= start + "["@ + transactions_debug_items(post));
            } else {
                assert(s@ =~= start + "["@ + transactions_debug_items(post));
            }
        }
        i = i + 1;
    }
    s.append("]");
    proof {
        assert(tv.take(n as int) =~= tv);
        assert(s@ =~= start + transactions_debug(tv));
    }
}

impl Block {
    /// A block stamped with the current time; every other field is as given.
    pub fn new(index: u32, prev_hash: String, data: Vec<Transaction>, hash: String, nonce: u64, validator: String) -> (r: Self)
        ensures
            r.index == index,
            r.data@ == data@,
            r.prev_hash@ == prev_hash@,
            r.hash@ == hash@,
            r.nonce == nonce,
            r.validator@ == validator@,
    {
        let timestamp = now_millis();
        Block { index, timestamp, data, prev_hash, hash, nonce, validator }
    }

    /// The sum of the amounts of the block's transactions.
    pub fn total_transaction(&self) -> (r: u64)
        requires
            total_amount(self@.data) <= u64::MAX,
        ensures
            r == total_amount(self@.data),
    {
        match self.checked_total() {
            Some(t) => t,
            None => 0,
        }
    }

    /// The sum of the amounts, or `None` where it does not fit in a `u64`.
    pub fn checked_total(&self) -> (r: Option<u64>)
        ensures
            match r {
                Some(t) => t == total_amount(self@.data),
                None => total_amount(self@.data) > u64::MAX,
            },
    {
        let ghost tv = self@.data;
        let n = self.data.len();
        let mut sum: u64 = 0;
        let mut i: usize = 0;
        while i < n
            invariant
                n == self.data@.len(),
                tv == self@.data,
                i <= n,
                sum == total_amount(tv.take(i as int)),
            decreases n - i,
        {
            proof {
                assert(tv.take(i + 1).drop_last() =~= tv.take(i as int));
            }
            let a = self.data[i].amount;
            if sum > u64::MAX - a {
                proof {
                    lemma_total_prefix_monotone(tv, i + 1);
                }
                return None;
            }
            sum = sum + a;
            i = i + 1;
        }
        proof {
            assert(tv.take(n as int) =~= tv);
        }
        Some(sum)
    }

    /// The text the block's hash covers.
    pub fn header_text(&self) -> (r: String)
        ensures
            r@ == block_header(self@),
    {
        let mut s = String::new();
        push_decimal(&mut s, self.index as u64);
        s.append(",");
        push_signed_decimal(&mut s, self.timestamp);
        s.append(",");
        push_transactions_debug(&mut s, &self.data);
        s.append(",");
        s.append(self.prev_hash.as_str());
        s.append(",");
        push_decimal(&mut s, self.nonce);
        proof {
            assert(s@ =~= block_header(self@));
        }
        s
    }

    /// The SHA-256 digest of the block's header text.
    pub fn compute_digest(&self) -> (r: Vec<u8>)
        ensures
            r@ == block_digest(self@),
            r@.len() == 32,
    {
        let header = self.header_text();
        sha256(header.as_str().as_bytes())
    }

    /// The hexadecimal hash the block is expected to carry.
    pub fn compute_hash(&self) -> (r: String)
        ensures
            r@ == block_hash(self@),
    {
        let digest = self.compute_digest();
        hex_encode(digest.as_slice())
    }
}

/// The total of a prefix never exceeds the total of a longer prefix.
pub proof fn lemma_total_prefix_monotone(ts: Seq<TransactionView>, k: int)
    requires
        0 <= k <= ts.len(),
    ensures
        total_amount(ts.take(k)) <= total_amount(ts),
    decreases ts.len() - k,
{
    if k < ts.len() {
        lemma_total_prefix_monotone(ts, k + 1);
        assert(ts.take(k + 1).drop_last() =~= ts.take(k));
    } else {
        assert(ts.take(k) =~= ts);
    }
}

} // verus!
