//! The list of registered users and how a block's transfers move balances.

use vstd::prelude::*;
use vstd::utf8::*;
use crate::block::{Transaction, TransactionView, User, UserView, transactions_view};
use crate::consensus::poa::PoA;
use crate::text::{decimal, push_decimal};
use crate::utils::credential_text;

verus! {

/// All registered users, in registration order.
pub struct UsersList {
    pub users: Vec<User>,
}

impl View for UsersList {
    type V = Seq<UserView>;

    open spec fn view(&self) -> Seq<UserView> {
        self.users@.map_values(|u: User| u@)
    }
}

/// The index of the first user at or after `i` whose public key is `key`,
/// or `-1` when there is none.
pub open spec fn key_index_from(users: Seq<UserView>, key: Seq<char>, i: int) -> int
    decreases users.len() - i,
{
    if i < 0 || i >= users.len() {
        -1
    } else if users[i].public_key == key {
        i
    } else {
        key_index_from(users, key, i + 1)
    }
}

/// The index of the first user whose public key is `key`, or `-1`.
pub open spec fn key_index(users: Seq<UserView>, key: Seq<char>) -> int {
    key_index_from(users, key, 0)
}

/// Two user lists with the same length and the same public keys, position
/// by position.
pub open spec fn same_keys(a: Seq<UserView>, b: Seq<UserView>) -> bool {
    &&& a.len() == b.len()
    &&& forall|i: int| 0 <= i < a.len() ==> #[trigger] a[i].public_key == b[i].public_key
}

/// Two user lists that differ at most in balances.
pub open spec fn same_accounts(a: Seq<UserView>, b: Seq<UserView>) -> bool {
    &&& a.len() == b.len()
    &&& forall|i: int|
        0 <= i < a.len() ==> (#[trigger] a[i]).username == b[i].username && a[i].password
            == b[i].password && a[i].public_key == b[i].public_key
            && a[i].encrypted_private_key == b[i].encrypted_private_key && a[i].salt == b[i].salt
            && a[i].nonce == b[i].nonce && a[i].is_validator == b[i].is_validator
}

/// The user with another balance.
pub open spec fn with_balance(u: UserView, balance: int) -> UserView {
    UserView { balance: balance as u64, ..u }
}

/// Takes `amount` from the first user whose key is `key`, if any.
pub open spec fn debit(users: Seq<UserView>, key: Seq<char>, amount: u64) -> Seq<UserView> {
    let i = key_index(users, key);
    if i >= 0 {
        users.update(i, with_balance(users[i], users[i].balance - amount))
    } else {
        users
    }
}

/// Gives `amount` to the first user whose key is `key`, if any.
pub open spec fn credit(users: Seq<UserView>, key: Seq<char>, amount: u64) -> Seq<UserView> {
    let i = key_index(users, key);
    if i >= 0 {
        users.update(i, with_balance(users[i], users[i].balance + amount))
    } else {
        users
    }
}

/// The balances after one transfer: the sender (if registered) is debited,
/// then the receiver (if registered) is credited.
pub open spec fn apply_transaction(users: Seq<UserView>, t: TransactionView) -> Seq<UserView> {
    credit(debit(users, t.sender, t.amount), t.receiver, t.amount)
}

/// Neither step of the transfer leaves the range of a `u64`.
pub open spec fn transaction_fits(users: Seq<UserView>, t: TransactionView) -> bool {
    let i = key_index(users, t.sender);
    let d = debit(users, t.sender, t.amount);
    let j = key_index(d, t.receiver);
    &&& i >= 0 ==> users[i].balance >= t.amount
    &&& j >= 0 ==> d[j].balance + t.amount <= u64::MAX
}

/// The balances after the transfers, applied in order.
pub open spec fn apply_transactions(users: Seq<UserView>, ts: Seq<TransactionView>) -> Seq<UserView>
    decreases ts.len(),
{
    if ts.len() == 0 {
        users
    } else {
        apply_transaction(apply_transactions(users, ts.drop_last()), ts.last())
    }
}

/// Every transfer, applied in order, stays within the range of a `u64`.
pub open spec fn transactions_fit(users: Seq<UserView>, ts: Seq<TransactionView>) -> bool
    decreases ts.len(),
{
    if ts.len() == 0 {
        true
    } else {
        transactions_fit(users, ts.drop_last()) && transaction_fits(
            apply_transactions(users, ts.drop_last()),
            ts.last(),
        )
    }
}

/// The sum of all balances.
pub open spec fn total_balance(users: Seq<UserView>) -> int
    decreases users.len(),
{
    if users.len() == 0 {
        0
    } else {
        total_balance(users.drop_last()) + users.last().balance
    }
}

/// The public keys of the validators among the users, in order.
pub open spec fn validator_keys(users: Seq<UserView>) -> Seq<Seq<char>>
    decreases users.len(),
{
    if users.len() == 0 {
        Seq::empty()
    } else {
        let rest = validator_keys(users.drop_last());
        if users.last().is_validator {
            rest.push(users.last().public_key)
        } else {
            rest
        }
    }
}

/// How a user is listed: name, public key, balance and validator flag.
pub open spec fn user_line(u: UserView) -> Seq<char> {
    "username: "@ + u.username + ",public key: "@ + u.public_key + ",balance: "@ + decimal(u.balance as nat)
        + ", is validator: "@ + if u.is_validator { "true"@ } else { "false"@ }
}

/// What `key_index_from` finds: a matching user with no match between.
pub proof fn lemma_key_index_from(users: Seq<UserView>, key: Seq<char>, i: int)
    requires
        0 <= i,
    ensures
        key_index_from(users, key, i) == -1 || (i <= key_index_from(users, key, i) < users.len()
            && users[key_index_from(users, key, i)].public_key == key),
        key_index_from(users, key, i) == -1 ==> forall|j: int|
            i <= j < users.len() ==> #[trigger] users[j].public_key != key,
        key_index_from(users, key, i) >= 0 ==> forall|j: int|
            i <= j < key_index_from(users, key, i) ==> #[trigger] users[j].public_key != key,
    decreases users.len() - i,
{
    if i < users.len() && users[i].public_key != key {
        lemma_key_index_from(users, key, i + 1);
    }
}

/// What `key_index` finds: the first user with the key, or `-1` when none has it.
pub proof fn lemma_key_index(users: Seq<UserView>, key: Seq<char>)
    ensures
        key_index(users, key) == -1 || (0 <= key_index(users, key) < users.len()
            && users[key_index(users, key)].public_key == key),
        key_index(users, key) == -1 ==> forall|j: int|
            0 <= j < users.len() ==> #[trigger] users[j].public_key != key,
        key_index(users, key) >= 0 ==> forall|j: int|
            0 <= j < key_index(users, key) ==> #[trigger] users[j].public_key != key,
{
    lemma_key_index_from(users, key, 0);
}

/// The search depends on public keys alone.
pub proof fn lemma_key_index_same_keys(a: Seq<UserView>, b: Seq<UserView>, key: Seq<char>, i: int)
    requires
        same_keys(a, b),
    ensures
        key_index_from(a, key, i) == key_index_from(b, key, i),
    decreases a.len() - i,
{
    if 0 <= i < a.len() {
        assert(a[i].public_key == b[i].public_key);
        lemma_key_index_same_keys(a, b, key, i + 1);
    }
}

/// One transfer changes balances only.
pub proof fn lemma_apply_transaction_accounts(users: Seq<UserView>, t: TransactionView)
    ensures
        same_accounts(users, apply_transaction(users, t)),
        same_keys(users, apply_transaction(users, t)),
{
    lemma_key_index(users, t.sender);
    let d = debit(users, t.sender, t.amount);
    lemma_key_index(d, t.receiver);
}

/// Transfers change balances only: names, keys, key material and
/// validator flags stay as they were, and no user is added or removed.
pub proof fn lemma_apply_transactions_accounts(users: Seq<UserView>, ts: Seq<TransactionView>)
    ensures
        same_accounts(users, apply_transactions(users, ts)),
        same_keys(users, apply_transactions(users, ts)),
    decreases ts.len(),
{
    if ts.len() > 0 {
        lemma_apply_transactions_accounts(users, ts.drop_last());
        lemma_apply_transaction_accounts(apply_transactions(users, ts.drop_last()), ts.last());
    }
}

proof fn lemma_total_balance_update(users: Seq<UserView>, i: int, u: UserView)
    requires
        0 <= i < users.len(),
    ensures
        total_balance(users.update(i, u)) == total_balance(users) - users[i].balance + u.balance,
    decreases users.len(),
{
    let v = users.update(i, u);
    if i == users.len() - 1 {
        assert(v.drop_last() =~= users.drop_last());
    } else {
        assert(v.drop_last() =~= users.drop_last().update(i, u));
        lemma_total_balance_update(users.drop_last(), i, u);
    }
}

/// A transfer between two registered users that stays in range leaves the
/// sum of all balances unchanged.
pub proof fn lemma_transfer_conserves_total(users: Seq<UserView>, t: TransactionView)
    requires
        key_index(users, t.sender) >= 0,
        key_index(users, t.receiver) >= 0,
        transaction_fits(users, t),
    ensures
        total_balance(apply_transaction(users, t)) == total_balance(users),
{
    lemma_key_index(users, t.sender);
    let i = key_index(users, t.sender);
    let d = debit(users, t.sender, t.amount);
    lemma_total_balance_update(users, i, with_balance(users[i], users[i].balance - t.amount));
    lemma_apply_transaction_accounts(users, t);
    assert(same_keys(users, d)) by {
        assert forall|k: int| 0 <= k < users.len() implies #[trigger] users[k].public_key
            == d[k].public_key by {}
    }
    lemma_key_index_same_keys(users, d, t.receiver, 0);
    lemma_key_index(d, t.receiver);
    let j = key_index(d, t.receiver);
    lemma_total_balance_update(d, j, with_balance(d[j], d[j].balance + t.amount));
}

/// A run of transfers that fits also fits on each of its prefixes.
pub proof fn lemma_fit_prefix(users: Seq<UserView>, ts: Seq<TransactionView>, k: int)
    requires
        0 <= k <= ts.len(),
        transactions_fit(users, ts),
    ensures
        transactions_fit(users, ts.take(k)),
    decreases ts.len() - k,
{
    if k < ts.len() {
        assert(ts.take(ts.len() as int) =~= ts);
        lemma_fit_prefix_step(users, ts, k);
    } else {
        assert(ts.take(k) =~= ts);
    }
}

proof fn lemma_fit_prefix_step(users: Seq<UserView>, ts: Seq<TransactionView>, k: int)
    requires
        0 <= k < ts.len(),
        transactions_fit(users, ts),
    ensures
        transactions_fit(users, ts.take(k)),
    decreases ts.len() - k,
{
    assert(ts.drop_last() =~= ts.take(ts.len() - 1));
    if k == ts.len() - 1 {
    } else {
        lemma_fit_prefix_step(users, ts.drop_last(), k);
        assert(ts.drop_last().take(k) =~= ts.take(k));
    }
}

/// Transfers that all run between registered users, and stay in range,
/// leave the sum of all balances unchanged.
pub proof fn lemma_transfers_conserve_total(users: Seq<UserView>, ts: Seq<TransactionView>)
    requires
        forall|i: int| 0 <= i < ts.len() ==> key_index(users, (#[trigger] ts[i]).sender) >= 0,
        forall|i: int| 0 <= i < ts.len() ==> key_index(users, (#[trigger] ts[i]).receiver) >= 0,
        transactions_fit(users, ts),
    ensures
        total_balance(apply_transactions(users, ts)) == total_balance(users),
    decreases ts.len(),
{
    if ts.len() > 0 {
        let prefix = ts.drop_last();
        let t = ts.last();
        assert forall|i: int| 0 <= i < prefix.len() implies key_index(users, (#[trigger] prefix[i]).sender) >= 0 by {
            assert(prefix[i] == ts[i]);
        }
        assert forall|i: int| 0 <= i < prefix.len() implies key_index(users, (#[trigger] prefix[i]).receiver) >= 0 by {
            assert(prefix[i] == ts[i]);
        }
        lemma_transfers_conserve_total(users, prefix);
        let mid = apply_transactions(users, prefix);
        lemma_apply_transactions_accounts(users, prefix);
        lemma_key_index_same_keys(users, mid, t.sender, 0);
        lemma_key_index_same_keys(users, mid, t.receiver, 0);
        assert(t == ts[ts.len() - 1]);
        lemma_transfer_conserves_total(mid, t);
    }
}

/// A transfer whose sender matches no user's public key fits exactly when
/// crediting the first user holding the receiver's key (if any) stays
/// within the range of a `u64`; applying it credits that user and changes
/// no other balance.
pub proof fn lemma_unknown_sender(users: Seq<UserView>, t: TransactionView)
    requires
        forall|j: int| 0 <= j < users.len() ==> (#[trigger] users[j]).public_key != t.sender,
    ensures
        transactions_fit(users, seq![t]) <==> forall|j: int|
            0 <= j < users.len() && (#[trigger] users[j]).public_key == t.receiver && (forall|k: int|
                0 <= k < j ==> users[k].public_key != t.receiver) ==> users[j].balance + t.amount
                <= u64::MAX,
        apply_transactions(users, seq![t]).len() == users.len(),
        transactions_fit(users, seq![t]) ==> forall|j: int|
            0 <= j < users.len() ==> (#[trigger] apply_transactions(users, seq![t])[j]).balance == if users[j].public_key
                == t.receiver && (forall|k: int| 0 <= k < j ==> users[k].public_key != t.receiver) {
                users[j].balance + t.amount
            } else {
                users[j].balance as int
            },
        transactions_fit(users, seq![t]) ==> total_balance(apply_transactions(users, seq![t])) >= total_balance(users),
{
    let ts = seq![t];
    assert(ts.drop_last() =~= Seq::<TransactionView>::empty());
    assert(ts.last() == t);
    assert(apply_transactions(users, ts.drop_last()) == users);
    assert(transactions_fit(users, ts.drop_last()));
    assert(apply_transactions(users, ts) == apply_transaction(users, t));
    assert(transactions_fit(users, ts) == transaction_fits(users, t));
    lemma_key_index(users, t.sender);
    let d = debit(users, t.sender, t.amount);
    assert(d == users);
    lemma_key_index(users, t.receiver);
    let r = key_index(users, t.receiver);
    if r >= 0 {
        assert forall|j: int|
            0 <= j < users.len() && (#[trigger] users[j]).public_key == t.receiver && (forall|k: int|
                0 <= k < j ==> users[k].public_key != t.receiver) implies j == r by {
            if j < r {
            } else if j > r {
                assert(users[r].public_key == t.receiver);
            }
        }
        if transactions_fit(users, ts) {
            lemma_total_balance_update(users, r, with_balance(users[r], users[r].balance + t.amount));
        }
    } else {
        assert(apply_transactions(users, ts) == users);
    }
}

impl UsersList {
    /// An empty list.
    pub fn new() -> (r: UsersList)
        ensures
            r@ == Seq::<UserView>::empty(),
    {
        UsersList { users: Vec::new() }
    }

    /// The position of the first user whose public key is `key`.
    pub fn find_by_key(&self, key: &String) -> (r: Option<usize>)
        ensures
            match r {
                Some(i) => i as int == key_index(self@, key@) && i < self@.len(),
                None => key_index(self@, key@) == -1,
            },
    {
        let n = self.users.len();
        let mut i: usize = 0;
        while i < n
            invariant
                n == self@.len(),
                i <= n,
                key_index(self@, key@) == key_index_from(self@, key@, i as int),
            decreases n - i,
        {
            if self.users[i].public_key == *key {
                return Some(i);
            }
            i = i + 1;
        }
        None
    }

    /// Applies one transfer: debits the first user holding the sender's key,
    /// then credits the first user holding the receiver's key.
    pub fn apply_transaction(&mut self, t: &Transaction)
        requires
            transaction_fits(old(self)@, t@),
        ensures
            final(self)@ == apply_transaction(old(self)@, t@),
    {
        let ghost users0 = self@;
        proof {
            lemma_key_index(users0, t@.sender);
        }
        match self.find_by_key(&t.sender) {
            Some(i) => {
                let b = self.users[i].balance;
                self.set_balance(i, b - t.amount);
            },
            None => {},
        }
        let ghost d = self@;
        assert(d == debit(users0, t@.sender, t@.amount));
        proof {
            lemma_key_index(d, t@.receiver);
        }
        match self.find_by_key(&t.receiver) {
            Some(j) => {
                let b = self.users[j].balance;
                self.set_balance(j, b + t.amount);
            },
            None => {},
        }
    }

    /// Applies the transfers in order.
    pub fn apply_transactions(&mut self, ts: &Vec<Transaction>)
        requires
            transactions_fit(old(self)@, transactions_view(ts@)),
        ensures
            final(self)@ == apply_transactions(old(self)@, transactions_view(ts@)),
    {
        let ghost users0 = self@;
        let ghost tv = transactions_view(ts@);
        let n = ts.len();
        let mut i: usize = 0;
        proof {
            lemma_fit_prefix(users0, tv, n as int);
            assert(tv.take(n as int) =~= tv);
        }
        while i < n
            invariant
                n == ts@.len(),
                tv == transactions_view(ts@),
                i <= n,
                transactions_fit(users0, tv),
                self@ == apply_transactions(users0, tv.take(i as int)),
            decreases n - i,
        {
            proof {
                assert(tv.take(i + 1).drop_last() =~= tv.take(i as int));
                lemma_fit_prefix(users0, tv, i + 1);
            }
            self.apply_transaction(&ts[i]);
            i = i + 1;
        }
        proof {
            assert(tv.take(n as int) =~= tv);
        }
    }

    /// Whether applying the transfers in order keeps every balance within
    /// the range of a `u64`.
    pub fn transfers_fit(&self, ts: &Vec<Transaction>) -> (r: bool)
        ensures
            r == transactions_fit(self@, transactions_view(ts@)),
    {
        let ghost users0 = self@;
        let ghost tv = transactions_view(ts@);
        let mut balances: Vec<u64> = Vec::new();
        let m = self.users.len();
        let mut k: usize = 0;
        while k < m
            invariant
                m == users0.len(),
                users0 == self@,
                k <= m,
                balances@.len() == k,
                forall|x: int| 0 <= x < k ==> #[trigger] balances@[x] == users0[x].balance,
            decreases m - k,
        {
            balances.push(self.users[k].balance);
            k = k + 1;
        }
        let n = ts.len();
        let mut i: usize = 0;
        while i < n
            invariant
                n == ts@.len(),
                tv == transactions_view(ts@),
                m == users0.len(),
                users0 == self@,
                i <= n,
                transactions_fit(users0, tv.take(i as int)),
                balances@.len() == m,
                same_keys(users0, apply_transactions(users0, tv.take(i as int))),
                forall|x: int|
                    0 <= x < m ==> #[trigger] balances@[x] == apply_transactions(
                        users0,
                        tv.take(i as int),
                    )[x].balance,
            decreases n - i,
        {
            let ghost cur = apply_transactions(users0, tv.take(i as int));
            let t = &ts[i];
            proof {
                assert(tv.take(i + 1).drop_last() =~= tv.take(i as int));
                assert(tv.take(i + 1).last() == t@);
                lemma_key_index_same_keys(users0, cur, t@.sender, 0);
                lemma_key_index(cur, t@.sender);
            }
            match self.find_by_key(&t.sender) {
                Some(s) => {
                    if balances[s] < t.amount {
                        proof {
                            assert(!transaction_fits(cur, t@));
                            if transactions_fit(users0, tv) {
                                lemma_fit_prefix(users0, tv, i + 1);
                            }
                        }
                        return false;
                    }
                    let b = balances[s];
                    balances.set(s, b - t.amount);
                },
                None => {},
            }
            let ghost d = debit(cur, t@.sender, t@.amount);
            proof {
                lemma_apply_transaction_accounts(cur, t@);
                assert(same_keys(cur, d)) by {
                    lemma_key_index(cur, t@.sender);
                }
                assert(same_keys(users0, d));
                lemma_key_index_same_keys(users0, d, t@.receiver, 0);
                lemma_key_index(d, t@.receiver);
                assert forall|x: int| 0 <= x < m implies #[trigger] balances@[x] == d[x].balance by {}
            }
            match self.find_by_key(&t.receiver) {
                Some(r) => {
                    if balances[r] > u64::MAX - t.amount {
                        proof {
                            assert(!transaction_fits(cur, t@));
                            if transactions_fit(users0, tv) {
                                lemma_fit_prefix(users0, tv, i + 1);
                            }
                        }
                        return false;
                    }
                    let b = balances[r];
                    balances.set(r, b + t.amount);
                },
                None => {},
            }
            proof {
                let next = apply_transaction(cur, t@);
                assert(next == apply_transactions(users0, tv.take(i + 1)));
                lemma_apply_transaction_accounts(cur, t@);
                assert forall|x: int| 0 <= x < m implies #[trigger] balances@[x] == next[x].balance by {}
            }
            i = i + 1;
        }
        proof {
            assert(tv.take(n as int) =~= tv);
        }
        true
    }

    /// Registers a new user with fresh key material (see [`User::new`]);
    /// a validator's public key also joins the authority's list.
    pub fn add_user(&mut self, uname: &str, pwd: &str, initial_balance: u64, validator_status: bool, poa: &mut PoA)
        requires
            encode_utf8(credential_text(uname@, pwd@)).len() <= 0xFFFF_FFFF,
        ensures
            final(self)@ == old(self)@.push(final(self)@.last()),
            final(self)@.last().created_from(uname@, pwd@, initial_balance, validator_status),
            final(poa)@ == if validator_status {
                old(poa)@.push(final(self)@.last().public_key)
            } else {
                old(poa)@
            },
            old(poa)@ == validator_keys(old(self)@) ==> final(poa)@ == validator_keys(final(self)@),
    {
        let new_user = User::new(uname, pwd, initial_balance, validator_status);
        if new_user.is_validator {
            poa.validator_list.push(new_user.public_key.clone());
        }
        let ghost u = new_user@;
        self.users.push(new_user);
        proof {
            assert(self@ =~= old(self)@.push(u));
            assert(self@.drop_last() =~= old(self)@);
            assert(poa@ =~= if validator_status { old(poa)@.push(u.public_key) } else { old(poa)@ });
        }
    }

    /// One line per user, in order, for listing (see [`user_line`]).
    pub fn user_lines(&self) -> (r: Vec<String>)
        ensures
            r@.len() == self@.len(),
            forall|i: int| 0 <= i < r@.len() ==> (#[trigger] r@[i])@ == user_line(self@[i]),
    {
        let mut lines: Vec<String> = Vec::new();
        let n = self.users.len();
        let mut i: usize = 0;
        while i < n
            invariant
                n == self@.len(),
                i <= n,
                lines@.len() == i,
                forall|j: int| 0 <= j < i ==> (#[trigger] lines@[j])@ == user_line(self@[j]),
            decreases n - i,
        {
            let user = &self.users[i];
            let mut line = String::new();
            line.append("username: ");
            line.append(user.username.as_str());
            line.append(",public key: ");
            line.append(user.public_key.as_str());
            line.append(",balance: ");
            push_decimal(&mut line, user.balance);
            line.append(", is validator: ");
            if user.is_validator {
                line.append("true");
            } else {
                line.append("false");
            }
            proof {
                assert(line@ =~= user_line(self@[i as int]));
            }
            lines.push(line);
            i = i + 1;
        }
        lines
    }

    fn set_balance(&mut self, i: usize, balance: u64)
        requires
            i < old(self)@.len(),
        ensures
            final(self)@ == old(self)@.update(i as int, with_balance(old(self)@[i as int], balance as int)),
    {
        self.users[i].balance = balance;
        proof {
            assert(self@ =~= old(self)@.update(i as int, with_balance(old(self)@[i as int], balance as int)));
        }
    }
}

} // verus!
