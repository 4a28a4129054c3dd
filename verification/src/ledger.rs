//! The ledger: owns every client account and the record of accepted
//! deposits, and runs the transaction state machine — idempotency over
//! global transaction ids, ownership checks, and the dispute lifecycle.
//!
//! Every transition is specified by a functional model ([`apply`]): the
//! exec [`Ledger::process`] returns exactly the state and verdict the model
//! gives. A rejection never changes balances; the only state a rejected
//! deposit or withdrawal may leave behind is the touched client's fresh,
//! empty account, exactly as the model says.

use std::collections::HashMap;
use std::collections::HashSet;
use vstd::prelude::*;
use crate::account::{Account, AccountModel, in_balance_range, BALANCE_LIMIT};
use crate::amount::Amount;
use crate::types::{ClientId, TransactionId, TransactionState, TransactionType};
use crate::writer::OutputRecord;

verus! {

broadcast use vstd::std_specs::hash::group_hash_axioms;

/// A deposit kept for dispute tracking: its owner, its original amount,
/// and where it stands in the dispute lifecycle.
#[derive(Debug, Clone, Copy, PartialEq, Eq, Structural)]
pub struct StoredTransaction {
    pub client_id: ClientId,
    pub amount: Amount,
    pub state: TransactionState,
}

/// The mathematical state of a stored deposit.
pub struct StoredModel {
    /// The owning client.
    pub client: u16,
    /// The deposited amount, in 1/10000 units.
    pub amount: int,
    /// Where the deposit stands in the dispute lifecycle.
    pub state: TransactionState,
}

impl View for StoredTransaction {
    type V = StoredModel;

    open spec fn view(&self) -> StoredModel {
        StoredModel { client: self.client_id.0, amount: self.amount@, state: self.state }
    }
}

/// The mathematical state of the whole ledger.
pub struct LedgerModel {
    /// Every account created so far, by client id.
    pub accounts: Map<u16, AccountModel>,
    /// Every accepted deposit, by transaction id.
    pub deposits: Map<u32, StoredModel>,
    /// Every transaction id accepted as a deposit or withdrawal.
    pub processed: Set<u32>,
}

impl LedgerModel {
    /// The state before any transaction.
    pub open spec fn init() -> LedgerModel {
        LedgerModel {
            accounts: Map::empty(),
            deposits: Map::empty(),
            processed: Set::empty(),
        }
    }

    /// Every account's balances lie in the guarded range; every stored
    /// deposit's amount is non-negative and small enough that freezing or
    /// releasing it stays inside `i128`; and every stored deposit's id is in
    /// the processed set, so no later deposit or withdrawal can reuse it —
    /// a stored record only ever moves along the dispute lifecycle.
    pub open spec fn wf(self) -> bool {
        &&& forall|c: u16|
            self.accounts.contains_key(c) ==> (#[trigger] self.accounts[c]).wf()
        &&& forall|t: u32|
            self.deposits.contains_key(t) ==> 0 <= (#[trigger] self.deposits[t]).amount <= 2
                * BALANCE_LIMIT
        &&& forall|t: u32| #[trigger] self.deposits.contains_key(t) ==> self.processed.contains(t)
    }
}

/// `accounts` with an empty account added under `c` where none exists yet.
pub open spec fn touch(accounts: Map<u16, AccountModel>, c: u16) -> Map<u16, AccountModel> {
    if accounts.contains_key(c) {
        accounts
    } else {
        accounts.insert(c, AccountModel::init())
    }
}

/// The account under `c`, or a fresh one where none exists yet.
pub open spec fn account_or_new(accounts: Map<u16, AccountModel>, c: u16) -> AccountModel {
    if accounts.contains_key(c) {
        accounts[c]
    } else {
        AccountModel::init()
    }
}

/// The units carried by an optional amount.
pub open spec fn opt_units(amount: Option<Amount>) -> Option<int> {
    match amount {
        Some(a) => Some(a@),
        None => None,
    }
}

/// What a deposit request does: rejected without a trace when the amount
/// is absent or negative or the transaction id was already processed;
/// otherwise the client's account is created if need be, and the deposit
/// is rejected on a locked account or where the new balance would leave
/// the guarded range, else applied, recorded for later disputes, and its
/// id marked processed.
pub open spec fn apply_deposit(l: LedgerModel, client: u16, tx: u32, amount: Option<int>) -> (
    LedgerModel,
    bool,
) {
    match amount {
        None => (l, false),
        Some(a) => {
            if a < 0 {
                (l, false)
            } else if l.processed.contains(tx) {
                (l, false)
            } else {
                let acct = account_or_new(l.accounts, client);
                if acct.locked || !in_balance_range(acct.available + a) {
                    (LedgerModel { accounts: touch(l.accounts, client), ..l }, false)
                } else {
                    (
                        LedgerModel {
                            accounts: l.accounts.insert(
                                client,
                                AccountModel { available: acct.available + a, ..acct },
                            ),
                            deposits: l.deposits.insert(
                                tx,
                                StoredModel {
                                    client,
                                    amount: a,
                                    state: TransactionState::Undisputed,
                                },
                            ),
                            processed: l.processed.insert(tx),
                        },
                        true,
                    )
                }
            }
        },
    }
}

/// What a withdrawal request does: rejected without a trace when the
/// amount is absent or negative or the transaction id was already
/// processed; otherwise the client's account is created if need be, and
/// the withdrawal is rejected on a locked account, a shortfall, or where
/// the new balance would leave the guarded range, else applied and its id
/// marked processed. Withdrawals are never recorded, so they can never be
/// disputed.
pub open spec fn apply_withdrawal(l: LedgerModel, client: u16, tx: u32, amount: Option<int>) -> (
    LedgerModel,
    bool,
) {
    match amount {
        None => (l, false),
        Some(a) => {
            if a < 0 {
                (l, false)
            } else if l.processed.contains(tx) {
                (l, false)
            } else {
                let acct = account_or_new(l.accounts, client);
                if acct.locked || acct.available < a || !in_balance_range(acct.available - a) {
                    (LedgerModel { accounts: touch(l.accounts, client), ..l }, false)
                } else {
                    (
                        LedgerModel {
                            accounts: l.accounts.insert(
                                client,
                                AccountModel { available: acct.available - a, ..acct },
                            ),
                            deposits: l.deposits,
                            processed: l.processed.insert(tx),
                        },
                        true,
                    )
                }
            }
        },
    }
}

/// What a dispute does: rejected without a trace when the transaction id
/// names no stored deposit, the caller is not its owner, the deposit is
/// not in its initial state, or freezing the funds would push a balance
/// out of the guarded range; otherwise the deposit turns `Disputed` and
/// its amount moves from the owner's spendable to held funds.
pub open spec fn apply_dispute(l: LedgerModel, client: u16, tx: u32) -> (LedgerModel, bool) {
    if !l.deposits.contains_key(tx) {
        (l, false)
    } else {
        let st = l.deposits[tx];
        if st.client != client {
            (l, false)
        } else if st.state != TransactionState::Undisputed {
            (l, false)
        } else {
            let acct = account_or_new(l.accounts, client);
            if !in_balance_range(acct.available - st.amount) || !in_balance_range(
                acct.held + st.amount,
            ) {
                (l, false)
            } else {
                (
                    LedgerModel {
                        accounts: l.accounts.insert(
                            client,
                            AccountModel {
                                available: acct.available - st.amount,
                                held: acct.held + st.amount,
                                locked: acct.locked,
                            },
                        ),
                        deposits: l.deposits.insert(
                            tx,
                            StoredModel { state: TransactionState::Disputed, ..st },
                        ),
                        processed: l.processed,
                    },
                    true,
                )
            }
        }
    }
}

/// What a resolve does: rejected without a trace when the transaction id
/// names no stored deposit, the caller is not its owner, the deposit is
/// not currently disputed, or releasing the funds would push a balance out
/// of the guarded range; otherwise the deposit turns `Resolved` — for
/// good, it can never be disputed again — and its amount moves back from
/// held to spendable funds.
pub open spec fn apply_resolve(l: LedgerModel, client: u16, tx: u32) -> (LedgerModel, bool) {
    if !l.deposits.contains_key(tx) {
        (l, false)
    } else {
        let st = l.deposits[tx];
        if st.client != client {
            (l, false)
        } else if st.state != TransactionState::Disputed {
            (l, false)
        } else {
            let acct = account_or_new(l.accounts, client);
            if !in_balance_range(acct.available + st.amount) || !in_balance_range(
                acct.held - st.amount,
            ) {
                (l, false)
            } else {
                (
                    LedgerModel {
                        accounts: l.accounts.insert(
                            client,
                            AccountModel {
                                available: acct.available + st.amount,
                                held: acct.held - st.amount,
                                locked: acct.locked,
                            },
                        ),
                        deposits: l.deposits.insert(
                            tx,
                            StoredModel { state: TransactionState::Resolved, ..st },
                        ),
                        processed: l.processed,
                    },
                    true,
                )
            }
        }
    }
}

/// What a chargeback does: rejected without a trace when the transaction
/// id names no stored deposit, the caller is not its owner, the deposit is
/// not currently disputed, or dropping the held funds would push a balance
/// out of the guarded range; otherwise the deposit turns `ChargedBack` —
/// absorbing — its amount leaves the held funds, and the account is locked
/// for the rest of the run.
pub open spec fn apply_chargeback(l: LedgerModel, client: u16, tx: u32) -> (LedgerModel, bool) {
    if !l.deposits.contains_key(tx) {
        (l, false)
    } else {
        let st = l.deposits[tx];
        if st.client != client {
            (l, false)
        } else if st.state != TransactionState::Disputed {
            (l, false)
        } else {
            let acct = account_or_new(l.accounts, client);
            if !in_balance_range(acct.held - st.amount) {
                (l, false)
            } else {
                (
                    LedgerModel {
                        accounts: l.accounts.insert(
                            client,
                            AccountModel {
                                available: acct.available,
                                held: acct.held - st.amount,
                                locked: true,
                            },
                        ),
                        deposits: l.deposits.insert(
                            tx,
                            StoredModel { state: TransactionState::ChargedBack, ..st },
                        ),
                        processed: l.processed,
                    },
                    true,
                )
            }
        }
    }
}

/// What one request of any kind does to the ledger, and whether it is
/// applied.
pub open spec fn apply(
    l: LedgerModel,
    tx_type: TransactionType,
    client: u16,
    tx: u32,
    amount: Option<int>,
) -> (LedgerModel, bool) {
    match tx_type {
        TransactionType::Deposit => apply_deposit(l, client, tx, amount),
        TransactionType::Withdrawal => apply_withdrawal(l, client, tx, amount),
        TransactionType::Dispute => apply_dispute(l, client, tx),
        TransactionType::Resolve => apply_resolve(l, client, tx),
        TransactionType::Chargeback => apply_chargeback(l, client, tx),
    }
}

/// Relies on std's `HashMap::iter`: it yields exactly the stored entries,
/// each key once, in an unspecified order.
#[verifier::external_body]
fn account_entries(m: &HashMap<u16, Account>) -> (r: Vec<(u16, Account)>)
    ensures
        forall|i: int|
            0 <= i < r@.len() ==> m@.contains_key((#[trigger] r@[i]).0) && m@[r@[i].0] == r@[i].1,
        forall|i: int, j: int| 0 <= i < j < r@.len() ==> r@[i].0 != r@[j].0,
        forall|c: u16|
            m@.contains_key(c) ==> exists|i: int| 0 <= i < r@.len() && (#[trigger] r@[i]).0 == c,
{
    m.iter().map(|(k, v)| (*k, *v)).collect()
}

/// One request as the model sees it: a kind, a client, a transaction id
/// and an optional amount in 1/10000 units.
pub struct Request {
    /// The kind of request.
    pub tx_type: TransactionType,
    /// The client issuing it.
    pub client: u16,
    /// The transaction id it names.
    pub tx: u32,
    /// The amount it carries, where its kind takes one.
    pub amount: Option<int>,
}

/// The ledger state after processing `reqs` in order, starting from `l`.
pub open spec fn run(l: LedgerModel, reqs: Seq<Request>) -> LedgerModel
    decreases reqs.len(),
{
    if reqs.len() == 0 {
        l
    } else {
        let l1 = apply(l, reqs[0].tx_type, reqs[0].client, reqs[0].tx, reqs[0].amount).0;
        run(l1, reqs.drop_first())
    }
}

/// One deposit record as the model sees it.
pub struct DepositReq {
    /// The client receiving the deposit.
    pub client: u16,
    /// The transaction id of the deposit.
    pub tx: u32,
    /// The deposited amount, in 1/10000 units.
    pub amount: int,
}

/// The ledger state after processing the deposits `reqs` in order,
/// starting from `l`.
pub open spec fn run_deposits(l: LedgerModel, reqs: Seq<DepositReq>) -> LedgerModel
    decreases reqs.len(),
{
    if reqs.len() == 0 {
        l
    } else {
        let l1 = apply_deposit(l, reqs[0].client, reqs[0].tx, Some(reqs[0].amount)).0;
        run_deposits(l1, reqs.drop_first())
    }
}

/// The sum of the amounts in `reqs` that belong to client `c`.
pub open spec fn client_sum(reqs: Seq<DepositReq>, c: u16) -> int
    decreases reqs.len(),
{
    if reqs.len() == 0 {
        0
    } else {
        (if reqs[0].client == c {
            reqs[0].amount
        } else {
            0
        }) + client_sum(reqs.drop_first(), c)
    }
}

/// How many records in `reqs` belong to client `c`.
pub open spec fn client_count(reqs: Seq<DepositReq>, c: u16) -> nat
    decreases reqs.len(),
{
    if reqs.len() == 0 {
        0
    } else {
        (if reqs[0].client == c {
            1nat
        } else {
            0nat
        }) + client_count(reqs.drop_first(), c)
    }
}

/// Owns every client account and every stored deposit, and processes
/// transactions one at a time.
#[derive(Debug)]
pub struct Ledger {
    accounts: HashMap<u16, Account>,
    deposits: HashMap<u32, StoredTransaction>,
    /// Ids already accepted as a deposit or withdrawal, for idempotency.
    processed_tx_ids: HashSet<u32>,
}

impl View for Ledger {
    type V = LedgerModel;

    closed spec fn view(&self) -> LedgerModel {
        LedgerModel {
            accounts: Map::new(
                |c: u16| self.accounts@.contains_key(c),
                |c: u16| self.accounts@[c]@,
            ),
            deposits: Map::new(
                |t: u32| self.deposits@.contains_key(t),
                |t: u32| self.deposits@[t]@,
            ),
            processed: self.processed_tx_ids@,
        }
    }
}

impl Ledger {
    /// The ledger's invariant: see [`LedgerModel::wf`].
    pub open spec fn wf(self) -> bool {
        self@.wf()
    }

    /// A ledger with no accounts and no history.
    pub fn new() -> (r: Ledger)
        ensures
            r@ == LedgerModel::init(),
            r.wf(),
    {
        let r = Ledger {
            accounts: HashMap::new(),
            deposits: HashMap::new(),
            processed_tx_ids: HashSet::new(),
        };
        proof {
            assert(r@.accounts =~= LedgerModel::init().accounts);
            assert(r@.deposits =~= LedgerModel::init().deposits);
            assert(r@.processed =~= LedgerModel::init().processed);
        }
        r
    }

    /// The account of `client_id`, where one has been created.
    pub fn get_account(&self, client_id: ClientId) -> (r: Option<&Account>)
        ensures
            match r {
                Some(a) => self@.accounts.contains_key(client_id.0) && a@
                    == self@.accounts[client_id.0],
                None => !self@.accounts.contains_key(client_id.0),
            },
    {
        self.accounts.get(&client_id.0)
    }

    /// Every account created so far, by client id.
    pub fn accounts(&self) -> (r: &HashMap<u16, Account>)
        ensures
            forall|c: u16| r@.contains_key(c) <==> self@.accounts.contains_key(c),
            forall|c: u16|
                r@.contains_key(c) ==> (#[trigger] r@[c])@ == self@.accounts[c],
    {
        &self.accounts
    }

    /// Process one transaction; true means applied, false rejected. The
    /// state moves exactly as the functional model [`apply`] says.
    pub fn process(
        &mut self,
        tx_type: TransactionType,
        client_id: ClientId,
        tx_id: TransactionId,
        amount: Option<Amount>,
    ) -> (ok: bool)
        requires
            old(self).wf(),
        ensures
            final(self).wf(),
            (final(self)@, ok) == apply(
                old(self)@,
                tx_type,
                client_id.0,
                tx_id.0,
                opt_units(amount),
            ),
    {
        match tx_type {
            TransactionType::Deposit => self.process_deposit(client_id, tx_id, amount),
            TransactionType::Withdrawal => self.process_withdrawal(client_id, tx_id, amount),
            TransactionType::Dispute => self.process_dispute(client_id, tx_id),
            TransactionType::Resolve => self.process_resolve(client_id, tx_id),
            TransactionType::Chargeback => self.process_chargeback(client_id, tx_id),
        }
    }

    /// One output row per account created so far, in unspecified order:
    /// each touched client appears exactly once, with its balances, its
    /// recomputed total and its lock flag.
    pub fn snapshot(&self) -> (r: Vec<OutputRecord>)
        requires
            self.wf(),
        ensures
            forall|i: int|
                0 <= i < r@.len() ==> {
                    let c = (#[trigger] r@[i]).client.0;
                    &&& self@.accounts.contains_key(c)
                    &&& r@[i].available@ == self@.accounts[c].available
                    &&& r@[i].held@ == self@.accounts[c].held
                    &&& r@[i].total@ == self@.accounts[c].total()
                    &&& r@[i].locked == self@.accounts[c].locked
                },
            forall|i: int, j: int|
                0 <= i < j < r@.len() ==> r@[i].client.0 != r@[j].client.0,
            forall|c: u16|
                self@.accounts.contains_key(c) ==> exists|i: int|
                    0 <= i < r@.len() && (#[trigger] r@[i]).client.0 == c,
    {
        let entries = account_entries(&self.accounts);
        let mut r: Vec<OutputRecord> = Vec::new();
        let mut i: usize = 0;
        while i < entries.len()
            invariant
                self.wf(),
                i <= entries@.len(),
                r@.len() == i,
                forall|k: int|
                    0 <= k < entries@.len() ==> self@.accounts.contains_key(
                        (#[trigger] entries@[k]).0,
                    ) && entries@[k].1@ == self@.accounts[entries@[k].0],
                forall|k: int, j: int|
                    0 <= k < j < entries@.len() ==> entries@[k].0 != entries@[j].0,
                forall|k: int|
                    0 <= k < i ==> (#[trigger] r@[k]).client.0 == entries@[k].0,
                forall|k: int|
                    0 <= k < i ==> {
                        let c = (#[trigger] r@[k]).client.0;
                        &&& self@.accounts.contains_key(c)
                        &&& r@[k].available@ == self@.accounts[c].available
                        &&& r@[k].held@ == self@.accounts[c].held
                        &&& r@[k].total@ == self@.accounts[c].total()
                        &&& r@[k].locked == self@.accounts[c].locked
                    },
            decreases entries@.len() - i,
        {
            let c = entries[i].0;
            let a = entries[i].1;
            proof {
                assert(self@.accounts.contains_key(c) && a@ == self@.accounts[c]);
                assert(self@.accounts[c].wf());
            }
            let rec = OutputRecord::from_account(ClientId(c), &a);
            r.push(rec);
            i += 1;
        }
        proof {
            assert forall|c: u16| self@.accounts.contains_key(c) implies exists|k: int|
                0 <= k < r@.len() && (#[trigger] r@[k]).client.0 == c by {
                let k = choose|k: int|
                    0 <= k < entries@.len() && (#[trigger] entries@[k]).0 == c;
                assert(r@[k].client.0 == c);
            }
        }
        r
    }

    /// The client's account, or a fresh one where none exists yet.
    fn account_snapshot(&self, client: u16) -> (r: Account)
        ensures
            r@ == account_or_new(self@.accounts, client),
    {
        match self.accounts.get(&client) {
            Some(a) => *a,
            None => Account::new(),
        }
    }

    fn process_deposit(
        &mut self,
        client_id: ClientId,
        tx_id: TransactionId,
        amount: Option<Amount>,
    ) -> (ok: bool)
        requires
            old(self).wf(),
        ensures
            final(self).wf(),
            (final(self)@, ok) == apply_deposit(
                old(self)@,
                client_id.0,
                tx_id.0,
                opt_units(amount),
            ),
    {
        let amount = match amount {
            Some(a) => {
                if a.is_negative() {
                    return false;
                }
                a
            },
            None => { return false },
        };
        if self.processed_tx_ids.contains(&tx_id.0) {
            return false;
        }
        let mut acct = self.account_snapshot(client_id.0);
        proof {
            assert(self@.wf());
            assert(account_or_new(self@.accounts, client_id.0).wf());
        }
        let ok = acct.deposit(amount);
        self.accounts.insert(client_id.0, acct);
        if !ok {
            proof {
                assert(self@.accounts =~= touch(old(self)@.accounts, client_id.0));
                assert(self@.deposits =~= old(self)@.deposits);
            }
            return false;
        }
        self.processed_tx_ids.insert(tx_id.0);
        self.deposits.insert(
            tx_id.0,
            StoredTransaction { client_id, amount, state: TransactionState::Undisputed },
        );
        proof {
            let before = old(self)@;
            let acct0 = account_or_new(before.accounts, client_id.0);
            assert(self@.accounts =~= before.accounts.insert(
                client_id.0,
                AccountModel { available: acct0.available + amount@, ..acct0 },
            ));
            assert(self@.deposits =~= before.deposits.insert(
                tx_id.0,
                StoredModel {
                    client: client_id.0,
                    amount: amount@,
                    state: TransactionState::Undisputed,
                },
            ));
            assert(self@.processed =~= before.processed.insert(tx_id.0));
            assert(0 <= amount@ <= 2 * BALANCE_LIMIT);
        }
        true
    }

    fn process_withdrawal(
        &mut self,
        client_id: ClientId,
        tx_id: TransactionId,
        amount: Option<Amount>,
    ) -> (ok: bool)
        requires
            old(self).wf(),
        ensures
            final(self).wf(),
            (final(self)@, ok) == apply_withdrawal(
                old(self)@,
                client_id.0,
                tx_id.0,
                opt_units(amount),
            ),
    {
        let amount = match amount {
            Some(a) => {
                if a.is_negative() {
                    return false;
                }
                a
            },
            None => { return false },
        };
        if self.processed_tx_ids.contains(&tx_id.0) {
            return false;
        }
        let mut acct = self.account_snapshot(client_id.0);
        proof {
            assert(account_or_new(self@.accounts, client_id.0).wf());
        }
        let ok = acct.withdraw(amount);
        self.accounts.insert(client_id.0, acct);
        if !ok {
            proof {
                assert(self@.accounts =~= touch(old(self)@.accounts, client_id.0));
            }
            return false;
        }
        self.processed_tx_ids.insert(tx_id.0);
        proof {
            let before = old(self)@;
            let acct0 = account_or_new(before.accounts, client_id.0);
            assert(self@.accounts =~= before.accounts.insert(
                client_id.0,
                AccountModel { available: acct0.available - amount@, ..acct0 },
            ));
            assert(self@.deposits =~= before.deposits);
            assert(self@.processed =~= before.processed.insert(tx_id.0));
        }
        true
    }

    fn process_dispute(&mut self, client_id: ClientId, tx_id: TransactionId) -> (ok: bool)
        requires
            old(self).wf(),
        ensures
            final(self).wf(),
            (final(self)@, ok) == apply_dispute(old(self)@, client_id.0, tx_id.0),
    {
        let stored = match self.deposits.get(&tx_id.0) {
            Some(s) => *s,
            None => { return false },
        };
        if stored.client_id.0 != client_id.0 {
            return false;
        }
        if !matches!(stored.state, TransactionState::Undisputed) {
            return false;
        }
        let m = stored.amount;
        let acct = self.account_snapshot(client_id.0);
        proof {
            assert(account_or_new(self@.accounts, client_id.0).wf());
            assert(0 <= stored@.amount <= 2 * BALANCE_LIMIT);
        }
        let av2 = acct.available.units - m.units;
        let hd2 = acct.held.units + m.units;
        if av2 < -BALANCE_LIMIT || av2 > BALANCE_LIMIT || hd2 < -BALANCE_LIMIT || hd2
            > BALANCE_LIMIT {
            return false;
        }
        let mut acct2 = acct;
        acct2.hold(m);
        self.accounts.insert(client_id.0, acct2);
        self.deposits.insert(
            tx_id.0,
            StoredTransaction { state: TransactionState::Disputed, ..stored },
        );
        proof {
            let before = old(self)@;
            let acct0 = account_or_new(before.accounts, client_id.0);
            assert(self@.accounts =~= before.accounts.insert(
                client_id.0,
                AccountModel {
                    available: acct0.available - stored@.amount,
                    held: acct0.held + stored@.amount,
                    locked: acct0.locked,
                },
            ));
            assert(self@.deposits =~= before.deposits.insert(
                tx_id.0,
                StoredModel { state: TransactionState::Disputed, ..before.deposits[tx_id.0] },
            ));
            assert(before.deposits.contains_key(tx_id.0));
            assert(before.processed.contains(tx_id.0));
            assert(self@.processed =~= before.processed);
        }
        true
    }

    fn process_resolve(&mut self, client_id: ClientId, tx_id: TransactionId) -> (ok: bool)
        requires
            old(self).wf(),
        ensures
            final(self).wf(),
            (final(self)@, ok) == apply_resolve(old(self)@, client_id.0, tx_id.0),
    {
        let stored = match self.deposits.get(&tx_id.0) {
            Some(s) => *s,
            None => { return false },
        };
        if stored.client_id.0 != client_id.0 {
            return false;
        }
        if !matches!(stored.state, TransactionState::Disputed) {
            return false;
        }
        let m = stored.amount;
        let acct = self.account_snapshot(client_id.0);
        proof {
            assert(account_or_new(self@.accounts, client_id.0).wf());
            assert(0 <= stored@.amount <= 2 * BALANCE_LIMIT);
        }
        let av2 = acct.available.units + m.units;
        let hd2 = acct.held.units - m.units;
        if av2 < -BALANCE_LIMIT || av2 > BALANCE_LIMIT || hd2 < -BALANCE_LIMIT || hd2
            > BALANCE_LIMIT {
            return false;
        }
        let mut acct2 = acct;
        acct2.release(m);
        self.accounts.insert(client_id.0, acct2);
        self.deposits.insert(
            tx_id.0,
            StoredTransaction { state: TransactionState::Resolved, ..stored },
        );
        proof {
            let before = old(self)@;
            let acct0 = account_or_new(before.accounts, client_id.0);
            assert(self@.accounts =~= before.accounts.insert(
                client_id.0,
                AccountModel {
                    available: acct0.available + stored@.amount,
                    held: acct0.held - stored@.amount,
                    locked: acct0.locked,
                },
            ));
            assert(self@.deposits =~= before.deposits.insert(
                tx_id.0,
                StoredModel { state: TransactionState::Resolved, ..before.deposits[tx_id.0] },
            ));
            assert(before.deposits.contains_key(tx_id.0));
            assert(before.processed.contains(tx_id.0));
            assert(self@.processed =~= before.processed);
        }
        true
    }

    fn process_chargeback(&mut self, client_id: ClientId, tx_id: TransactionId) -> (ok: bool)
        requires
            old(self).wf(),
        ensures
            final(self).wf(),
            (final(self)@, ok) == apply_chargeback(old(self)@, client_id.0, tx_id.0),
    {
        let stored = match self.deposits.get(&tx_id.0) {
            Some(s) => *s,
            None => { return false },
        };
        if stored.client_id.0 != client_id.0 {
            return false;
        }
        if !matches!(stored.state, TransactionState::Disputed) {
            return false;
        }
        let m = stored.amount;
        let acct = self.account_snapshot(client_id.0);
        proof {
            assert(account_or_new(self@.accounts, client_id.0).wf());
            assert(0 <= stored@.amount <= 2 * BALANCE_LIMIT);
        }
        let hd2 = acct.held.units - m.units;
        if hd2 < -BALANCE_LIMIT || hd2 > BALANCE_LIMIT {
            return false;
        }
        let mut acct2 = acct;
        acct2.chargeback(m);
        self.accounts.insert(client_id.0, acct2);
        self.deposits.insert(
            tx_id.0,
            StoredTransaction { state: TransactionState::ChargedBack, ..stored },
        );
        proof {
            let before = old(self)@;
            let acct0 = account_or_new(before.accounts, client_id.0);
            assert(self@.accounts =~= before.accounts.insert(
                client_id.0,
                AccountModel {
                    available: acct0.available,
                    held: acct0.held - stored@.amount,
                    locked: true,
                },
            ));
            assert(self@.deposits =~= before.deposits.insert(
                tx_id.0,
                StoredModel { state: TransactionState::ChargedBack, ..before.deposits[tx_id.0] },
            ));
            assert(before.deposits.contains_key(tx_id.0));
            assert(before.processed.contains(tx_id.0));
            assert(self@.processed =~= before.processed);
        }
        true
    }
}

} // verus!
