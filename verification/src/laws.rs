//! Ledger-wide laws, proved once and for all over the functional model
//! that [`crate::ledger::Ledger::process`] is specified by: lock
//! monotonicity, idempotent replay, ownership isolation, and the
//! round-trip shape of a pure-deposit run.

use vstd::prelude::*;
use crate::account::{AccountModel, BALANCE_LIMIT};
use crate::amount::amount_str;
use crate::ledger::{
    apply, apply_deposit, run, run_deposits, client_count, client_sum, DepositReq, LedgerModel,
    Request,
};
use crate::text::dec_str;
use crate::types::TransactionType;
use crate::writer::{row_str, OutputRecord};

verus! {

/// Law: an account's total is the sum of its spendable and held funds, at
/// every point in time — the total is always recomputed, never stored, so
/// nothing can put the three out of step.
pub proof fn lemma_total_is_available_plus_held(a: AccountModel)
    ensures
        a.total() == a.available + a.held,
{
}

/// Law: locking is monotone across one transaction — whatever request is
/// processed, a locked account stays locked, and no account disappears.
pub proof fn lemma_locked_monotone_step(
    l: LedgerModel,
    r: Request,
    c: u16,
)
    requires
        l.accounts.contains_key(c),
        l.accounts[c].locked,
    ensures
        ({
            let l2 = apply(l, r.tx_type, r.client, r.tx, r.amount).0;
            l2.accounts.contains_key(c) && l2.accounts[c].locked
        }),
{
}

/// Law: locking is monotone for the remainder of the run — once an
/// account is locked, it is still locked after any sequence of further
/// requests.
pub proof fn lemma_locked_monotone_run(l: LedgerModel, reqs: Seq<Request>, c: u16)
    requires
        l.accounts.contains_key(c),
        l.accounts[c].locked,
    ensures
        run(l, reqs).accounts.contains_key(c),
        run(l, reqs).accounts[c].locked,
    decreases reqs.len(),
{
    if reqs.len() > 0 {
        let r = reqs[0];
        lemma_locked_monotone_step(l, r, c);
        let l1 = apply(l, r.tx_type, r.client, r.tx, r.amount).0;
        lemma_locked_monotone_run(l1, reqs.drop_first(), c);
    }
}

/// Law: idempotency through the processed-id set — a deposit or
/// withdrawal naming a transaction id that is already in the set is
/// rejected and leaves the ledger exactly as it stood. Through
/// [`crate::ledger::Ledger::process`]'s contract this holds of the
/// executable ledger.
pub proof fn lemma_processed_id_replay_rejected(l: LedgerModel, r: Request)
    requires
        r.tx_type == TransactionType::Deposit || r.tx_type == TransactionType::Withdrawal,
        l.processed.contains(r.tx),
    ensures
        apply(l, r.tx_type, r.client, r.tx, r.amount) == (l, false),
{
}

/// Law: idempotency — after a deposit or withdrawal has been processed,
/// whether it was applied or not, replaying the very same request is
/// rejected and leaves the ledger exactly as it stood, so processing it
/// twice has the effect of processing it once. Through
/// [`crate::ledger::Ledger::process`]'s contract this holds of the
/// executable ledger.
pub proof fn lemma_idempotent_replay(l: LedgerModel, r: Request)
    requires
        r.tx_type == TransactionType::Deposit || r.tx_type == TransactionType::Withdrawal,
    ensures
        ({
            let l2 = apply(l, r.tx_type, r.client, r.tx, r.amount).0;
            apply(l2, r.tx_type, r.client, r.tx, r.amount) == (l2, false)
        }),
{
}

/// Law: ownership — a dispute, resolve or chargeback that names a stored
/// deposit owned by a different client is rejected and the whole ledger is
/// unchanged: no balance of either client moves, the stored record keeps
/// its state, and the caller's account is not even created. Through
/// [`crate::ledger::Ledger::process`]'s contract this holds of the
/// executable ledger.
pub proof fn lemma_ownership_isolation(l: LedgerModel, r: Request)
    requires
        r.tx_type == TransactionType::Dispute || r.tx_type == TransactionType::Resolve
            || r.tx_type == TransactionType::Chargeback,
        l.deposits.contains_key(r.tx),
        l.deposits[r.tx].client != r.client,
    ensures
        apply(l, r.tx_type, r.client, r.tx, r.amount) == (l, false),
{
}

proof fn lemma_client_sum_nonneg(reqs: Seq<DepositReq>, c: u16)
    requires
        forall|i: int| 0 <= i < reqs.len() ==> (#[trigger] reqs[i]).amount >= 0,
    ensures
        client_sum(reqs, c) >= 0,
    decreases reqs.len(),
{
    if reqs.len() > 0 {
        lemma_client_sum_nonneg(reqs.drop_first(), c);
    }
}

proof fn lemma_deposit_run_accumulates(l: LedgerModel, reqs: Seq<DepositReq>, c: u16)
    requires
        forall|i: int| 0 <= i < reqs.len() ==> (#[trigger] reqs[i]).amount >= 0,
        forall|i: int, j: int| 0 <= i < j < reqs.len() ==> reqs[i].tx != reqs[j].tx,
        forall|i: int| 0 <= i < reqs.len() ==> !l.processed.contains((#[trigger] reqs[i]).tx),
        l.accounts.contains_key(c) ==> {
            &&& l.accounts[c].held == 0
            &&& !l.accounts[c].locked
            &&& l.accounts[c].available >= 0
            &&& l.accounts[c].available + client_sum(reqs, c) <= BALANCE_LIMIT
        },
        !l.accounts.contains_key(c) ==> client_sum(reqs, c) <= BALANCE_LIMIT,
    ensures
        ({
            let m = run_deposits(l, reqs);
            &&& m.accounts.contains_key(c) <==> (l.accounts.contains_key(c) || client_count(
                reqs,
                c,
            ) > 0)
            &&& m.accounts.contains_key(c) ==> {
                &&& m.accounts[c].available == (if l.accounts.contains_key(c) {
                    l.accounts[c].available
                } else {
                    0
                }) + client_sum(reqs, c)
                &&& m.accounts[c].held == 0
                &&& !m.accounts[c].locked
            }
        }),
    decreases reqs.len(),
{
    if reqs.len() > 0 {
        let r = reqs[0];
        let rest = reqs.drop_first();
        let (l1, ok) = apply_deposit(l, r.client, r.tx, Some(r.amount));
        assert(forall|i: int, j: int| 0 <= i < j < rest.len() ==> rest[i].tx != rest[j].tx);
        assert(forall|i: int|
            0 <= i < rest.len() ==> !l1.processed.contains((#[trigger] rest[i]).tx));
        if r.client == c {
            assert(client_sum(reqs, c) == r.amount + client_sum(rest, c));
            lemma_client_sum_nonneg(rest, c);
            assert(ok);
        } else {
            assert(client_sum(reqs, c) == client_sum(rest, c));
            assert(l1.accounts.contains_key(c) == l.accounts.contains_key(c));
            assert(l1.accounts.contains_key(c) ==> l1.accounts[c] == l.accounts[c]);
        }
        lemma_deposit_run_accumulates(l1, rest, c);
    }
}

/// Law: round trip of a pure-deposit stream — decoding a set of deposit
/// records (non-negative amounts, distinct transaction ids) and replaying
/// them against a fresh ledger gives each touched client
/// `available == total == sum of its deposits`, `held == 0` and
/// `locked == false`, which is exactly what the encoded snapshot then
/// carries. Per-client sums must stay within the guarded balance range.
pub proof fn lemma_pure_deposits_round_trip(reqs: Seq<DepositReq>, c: u16)
    requires
        forall|i: int| 0 <= i < reqs.len() ==> (#[trigger] reqs[i]).amount >= 0,
        forall|i: int, j: int| 0 <= i < j < reqs.len() ==> reqs[i].tx != reqs[j].tx,
        client_sum(reqs, c) <= BALANCE_LIMIT,
        client_count(reqs, c) > 0,
    ensures
        ({
            let m = run_deposits(LedgerModel::init(), reqs);
            &&& m.accounts.contains_key(c)
            &&& m.accounts[c].available == client_sum(reqs, c)
            &&& m.accounts[c].held == 0
            &&& !m.accounts[c].locked
            &&& m.accounts[c].total() == client_sum(reqs, c)
        }),
{
    lemma_deposit_run_accumulates(LedgerModel::init(), reqs, c);
}

/// Law: the encoded side of the pure-deposit round trip — the output row
/// built for such a client (as [`crate::writer::OutputRecord::from_account`]
/// builds it and [`crate::writer::write_csv`] renders it) shows the sum of
/// the client's deposits as both the available and the total column, a zero
/// held column, and a lowercase `false` lock flag.
pub proof fn lemma_pure_deposits_output_row(reqs: Seq<DepositReq>, c: u16, r: OutputRecord)
    requires
        forall|i: int| 0 <= i < reqs.len() ==> (#[trigger] reqs[i]).amount >= 0,
        forall|i: int, j: int| 0 <= i < j < reqs.len() ==> reqs[i].tx != reqs[j].tx,
        client_sum(reqs, c) <= BALANCE_LIMIT,
        client_count(reqs, c) > 0,
        ({
            let m = run_deposits(LedgerModel::init(), reqs);
            &&& r.client.0 == c
            &&& r.available@ == m.accounts[c].available
            &&& r.held@ == m.accounts[c].held
            &&& r.total@ == m.accounts[c].total()
            &&& r.locked == m.accounts[c].locked
        }),
    ensures
        row_str(r) == dec_str(c as nat) + seq![','] + amount_str(client_sum(reqs, c)) + seq![',']
            + "0.0000"@ + seq![','] + amount_str(client_sum(reqs, c)) + seq![','] + "false"@
            + seq!['\n'],
{
    lemma_pure_deposits_round_trip(reqs, c);
    reveal_strlit("0.0000");
    assert(amount_str(0) =~= "0.0000"@);
    assert(row_str(r) =~= dec_str(c as nat) + seq![','] + amount_str(client_sum(reqs, c)) + seq![
        ',',
    ] + "0.0000"@ + seq![','] + amount_str(client_sum(reqs, c)) + seq![','] + "false"@ + seq![
        '\n',
    ]);
}

} // verus!
