//! Output rendering: one row per touched account, every numeric field
//! with exactly four fractional digits, `locked` as lowercase text, one
//! newline per line and nothing else.

use vstd::prelude::*;
use crate::account::Account;
use crate::amount::{amount_str, Amount};
use crate::text::{append_u128, dec_str};
use crate::types::ClientId;

verus! {

/// One row of the output table.
pub struct OutputRecord {
    /// Whose account the row describes.
    pub client: ClientId,
    /// Spendable funds.
    pub available: Amount,
    /// Funds frozen pending dispute resolution.
    pub held: Amount,
    /// Total funds: spendable plus frozen.
    pub total: Amount,
    /// Whether a chargeback has locked the account.
    pub locked: bool,
}

impl OutputRecord {
    /// The row for `account`, owned by `client`; the total is recomputed
    /// from the two balances.
    pub fn from_account(client: ClientId, account: &Account) -> (r: OutputRecord)
        requires
            account.wf(),
        ensures
            r.client == client,
            r.available@ == account@.available,
            r.held@ == account@.held,
            r.total@ == account@.total(),
            r.locked == account@.locked,
    {
        OutputRecord {
            client,
            available: account.available,
            held: account.held,
            total: account.total(),
            locked: account.locked,
        }
    }
}

/// The header line of the output table.
pub open spec fn header_str() -> Seq<char> {
    "client,available,held,total,locked\n"@
}

/// The text of one output row: client id, the three amounts and the lock
/// flag, comma-separated, ending in a newline.
pub open spec fn row_str(r: OutputRecord) -> Seq<char> {
    dec_str(r.client.0 as nat) + seq![','] + amount_str(r.available@) + seq![','] + amount_str(
        r.held@,
    ) + seq![','] + amount_str(r.total@) + seq![','] + (if r.locked {
        "true"@
    } else {
        "false"@
    }) + seq!['\n']
}

/// The text of the rows `rs`, in order.
pub open spec fn rows_str(rs: Seq<OutputRecord>) -> Seq<char>
    decreases rs.len(),
{
    if rs.len() == 0 {
        Seq::empty()
    } else {
        row_str(rs[0]) + rows_str(rs.drop_first())
    }
}

/// The whole output table: the header line, then one row per record.
pub open spec fn table_str(rs: Seq<OutputRecord>) -> Seq<char> {
    header_str() + rows_str(rs)
}

proof fn lemma_rows_str_snoc(rs: Seq<OutputRecord>, r: OutputRecord)
    ensures
        rows_str(rs.push(r)) == rows_str(rs) + row_str(r),
    decreases rs.len(),
{
    if rs.len() == 0 {
        assert(rs.push(r).drop_first() =~= rs);
        assert(rows_str(rs.push(r)) =~= rows_str(rs) + row_str(r));
    } else {
        assert(rs.push(r).drop_first() =~= rs.drop_first().push(r));
        lemma_rows_str_snoc(rs.drop_first(), r);
        assert(rows_str(rs.push(r)) =~= rows_str(rs) + row_str(r));
    }
}

/// Append the text of one row to `out`.
fn append_row(out: &mut String, r: &OutputRecord)
    ensures
        final(out)@ == old(out)@ + row_str(*r),
{
    proof {
        reveal_strlit(",");
        reveal_strlit("\n");
        reveal_strlit("true");
        reveal_strlit("false");
    }
    append_u128(out, r.client.0 as u128);
    out.append(",");
    let a = r.available.render();
    out.append(a.as_str());
    out.append(",");
    let h = r.held.render();
    out.append(h.as_str());
    out.append(",");
    let t = r.total.render();
    out.append(t.as_str());
    out.append(",");
    if r.locked {
        out.append("true");
    } else {
        out.append("false");
    }
    out.append("\n");
    proof {
        assert(out@ =~= old(out)@ + row_str(*r));
    }
}

/// The whole output table for `records`: the fixed header line, then one
/// line per record, each field rendered with exactly four fractional
/// digits and `locked` as lowercase `true`/`false`.
pub fn write_csv(records: &Vec<OutputRecord>) -> (out: String)
    ensures
        out@ == table_str(records@),
{
    let mut out = String::new();
    out.append("client,available,held,total,locked\n");
    let mut i: usize = 0;
    while i < records.len()
        invariant
            i <= records@.len(),
            out@ == table_str(records@.subrange(0, i as int)),
        decreases records@.len() - i,
    {
        append_row(&mut out, &records[i]);
        proof {
            assert(records@.subrange(0, i as int).push(records@[i as int]) =~= records@.subrange(
                0,
                i + 1,
            ));
            lemma_rows_str_snoc(records@.subrange(0, i as int), records@[i as int]);
        }
        i += 1;
    }
    proof {
        assert(records@.subrange(0, records@.len() as int) =~= records@);
    }
    out
}

} // verus!
