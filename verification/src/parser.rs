//! Row decoding: the tabular reader splits the input into a header row
//! and data rows (through the csv crate, behind one trusted item); column
//! resolution by name and every field-level check are verified here.
//!
//! Columns may come in any order; unrecognized columns are ignored and a
//! duplicated name resolves to its first occurrence. A malformed row is
//! reported with its 1-based line number and a message, and skipped.

use vstd::prelude::*;
use crate::amount::{amount_units_of, Amount};
use crate::text::{chars_vec, eq_ignore_case, eq_ignore_case_spec, parse_uint, parse_uint_spec,
    trim_chars, trim_spec};
use crate::types::{tx_type_of, ClientId, TransactionId, TransactionType};

verus! {

/// One decoded transaction request.
#[derive(Debug)]
pub struct InputRecord {
    /// The kind of request.
    pub tx_type: TransactionType,
    /// The client issuing it.
    pub client_id: ClientId,
    /// The transaction id it names.
    pub tx_id: TransactionId,
    /// The amount it carries; absent on dispute, resolve and chargeback
    /// rows.
    pub amount: Option<Amount>,
}

/// The mathematical content of a decoded request.
pub struct RecordModel {
    /// The kind of request.
    pub tx_type: TransactionType,
    /// The client issuing it.
    pub client: int,
    /// The transaction id it names.
    pub tx: int,
    /// The amount it carries, in 1/10000 units, where present.
    pub amount: Option<int>,
}

impl View for InputRecord {
    type V = RecordModel;

    open spec fn view(&self) -> RecordModel {
        RecordModel {
            tx_type: self.tx_type,
            client: self.client_id.0 as int,
            tx: self.tx_id.0 as int,
            amount: match self.amount {
                Some(a) => Some(a@),
                None => None,
            },
        }
    }
}

/// A row-level decoding failure: the 1-based input line it sits on, and a
/// message naming what was wrong.
#[derive(Debug)]
pub struct ParseError {
    /// The 1-based line of the input, counting the header as line one.
    pub line: usize,
    /// What was wrong with the row.
    pub message: String,
}

/// What the tabular reader makes of a byte stream: the header row and the
/// data rows, fields trimmed, or nothing where the header cannot be read.
/// A row the reader cannot decode is a `None` entry.
pub uninterp spec fn csv_table_of(input: Seq<u8>) -> Option<
    (Seq<Seq<char>>, Seq<Option<Seq<Seq<char>>>>),
>;

/// The views of a row of fields.
pub open spec fn strings_view(v: Seq<String>) -> Seq<Seq<char>> {
    v.map_values(|s: String| s@)
}

/// The views of a sequence of rows.
pub open spec fn rows_view(v: Seq<Option<Vec<String>>>) -> Seq<Option<Seq<Seq<char>>>> {
    v.map_values(
        |o: Option<Vec<String>>|
            match o {
                Some(row) => Some(strings_view(row@)),
                None => None,
            },
    )
}

/// Relies on the csv crate — `ReaderBuilder` (flexible row lengths, all
/// fields trimmed, first row as header), `Reader::headers` and
/// `Reader::records`: it splits the input into the trimmed header row and
/// the trimmed data rows, a function of the bytes alone; a row csv cannot
/// decode comes back as `None`, and a header it cannot read as no table
/// at all.
#[verifier::external_body]
fn read_csv_table(input: &[u8]) -> (r: Option<(Vec<String>, Vec<Option<Vec<String>>>)>)
    ensures
        match r {
            Some(t) => csv_table_of(input@) == Some((strings_view(t.0@), rows_view(t.1@))),
            None => csv_table_of(input@) is None,
        },
{
    let mut rdr = csv::ReaderBuilder::new().flexible(true).trim(csv::Trim::All).from_reader(
        input,
    );
    let headers: Vec<String> = match rdr.headers() {
        Ok(h) => h.iter().map(|f| f.to_string()).collect(),
        Err(_) => {
            return None;
        },
    };
    let mut rows: Vec<Option<Vec<String>>> = Vec::new();
    for rec in rdr.records() {
        rows.push(rec.ok().map(|w| w.iter().map(|f| f.to_string()).collect()));
    }
    Some((headers, rows))
}

/// Whether header `i` names `name`: equal ignoring ASCII case, after
/// trimming surrounding ASCII whitespace.
pub open spec fn col_matches(headers: Seq<Seq<char>>, i: int, name: Seq<char>) -> bool {
    eq_ignore_case_spec(trim_spec(headers[i]), name)
}

/// Whether some header names `name`.
pub open spec fn has_col(headers: Seq<Seq<char>>, name: Seq<char>) -> bool {
    exists|i: int| 0 <= i < headers.len() && col_matches(headers, i, name)
}

/// Whether `i` is the first header naming `name`.
pub open spec fn is_first_col(headers: Seq<Seq<char>>, i: int, name: Seq<char>) -> bool {
    &&& 0 <= i < headers.len()
    &&& col_matches(headers, i, name)
    &&& forall|j: int| 0 <= j < i ==> !col_matches(headers, j, name)
}

/// The first header index naming `name`.
fn find_col(headers: &Vec<String>, name: &str) -> (r: Option<usize>)
    ensures
        match r {
            Some(i) => is_first_col(strings_view(headers@), i as int, name@),
            None => !has_col(strings_view(headers@), name@),
        },
{
    let ghost hs = strings_view(headers@);
    let n = headers.len();
    let mut i: usize = 0;
    while i < n
        invariant
            hs == strings_view(headers@),
            n == headers@.len(),
            i <= n,
            hs.len() == n,
            forall|j: int| 0 <= j < i ==> !col_matches(hs, j, name@),
        decreases n - i,
    {
        let cs = chars_vec(headers[i].as_str());
        let t = trim_chars(&cs);
        if eq_ignore_case(&t, name) {
            proof {
                assert(hs[i as int] == headers@[i as int]@);
            }
            return Some(i);
        }
        proof {
            assert(hs[i as int] == headers@[i as int]@);
        }
        i += 1;
    }
    None
}

/// The field of `row` at `idx`, or empty text where the row is too short.
pub open spec fn field_at(row: Seq<Seq<char>>, idx: int) -> Seq<char> {
    if 0 <= idx < row.len() {
        row[idx]
    } else {
        Seq::empty()
    }
}

/// The message for a row whose transaction type is unknown.
pub open spec fn unknown_type_message(f: Seq<char>) -> Seq<char> {
    "Unknown transaction type: '"@ + f + "'"@
}

/// The message for a row whose client id does not parse or overflows.
pub open spec fn invalid_client_message(f: Seq<char>) -> Seq<char> {
    "Invalid client ID: '"@ + f + "'"@
}

/// The message for a row whose transaction id does not parse or
/// overflows.
pub open spec fn invalid_tx_message(f: Seq<char>) -> Seq<char> {
    "Invalid transaction ID: '"@ + f + "'"@
}

/// The message for a row whose amount is not a well-formed decimal.
pub open spec fn invalid_amount_message(f: Seq<char>) -> Seq<char> {
    "Invalid amount: '"@ + f + "'"@
}

/// The message for a row carrying a negative amount.
pub open spec fn negative_amount_message(f: Seq<char>) -> Seq<char> {
    "Negative amount not allowed: '"@ + f + "'"@
}

/// The message for a deposit or withdrawal row without an amount.
pub open spec fn requires_amount_message() -> Seq<char> {
    "Deposit/withdrawal requires amount"@
}

/// What decoding one row yields, given the four column indices: the
/// decoded request, or the message of the first failing check — unknown
/// type, bad client id, bad transaction id, malformed amount, negative
/// amount, then a deposit or withdrawal missing its amount.
pub open spec fn parse_row_spec(
    type_idx: int,
    client_idx: int,
    tx_idx: int,
    amount_idx: int,
    row: Seq<Seq<char>>,
) -> Result<RecordModel, Seq<char>> {
    let tfield = field_at(row, type_idx);
    let cfield = field_at(row, client_idx);
    let xfield = field_at(row, tx_idx);
    let afield = field_at(row, amount_idx);
    match tx_type_of(tfield) {
        None => Err(unknown_type_message(tfield)),
        Some(t) => match parse_uint_spec(trim_spec(cfield), 65535) {
            None => Err(invalid_client_message(cfield)),
            Some(client) => match parse_uint_spec(trim_spec(xfield), 4294967295) {
                None => Err(invalid_tx_message(xfield)),
                Some(tx) => {
                    if trim_spec(afield).len() == 0 {
                        if t == TransactionType::Deposit || t == TransactionType::Withdrawal {
                            Err(requires_amount_message())
                        } else {
                            Ok(RecordModel { tx_type: t, client, tx, amount: None })
                        }
                    } else {
                        match amount_units_of(afield) {
                            None => Err(invalid_amount_message(afield)),
                            Some(u) => {
                                if u < 0 {
                                    Err(negative_amount_message(afield))
                                } else {
                                    Ok(RecordModel { tx_type: t, client, tx, amount: Some(u) })
                                }
                            },
                        }
                    }
                },
            },
        },
    }
}

/// The 1-based input line of row `i`, counting the header as line one.
/// (The line count sticks at the largest representable value, which no
/// input that fits in memory can reach.)
pub open spec fn line_of(i: int) -> int {
    if i + 2 <= usize::MAX {
        i + 2
    } else {
        usize::MAX as int
    }
}

/// The decoder's state: the data rows, the four column indices resolved
/// from the header, and the next row to hand out.
pub struct CsvParserModel {
    /// The data rows, a failed row as `None`.
    pub rows: Seq<Option<Seq<Seq<char>>>>,
    /// The column holding the transaction type.
    pub type_idx: int,
    /// The column holding the client id.
    pub client_idx: int,
    /// The column holding the transaction id.
    pub tx_idx: int,
    /// The column holding the amount.
    pub amount_idx: int,
    /// The next row to hand out.
    pub next_row: int,
}

#[derive(Debug)]
struct ColumnIndices {
    type_idx: usize,
    client_idx: usize,
    tx_idx: usize,
    amount_idx: usize,
}

/// Decodes transaction requests from a byte stream, one row at a time.
#[derive(Debug)]
pub struct CsvParser {
    rows: Vec<Option<Vec<String>>>,
    columns: ColumnIndices,
    next_row: usize,
}

impl View for CsvParser {
    type V = CsvParserModel;

    closed spec fn view(&self) -> CsvParserModel {
        CsvParserModel {
            rows: rows_view(self.rows@),
            type_idx: self.columns.type_idx as int,
            client_idx: self.columns.client_idx as int,
            tx_idx: self.columns.tx_idx as int,
            amount_idx: self.columns.amount_idx as int,
            next_row: self.next_row as int,
        }
    }
}

/// The message for a header missing one of the required columns: the
/// first absent one, in the order type, client, tx, amount.
pub open spec fn missing_col_message(headers: Seq<Seq<char>>) -> Seq<char> {
    if !has_col(headers, "type"@) {
        "Missing required column: '"@ + "type"@ + "'"@
    } else if !has_col(headers, "client"@) {
        "Missing required column: '"@ + "client"@ + "'"@
    } else if !has_col(headers, "tx"@) {
        "Missing required column: '"@ + "tx"@ + "'"@
    } else {
        "Missing required column: '"@ + "amount"@ + "'"@
    }
}

/// Whether the header carries all four required columns.
pub open spec fn has_all_cols(headers: Seq<Seq<char>>) -> bool {
    has_col(headers, "type"@) && has_col(headers, "client"@) && has_col(headers, "tx"@)
        && has_col(headers, "amount"@)
}

/// The message for the column named `name` missing from the header.
fn missing_col_error(name: &str) -> (m: String)
    ensures
        m@ == "Missing required column: '"@ + name@ + "'"@,
{
    let mut m = String::new();
    m.append("Missing required column: '");
    m.append(name);
    m.append("'");
    proof {
        assert(m@ =~= "Missing required column: '"@ + name@ + "'"@);
    }
    m
}

impl CsvParser {
    /// A decoder over `input`. Fails where the header row cannot be read
    /// at all, or where one of the four required columns is missing; on
    /// success, the decoder stands before the first data row, with each
    /// required column resolved to its first occurrence in the header.
    pub fn new(input: &[u8]) -> (r: Result<CsvParser, String>)
        ensures
            match csv_table_of(input@) {
                None => r matches Err(e) && e@ == "Failed to read headers"@,
                Some(t) => {
                    if has_all_cols(t.0) {
                        &&& r is Ok
                        &&& (r matches Ok(p) ==> {
                            &&& p@.rows == t.1
                            &&& p@.next_row == 0
                            &&& is_first_col(t.0, p@.type_idx, "type"@)
                            &&& is_first_col(t.0, p@.client_idx, "client"@)
                            &&& is_first_col(t.0, p@.tx_idx, "tx"@)
                            &&& is_first_col(t.0, p@.amount_idx, "amount"@)
                        })
                    } else {
                        r matches Err(e) && e@ == missing_col_message(t.0)
                    }
                },
            },
    {
        let (headers, rows) = match read_csv_table(input) {
            Some(t) => t,
            None => {
                let mut m = String::new();
                m.append("Failed to read headers");
                proof {
                    assert(m@ =~= "Failed to read headers"@);
                }
                return Err(m);
            },
        };
        let type_idx = match find_col(&headers, "type") {
            Some(i) => i,
            None => {
                return Err(missing_col_error("type"));
            },
        };
        let client_idx = match find_col(&headers, "client") {
            Some(i) => i,
            None => {
                return Err(missing_col_error("client"));
            },
        };
        let tx_idx = match find_col(&headers, "tx") {
            Some(i) => i,
            None => {
                return Err(missing_col_error("tx"));
            },
        };
        let amount_idx = match find_col(&headers, "amount") {
            Some(i) => i,
            None => {
                return Err(missing_col_error("amount"));
            },
        };
        Ok(
            CsvParser {
                rows,
                columns: ColumnIndices { type_idx, client_idx, tx_idx, amount_idx },
                next_row: 0,
            },
        )
    }

    /// The next decoded request, a decoding failure with its line number
    /// and message, or nothing once every row has been handed out.
    pub fn next_record(&mut self) -> (r: Option<Result<InputRecord, ParseError>>)
        ensures
            ({
                let m = old(self)@;
                if m.next_row < 0 || m.next_row >= m.rows.len() {
                    r is None && final(self)@ == m
                } else {
                    &&& final(self)@ == (CsvParserModel { next_row: m.next_row + 1, ..m })
                    &&& match m.rows[m.next_row] {
                        None => r matches Some(Err(e)) && e.line == line_of(m.next_row)
                            && e.message@ == "CSV error"@,
                        Some(row) => match parse_row_spec(
                            m.type_idx,
                            m.client_idx,
                            m.tx_idx,
                            m.amount_idx,
                            row,
                        ) {
                            Ok(rm) => r matches Some(Ok(rec)) && rec@ == rm,
                            Err(msg) => r matches Some(Err(e)) && e.line == line_of(m.next_row)
                                && e.message@ == msg,
                        },
                    }
                }
            }),
    {
        if self.next_row >= self.rows.len() {
            return None;
        }
        let idx = self.next_row;
        let line: usize = if idx <= usize::MAX - 2 {
            idx + 2
        } else {
            usize::MAX
        };
        self.next_row = idx + 1;
        match &self.rows[idx] {
            None => {
                let mut m = String::new();
                m.append("CSV error");
                proof {
                    assert(m@ =~= "CSV error"@);
                }
                Some(Err(ParseError { line, message: m }))
            },
            Some(row) => Some(self.parse_record(row, line)),
        }
    }

    /// Decode one row against the resolved columns; `line` is its 1-based
    /// input line, used in failure reports.
    fn parse_record(&self, row: &Vec<String>, line: usize) -> (r: Result<InputRecord, ParseError>)
        ensures
            ({
                let p = parse_row_spec(
                    self@.type_idx,
                    self@.client_idx,
                    self@.tx_idx,
                    self@.amount_idx,
                    strings_view(row@),
                );
                match r {
                    Ok(rec) => p == Ok::<RecordModel, Seq<char>>(rec@),
                    Err(e) => p is Err && e.message@ == p->Err_0 && e.line == line,
                }
            }),
    {
        let ghost rv = strings_view(row@);
        let tfield = field_text(row, self.columns.type_idx);
        let tx_type = match TransactionType::parse(tfield) {
            Ok(t) => t,
            Err(_) => {
                return Err(
                    ParseError {
                        line,
                        message: quoted_message("Unknown transaction type: '", tfield),
                    },
                );
            },
        };
        let cfield = field_text(row, self.columns.client_idx);
        let ctrim = trim_chars(&chars_vec(cfield));
        let client = match parse_uint(&ctrim, 65535) {
            Some(x) => x as u16,
            None => {
                return Err(
                    ParseError { line, message: quoted_message("Invalid client ID: '", cfield) },
                );
            },
        };
        let xfield = field_text(row, self.columns.tx_idx);
        let xtrim = trim_chars(&chars_vec(xfield));
        let tx = match parse_uint(&xtrim, 4294967295) {
            Some(x) => x as u32,
            None => {
                return Err(
                    ParseError {
                        line,
                        message: quoted_message("Invalid transaction ID: '", xfield),
                    },
                );
            },
        };
        let afield = field_text(row, self.columns.amount_idx);
        let atrim = trim_chars(&chars_vec(afield));
        let amount: Option<Amount> = if atrim.len() == 0 {
            None
        } else {
            match Amount::from_str_truncate(afield) {
                Ok(a) => {
                    if a.is_negative() {
                        return Err(
                            ParseError {
                                line,
                                message: quoted_message("Negative amount not allowed: '", afield),
                            },
                        );
                    }
                    Some(a)
                },
                Err(_) => {
                    return Err(
                        ParseError { line, message: quoted_message("Invalid amount: '", afield) },
                    );
                },
            }
        };
        match tx_type {
            TransactionType::Deposit | TransactionType::Withdrawal => {
                if amount.is_none() {
                    let mut m = String::new();
                    m.append("Deposit/withdrawal requires amount");
                    proof {
                        assert(m@ =~= requires_amount_message());
                    }
                    return Err(ParseError { line, message: m });
                }
            },
            _ => {},
        }
        Ok(
            InputRecord {
                tx_type,
                client_id: ClientId(client),
                tx_id: TransactionId(tx),
                amount,
            },
        )
    }
}

/// The field of `row` at `idx`, or empty text where the row is too short.
fn field_text(row: &Vec<String>, idx: usize) -> (f: &str)
    ensures
        f@ == field_at(strings_view(row@), idx as int),
{
    if idx < row.len() {
        proof {
            assert(strings_view(row@)[idx as int] == row@[idx as int]@);
        }
        row[idx].as_str()
    } else {
        let f = "";
        proof {
            reveal_strlit("");
            assert(f@ =~= Seq::<char>::empty());
        }
        f
    }
}

/// A failure message quoting the offending field: `prefix`, the field,
/// and a closing quote.
fn quoted_message(prefix: &str, field: &str) -> (m: String)
    ensures
        m@ == prefix@ + field@ + "'"@,
{
    let mut m = String::new();
    m.append(prefix);
    m.append(field);
    m.append("'");
    proof {
        assert(m@ =~= prefix@ + field@ + "'"@);
    }
    m
}

} // verus!
