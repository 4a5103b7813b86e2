//! Account snapshots for output, and the decisions of the input reader.
use vstd::prelude::*;

use crate::amount::{decimal_checked_add, exact_sum, sum_facts, Amount};
use crate::client::{Client, ClientState};
use crate::error::ParseError;
use crate::transaction::{Transaction, TransactionKind};

verus! {

/// A view of a client account, used for output.
#[derive(Clone, Copy, Debug)]
pub struct ClientSnapshot {
    pub client: u16,
    pub available: Amount,
    pub held: Amount,
    pub total: Amount,
    pub locked: bool,
}

/// The snapshot of account `s` of client `id`, when its total does not overflow: its
/// balances and total with their natural precision, and its lock.
pub open spec fn snapshot_of(id: u16, s: ClientState) -> Option<ClientSnapshot> {
    match s.total_spec() {
        Some(total) => Some(
            ClientSnapshot {
                client: id,
                available: s.available.normal_form(),
                held: s.held.normal_form(),
                total: total.normal_form(),
                locked: s.locked,
            },
        ),
        None => None,
    }
}

impl ClientSnapshot {
    /// The snapshot of `client`, or `None` when its total overflows.
    pub fn try_from_client(id: u16, client: &Client) -> (res: Option<Self>)
        ensures
            res == snapshot_of(id, client@),
            sum_facts(client@.available, client@.held),
    {
        match client.try_total() {
            Some(total) => Some(
                ClientSnapshot {
                    client: id,
                    available: client.available().normalized(),
                    held: client.held().normalized(),
                    total: total.normalized(),
                    locked: client.locked(),
                },
            ),
            None => None,
        }
    }

    /// The snapshot of `client`: its balances and `total = available + held`, each
    /// with its natural precision, and its lock.
    pub fn from_client(id: u16, client: &Client) -> (res: Self)
        requires
            client@.total_spec() is Some,
        ensures
            snapshot_of(id, client@) == Some(res),
    {
        ClientSnapshot {
            client: id,
            available: client.available().normalized(),
            held: client.held().normalized(),
            total: client.total().normalized(),
            locked: client.locked(),
        }
    }
}

/// The header row the input must start with: `type,client,tx,amount`.
pub open spec fn expected_header() -> Seq<Seq<char>> {
    seq!["type"@, "client"@, "tx"@, "amount"@]
}

/// Whether the (trimmed) header fields are exactly `type,client,tx,amount`.
pub fn header_matches(fields: &Vec<String>) -> (res: bool)
    ensures
        res == (fields@.map_values(|f: String| f@) == expected_header()),
{
    let ghost names = fields@.map_values(|f: String| f@);
    if fields.len() != 4 {
        assert(names.len() != expected_header().len());
        return false;
    }
    let ok = fields[0] == "type".to_string() && fields[1] == "client".to_string() && fields[2]
        == "tx".to_string() && fields[3] == "amount".to_string();
    if ok {
        assert(names =~= expected_header());
    } else {
        assert(names != expected_header()) by {
            if names == expected_header() {
                assert(names[0] == expected_header()[0]);
                assert(names[1] == expected_header()[1]);
                assert(names[2] == expected_header()[2]);
                assert(names[3] == expected_header()[3]);
            }
        }
    }
    ok
}

/// What `str::to_lowercase` returns for a string.
pub uninterp spec fn lowercase(s: Seq<char>) -> Seq<char>;

/// Calls `str::to_lowercase`.
///
/// Trusted: the result is std's Unicode lowercase mapping of `s`, named by [`lowercase`].
#[verifier::external_body]
fn to_lowercase(s: &str) -> (res: String)
    ensures
        res@ == lowercase(s@),
{
    s.to_lowercase()
}

/// The transaction kind named by a lowercased type field, if any.
pub open spec fn kind_named(lower: Seq<char>) -> Option<TransactionKind> {
    if lower == "deposit"@ {
        Some(TransactionKind::Deposit)
    } else if lower == "withdrawal"@ {
        Some(TransactionKind::Withdrawal)
    } else if lower == "dispute"@ {
        Some(TransactionKind::Dispute)
    } else if lower == "resolve"@ {
        Some(TransactionKind::Resolve)
    } else if lower == "chargeback"@ {
        Some(TransactionKind::Chargeback)
    } else {
        None
    }
}

/// Whether rows of this kind must carry an amount (deposits and withdrawals)
/// rather than none (disputes, resolutions, chargebacks).
pub open spec fn requires_amount(kind: TransactionKind) -> bool {
    kind == TransactionKind::Deposit || kind == TransactionKind::Withdrawal
}

/// The fields of one data row, as the CSV layer deserialized them.
#[derive(Clone, Debug)]
pub struct RawRecord {
    pub kind: String,
    pub client: u16,
    pub tx: u32,
    pub amount: Option<Amount>,
}

/// Whether `res` is what data row number `row` with fields `raw` turns into, given
/// `lower`, its type field lowercased: the transaction, or `UnknownKind` (with the
/// lowercased type) when that names no kind, or `AmountMismatch` (with the type as
/// written) when a deposit or withdrawal has no amount or another kind has one.
pub open spec fn row_outcome(raw: RawRecord, lower: Seq<char>, row: usize, res: Result<(Transaction, usize), ParseError>) -> bool {
    fields_outcome(raw.kind@, raw.client, raw.tx, raw.amount, lower, row, res)
}

/// [`row_outcome`], for the fields given one by one.
pub open spec fn fields_outcome(
    kind_text: Seq<char>,
    client: u16,
    tx: u32,
    amount: Option<Amount>,
    lower: Seq<char>,
    row: usize,
    res: Result<(Transaction, usize), ParseError>,
) -> bool {
    match kind_named(lower) {
        None => res matches Err(ParseError::UnknownKind { row: r, raw: s }) && r == row && s@ == lower,
        Some(kind) => if requires_amount(kind) != (amount is Some) {
            res matches Err(ParseError::AmountMismatch { row: r, kind: s }) && r == row && s@ == kind_text
        } else {
            res == Ok::<(Transaction, usize), ParseError>(
                (Transaction { kind, client, tx, amount }, row),
            )
        },
    }
}

/// A row accepted as a transaction carries an amount exactly when its kind needs one.
pub proof fn lemma_accepted_rows_carry_amounts(
    kind_text: Seq<char>,
    client: u16,
    tx: u32,
    amount: Option<Amount>,
    lower: Seq<char>,
    row: usize,
    res: Result<(Transaction, usize), ParseError>,
)
    requires
        fields_outcome(kind_text, client, tx, amount, lower, row, res),
    ensures
        res matches Ok((t, r)) ==> r == row && (t.amount is Some) == requires_amount(t.kind),
{
}

/// What data row number `row` with fields `raw` turns into; its type field is
/// matched case-insensitively (through `str::to_lowercase`).
pub open spec fn record_outcome(raw: RawRecord, row: usize, res: Result<(Transaction, usize), ParseError>) -> bool {
    row_outcome(raw, lowercase(raw.kind@), row, res)
}

/// The kind named by a lowercased type field, if any.
pub fn kind_from_lowercase(lower: &String) -> (res: Option<TransactionKind>)
    ensures
        res == kind_named(lower@),
{
    if *lower == "deposit".to_string() {
        Some(TransactionKind::Deposit)
    } else if *lower == "withdrawal".to_string() {
        Some(TransactionKind::Withdrawal)
    } else if *lower == "dispute".to_string() {
        Some(TransactionKind::Dispute)
    } else if *lower == "resolve".to_string() {
        Some(TransactionKind::Resolve)
    } else if *lower == "chargeback".to_string() {
        Some(TransactionKind::Chargeback)
    } else {
        None
    }
}

/// Turns data row number `row` into a transaction, given `lower`, its type field
/// lowercased: checks that the type names a kind and that the amount is present
/// exactly when the kind demands one.
pub fn record_from_lowercase(raw: RawRecord, lower: String, row: usize) -> (res: Result<(Transaction, usize), ParseError>)
    ensures
        row_outcome(raw, lower@, row, res),
{
    let kind = match kind_from_lowercase(&lower) {
        Some(kind) => kind,
        None => return Err(ParseError::UnknownKind { row, raw: lower }),
    };
    let needs_amount = match kind {
        TransactionKind::Deposit | TransactionKind::Withdrawal => true,
        _ => false,
    };
    if needs_amount != raw.amount.is_some() {
        return Err(ParseError::AmountMismatch { row, kind: raw.kind });
    }
    Ok((Transaction { kind, client: raw.client, tx: raw.tx, amount: raw.amount }, row))
}

/// Turns data row number `row` into a transaction, checking its type (matched
/// case-insensitively) and whether its amount is present as the type demands.
pub fn parse_record(raw: RawRecord, row: usize) -> (res: Result<(Transaction, usize), ParseError>)
    ensures
        record_outcome(raw, row, res),
{
    let lower = to_lowercase(raw.kind.as_str());
    record_from_lowercase(raw, lower, row)
}

/// A data row as the CSV layer delivered it.
#[derive(Debug)]
pub enum RowInput {
    /// The row's fields, deserialized.
    Fields(RawRecord),
    /// A field did not deserialize (such as an amount that is not a decimal); the text
    /// says why.
    BadField(String),
    /// The row could not be read.
    Failed(ParseError),
}

/// A row as the CSV layer split it: its trimmed fields, or why it could not be read.
#[derive(Debug)]
pub enum CsvRow {
    Fields(Vec<String>),
    Failed(csv::Error),
}

/// The header row and the data rows of a CSV input.
#[derive(Debug)]
pub struct CsvSplit {
    pub header: CsvRow,
    pub rows: Vec<CsvRow>,
}

/// The fields of a row, or `None` when it could not be read.
pub open spec fn row_fields(r: CsvRow) -> Option<Seq<Seq<char>>> {
    match r {
        CsvRow::Fields(f) => Some(f@.map_values(|s: String| s@)),
        CsvRow::Failed(_) => None,
    }
}

/// What a split holds, with every failure seen only as a failure.
pub open spec fn split_view(s: CsvSplit) -> (Option<Seq<Seq<char>>>, Seq<Option<Seq<Seq<char>>>>) {
    (row_fields(s.header), s.rows@.map_values(|r: CsvRow| row_fields(r)))
}

/// What the `csv` crate, trimming every field, makes of an input: its header row and
/// its data rows, each as fields or a failure.
pub uninterp spec fn csv_records(input: Seq<u8>) -> (Option<Seq<Seq<char>>>, Seq<Option<Seq<Seq<char>>>>);

/// Whether a field has no space or tab at either end.
pub open spec fn trimmed(f: Seq<char>) -> bool {
    f.len() > 0 ==> f[0] != ' ' && f[0] != '\t' && f[f.len() - 1] != ' ' && f[f.len() - 1] != '\t'
}

/// Whether every field of a row that was read is trimmed.
pub open spec fn row_trimmed(r: Option<Seq<Seq<char>>>) -> bool {
    r matches Some(f) ==> forall|i: int| 0 <= i < f.len() ==> trimmed(#[trigger] f[i])
}

/// Splits `input` with `csv::ReaderBuilder::new().trim(Trim::All).from_reader(input)`:
/// its `headers()` and the records of `into_records()`, each field as a `String`.
///
/// Trusted: the result, seen as fields and failures, is the crate's, named by
/// [`csv_records`]; with `Trim::All` the crate applies `str::trim` to every header
/// and record field, so no field starts or ends with a space or a tab.
#[verifier::external_body]
fn split_csv(input: &[u8]) -> (res: CsvSplit)
    ensures
        split_view(res) == csv_records(input@),
        row_trimmed(row_fields(res.header)),
        forall|j: int| 0 <= j < res.rows@.len() ==> row_trimmed(row_fields(#[trigger] res.rows@[j])),
{
    let mut reader = csv::ReaderBuilder::new().trim(csv::Trim::All).from_reader(input);
    let header = match reader.headers() {
        Ok(h) => CsvRow::Fields(h.iter().map(|f| f.to_string()).collect()),
        Err(e) => CsvRow::Failed(e),
    };
    let rows = reader.into_records().map(|r| match r {
        Ok(rec) => CsvRow::Fields(rec.iter().map(|f| f.to_string()).collect()),
        Err(e) => CsvRow::Failed(e),
    }).collect();
    CsvSplit { header, rows }
}

/// What deserializing a row's fields as `(String, u16, u32, Option<Decimal>)` gives:
/// the type text, client, transaction id and amount, or the error's text.
pub uninterp spec fn fields_parse(fields: Seq<Seq<char>>) -> Result<(Seq<char>, u16, u32, Option<Amount>), Seq<char>>;

/// A deserialized row, seen as plain values.
pub open spec fn parsed_view(r: Result<RawRecord, String>) -> Result<(Seq<char>, u16, u32, Option<Amount>), Seq<char>> {
    match r {
        Ok(raw) => Ok((raw.kind@, raw.client, raw.tx, raw.amount)),
        Err(e) => Err(e@),
    }
}

/// Deserializes a row's fields with `csv::StringRecord::deserialize` into
/// `(String, u16, u32, Option<Decimal>)` (the columns `type, client, tx, amount`).
///
/// Trusted: the result is serde's and the crate's, named by [`fields_parse`]; an
/// error is given as its text. The amount keeps the `Decimal`'s sign, magnitude and
/// scale, which always meet `Amount`'s invariant (below `2^96`, at most 28).
#[verifier::external_body]
fn parse_fields(fields: &Vec<String>) -> (res: Result<RawRecord, String>)
    ensures
        parsed_view(res) == fields_parse(fields@.map_values(|s: String| s@)),
{
    match csv::StringRecord::from(fields.clone()).deserialize::<(String, u16, u32, Option<rust_decimal::Decimal>)>(None) {
        Ok((kind, client, tx, amount)) => Ok(RawRecord { kind, client, tx, amount: amount.map(|d| Amount { negative: d.is_sign_negative(), mantissa: d.mantissa().unsigned_abs(), scale: d.scale() }) }),
        Err(e) => Err(e.to_string()),
    }
}

/// Whether `item` is what data row number `n`, read as `row`, turns into.
pub open spec fn item_from_row(row: Option<Seq<Seq<char>>>, n: int, item: Result<(Transaction, usize), ParseError>) -> bool {
    match row {
        None => item matches Err(ParseError::Csv(_)),
        Some(f) => match fields_parse(f) {
            Err(d) => item matches Err(ParseError::InvalidField { row, detail }) && row == n && detail@ == d,
            Ok((kind, client, tx, amount)) => fields_outcome(kind, client, tx, amount, lowercase(kind), n as usize, item),
        },
    }
}

/// Whether the header read as `h` leaves an error to report first.
pub open spec fn header_error(h: Option<Seq<Seq<char>>>) -> bool {
    h is None || h->0 != expected_header()
}

/// Whether `items` are what the input `input` is read as: first the header's error,
/// if any (`Csv` when it could not be read, `WrongHeader` when it is not
/// `type,client,tx,amount`), then one item per data row, numbered from 1.
pub open spec fn items_of(input: Seq<u8>, items: Seq<Result<(Transaction, usize), ParseError>>) -> bool {
    let (h, rows) = csv_records(input);
    let p: int = if header_error(h) { 1 } else { 0 };
    let n: int = if rows.len() < usize::MAX { rows.len() as int } else { usize::MAX - 1 };
    &&& items.len() == p + n
    &&& h is None ==> (items[0] matches Err(ParseError::Csv(_)))
    &&& (h is Some && h->0 != expected_header()) ==> (items[0] matches Err(ParseError::WrongHeader))
    &&& forall|i: int| p <= i < p + n ==> item_from_row(rows[i - p], i - p + 1, #[trigger] items[i])
}

/// Every transaction read from an input carries an amount exactly when its kind
/// needs one, and is numbered by its data row: the k-th data row (from 1) is the
/// k-th item after the header's error, if any.
pub proof fn lemma_read_items_rows(input: Seq<u8>, items: Seq<Result<(Transaction, usize), ParseError>>, i: int)
    requires
        items_of(input, items),
        0 <= i < items.len(),
        items[i] is Ok,
    ensures
        ({
            let (t, r) = items[i]->Ok_0;
            let p: int = if header_error(csv_records(input).0) { 1 } else { 0 };
            &&& (t.amount is Some) == requires_amount(t.kind)
            &&& r == i - p + 1
            &&& csv_records(input).1[r - 1] is Some
        }),
{
    let (h, rows) = csv_records(input);
    let p: int = if header_error(h) { 1 } else { 0 };
    let n: int = if rows.len() < usize::MAX { rows.len() as int } else { usize::MAX - 1 };
    assert(items.len() == p + n);
    assert(i >= p);
    assert(item_from_row(rows[i - p], i - p + 1, items[i]));
}

/// Reads a whole CSV input: splits it into fields, trimmed of surrounding whitespace,
/// checks the header, and turns each data row into a transaction or the reason it
/// is malformed.
pub fn read_items(input: &[u8]) -> (res: Vec<Result<(Transaction, usize), ParseError>>)
    ensures
        items_of(input@, res@),
        row_trimmed(csv_records(input@).0),
        forall|j: int| 0 <= j < csv_records(input@).1.len() ==> row_trimmed(#[trigger] csv_records(input@).1[j]),
{
    let split = split_csv(input);
    let ghost view = split_view(split);
    let CsvSplit { header, rows } = split;
    let ghost rows_in = rows@;
    let header = match header {
        CsvRow::Fields(f) => Ok(f),
        CsvRow::Failed(e) => Err(ParseError::Csv(e)),
    };
    let mut reader = TransactionReader::new(header);
    let mut out: Vec<Result<(Transaction, usize), ParseError>> = Vec::new();
    let pending = reader.take_pending();
    let ghost p: int = if pending is Some { 1 } else { 0 };
    match pending {
        Some(e) => out.push(Err(e)),
        None => {},
    }
    assert(p == (if header_error(view.0) { 1int } else { 0int }));
    for row in it: rows.into_iter()
        invariant
            it.seq() == rows_in,
            view.1 == rows_in.map_values(|r: CsvRow| row_fields(r)),
            reader.next_row() == (if it.index() < usize::MAX { it.index() + 1 } else { usize::MAX as int }),
            out@.len() == p + (if it.index() < usize::MAX { it.index() as int } else { usize::MAX - 1 }),
            forall|i: int| p <= i < out@.len() ==> item_from_row(view.1[i - p], i - p + 1, #[trigger] out@[i]),
            p == 1 && view.0 is None ==> (out@[0] matches Err(ParseError::Csv(_))),
            p == 1 && view.0 is Some && view.0->0 != expected_header() ==> (out@[0] matches Err(
                ParseError::WrongHeader,
            )),
            p == 0 || p == 1,
    {
        if reader.row() < usize::MAX {
            let ghost k = it.index();
            let input = match row {
                CsvRow::Failed(e) => RowInput::Failed(ParseError::Csv(e)),
                CsvRow::Fields(fields) => match parse_fields(&fields) {
                    Err(d) => RowInput::BadField(d),
                    Ok(raw) => RowInput::Fields(raw),
                },
            };
            let item = reader.next_record(input);
            out.push(item);
            assert(view.1[k] == row_fields(rows_in[k]));
        }
    }
    proof {
        assert(view == csv_records(input@));
        assert forall|j: int| 0 <= j < view.1.len() implies row_trimmed(#[trigger] view.1[j]) by {
            assert(view.1[j] == row_fields(rows_in[j]));
        }
    }
    out
}

/// The reader's decisions: row numbering and the error owed before the first row.
pub struct TransactionReader {
    row: usize,
    pending_error: Option<ParseError>,
}

impl TransactionReader {
    /// The number the next data row gets.
    pub closed spec fn next_row(&self) -> usize {
        self.row
    }

    /// The error to report before any row, if any.
    pub closed spec fn pending(&self) -> Option<ParseError> {
        self.pending_error
    }

    /// A reader for an input whose header row read as `header`: numbering starts at
    /// one, and a header that could not be read, or is not `type,client,tx,amount`,
    /// leaves an error to be reported first.
    pub fn new(header: Result<Vec<String>, ParseError>) -> (res: Self)
        ensures
            res.next_row() == 1,
            match header {
                Err(e) => res.pending() == Some(e),
                Ok(fields) => if fields@.map_values(|f: String| f@) == expected_header() {
                    res.pending() is None
                } else {
                    res.pending() matches Some(ParseError::WrongHeader)
                },
            },
    {
        let pending_error = match header {
            Err(e) => Some(e),
            Ok(fields) => if header_matches(&fields) {
                None
            } else {
                Some(ParseError::WrongHeader)
            },
        };
        TransactionReader { row: 1, pending_error }
    }

    /// The number the next data row gets.
    pub fn row(&self) -> (res: usize)
        ensures
            res == self.next_row(),
    {
        self.row
    }

    /// Takes the error owed before any row, if one is still owed.
    pub fn take_pending(&mut self) -> (res: Option<ParseError>)
        ensures
            res == old(self).pending(),
            final(self).pending() is None,
            final(self).next_row() == old(self).next_row(),
    {
        self.pending_error.take()
    }

    /// Handles the next data row as the CSV layer delivered it: the row gets the
    /// next number whether or not it could be read, and is turned into a transaction;
    /// a field that did not deserialize gives `InvalidField` with that number.
    pub fn next_record(&mut self, input: RowInput) -> (res: Result<(Transaction, usize), ParseError>)
        requires
            old(self).next_row() < usize::MAX,
        ensures
            final(self).next_row() == old(self).next_row() + 1,
            final(self).pending() == old(self).pending(),
            match input {
                RowInput::Failed(e) => res == Err::<(Transaction, usize), ParseError>(e),
                RowInput::BadField(d) => res matches Err(ParseError::InvalidField { row, detail }) && row == old(
                    self,
                ).next_row() && detail@ == d@,
                RowInput::Fields(raw) => record_outcome(raw, old(self).next_row(), res),
            },
    {
        let row = self.row;
        self.row = self.row + 1;
        match input {
            RowInput::Failed(e) => Err(e),
            RowInput::BadField(detail) => Err(ParseError::InvalidField { row, detail }),
            RowInput::Fields(raw) => parse_record(raw, row),
        }
    }
}

} // verus!

verus! {

/// A snapshot's total is its available plus its held balance (when the decimal
/// addition is exact), and every amount in it has its natural precision and keeps
/// the value of the balance it shows.
pub proof fn lemma_snapshot_total(id: u16, s: ClientState)
    requires
        s.balances_in_range(),
        sum_facts(s.available, s.held),
        exact_sum(s.available, s.held),
    ensures
        snapshot_of(id, s) matches Some(snap) && snap.client == id && snap.total.units() == snap.available.units()
            + snap.held.units(),
        snapshot_of(id, s) matches Some(snap) && snap.available.units() == s.available.units()
            && snap.held.units() == s.held.units() && snap.available.is_normal() && snap.held.is_normal()
            && snap.total.is_normal(),
{
    s.available.lemma_normal_form();
    s.held.lemma_normal_form();
    let total = decimal_checked_add(s.available, s.held)->0;
    total.lemma_normal_form();
}

} // verus!

verus! {

/// A snapshot shows the account it is taken of: it exists exactly when the total
/// does not overflow; it names the client; its lock is the account's lock (only a
/// chargeback sets it, so held funds alone never show as locked); its available and
/// held balances have the account's values and its total the value of their
/// decimal sum, each with its natural precision.
pub proof fn lemma_snapshot_shows_account(id: u16, s: ClientState)
    requires
        s.balances_in_range(),
        sum_facts(s.available, s.held),
    ensures
        (snapshot_of(id, s) is Some) == (s.total_spec() is Some),
        snapshot_of(id, s) matches Some(snap) ==> snap.client == id && snap.locked == s.locked
            && snap.available.units() == s.available.units() && snap.held.units() == s.held.units()
            && snap.total.units() == s.total_spec()->0.units() && snap.available.is_normal() && snap.held.is_normal()
            && snap.total.is_normal(),
{
    s.available.lemma_normal_form();
    s.held.lemma_normal_form();
    if let Some(total) = s.total_spec() {
        total.lemma_normal_form();
    }
}

} // verus!

verus! {

/// How a data row's type and amount decide it, for a row numbered `row` whose type
/// field lowercases to `lower`: `deposit` and `withdrawal` rows are transactions
/// exactly when they carry an amount, `dispute`, `resolve` and `chargeback` rows
/// exactly when they carry none, the others are `AmountMismatch`; any other type is
/// `UnknownKind`. An accepted row keeps its client, id and amount.
pub proof fn lemma_row_kinds(
    kind_text: Seq<char>,
    client: u16,
    tx: u32,
    amount: Option<Amount>,
    lower: Seq<char>,
    row: usize,
    res: Result<(Transaction, usize), ParseError>,
)
    requires
        fields_outcome(kind_text, client, tx, amount, lower, row, res),
    ensures
        (lower == "deposit"@ || lower == "withdrawal"@) && amount is Some ==> (res matches Ok((t, r)) && r == row
            && t.client == client && t.tx == tx && t.amount == amount && t.kind == (if lower == "deposit"@ {
            TransactionKind::Deposit
        } else {
            TransactionKind::Withdrawal
        })),
        (lower == "dispute"@ || lower == "resolve"@ || lower == "chargeback"@) && amount is None ==> (res matches Ok(
            (t, r),
        ) && r == row && t.client == client && t.tx == tx && t.amount is None && t.kind == (if lower == "dispute"@ {
            TransactionKind::Dispute
        } else if lower == "resolve"@ {
            TransactionKind::Resolve
        } else {
            TransactionKind::Chargeback
        })),
        (lower == "deposit"@ || lower == "withdrawal"@) && amount is None ==> (res matches Err(
            ParseError::AmountMismatch { row: r, kind: k },
        ) && r == row && k@ == kind_text),
        (lower == "dispute"@ || lower == "resolve"@ || lower == "chargeback"@) && amount is Some ==> (res matches Err(
            ParseError::AmountMismatch { row: r, kind: k },
        ) && r == row && k@ == kind_text),
        !(lower == "deposit"@ || lower == "withdrawal"@ || lower == "dispute"@ || lower == "resolve"@ || lower
            == "chargeback"@) ==> (res matches Err(ParseError::UnknownKind { row: r, raw: k }) && r == row && k@
            == lower),
{
    reveal_strlit("deposit");
    reveal_strlit("withdrawal");
    reveal_strlit("dispute");
    reveal_strlit("resolve");
    reveal_strlit("chargeback");
    assert("dispute"@[1] != "deposit"@[1]);
    assert("resolve"@[0] != "deposit"@[0]);
    assert("chargeback"@[0] != "withdrawal"@[0]);
    assert("dispute"@.len() != "withdrawal"@.len());
    assert("resolve"@.len() != "withdrawal"@.len());
    assert("chargeback"@.len() != "deposit"@.len());
}

} // verus!
