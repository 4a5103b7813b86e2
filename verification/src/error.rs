//! Errors of the engine and of the input reader.
use vstd::prelude::*;

use std::io;

use vstd::string::StringExecFns;

verus! {

#[verifier::external_type_specification]
#[verifier::external_body]
pub struct ExIoError(io::Error);

#[verifier::external_type_specification]
#[verifier::external_body]
pub struct ExCsvError(csv::Error);

/// Errors returned by the engine or the output writer.
///
/// `Io` is fatal (write failure). The remaining variants are malformed-input
/// warnings: the caller reports them and continues processing.
#[derive(Debug)]
pub enum EngineError {
    Io(io::Error),
    NegativeAmount { tx: u32 },
    DuplicateTxId { tx: u32 },
}

/// Errors produced while reading and parsing the input CSV.
///
/// `Io`, `Csv` and `WrongHeader` are fatal. `UnknownKind`, `AmountMismatch` and
/// `InvalidField` (a field that does not deserialize, such as a bad amount) are
/// malformed-row errors: the caller reports them and skips the row.
#[derive(Debug)]
pub enum ParseError {
    Io(io::Error),
    Csv(csv::Error),
    WrongHeader,
    UnknownKind { row: usize, raw: String },
    AmountMismatch { row: usize, kind: String },
    InvalidField { row: usize, detail: String },
}

/// The decimal digit `d` as a character.
pub open spec fn digit_char(d: nat) -> char {
    if d == 0 {
        '0'
    } else if d == 1 {
        '1'
    } else if d == 2 {
        '2'
    } else if d == 3 {
        '3'
    } else if d == 4 {
        '4'
    } else if d == 5 {
        '5'
    } else if d == 6 {
        '6'
    } else if d == 7 {
        '7'
    } else if d == 8 {
        '8'
    } else {
        '9'
    }
}

/// The decimal notation of `n`, without leading zeros.
pub open spec fn decimal_text(n: nat) -> Seq<char>
    decreases n,
{
    if n < 10 {
        seq![digit_char(n)]
    } else {
        decimal_text(n / 10).push(digit_char(n % 10))
    }
}

/// The one-character string of digit `d`.
fn digit_str(d: u64) -> (res: &'static str)
    requires
        d < 10,
    ensures
        res@ == seq![digit_char(d as nat)],
{
    let res = match d {
        0 => "0",
        1 => "1",
        2 => "2",
        3 => "3",
        4 => "4",
        5 => "5",
        6 => "6",
        7 => "7",
        8 => "8",
        _ => "9",
    };
    proof {
        reveal_strlit("0");
        reveal_strlit("1");
        reveal_strlit("2");
        reveal_strlit("3");
        reveal_strlit("4");
        reveal_strlit("5");
        reveal_strlit("6");
        reveal_strlit("7");
        reveal_strlit("8");
        reveal_strlit("9");
    }
    assert(res@ =~= seq![digit_char(d as nat)]);
    res
}

/// Appends the decimal notation of `n` to `out`.
fn push_decimal(out: &mut String, n: u64)
    ensures
        final(out)@ == old(out)@ + decimal_text(n as nat),
    decreases n,
{
    if n >= 10 {
        push_decimal(out, n / 10);
    }
    out.append(digit_str(n % 10));
    assert(final(out)@ =~= old(out)@ + decimal_text(n as nat)) by {
        if n >= 10 {
            assert(decimal_text(n as nat) == decimal_text((n / 10) as nat).push(digit_char((n % 10) as nat)));
        }
    }
}

/// Calls `<io::Error as Display>::fmt` through `to_string`.
///
/// Trusted for nothing but being callable: the text of an I/O error may depend on
/// the operating system, so no clause states it.
#[verifier::external_body]
fn io_error_text(e: &io::Error) -> String {
    e.to_string()
}

/// Calls `<csv::Error as Display>::fmt` through `to_string`.
///
/// Trusted for nothing but being callable: the text may carry an I/O error's
/// text, which depends on the operating system, so no clause states it.
#[verifier::external_body]
fn csv_error_text(e: &csv::Error) -> String {
    e.to_string()
}

/// The message of an engine error, where it does not depend on the operating system.
pub open spec fn engine_error_text(e: EngineError) -> Option<Seq<char>> {
    match e {
        EngineError::Io(_) => None,
        EngineError::NegativeAmount { tx } => Some("tx "@ + decimal_text(tx as nat) + ": amount must not be negative"@),
        EngineError::DuplicateTxId { tx } => Some("tx "@ + decimal_text(tx as nat) + ": duplicate transaction id"@),
    }
}

/// The message of a parse error, where it does not depend on the operating system.
pub open spec fn parse_error_text(e: ParseError) -> Option<Seq<char>> {
    match e {
        ParseError::Io(_) => None,
        ParseError::Csv(_) => None,
        ParseError::WrongHeader => Some("wrong CSV header \u{2014} expected: type,client,tx,amount"@),
        ParseError::UnknownKind { row, raw } => Some(
            "row "@ + decimal_text(row as nat) + ": unknown transaction type '"@ + raw@ + "'"@,
        ),
        ParseError::AmountMismatch { row, kind } => Some(
            "row "@ + decimal_text(row as nat) + ": unexpected amount field for '"@ + kind@ + "'"@,
        ),
        ParseError::InvalidField { row, detail } => Some(
            "row "@ + decimal_text(row as nat) + ": invalid field: "@ + detail@,
        ),
    }
}

/// Whether the text starts with `prefix`.
pub open spec fn starts_with(text: Seq<char>, prefix: Seq<char>) -> bool {
    text.len() >= prefix.len() && text.subrange(0, prefix.len() as int) == prefix
}

impl EngineError {
    /// The message of this error, as the command line reports it.
    pub fn message(&self) -> (res: String)
        ensures
            engine_error_text(*self) matches Some(t) ==> res@ == t,
            self is Io ==> starts_with(res@, "I/O error: "@),
    {
        let mut out = String::new();
        match self {
            EngineError::Io(e) => {
                out.append("I/O error: ");
                let text = io_error_text(e);
                out.append(text.as_str());
                proof {
                    reveal_strlit("I/O error: ");
                }
                assert(out@.subrange(0, 11) =~= "I/O error: "@);
            },
            EngineError::NegativeAmount { tx } => {
                out.append("tx ");
                push_decimal(&mut out, *tx as u64);
                out.append(": amount must not be negative");
            },
            EngineError::DuplicateTxId { tx } => {
                out.append("tx ");
                push_decimal(&mut out, *tx as u64);
                out.append(": duplicate transaction id");
            },
        }
        out
    }
}

impl ParseError {
    /// The message of this error, as the command line reports it.
    pub fn message(&self) -> (res: String)
        ensures
            parse_error_text(*self) matches Some(t) ==> res@ == t,
            self is Io ==> starts_with(res@, "I/O error: "@),
            self is Csv ==> starts_with(res@, "CSV error: "@),
    {
        let mut out = String::new();
        match self {
            ParseError::Io(e) => {
                out.append("I/O error: ");
                let text = io_error_text(e);
                out.append(text.as_str());
                proof {
                    reveal_strlit("I/O error: ");
                }
                assert(out@.subrange(0, 11) =~= "I/O error: "@);
            },
            ParseError::Csv(e) => {
                out.append("CSV error: ");
                let text = csv_error_text(e);
                out.append(text.as_str());
                proof {
                    reveal_strlit("CSV error: ");
                }
                assert(out@.subrange(0, 11) =~= "CSV error: "@);
            },
            ParseError::WrongHeader => {
                out.append("wrong CSV header \u{2014} expected: type,client,tx,amount");
            },
            ParseError::UnknownKind { row, raw } => {
                out.append("row ");
                push_decimal(&mut out, *row as u64);
                out.append(": unknown transaction type '");
                out.append(raw.as_str());
                out.append("'");
            },
            ParseError::AmountMismatch { row, kind } => {
                out.append("row ");
                push_decimal(&mut out, *row as u64);
                out.append(": unexpected amount field for '");
                out.append(kind.as_str());
                out.append("'");
            },
            ParseError::InvalidField { row, detail } => {
                out.append("row ");
                push_decimal(&mut out, *row as u64);
                out.append(": invalid field: ");
                out.append(detail.as_str());
            },
        }
        out
    }

    /// Whether this error ends the run: an input that cannot be read (`Io`, `Csv`)
    /// or a header that is not `type,client,tx,amount`.
    pub fn is_fatal(&self) -> (res: bool)
        ensures
            res == fatal_error(*self),
    {
        match self {
            ParseError::Io(_) | ParseError::Csv(_) | ParseError::WrongHeader => true,
            _ => false,
        }
    }

    /// The message the command line ends with for a fatal error; a CSV failure is
    /// reported as an I/O error, as the writer's failures are.
    pub fn fatal_message(&self) -> (res: String)
        ensures
            parse_error_text(*self) matches Some(t) ==> res@ == t,
            self is Io || self is Csv ==> starts_with(res@, "I/O error: "@),
    {
        match self {
            ParseError::Csv(e) => {
                let mut out = String::new();
                out.append("I/O error: ");
                let text = csv_error_text(e);
                out.append(text.as_str());
                proof {
                    reveal_strlit("I/O error: ");
                }
                assert(out@.subrange(0, 11) =~= "I/O error: "@);
                out
            },
            _ => self.message(),
        }
    }
}

/// Whether a parse error ends the run.
pub open spec fn fatal_error(e: ParseError) -> bool {
    e is Io || e is Csv || e is WrongHeader
}

impl From<io::Error> for EngineError {
    fn from(e: io::Error) -> (res: Self) {
        EngineError::Io(e)
    }
}

impl vstd::std_specs::convert::FromSpecImpl<io::Error> for EngineError {
    open spec fn obeys_from_spec() -> bool {
        true
    }

    open spec fn from_spec(v: io::Error) -> EngineError {
        EngineError::Io(v)
    }
}

impl From<io::Error> for ParseError {
    fn from(e: io::Error) -> (res: Self) {
        ParseError::Io(e)
    }
}

impl vstd::std_specs::convert::FromSpecImpl<io::Error> for ParseError {
    open spec fn obeys_from_spec() -> bool {
        true
    }

    open spec fn from_spec(v: io::Error) -> ParseError {
        ParseError::Io(v)
    }
}

impl From<csv::Error> for ParseError {
    fn from(e: csv::Error) -> (res: Self) {
        ParseError::Csv(e)
    }
}

impl vstd::std_specs::convert::FromSpecImpl<csv::Error> for ParseError {
    open spec fn obeys_from_spec() -> bool {
        true
    }

    open spec fn from_spec(v: csv::Error) -> ParseError {
        ParseError::Csv(v)
    }
}

} // verus!
