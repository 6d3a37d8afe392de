//! Decoding one record of the input into a transaction.
//!
//! A record has up to four fields, in this order: the kind of transaction,
//! the client, the transaction identifier, and the amount. The amount is
//! needed for deposits and withdrawals only.

use crate::amount::{decimal_from_str, parse_decimal, Amount, AmountView};
use crate::transactions::models::{KindView, Transaction, TransactionKind, TransactionView};
use vstd::prelude::*;
use vstd::string::*;

verus! {

/// Why a record is not a transaction.
#[derive(Debug, PartialEq, Eq, Clone, Copy, Structural)]
pub enum ParseError {
    /// The record has no fields at all.
    MissingType,
    /// The record has no second field.
    MissingAccountId,
    /// The second field is not a number that fits into 16 bits.
    InvalidAccountId,
    /// The record has no third field.
    MissingTransactionId,
    /// The third field is not a number that fits into 32 bits.
    InvalidTransactionId,
    /// A deposit without an amount that can be read.
    MissingDepositAmount,
    /// A withdrawal without an amount that can be read.
    MissingWithdrawalAmount,
    /// The first field names no kind of transaction.
    InvalidType,
}

impl ParseError {
    /// The fault in words.
    pub open spec fn spec_message(self) -> Seq<char> {
        match self {
            ParseError::MissingType => "error parsing type"@,
            ParseError::MissingAccountId => "error parsing account_id"@,
            ParseError::InvalidAccountId => "invalid account_id"@,
            ParseError::MissingTransactionId => "error parsing transaction id"@,
            ParseError::InvalidTransactionId => "invalid transaction id"@,
            ParseError::MissingDepositAmount => "error parsing amount for deposit"@,
            ParseError::MissingWithdrawalAmount => "error parsing amount for withdrawal"@,
            ParseError::InvalidType => "Invalid transaction type"@,
        }
    }

    /// The fault in words.
    pub fn message(&self) -> (r: &'static str)
        ensures
            r@ == self.spec_message(),
    {
        match self {
            ParseError::MissingType => "error parsing type",
            ParseError::MissingAccountId => "error parsing account_id",
            ParseError::InvalidAccountId => "invalid account_id",
            ParseError::MissingTransactionId => "error parsing transaction id",
            ParseError::InvalidTransactionId => "invalid transaction id",
            ParseError::MissingDepositAmount => "error parsing amount for deposit",
            ParseError::MissingWithdrawalAmount => "error parsing amount for withdrawal",
            ParseError::InvalidType => "Invalid transaction type",
        }
    }
}

/// A record of the `csv` crate: a sequence of text fields.
#[verifier::external_type_specification]
#[verifier::external_body]
pub struct ExStringRecord(csv::StringRecord);

/// The fields of a record, in their order.
pub uninterp spec fn record_fields(record: csv::StringRecord) -> Seq<Seq<char>>;

/// `csv::StringRecord::get` returns the field at index `i`, or `None` where
/// the record has no field at that index.
pub assume_specification<'a>[ csv::StringRecord::get ](
    record: &'a csv::StringRecord,
    i: usize,
) -> (r: Option<&'a str>)
    ensures
        match r {
            Some(field) => i < record_fields(*record).len() && field@ == record_fields(
                *record,
            )[i as int],
            None => i >= record_fields(*record).len(),
        },
;

/// What `str::trim` returns for a text: the text without its leading and
/// trailing whitespace.
pub uninterp spec fn trimmed(text: Seq<char>) -> Seq<char>;

/// `str::trim` removes leading and trailing whitespace; what it returns
/// depends on the text alone.
pub assume_specification<'a>[ str::trim ](text: &'a str) -> (r: &'a str)
    ensures
        r@ == trimmed(text@),
;

/// A decimal digit.
pub open spec fn is_digit(c: char) -> bool {
    '0' <= c <= '9'
}

/// The number that a sequence of decimal digits stands for.
pub open spec fn digits_value(digits: Seq<char>) -> int
    decreases digits.len(),
{
    if digits.len() == 0 {
        0
    } else {
        10 * digits_value(digits.drop_last()) + (digits.last() as int - '0' as int)
    }
}

/// The text without one leading `+`.
pub open spec fn unsigned_part(text: Seq<char>) -> Seq<char> {
    if text.len() > 0 && text[0] == '+' {
        text.drop_first()
    } else {
        text
    }
}

/// The number that a text stands for: one or more decimal digits, after at
/// most one `+`, that make a number of at most `max`. Any other text, one with
/// a space or a `-` among them, stands for no number.
pub open spec fn parsed_number(text: Seq<char>, max: int) -> Option<int> {
    let digits = unsigned_part(text);
    if digits.len() > 0 && (forall|i: int| 0 <= i < digits.len() ==> is_digit(#[trigger] digits[i]))
        && digits_value(digits) <= max {
        Some(digits_value(digits))
    } else {
        None
    }
}

/// More digits do not make a smaller number.
proof fn lemma_digits_value_grows(digits: Seq<char>, k: int)
    requires
        0 <= k <= digits.len(),
        forall|i: int| 0 <= i < digits.len() ==> is_digit(#[trigger] digits[i]),
    ensures
        0 <= digits_value(digits.take(k)) <= digits_value(digits),
    decreases digits.len() - k,
{
    if k == digits.len() {
        assert(digits.take(k) =~= digits);
        lemma_digits_value_not_negative(digits);
    } else {
        lemma_digits_value_grows(digits, k + 1);
        assert(digits.take(k + 1).drop_last() =~= digits.take(k));
        assert(is_digit(digits[k]));
        lemma_digits_value_not_negative(digits.take(k));
    }
}

/// Digits stand for a number that is not negative.
proof fn lemma_digits_value_not_negative(digits: Seq<char>)
    requires
        forall|i: int| 0 <= i < digits.len() ==> is_digit(#[trigger] digits[i]),
    ensures
        0 <= digits_value(digits),
    decreases digits.len(),
{
    if digits.len() > 0 {
        assert(is_digit(digits.last()));
        lemma_digits_value_not_negative(digits.drop_last());
    }
}

/// Reads a number of at most `max` from a text.
fn parse_number(text: &str, max: u32) -> (r: Option<u32>)
    ensures
        match r {
            Some(n) => parsed_number(text@, max as int) == Some(n as int),
            None => parsed_number(text@, max as int) is None,
        },
{
    let ghost digits = unsigned_part(text@);
    if !text.is_ascii() {
        proof {
            let j = choose|j: int|
                0 <= j < text@.len() && !('\0' <= #[trigger] text@[j] <= '\u{7f}');
            if text@[0] == '+' {
                assert(digits[j - 1] == text@[j]);
            } else {
                assert(digits[j] == text@[j]);
            }
        }
        return None;
    }
    let bytes = text.as_bytes();
    proof {
        is_ascii_spec_bytes(text);
        assert forall|k: int| 0 <= k < text@.len() implies bytes@[k] as int == (
        #[trigger] text@[k]) as int by {
            assert('\0' <= text@[k] <= '\u{7f}');
        }
    }
    let n = bytes.len();
    let start: usize = if n > 0 && bytes[0] == 43 {
        1
    } else {
        0
    };
    if start == n {
        return None;
    }
    let mut i: usize = start;
    let mut value: u32 = 0;
    while i < n
        invariant
            start <= i <= n,
            n == bytes@.len(),
            n == text@.len(),
            digits == unsigned_part(text@),
            digits.len() == n - start,
            forall|k: int| 0 <= k < n ==> bytes@[k] as int == (#[trigger] text@[k]) as int,
            forall|k: int| 0 <= k < n - start ==> digits[k] == text@[k + start],
            forall|k: int| 0 <= k < i - start ==> is_digit(#[trigger] digits[k]),
            value == digits_value(digits.take(i - start)),
            value <= max,
        decreases n - i,
    {
        let b = bytes[i];
        assert(b as int == digits[i - start] as int);
        if b < 48 || b > 57 {
            assert(!is_digit(digits[i - start]));
            return None;
        }
        let next: u64 = value as u64 * 10 + (b - 48) as u64;
        assert(digits.take(i - start + 1).drop_last() =~= digits.take(i - start));
        assert(digits.take(i - start + 1).last() == digits[i - start]);
        assert(next == digits_value(digits.take(i - start + 1)));
        if next > max as u64 {
            proof {
                if forall|k: int| 0 <= k < digits.len() ==> is_digit(#[trigger] digits[k]) {
                    lemma_digits_value_grows(digits, i - start + 1);
                }
            }
            return None;
        }
        value = next as u32;
        i = i + 1;
    }
    assert(digits.take(i - start) =~= digits);
    Some(value)
}

/// Whether two texts are the same.
fn same_text(a: &str, b: &str) -> (r: bool)
    ensures
        r == (a@ == b@),
{
    let x = a.as_bytes();
    let y = b.as_bytes();
    if x.len() != y.len() {
        return false;
    }
    let mut i: usize = 0;
    while i < x.len()
        invariant
            i <= x.len(),
            x.len() == y.len(),
            x@ == a.spec_bytes(),
            y@ == b.spec_bytes(),
            forall|k: int| 0 <= k < i ==> x@[k] == y@[k],
        decreases x.len() - i,
    {
        if x[i] != y[i] {
            assert(x@[i as int] != y@[i as int]);
            return false;
        }
        i = i + 1;
    }
    proof {
        assert(x@ =~= y@);
        vstd::utf8::encode_utf8_decode_utf8(a@);
        vstd::utf8::encode_utf8_decode_utf8(b@);
    }
    true
}

/// The kind of transaction that a keyword names, with the amount that was
/// read for it. The keyword is matched letter for letter. A deposit and a
/// withdrawal need the amount; the other kinds ignore it.
pub open spec fn kind_named(keyword: Seq<char>, amount: Option<AmountView>) -> Result<
    KindView,
    ParseError,
> {
    if keyword == "deposit"@ {
        match amount {
            Some(amount) => Ok(KindView::Deposit { amount }),
            None => Err(ParseError::MissingDepositAmount),
        }
    } else if keyword == "withdrawal"@ {
        match amount {
            Some(amount) => Ok(KindView::Withdrawal { amount }),
            None => Err(ParseError::MissingWithdrawalAmount),
        }
    } else if keyword == "dispute"@ {
        Ok(KindView::Dispute)
    } else if keyword == "resolve"@ {
        Ok(KindView::Resolve)
    } else if keyword == "chargeback"@ {
        Ok(KindView::Chargeback)
    } else {
        Err(ParseError::InvalidType)
    }
}

/// The transaction that four fields stand for, each field given where the
/// record has it: the keyword of the kind, the client, the transaction
/// identifier, and the amount as far as it could be read. The first fault
/// found, in this order, decides the error.
pub open spec fn decoded(
    keyword: Option<Seq<char>>,
    client: Option<Seq<char>>,
    tx: Option<Seq<char>>,
    amount: Option<AmountView>,
) -> Result<TransactionView, ParseError> {
    if keyword is None {
        Err(ParseError::MissingType)
    } else if client is None {
        Err(ParseError::MissingAccountId)
    } else if parsed_number(client->0, u16::MAX as int) is None {
        Err(ParseError::InvalidAccountId)
    } else if tx is None {
        Err(ParseError::MissingTransactionId)
    } else if parsed_number(tx->0, u32::MAX as int) is None {
        Err(ParseError::InvalidTransactionId)
    } else {
        match kind_named(keyword->0, amount) {
            Ok(kind) => Ok(
                TransactionView {
                    tx_id: parsed_number(tx->0, u32::MAX as int)->0 as u32,
                    kind,
                    acc_id: parsed_number(client->0, u16::MAX as int)->0 as u16,
                },
            ),
            Err(e) => Err(e),
        }
    }
}

/// The value of a text that may be missing.
pub open spec fn text_view(text: Option<&str>) -> Option<Seq<char>> {
    match text {
        Some(t) => Some(t@),
        None => None,
    }
}

/// The value of an amount that may be missing.
pub open spec fn amount_view(amount: Option<Amount>) -> Option<AmountView> {
    match amount {
        Some(a) => Some(a@),
        None => None,
    }
}

/// The value of a decoded kind.
pub open spec fn kind_outcome(r: Result<TransactionKind, ParseError>) -> Result<
    KindView,
    ParseError,
> {
    match r {
        Ok(kind) => Ok(kind@),
        Err(e) => Err(e),
    }
}

/// The value of a decoded record.
pub open spec fn outcome(r: Result<Transaction, ParseError>) -> Result<
    TransactionView,
    ParseError,
> {
    match r {
        Ok(tx) => Ok(tx@),
        Err(e) => Err(e),
    }
}

/// The kind of transaction that `keyword` names, with `amount` the amount
/// that was read for it.
pub fn kind_from_keyword(keyword: &str, amount: Option<Amount>) -> (r: Result<
    TransactionKind,
    ParseError,
>)
    requires
        amount matches Some(a) ==> a.wf(),
    ensures
        kind_outcome(r) == kind_named(keyword@, amount_view(amount)),
        r matches Ok(kind) ==> kind.wf(),
{
    if same_text(keyword, "deposit") {
        match amount {
            Some(amount) => Ok(TransactionKind::Deposit { amount }),
            None => Err(ParseError::MissingDepositAmount),
        }
    } else if same_text(keyword, "withdrawal") {
        match amount {
            Some(amount) => Ok(TransactionKind::Withdrawal { amount }),
            None => Err(ParseError::MissingWithdrawalAmount),
        }
    } else if same_text(keyword, "dispute") {
        Ok(TransactionKind::Dispute)
    } else if same_text(keyword, "resolve") {
        Ok(TransactionKind::Resolve)
    } else if same_text(keyword, "chargeback") {
        Ok(TransactionKind::Chargeback)
    } else {
        Err(ParseError::InvalidType)
    }
}

/// Decodes a transaction from the fields of a record: the keyword of the
/// kind, the client, the transaction identifier, each as far as the record
/// has it, and the amount as far as it could be read.
pub fn decode(
    keyword: Option<&str>,
    client: Option<&str>,
    tx: Option<&str>,
    amount: Option<Amount>,
) -> (r: Result<Transaction, ParseError>)
    requires
        amount matches Some(a) ==> a.wf(),
    ensures
        outcome(r) == decoded(text_view(keyword), text_view(client), text_view(tx), amount_view(
            amount,
        )),
        r matches Ok(t) ==> t.wf(),
{
    let keyword = match keyword {
        Some(keyword) => keyword,
        None => {
            return Err(ParseError::MissingType);
        },
    };
    let client = match client {
        Some(client) => client,
        None => {
            return Err(ParseError::MissingAccountId);
        },
    };
    let acc_id = match parse_number(client, 0xffff) {
        Some(n) => n as u16,
        None => {
            return Err(ParseError::InvalidAccountId);
        },
    };
    let tx = match tx {
        Some(tx) => tx,
        None => {
            return Err(ParseError::MissingTransactionId);
        },
    };
    let tx_id = match parse_number(tx, 0xffff_ffff) {
        Some(n) => n,
        None => {
            return Err(ParseError::InvalidTransactionId);
        },
    };
    match kind_from_keyword(keyword, amount) {
        Ok(kind) => Ok(Transaction { tx_id, kind, acc_id }),
        Err(e) => Err(e),
    }
}

/// The amount that a field holds, as far as the record has the field and it
/// can be read.
pub open spec fn amount_read(field: Option<Seq<char>>) -> Option<AmountView> {
    match field {
        Some(text) => decimal_from_str(text),
        None => None,
    }
}

/// The field at index `i`, where there is one.
pub open spec fn field_at(fields: Seq<Seq<char>>, i: int) -> Option<Seq<char>> {
    if 0 <= i < fields.len() {
        Some(fields[i])
    } else {
        None
    }
}

/// The keyword of a record: its first field, trimmed.
pub open spec fn keyword_of(fields: Seq<Seq<char>>) -> Option<Seq<char>> {
    match field_at(fields, 0) {
        Some(text) => Some(trimmed(text)),
        None => None,
    }
}

/// Decodes one record. The first field is trimmed before it is matched; the
/// other fields are read as they stand. Fields after the fourth are ignored;
/// so is an amount that cannot be read, where the kind needs none.
pub fn parse(record: &csv::StringRecord) -> (r: Result<Transaction, ParseError>)
    ensures
        ({
            let fields = record_fields(*record);
            outcome(r) == decoded(
                keyword_of(fields),
                field_at(fields, 1),
                field_at(fields, 2),
                amount_read(field_at(fields, 3)),
            )
        }),
        r matches Ok(t) ==> t.wf(),
{
    let keyword = match record.get(0) {
        Some(text) => Some(text.trim()),
        None => None,
    };
    let amount = match record.get(3) {
        Some(text) => parse_decimal(text),
        None => None,
    };
    decode(keyword, record.get(1), record.get(2), amount)
}

} // verus!
