//! What can go wrong between a client, the proxy and a Modbus device.

use vstd::prelude::*;

verus! {

/// A failure on the way of a request or of its reply.
#[derive(Debug)]
pub enum Error {
    /// A request was to be written while no backend connection is open.
    NotConnected,
    /// The backend did not reply in time.
    Timeout,
    /// The backend's reply carries another transaction ID than the request.
    TransactionIdMismatch {
        /// The first two bytes of the request.
        expected: (u8, u8),
        /// The first two bytes of the reply.
        got: (u8, u8),
    },
    /// A socket or a channel failed, with the text that it gave.
    Outside(String),
}

/// The character of a decimal digit.
pub open spec fn digit(n: nat) -> char
    recommends
        n < 10,
{
    (48 + n) as char
}

/// `n` in decimal, without leading zeros.
pub open spec fn decimal(n: nat) -> Seq<char>
    decreases n,
{
    if n < 10 {
        seq![digit(n)]
    } else {
        decimal(n / 10).push(digit(n % 10))
    }
}

/// A transaction ID as a list of its two bytes.
pub open spec fn id_text(id: (u8, u8)) -> Seq<char> {
    "["@ + decimal(id.0 as nat) + ", "@ + decimal(id.1 as nat) + "]"@
}

impl Error {
    /// The text of an error.
    pub open spec fn text(self) -> Seq<char> {
        match self {
            Error::NotConnected => "no modbus connection"@,
            Error::Timeout => "deadline has elapsed"@,
            Error::TransactionIdMismatch { expected, got } => {
                "transaction ID mismatch: expected "@ + id_text(expected) + ", got "@ + id_text(got)
            },
            Error::Outside(text) => text@,
        }
    }

    /// Describes the error for a log or a caller.
    pub fn message(&self) -> (text: String)
        ensures
            text@ == self.text(),
    {
        match self {
            Error::NotConnected => "no modbus connection".to_owned(),
            Error::Timeout => "deadline has elapsed".to_owned(),
            Error::TransactionIdMismatch { expected, got } => {
                let mut text = "transaction ID mismatch: expected ".to_owned();
                push_id(&mut text, *expected);
                text.append(", got ");
                push_id(&mut text, *got);
                proof {
                    assert(text@ =~= self.text());
                }
                text
            },
            Error::Outside(text) => text.clone(),
        }
    }
}

/// Appends a transaction ID to a text.
fn push_id(text: &mut String, id: (u8, u8))
    ensures
        final(text)@ == old(text)@ + id_text(id),
{
    text.append("[");
    push_decimal(text, id.0);
    text.append(", ");
    push_decimal(text, id.1);
    text.append("]");
    proof {
        assert(text@ =~= old(text)@ + id_text(id));
    }
}

/// Appends a byte, in decimal, to a text.
fn push_decimal(text: &mut String, byte: u8)
    ensures
        final(text)@ == old(text)@ + decimal(byte as nat),
{
    proof {
        reveal_with_fuel(decimal, 3);
    }
    if byte >= 100 {
        push_digit(text, byte / 100);
    }
    if byte >= 10 {
        push_digit(text, byte / 10 % 10);
    }
    push_digit(text, byte % 10);
    proof {
        assert(text@ =~= old(text)@ + decimal(byte as nat));
    }
}

/// Appends one digit to a text.
fn push_digit(text: &mut String, n: u8)
    requires
        n < 10,
    ensures
        final(text)@ == old(text)@.push(digit(n as nat)),
{
    proof {
        reveal_strlit("0");
        reveal_strlit("1");
        reveal_strlit("2");
        reveal_strlit("3");
        reveal_strlit("4");
        reveal_strlit("5");
        reveal_strlit("6");
        reveal_strlit("7");
        reveal_strlit("8");
        reveal_strlit("9");
    }
    let symbol = match n {
        0 => "0",
        1 => "1",
        2 => "2",
        3 => "3",
        4 => "4",
        5 => "5",
        6 => "6",
        7 => "7",
        8 => "8",
        _ => "9",
    };
    text.append(symbol);
    proof {
        assert(text@ =~= old(text)@.push(digit(n as nat)));
    }
}

/// The number that decimal digits stand for.
pub open spec fn value(text: Seq<char>) -> int
    decreases text.len(),
{
    if text.len() == 0 {
        0
    } else {
        10 * value(text.drop_last()) + (text.last() as int - '0' as int)
    }
}

/// Whether `text` is how one writes `n` in decimal: digits only, no zero in
/// front of another digit, and of that value.
pub open spec fn is_numeral(text: Seq<char>, n: int) -> bool {
    &&& text.len() > 0
    &&& forall|i: int| 0 <= i < text.len() ==> '0' <= #[trigger] text[i] && text[i] <= '9'
    &&& text[0] == '0' ==> text.len() == 1
    &&& value(text) == n
}

/// Digits of which the first is not zero have a positive value.
proof fn lemma_value_is_positive(text: Seq<char>)
    requires
        text.len() > 0,
        forall|i: int| 0 <= i < text.len() ==> '0' <= #[trigger] text[i] && text[i] <= '9',
        text[0] != '0',
    ensures
        value(text) > 0,
    decreases text.len(),
{
    assert(value(text) == 10 * value(text.drop_last()) + (text.last() as int - '0' as int));
    if text.len() == 1 {
        assert(value(text.drop_last()) == 0);
    } else {
        assert forall|i: int| 0 <= i < text.drop_last().len() implies '0'
            <= #[trigger] text.drop_last()[i] && text.drop_last()[i] <= '9' by {
            assert(text.drop_last()[i] == text[i]);
        }
        lemma_value_is_positive(text.drop_last());
    }
}

/// There is one way to write a number in decimal.
proof fn lemma_numeral(text: Seq<char>, n: nat)
    requires
        is_numeral(text, n as int),
    ensures
        text == decimal(n),
    decreases text.len(),
{
    let front = text.drop_last();
    let last = (text.last() as int - '0' as int) as nat;
    assert(text.last() == digit(last));
    if text.len() == 1 {
        assert(value(front) == 0);
        assert(text =~= seq![digit(n)]);
    } else {
        assert forall|i: int| 0 <= i < front.len() implies '0' <= #[trigger] front[i] && front[i]
            <= '9' by {
            assert(front[i] == text[i]);
        }
        lemma_value_is_positive(front);
        assert(n / 10 == value(front) && n % 10 == last);
        lemma_numeral(front, n / 10);
        assert(text =~= decimal(n / 10).push(digit(n % 10)));
    }
}

/// The text of a mismatch lists, in decimal, the bytes of both IDs: those of
/// the request first.
pub proof fn law_mismatch_lists_both_ids(
    expected: (u8, u8),
    got: (u8, u8),
    numerals: (Seq<char>, Seq<char>, Seq<char>, Seq<char>),
    text: String,
)
    requires
        is_numeral(numerals.0, expected.0 as int),
        is_numeral(numerals.1, expected.1 as int),
        is_numeral(numerals.2, got.0 as int),
        is_numeral(numerals.3, got.1 as int),
        call_ensures(
            Error::message,
            (&Error::TransactionIdMismatch { expected, got },),
            text,
        ),
    ensures
        text@ == "transaction ID mismatch: expected ["@ + numerals.0 + ", "@ + numerals.1
            + "], got ["@ + numerals.2 + ", "@ + numerals.3 + "]"@,
{
    lemma_numeral(numerals.0, expected.0 as nat);
    lemma_numeral(numerals.1, expected.1 as nat);
    lemma_numeral(numerals.2, got.0 as nat);
    lemma_numeral(numerals.3, got.1 as nat);
    reveal_strlit("transaction ID mismatch: expected [");
    reveal_strlit("transaction ID mismatch: expected ");
    reveal_strlit("], got [");
    reveal_strlit(", got ");
    reveal_strlit("[");
    reveal_strlit("]");
    assert("transaction ID mismatch: expected "@ + "["@
        =~= "transaction ID mismatch: expected ["@);
    assert("]"@ + ", got "@ + "["@ =~= "], got ["@);
    assert(text@ =~= "transaction ID mismatch: expected "@ + "["@ + numerals.0 + ", "@ + numerals.1
        + ("]"@ + ", got "@ + "["@) + numerals.2 + ", "@ + numerals.3 + "]"@);
}

/// Every byte has a numeral, so the text of every mismatch is known.
pub proof fn law_every_byte_has_a_numeral(byte: u8)
    ensures
        exists|text: Seq<char>| is_numeral(text, byte as int),
{
    let b = byte as nat;
    let ones = digit(b % 10);
    let tens = digit(b / 10 % 10);
    let hundreds = digit(b / 100);
    let text = if b < 10 {
        seq![ones]
    } else if b < 100 {
        seq![tens, ones]
    } else {
        seq![hundreds, tens, ones]
    };
    reveal_with_fuel(value, 4);
    assert(is_numeral(text, byte as int));
}

/// A failure of a socket or a channel keeps the text that it came with. A
/// missing connection and a late reply have texts of their own.
pub proof fn law_texts_are_kept(error: Error, text: String)
    requires
        call_ensures(Error::message, (&error,), text),
    ensures
        error matches Error::Outside(given) ==> text@ == given@,
        error is NotConnected ==> text@ == "no modbus connection"@,
        error is Timeout ==> text@ == "deadline has elapsed"@,
        call_requires(Error::message, (&error,)),
{
}

} // verus!
