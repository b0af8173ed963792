//! The text form of values, and the helpers on text that the store needs.

use vstd::prelude::*;
use vstd::string::StringExecFns;
use vstd::string::StrSliceExecFns;
use crate::entity::{Value, ValueView};
use crate::layout::{join, joined};
use crate::nebula::{find_char, index_of};

verus! {

/// The hexadecimal digit for a number below 16, in lower case.
pub open spec fn hex_digit(n: int) -> char {
    "0123456789abcdef"@[n]
}

/// The bytes in hexadecimal, two digits in lower case for each byte.
pub open spec fn hex_text(bytes: Seq<u8>) -> Seq<char> {
    Seq::new(
        2 * bytes.len(),
        |i: int|
            if i % 2 == 0 {
                hex_digit(bytes[i / 2] as int / 16)
            } else {
                hex_digit(bytes[i / 2] as int % 16)
            },
    )
}

/// Writes bytes in hexadecimal with `hex::encode`: it encodes each byte as
/// two digits, the high half first, and uses lower case.
#[verifier::external_body]
pub(crate) fn hex_encode(bytes: &Vec<u8>) -> (res: String)
    ensures
        res@ == hex_text(bytes@),
{
    hex::encode(bytes)
}

/// The character of the decimal digit `d`.
pub open spec fn digit_char(d: int) -> char {
    ((48 + d) as u8) as char
}

/// The digits of a natural number in decimal, without leading zeros.
pub open spec fn nat_text(n: nat) -> Seq<char>
    decreases n,
{
    if n < 10 {
        seq![digit_char(n as int)]
    } else {
        nat_text(n / 10).push(digit_char((n % 10) as int))
    }
}

/// A number in decimal, with a minus sign before it where it is negative.
pub open spec fn decimal_text(number: i32) -> Seq<char> {
    if number < 0 {
        seq!['-'] + nat_text((-number) as nat)
    } else {
        nat_text(number as nat)
    }
}

/// The text of one decimal digit.
fn digit_text(d: u32) -> (res: &'static str)
    requires
        d < 10,
    ensures
        res@ == seq![digit_char(d as int)],
{
    proof {
        reveal_strlit("0");
        reveal_strlit("1");
        reveal_strlit("2");
        reveal_strlit("3");
        reveal_strlit("4");
        reveal_strlit("5");
        reveal_strlit("6");
        reveal_strlit("7");
        reveal_strlit("8");
        reveal_strlit("9");
    }
    let res = if d == 0 {
        "0"
    } else if d == 1 {
        "1"
    } else if d == 2 {
        "2"
    } else if d == 3 {
        "3"
    } else if d == 4 {
        "4"
    } else if d == 5 {
        "5"
    } else if d == 6 {
        "6"
    } else if d == 7 {
        "7"
    } else if d == 8 {
        "8"
    } else {
        "9"
    };
    assert(res@ =~= seq![digit_char(d as int)]);
    res
}

/// Writes a natural number in decimal.
fn natural(n: u32) -> (res: String)
    ensures
        res@ == nat_text(n as nat),
    decreases n,
{
    if n < 10 {
        String::from_str(digit_text(n))
    } else {
        let mut res = natural(n / 10);
        res.append(digit_text(n % 10));
        assert(res@ =~= nat_text((n / 10) as nat).push(digit_char((n % 10) as int)));
        res
    }
}

/// Writes a number in decimal.
pub fn decimal(number: i32) -> (res: String)
    ensures
        res@ == decimal_text(number),
{
    if number < 0 {
        let magnitude: u32 = (-(number as i64)) as u32;
        let mut res = String::from_str("-");
        let digits = natural(magnitude);
        res.append(digits.as_str());
        proof {
            reveal_strlit("-");
            assert("-"@ =~= seq!['-']);
        }
        res
    } else {
        natural(number as u32)
    }
}

/// Whether the character is a decimal digit.
pub open spec fn is_digit(c: char) -> bool {
    '0' <= c && c <= '9'
}

/// The number that the first `n` characters of a text of digits stand for.
pub open spec fn digits_value(digits: Seq<char>, n: int) -> int
    decreases n,
{
    if n <= 0 {
        0
    } else {
        digits_value(digits, n - 1) * 10 + (digits[n - 1] as u32 - 48)
    }
}

/// Whether the text begins with a sign.
pub open spec fn is_signed(text: Seq<char>) -> bool {
    text.len() > 0 && (text[0] == '-' || text[0] == '+')
}

/// The text after its sign.
pub open spec fn unsigned_part(text: Seq<char>) -> Seq<char> {
    if is_signed(text) {
        text.skip(1)
    } else {
        text
    }
}

/// The number that a text stands for: an optional sign and then one or
/// more decimal digits whose number, with the sign, fits into 32 bits. Any
/// other text stands for no number.
pub open spec fn parsed_i32(text: Seq<char>) -> Option<i32> {
    let digits = unsigned_part(text);
    let magnitude = digits_value(digits, digits.len() as int);
    let value = if text.len() > 0 && text[0] == '-' {
        -magnitude
    } else {
        magnitude
    };
    if digits.len() > 0 && (forall|i: int| 0 <= i < digits.len() ==> is_digit(#[trigger] digits[i]))
        && i32::MIN <= value <= i32::MAX {
        Some(value as i32)
    } else {
        None
    }
}

proof fn lemma_digits_value_positive(digits: Seq<char>, n: int)
    requires
        0 <= n <= digits.len(),
        forall|i: int| 0 <= i < digits.len() ==> is_digit(#[trigger] digits[i]),
    ensures
        0 <= digits_value(digits, n),
    decreases n,
{
    if n > 0 {
        lemma_digits_value_positive(digits, n - 1);
        assert(is_digit(digits[n - 1]));
    }
}

proof fn lemma_digits_value_grows(digits: Seq<char>, k: int, n: int)
    requires
        0 <= k <= n <= digits.len(),
        forall|i: int| 0 <= i < digits.len() ==> is_digit(#[trigger] digits[i]),
    ensures
        0 <= digits_value(digits, k) <= digits_value(digits, n),
    decreases n - k,
{
    lemma_digits_value_positive(digits, k);
    if k < n {
        lemma_digits_value_grows(digits, k, n - 1);
        assert(is_digit(digits[n - 1]));
    }
}

/// Reads a number from a text, if the text stands for one.
pub fn read_i32(text: &str) -> (res: Option<i32>)
    ensures
        res == parsed_i32(text@),
{
    let len = text.unicode_len();
    if len == 0 {
        return None;
    }
    let first = text.get_char(0);
    let negative = first == '-';
    let start: usize = if first == '-' || first == '+' {
        1
    } else {
        0
    };
    let ghost digits = unsigned_part(text@);
    if start >= len {
        return None;
    }
    let mut magnitude: i64 = 0;
    let mut i: usize = start;
    while i < len
        invariant
            start <= i <= len,
            len == text@.len(),
            start == (if is_signed(text@) {
                1int
            } else {
                0int
            }),
            digits == unsigned_part(text@),
            digits.len() == len - start,
            forall|j: int| 0 <= j < i - start ==> is_digit(#[trigger] digits[j]),
            magnitude == digits_value(digits, i - start),
            0 <= magnitude <= 2147483648,
        decreases len - i,
    {
        let c = text.get_char(i);
        assert(digits[i - start] == c);
        if !(c >= '0' && c <= '9') {
            return None;
        }
        let digit: i64 = (c as u32 - 48) as i64;
        magnitude = magnitude * 10 + digit;
        i = i + 1;
        if magnitude > 2147483648 {
            proof {
                if forall|j: int| 0 <= j < digits.len() ==> is_digit(#[trigger] digits[j]) {
                    lemma_digits_value_grows(digits, i - start, digits.len() as int);
                }
            }
            return None;
        }
    }
    let value: i64 = if negative {
        -magnitude
    } else {
        magnitude
    };
    if value > 2147483647 {
        None
    } else {
        Some(value as i32)
    }
}

/// The text form of a value: a string, a decimal number or a big integer
/// as it is; an integer in decimal; bytes in hexadecimal after `0x`; a list
/// in square brackets, with a comma and a space between its elements.
pub open spec fn value_text(value: ValueView) -> Seq<char> {
    match value {
        ValueView::String(s) => s,
        ValueView::Int(i) => decimal_text(i),
        ValueView::BigDecimal(d) => d,
        ValueView::Bool(b) => if b {
            "true"@
        } else {
            "false"@
        },
        ValueView::List(l) => "["@ + joined(l, ", "@, l.len() as int) + "]"@,
        ValueView::Null => "null"@,
        ValueView::Bytes(b) => "0x"@ + hex_text(b),
        ValueView::BigInt(n) => n,
    }
}

impl Value {
    /// The text form of the value.
    pub fn to_text(&self) -> (res: String)
        ensures
            res@ == value_text(self@),
    {
        match self {
            Value::String(s) => s.clone(),
            Value::Int(i) => decimal(*i),
            Value::BigDecimal(d) => d.clone(),
            Value::Bool(b) => if *b {
                String::from_str("true")
            } else {
                String::from_str("false")
            },
            Value::List(l) => {
                let mut res = String::from_str("[");
                let inner = join(l, ", ");
                res.append(inner.as_str());
                res.append("]");
                res
            },
            Value::Null => String::from_str("null"),
            Value::Bytes(b) => {
                let mut res = String::from_str("0x");
                let digits = hex_encode(b);
                res.append(digits.as_str());
                res
            },
            Value::BigInt(n) => n.clone(),
        }
    }
}

/// The text from position `from` on, without its double quotes.
pub open spec fn unquoted_from(text: Seq<char>, from: int) -> Seq<char>
    decreases text.len() - from,
{
    if from < 0 || from >= text.len() {
        Seq::empty()
    } else {
        let quote = index_of(text, '"', from);
        if from <= quote < text.len() {
            text.subrange(from, quote) + unquoted_from(text, quote + 1)
        } else {
            text.subrange(from, text.len() as int)
        }
    }
}

/// The text without its double quotes.
pub open spec fn unquoted(text: Seq<char>) -> Seq<char> {
    unquoted_from(text, 0)
}

/// The text without its double quotes.
pub fn without_quotes(text: &str) -> (res: String)
    ensures
        res@ == unquoted(text@),
{
    let len = text.unicode_len();
    let mut res = String::new();
    let mut pos: usize = 0;
    while pos < len
        invariant
            pos <= len,
            len == text@.len(),
            unquoted(text@) == res@ + unquoted_from(text@, pos as int),
        decreases len - pos,
    {
        let quote = find_char(text, '"', pos);
        let ghost before = res@;
        res.append(text.substring_char(pos, quote));
        if quote < len {
            proof {
                assert(before + (text@.subrange(pos as int, quote as int) + unquoted_from(
                    text@,
                    quote + 1,
                )) =~= res@ + unquoted_from(text@, quote + 1));
            }
            pos = quote + 1;
        } else {
            proof {
                assert(before + text@.subrange(pos as int, len as int) =~= res@
                    + Seq::<char>::empty());
            }
            pos = len;
        }
    }
    assert(res@ + Seq::<char>::empty() =~= res@);
    res
}

} // verus!
