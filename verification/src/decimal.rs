//! Integers in decimal: reading the numeric ids of a request, and writing
//! ids out one per line.

use vstd::prelude::*;
use vstd::string::*;
use crate::database::id_values;
use crate::errors::UserError;

verus! {

/// Whether the character is a decimal digit.
pub open spec fn is_digit(c: char) -> bool {
    '0' <= c <= '9'
}

/// Whether the text is made of decimal digits only.
pub open spec fn all_digits(text: Seq<char>) -> bool {
    forall|i: int| 0 <= i < text.len() ==> is_digit(#[trigger] text[i])
}

/// The number that a text of decimal digits writes. The empty text writes 0.
pub open spec fn digits_value(digits: Seq<char>) -> int
    decreases digits.len(),
{
    if digits.len() == 0 {
        0
    } else {
        digits_value(digits.drop_last()) * 10 + (digits.last() as int - '0' as int)
    }
}

/// The integer that the text writes in decimal: an optional sign, `+` or
/// `-`, and then one digit or more, with nothing before, between or after.
pub open spec fn decimal(text: Seq<char>) -> Option<int> {
    let negative = text.len() > 0 && text[0] == '-';
    let signed = text.len() > 0 && (text[0] == '-' || text[0] == '+');
    let digits = if signed {
        text.drop_first()
    } else {
        text
    };
    if digits.len() > 0 && all_digits(digits) {
        Some(
            if negative {
                -digits_value(digits)
            } else {
                digits_value(digits)
            },
        )
    } else {
        None
    }
}

/// The integer that the text writes in decimal, if it lies between `min` and
/// `max`.
pub open spec fn decimal_within(text: Seq<char>, min: int, max: int) -> Option<int> {
    match decimal(text) {
        Some(value) if min <= value <= max => Some(value),
        _ => None,
    }
}

/// A text of digits writes a number that is not negative.
pub proof fn lemma_digits_value_nonnegative(digits: Seq<char>)
    requires
        all_digits(digits),
    ensures
        digits_value(digits) >= 0,
    decreases digits.len(),
{
    if digits.len() > 0 {
        assert(is_digit(digits.last()));
        lemma_digits_value_nonnegative(digits.drop_last());
    }
}

/// What the first `k` digits of a text of digits write is at most what the
/// whole text writes.
pub proof fn lemma_digits_value_grows(digits: Seq<char>, k: int)
    requires
        all_digits(digits),
        0 <= k <= digits.len(),
    ensures
        0 <= digits_value(digits.take(k)) <= digits_value(digits),
    decreases digits.len() - k,
{
    lemma_digits_value_nonnegative(digits.take(k));
    if k == digits.len() {
        assert(digits.take(k) =~= digits);
    } else {
        lemma_digits_value_grows(digits, k + 1);
        assert(digits.take(k + 1).drop_last() =~= digits.take(k));
        assert(is_digit(digits.take(k + 1).last()));
    }
}

/// Reads a decimal integer between `min` and `max`.
#[verifier::loop_isolation(false)]
fn parse_decimal(text: &str, min: i64, max: i64) -> (value: Option<i64>)
    requires
        min <= 0 <= max,
    ensures
        match value {
            Some(v) => decimal_within(text@, min as int, max as int) == Some(v as int),
            None => decimal_within(text@, min as int, max as int) is None,
        },
{
    let ghost signed = text@.len() > 0 && (text@[0] == '-' || text@[0] == '+');
    let ghost digits = if signed {
        text@.drop_first()
    } else {
        text@
    };
    if !text.is_ascii() {
        proof {
            let i = choose|i: int|
                0 <= i < text@.len() && !('\0' <= #[trigger] text@[i] <= '\u{7f}');
            if signed {
                assert(!is_digit(digits[i - 1]));
            } else {
                assert(!is_digit(digits[i]));
            }
        }
        return None;
    }
    let bytes = text.as_bytes();
    let n = bytes.len();
    proof {
        is_ascii_spec_bytes(text);
    }
    if n == 0 {
        return None;
    }
    let negative = bytes[0] == 45;
    let start: usize = if negative || bytes[0] == 43 {
        1
    } else {
        0
    };
    if start == n {
        return None;
    }
    let limit: i128 = if negative {
        -(min as i128)
    } else {
        max as i128
    };
    let mut total: i128 = 0;
    let mut i: usize = start;
    assert(digits.take(0) =~= Seq::empty());
    while i < n
        invariant
            start <= i <= n,
            all_digits(digits.take(i - start)),
            total == digits_value(digits.take(i - start)),
            0 <= total <= limit,
        decreases n - i,
    {
        let b = bytes[i];
        if b < 48 || b > 57 {
            assert(!is_digit(digits[i - start]));
            return None;
        }
        let ghost k = i - start;
        proof {
            assert(digits.take(k + 1).drop_last() =~= digits.take(k));
            assert(digits.take(k + 1).last() == digits[k]);
            assert(is_digit(digits[k]));
        }
        total = total * 10 + (b - 48) as i128;
        if total > limit {
            proof {
                if all_digits(digits) {
                    lemma_digits_value_grows(digits, k + 1);
                }
            }
            return None;
        }
        i += 1;
    }
    assert(digits.take(n - start) =~= digits);
    if negative {
        Some((-total) as i64)
    } else {
        Some(total as i64)
    }
}

/// Reads the id of a user from a path segment. A segment that does not
/// write an integer of 64 bits in decimal is a bad request.
pub fn parse_user_id(text: &str) -> (id: Result<i64, UserError>)
    ensures
        match id {
            Ok(v) => decimal_within(text@, i64::MIN as int, i64::MAX as int) == Some(v as int),
            Err(e) => e == UserError::BadRequest && decimal_within(
                text@,
                i64::MIN as int,
                i64::MAX as int,
            ) is None,
        },
{
    match parse_decimal(text, i64::MIN, i64::MAX) {
        Some(v) => Ok(v),
        None => Err(UserError::BadRequest),
    }
}

/// Reads the id of a token from a path segment. A segment that does not
/// write an integer of 32 bits in decimal is a bad request.
pub fn parse_token_id(text: &str) -> (id: Result<i32, UserError>)
    ensures
        match id {
            Ok(v) => decimal_within(text@, i32::MIN as int, i32::MAX as int) == Some(v as int),
            Err(e) => e == UserError::BadRequest && decimal_within(
                text@,
                i32::MIN as int,
                i32::MAX as int,
            ) is None,
        },
{
    match parse_decimal(text, i32::MIN as i64, i32::MAX as i64) {
        Some(v) => Ok(v as i32),
        None => Err(UserError::BadRequest),
    }
}

/// The character that writes a digit.
pub open spec fn digit_char(d: int) -> char {
    if d == 0 {
        '0'
    } else if d == 1 {
        '1'
    } else if d == 2 {
        '2'
    } else if d == 3 {
        '3'
    } else if d == 4 {
        '4'
    } else if d == 5 {
        '5'
    } else if d == 6 {
        '6'
    } else if d == 7 {
        '7'
    } else if d == 8 {
        '8'
    } else {
        '9'
    }
}

/// A natural number in decimal, without leading zeros.
pub open spec fn digits_text(n: nat) -> Seq<char>
    decreases n,
{
    if n < 10 {
        seq![digit_char(n as int)]
    } else {
        digits_text(n / 10).push(digit_char((n % 10) as int))
    }
}

/// An integer in decimal: a minus sign if it is negative, then its
/// magnitude without leading zeros.
pub open spec fn decimal_text(value: int) -> Seq<char> {
    if value < 0 {
        seq!['-'] + digits_text((-value) as nat)
    } else {
        digits_text(value as nat)
    }
}

/// The integers in decimal, one per line: a line feed stands between two of
/// them, and none at the end.
pub open spec fn decimal_lines(values: Seq<int>) -> Seq<char>
    decreases values.len(),
{
    if values.len() == 0 {
        Seq::empty()
    } else if values.len() == 1 {
        decimal_text(values[0])
    } else {
        decimal_lines(values.drop_last()) + seq!['\n'] + decimal_text(values.last())
    }
}

/// The decimal text of a natural number is made of digits and writes that
/// number.
pub proof fn lemma_digits_text_reads_back(n: nat)
    ensures
        digits_text(n).len() > 0,
        all_digits(digits_text(n)),
        digits_value(digits_text(n)) == n,
    decreases n,
{
    if n < 10 {
        assert(digits_text(n).drop_last() =~= Seq::<char>::empty());
        assert(digits_value(Seq::<char>::empty()) == 0);
    } else {
        lemma_digits_text_reads_back(n / 10);
        assert(digits_text(n).drop_last() =~= digits_text(n / 10));
    }
}

/// Every integer reads back from its decimal text.
pub proof fn lemma_decimal_reads_back(value: int)
    ensures
        decimal(decimal_text(value)) == Some(value),
{
    if value < 0 {
        lemma_digits_text_reads_back((-value) as nat);
        assert(decimal_text(value).drop_first() =~= digits_text((-value) as nat));
    } else {
        lemma_digits_text_reads_back(value as nat);
        assert(is_digit(digits_text(value as nat)[0]));
    }
}

/// The text of one digit.
fn digit_text(d: u8) -> (text: &'static str)
    requires
        d < 10,
    ensures
        text@ == seq![digit_char(d as int)],
{
    proof {
        reveal_strlit("0");
        reveal_strlit("1");
        reveal_strlit("2");
        reveal_strlit("3");
        reveal_strlit("4");
        reveal_strlit("5");
        reveal_strlit("6");
        reveal_strlit("7");
        reveal_strlit("8");
        reveal_strlit("9");
    }
    let text = if d == 0 {
        "0"
    } else if d == 1 {
        "1"
    } else if d == 2 {
        "2"
    } else if d == 3 {
        "3"
    } else if d == 4 {
        "4"
    } else if d == 5 {
        "5"
    } else if d == 6 {
        "6"
    } else if d == 7 {
        "7"
    } else if d == 8 {
        "8"
    } else {
        "9"
    };
    assert(text@ =~= seq![digit_char(d as int)]);
    text
}

/// Appends a natural number in decimal.
fn push_digits(out: &mut String, n: u64)
    ensures
        final(out)@ == old(out)@ + digits_text(n as nat),
    decreases n,
{
    if n >= 10 {
        push_digits(out, n / 10);
    }
    out.append(digit_text((n % 10) as u8));
    assert(out@ =~= old(out)@ + digits_text(n as nat));
}

/// Appends an integer in decimal.
fn push_decimal(out: &mut String, value: i64)
    ensures
        final(out)@ == old(out)@ + decimal_text(value as int),
{
    if value < 0 {
        proof {
            reveal_strlit("-");
        }
        out.append("-");
        push_digits(out, (-(value as i128)) as u64);
        assert(out@ =~= old(out)@ + decimal_text(value as int));
    } else {
        push_digits(out, value as u64);
    }
}

/// Writes the ids in decimal, one per line.
pub fn join_ids(ids: &Vec<i64>) -> (text: String)
    ensures
        text@ == decimal_lines(id_values(ids@)),
{
    let ghost values = id_values(ids@);
    let mut text = String::new();
    let mut i: usize = 0;
    while i < ids.len()
        invariant
            i <= ids.len(),
            values == id_values(ids@),
            text@ == decimal_lines(values.take(i as int)),
        decreases ids.len() - i,
    {
        if i > 0 {
            proof {
                reveal_strlit("\n");
            }
            text.append("\n");
        }
        push_decimal(&mut text, ids[i]);
        proof {
            let next = values.take(i + 1);
            assert(next.drop_last() =~= values.take(i as int));
            assert(next.last() == ids@[i as int] as int);
            assert(text@ =~= decimal_lines(next));
        }
        i += 1;
    }
    assert(values.take(i as int) =~= values);
    text
}

} // verus!
