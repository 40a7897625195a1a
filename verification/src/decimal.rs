//! Decimal numbers: their text and their value.

use crate::text::to_chars;
use vstd::prelude::*;
use vstd::string::*;

verus! {

/// Whether `c` is one of the ten ASCII digits.
pub open spec fn is_decimal_digit(c: char) -> bool {
    '0' <= c <= '9'
}

/// The value of the digit `c`.
pub open spec fn digit_value(c: char) -> nat {
    (c as int - '0' as int) as nat
}

/// The digit whose value is `d`.
pub open spec fn digit_char(d: nat) -> char {
    (d + '0' as nat) as char
}

/// Whether `s` holds ASCII digits only.
pub open spec fn all_digits(s: Seq<char>) -> bool {
    forall|i: int| 0 <= i < s.len() ==> is_decimal_digit(#[trigger] s[i])
}

/// The number that the digits denote in base ten; 0 for no digits.
pub open spec fn decimal_value(digits: Seq<char>) -> nat
    decreases digits.len(),
{
    if digits.len() == 0 {
        0
    } else {
        decimal_value(digits.drop_last()) * 10 + digit_value(digits.last())
    }
}

/// The shortest decimal text of `n`.
pub open spec fn decimal_text(n: nat) -> Seq<char>
    decreases n,
{
    if n < 10 {
        seq![digit_char(n)]
    } else {
        decimal_text(n / 10).push(digit_char(n % 10))
    }
}

/// The byte that `digits` denote: one or more ASCII digits whose value is at
/// most 255. Anything else denotes no byte.
pub open spec fn digits_u8(digits: Seq<char>) -> Option<u8> {
    if digits.len() > 0 && all_digits(digits) && decimal_value(digits) <= 255 {
        Some(decimal_value(digits) as u8)
    } else {
        None
    }
}

/// The byte that `text` denotes: an optional `+`, then digits that denote a
/// byte. Leading zeros are allowed; spaces, a `-` or a second sign are not.
pub open spec fn parsed_u8(text: Seq<char>) -> Option<u8> {
    if text.len() > 0 && text[0] == '+' {
        digits_u8(text.skip(1))
    } else {
        digits_u8(text)
    }
}

/// The value of a prefix of a digit string is at most the value of the whole.
pub proof fn lemma_decimal_value_prefix(digits: Seq<char>, k: int)
    requires
        0 <= k <= digits.len(),
    ensures
        decimal_value(digits.take(k)) <= decimal_value(digits),
    decreases digits.len() - k,
{
    if k < digits.len() {
        lemma_decimal_value_prefix(digits, k + 1);
        assert(digits.take(k + 1).drop_last() =~= digits.take(k));
    } else {
        assert(digits.take(k) =~= digits);
    }
}

/// The decimal text of a number is made of digits, is not empty, and denotes
/// the number.
pub proof fn lemma_decimal_text(n: nat)
    ensures
        decimal_text(n).len() >= 1,
        all_digits(decimal_text(n)),
        decimal_value(decimal_text(n)) == n,
    decreases n,
{
    if n < 10 {
        let t = decimal_text(n);
        assert(t.drop_last() =~= Seq::<char>::empty());
        assert(decimal_value(t.drop_last()) == 0);
    } else {
        lemma_decimal_text(n / 10);
        let t = decimal_text(n);
        assert(t.drop_last() =~= decimal_text(n / 10));
        assert(t.last() == digit_char(n % 10));
    }
}

/// The decimal text of a byte denotes that byte.
pub proof fn lemma_parsed_decimal_text(n: u8)
    ensures
        parsed_u8(decimal_text(n as nat)) == Some(n),
{
    lemma_decimal_text(n as nat);
    assert(is_decimal_digit(decimal_text(n as nat)[0]));
}

/// Reads the number that `text[from..to]` denotes.
pub(crate) fn chars_to_u8(text: &[char], from: usize, to: usize) -> (number: Option<u8>)
    requires
        from <= to <= text@.len(),
    ensures
        number == parsed_u8(text@.subrange(from as int, to as int)),
{
    let ghost whole = text@.subrange(from as int, to as int);
    let mut i = from;
    if i < to && text[i] == '+' {
        i += 1;
    }
    let first = i;
    let ghost digits = text@.subrange(first as int, to as int);
    assert(digits =~= if whole.len() > 0 && whole[0] == '+' {
        whole.skip(1)
    } else {
        whole
    });
    assert(parsed_u8(whole) == digits_u8(digits));
    if i == to {
        return None;
    }
    let mut value: u16 = 0;
    while i < to
        invariant
            from <= first <= i <= to <= text@.len(),
            digits == text@.subrange(first as int, to as int),
            parsed_u8(text@.subrange(from as int, to as int)) == digits_u8(digits),
            all_digits(digits.take(i - first)),
            value == decimal_value(digits.take(i - first)),
            value <= 255,
        decreases to - i,
    {
        let c = text[i];
        assert(c == digits[i - first]);
        if c < '0' || c > '9' {
            return None;
        }
        let d: u16 = (c as u32 - '0' as u32) as u16;
        value = value * 10 + d;
        proof {
            let longer = digits.take(i - first + 1);
            assert(longer.drop_last() =~= digits.take(i - first));
            assert(longer.last() == c);
            assert forall|j: int| 0 <= j < longer.len() implies is_decimal_digit(
                #[trigger] longer[j],
            ) by {
                if j < i - first {
                    assert(longer[j] == digits.take(i - first)[j]);
                }
            }
        }
        if value > 255 {
            proof {
                lemma_decimal_value_prefix(digits, i - first + 1);
            }
            return None;
        }
        i += 1;
    }
    assert(digits.take(i - first) =~= digits);
    Some(value as u8)
}

/// Converts decimal text into a byte.
///
/// Succeeds exactly on the texts to which [`parsed_u8`] gives a value, and
/// otherwise fails with the message `Error parsing integer`.
pub fn str_to_u8(s: &str) -> (result: Result<u8, &'static str>)
    ensures
        match result {
            Ok(number) => parsed_u8(s@) == Some(number),
            Err(message) => parsed_u8(s@) is None && message@ == "Error parsing integer"@,
        },
{
    let text = to_chars(s);
    assert(text@.subrange(0, text@.len() as int) =~= s@);
    match chars_to_u8(text.as_slice(), 0, text.len()) {
        Some(number) => Ok(number),
        None => Err("Error parsing integer"),
    }
}

/// The digit `d` as text.
fn digit_str(d: u8) -> (text: &'static str)
    requires
        d < 10,
    ensures
        text@ == seq![digit_char(d as nat)],
{
    proof {
        reveal_strlit("0");
        reveal_strlit("1");
        reveal_strlit("2");
        reveal_strlit("3");
        reveal_strlit("4");
        reveal_strlit("5");
        reveal_strlit("6");
        reveal_strlit("7");
        reveal_strlit("8");
        reveal_strlit("9");
    }
    let text = match d {
        0 => "0",
        1 => "1",
        2 => "2",
        3 => "3",
        4 => "4",
        5 => "5",
        6 => "6",
        7 => "7",
        8 => "8",
        _ => "9",
    };
    assert(text@ =~= seq![digit_char(d as nat)]);
    text
}

/// Appends the decimal text of `n` to `out`.
pub fn push_decimal(out: &mut String, n: usize)
    ensures
        final(out)@ == old(out)@ + decimal_text(n as nat),
    decreases n,
{
    if n >= 10 {
        push_decimal(out, n / 10);
    }
    out.append(digit_str((n % 10) as u8));
    assert(final(out)@ =~= old(out)@ + decimal_text(n as nat));
}

} // verus!
