//! Whole numbers as decimal text.

use vstd::prelude::*;

use crate::text::string_of;

verus! {

/// The digit for a number below ten.
pub open spec fn digit(n: int) -> char {
    if n == 0 {
        '0'
    } else if n == 1 {
        '1'
    } else if n == 2 {
        '2'
    } else if n == 3 {
        '3'
    } else if n == 4 {
        '4'
    } else if n == 5 {
        '5'
    } else if n == 6 {
        '6'
    } else if n == 7 {
        '7'
    } else if n == 8 {
        '8'
    } else {
        '9'
    }
}

/// What a digit stands for.
pub open spec fn digit_value(c: char) -> Option<nat> {
    if '0' <= c <= '9' {
        Some((c as int - '0' as int) as nat)
    } else {
        None
    }
}

/// A number in decimal digits, without leading zeros.
pub open spec fn decimal(n: nat) -> Seq<char>
    decreases n,
{
    if n < 10 {
        seq![digit(n as int)]
    } else {
        decimal(n / 10).push(digit((n % 10) as int))
    }
}

/// The number that decimal digits stand for; `None` where another character is
/// among them.  No digits at all stand for zero.
pub open spec fn digits_value(text: Seq<char>) -> Option<nat>
    decreases text.len(),
{
    if text.len() == 0 {
        Some(0)
    } else {
        match (digits_value(text.drop_last()), digit_value(text.last())) {
            (Some(high), Some(low)) => Some(high * 10 + low),
            _ => None,
        }
    }
}

/// Text without the plus sign before it.
pub open spec fn without_plus(text: Seq<char>) -> Seq<char> {
    if text.len() > 0 && text[0] == '+' {
        text.drop_first()
    } else {
        text
    }
}

/// The `usize` that a text is: decimal digits, at least one, with or without a
/// plus sign before them, for a number that fits.
pub open spec fn parsed(text: Seq<char>) -> Option<usize> {
    let digits = without_plus(text);
    match digits_value(digits) {
        Some(n) => if digits.len() > 0 && n <= usize::MAX {
            Some(n as usize)
        } else {
            None
        },
        None => None,
    }
}

/// The digit for a number below ten.
fn digit_of(n: u64) -> (c: char)
    requires
        n < 10,
    ensures
        c == digit(n as int),
{
    if n == 0 {
        '0'
    } else if n == 1 {
        '1'
    } else if n == 2 {
        '2'
    } else if n == 3 {
        '3'
    } else if n == 4 {
        '4'
    } else if n == 5 {
        '5'
    } else if n == 6 {
        '6'
    } else if n == 7 {
        '7'
    } else if n == 8 {
        '8'
    } else {
        '9'
    }
}

/// The decimal digits of a number.
fn decimal_chars(n: u64) -> (chars: Vec<char>)
    ensures
        chars@ == decimal(n as nat),
    decreases n,
{
    if n < 10 {
        let mut chars: Vec<char> = Vec::new();
        chars.push(digit_of(n));
        assert(chars@ =~= decimal(n as nat));
        chars
    } else {
        let mut chars = decimal_chars(n / 10);
        chars.push(digit_of(n % 10));
        chars
    }
}

/// A number in decimal digits.
pub fn decimal_text(n: u64) -> (text: String)
    ensures
        text@ == decimal(n as nat),
{
    let chars = decimal_chars(n);
    string_of(chars.as_slice())
}

/// What a digit stands for.
fn value_of(c: char) -> (value: Option<usize>)
    ensures
        match value {
            Some(value) => value < 10 && digit_value(c) == Some(value as nat),
            None => digit_value(c) is None,
        },
{
    let code: u32 = c as u32;
    if 48 <= code && code <= 57 {
        Some((code - 48) as usize)
    } else {
        None
    }
}

/// The number of digits behind a valid part is at least that of the part.
proof fn lemma_digits_value_grows(text: Seq<char>, count: int)
    requires
        0 <= count <= text.len(),
        digits_value(text) is Some,
    ensures
        digits_value(text.take(count)) is Some,
        digits_value(text.take(count))->0 <= digits_value(text)->0,
    decreases text.len() - count,
{
    if count == text.len() {
        assert(text.take(count) =~= text);
    } else {
        lemma_digits_value_grows(text, count + 1);
        assert(text.take(count + 1).drop_last() =~= text.take(count));
    }
}

/// The `usize` that a text is.
pub fn parse_usize(text: &[char]) -> (value: Option<usize>)
    ensures
        value == parsed(text@),
{
    let mut at: usize = 0;
    if text.len() > 0 && text[0] == '+' {
        at = 1;
    }
    let ghost digits = without_plus(text@);
    assert(digits =~= text@.skip(at as int));
    if at == text.len() {
        return None;
    }
    let start: usize = at;
    let mut value: usize = 0;
    assert(digits.take(0) =~= Seq::<char>::empty());
    while at < text.len()
        invariant
            start <= at <= text.len(),
            start < text.len(),
            digits == without_plus(text@),
            digits == text@.skip(start as int),
            digits_value(digits.take(at - start)) == Some(value as nat),
        decreases text.len() - at,
    {
        proof {
            let next = digits.take(at - start + 1);
            assert(next.drop_last() =~= digits.take(at - start));
            assert(next.last() == text@[at as int]);
            if digits_value(digits) is Some {
                lemma_digits_value_grows(digits, at - start + 1);
            }
        }
        match value_of(text[at]) {
            None => {
                return None;
            },
            Some(low) => {
                if value > usize::MAX / 10 || value * 10 > usize::MAX - low {
                    return None;
                }
                value = value * 10 + low;
            },
        }
        at += 1;
    }
    assert(digits.take(digits.len() as int) =~= digits);
    Some(value)
}

/// Reading the decimal digits of a number gives the number back.
pub proof fn lemma_decimal_parses(n: nat)
    ensures
        digits_value(decimal(n)) == Some(n),
        decimal(n).len() > 0,
        decimal(n)[0] != '+',
        n <= usize::MAX ==> parsed(decimal(n)) == Some(n as usize),
        forall|i: int| 0 <= i < decimal(n).len() ==> '0' <= #[trigger] decimal(n)[i] <= '9',
    decreases n,
{
    if n < 10 {
        assert(decimal(n).drop_last() =~= Seq::<char>::empty());
        assert(decimal(n).last() == digit(n as int));
    } else {
        lemma_decimal_parses(n / 10);
        let low = digit((n % 10) as int);
        assert(decimal(n).drop_last() =~= decimal(n / 10));
        assert(decimal(n).last() == low);
        assert(digit_value(low) == Some(n % 10));
        assert(n / 10 * 10 + n % 10 == n);
        assert(decimal(n)[0] == decimal(n / 10)[0]);
    }
    assert(without_plus(decimal(n)) == decimal(n));
}

/// The digits are the characters from 48 on, and stand for how far behind it
/// they are.
pub proof fn lemma_digits_by_code(n: int, c: char)
    requires
        0 <= n < 10,
    ensures
        digit(n) as int == 48 + n,
        digit_value(c) == Some(n as nat) <==> c as int == 48 + n,
        digit_value(c) is None <==> (c as int) < 48 || c as int > 57,
{
}

/// A number in digits is a tenth of it in digits and one digit more; a number
/// below ten is one digit.
pub proof fn lemma_decimal_by_digits(tens: nat, low: nat)
    requires
        low < 10,
    ensures
        tens > 0 ==> decimal(10 * tens + low).drop_last() == decimal(tens),
        decimal(10 * tens + low).last() as int == 48 + low,
        decimal(low).len() == 1,
{
    let n = 10 * tens + low;
    assert(n / 10 == tens && n % 10 == low);
    lemma_digits_by_code(low as int, '0');
    if tens > 0 {
        assert(decimal(n).drop_last() =~= decimal(tens));
    }
}

/// Reading a text: no digits are no number, with a plus sign or without; a plus
/// sign changes nothing; a digit more makes ten times the number and the digit,
/// where that fits; and any other character leaves no number.
pub proof fn lemma_reading_digit_by_digit(text: Seq<char>, c: char)
    ensures
        parsed(Seq::<char>::empty()) is None,
        parsed(seq!['+']) is None,
        text.len() > 0 && text[0] != '+' ==> parsed(seq!['+'] + text) == parsed(text),
        text.len() > 0 && 48 <= c as int <= 57 ==> (parsed(text) matches Some(n) ==> parsed(
            text.push(c),
        ) == (if 10 * n + (c as int - 48) <= usize::MAX {
            Some((10 * n + (c as int - 48)) as usize)
        } else {
            None::<usize>
        })),
        text.len() > 0 && !(48 <= c as int <= 57) ==> parsed(text.push(c)) is None,
        text.len() == 0 && 48 <= c as int <= 57 ==> parsed(text.push(c)) == Some(
            (c as int - 48) as usize,
        ),
{
    assert(without_plus(Seq::<char>::empty()) =~= Seq::<char>::empty());
    assert(without_plus(seq!['+']) =~= Seq::<char>::empty());
    if text.len() > 0 {
        assert((seq!['+'] + text).drop_first() =~= text);
        let digits = without_plus(text);
        let longer = without_plus(text.push(c));
        assert(longer =~= digits.push(c));
        assert(longer.drop_last() =~= digits);
    } else {
        assert(text =~= Seq::<char>::empty());
        if c != '+' {
            let one = without_plus(text.push(c));
            assert(one =~= seq![c]);
            assert(one.drop_last() =~= Seq::<char>::empty());
            assert(digits_value(Seq::<char>::empty()) == Some(0nat));
        }
    }
}

} // verus!
