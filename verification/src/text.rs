//! Numbers and lists of numbers as text.

use vstd::prelude::*;

verus! {

/// The character of a decimal digit.
pub open spec fn digit_char(digit: int) -> char {
    if digit == 0 {
        '0'
    } else if digit == 1 {
        '1'
    } else if digit == 2 {
        '2'
    } else if digit == 3 {
        '3'
    } else if digit == 4 {
        '4'
    } else if digit == 5 {
        '5'
    } else if digit == 6 {
        '6'
    } else if digit == 7 {
        '7'
    } else if digit == 8 {
        '8'
    } else {
        '9'
    }
}

/// A number in decimal, without leading zeros.
pub open spec fn decimal(n: nat) -> Seq<char>
    decreases n,
{
    if n < 10 {
        seq![digit_char(n as int)]
    } else {
        decimal(n / 10).push(digit_char((n % 10) as int))
    }
}

/// The text of one decimal digit.
fn digit_str(digit: u64) -> (text: &'static str)
    requires
        digit < 10,
    ensures
        text@ == seq![digit_char(digit as int)],
{
    proof {
        reveal_strlit("0");
        reveal_strlit("1");
        reveal_strlit("2");
        reveal_strlit("3");
        reveal_strlit("4");
        reveal_strlit("5");
        reveal_strlit("6");
        reveal_strlit("7");
        reveal_strlit("8");
        reveal_strlit("9");
    }
    let text = if digit == 0 {
        "0"
    } else if digit == 1 {
        "1"
    } else if digit == 2 {
        "2"
    } else if digit == 3 {
        "3"
    } else if digit == 4 {
        "4"
    } else if digit == 5 {
        "5"
    } else if digit == 6 {
        "6"
    } else if digit == 7 {
        "7"
    } else if digit == 8 {
        "8"
    } else {
        "9"
    };
    text
}

/// Writes a number in decimal at the end of a text.
pub fn push_decimal(text: &mut String, n: u64)
    ensures
        final(text)@ == old(text)@ + decimal(n as nat),
    decreases n,
{
    if n < 10 {
        text.append(digit_str(n));
    } else {
        push_decimal(text, n / 10);
        text.append(digit_str(n % 10));
    }
}

/// A number in decimal.
pub fn decimal_string(n: u64) -> (text: String)
    ensures
        text@ == decimal(n as nat),
{
    let mut text = String::new();
    push_decimal(&mut text, n);
    text
}

/// The first `n` numbers of a list in decimal, with a comma and a space
/// between each two.
pub open spec fn decimals(numbers: Seq<u64>, n: int) -> Seq<char>
    decreases n,
{
    if n <= 0 {
        Seq::empty()
    } else if n == 1 {
        decimal(numbers[0] as nat)
    } else {
        decimals(numbers, n - 1) + ", "@ + decimal(numbers[n - 1] as nat)
    }
}

/// A list of numbers as text: in square brackets, with a comma and a space
/// between each two.
pub open spec fn decimal_list(numbers: Seq<u64>) -> Seq<char> {
    "["@ + decimals(numbers, numbers.len() as int) + "]"@
}

/// Writes a list of numbers at the end of a text.
pub fn push_decimal_list(text: &mut String, numbers: &Vec<u64>)
    ensures
        final(text)@ == old(text)@ + decimal_list(numbers@),
{
    text.append("[");
    let mut i: usize = 0;
    while i < numbers.len()
        invariant
            i <= numbers@.len(),
            text@ == old(text)@ + "["@ + decimals(numbers@, i as int),
        decreases numbers@.len() - i,
    {
        if i > 0 {
            text.append(", ");
        }
        push_decimal(text, numbers[i]);
        i += 1;
    }
    text.append("]");
}

/// The text of a number that may be missing: `None`, or the number in
/// `Some(` and `)`.
pub open spec fn optional_decimal(number: Option<u64>) -> Seq<char> {
    match number {
        Some(n) => "Some("@ + decimal(n as nat) + ")"@,
        None => "None"@,
    }
}

/// Writes a number that may be missing at the end of a text.
pub fn push_optional_decimal(text: &mut String, number: Option<u64>)
    ensures
        final(text)@ == old(text)@ + optional_decimal(number),
{
    match number {
        Some(n) => {
            text.append("Some(");
            push_decimal(text, n);
            text.append(")");
        },
        None => {
            text.append("None");
        },
    }
}

} // verus!
