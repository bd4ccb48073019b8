//! Decimal rendering of the line counter and the layout of an emitted line.
//!
//! A numbered line is the counter, right-aligned in a field of at least
//! [`FIELD_WIDTH`] characters, then a tab, the line's text and a newline.
//! A plain line is the text and a newline.

use vstd::prelude::*;

verus! {

/// Minimum width of the field that holds the line number.
pub const FIELD_WIDTH: usize = 6;

/// The character that stands for the decimal digit `d`.
pub open spec fn digit_char(d: nat) -> char {
    if d == 0 {
        '0'
    } else if d == 1 {
        '1'
    } else if d == 2 {
        '2'
    } else if d == 3 {
        '3'
    } else if d == 4 {
        '4'
    } else if d == 5 {
        '5'
    } else if d == 6 {
        '6'
    } else if d == 7 {
        '7'
    } else if d == 8 {
        '8'
    } else {
        '9'
    }
}

/// The digit that a character stands for; 0 for any character that is no digit.
pub open spec fn digit_value(c: char) -> nat {
    if c == '1' {
        1
    } else if c == '2' {
        2
    } else if c == '3' {
        3
    } else if c == '4' {
        4
    } else if c == '5' {
        5
    } else if c == '6' {
        6
    } else if c == '7' {
        7
    } else if c == '8' {
        8
    } else if c == '9' {
        9
    } else {
        0
    }
}

/// Whether `c` is one of the ten decimal digits.
pub open spec fn is_digit(c: char) -> bool {
    c == '0' || digit_value(c) != 0
}

/// The decimal numeral of `n`, most significant digit first.
pub open spec fn decimal(n: nat) -> Seq<char>
    decreases n,
{
    if n < 10 {
        seq![digit_char(n)]
    } else {
        decimal(n / 10).push(digit_char(n % 10))
    }
}

/// The number that a string of digits denotes, read most significant digit first.
pub open spec fn decimal_value(digits: Seq<char>) -> nat
    decreases digits.len(),
{
    if digits.len() == 0 {
        0
    } else {
        decimal_value(digits.drop_last()) * 10 + digit_value(digits.last())
    }
}

/// Ten to the power `k`.
pub open spec fn pow10(k: nat) -> nat
    decreases k,
{
    if k == 0 {
        1
    } else {
        10 * pow10((k - 1) as nat)
    }
}

/// A run of `n` spaces.
pub open spec fn padding(n: nat) -> Seq<char> {
    Seq::new(n, |i: int| ' ')
}

/// The line number as it is displayed: the decimal numeral of `n`, preceded by
/// as many spaces as it takes to fill [`FIELD_WIDTH`] characters, and by none
/// when the numeral is that long or longer.
pub open spec fn number_field(n: nat) -> Seq<char> {
    let digits = decimal(n);
    if digits.len() < FIELD_WIDTH {
        padding((FIELD_WIDTH - digits.len()) as nat) + digits
    } else {
        digits
    }
}

/// A line emitted with the number `n`.
pub open spec fn numbered_line(n: nat, line: Seq<char>) -> Seq<char> {
    number_field(n) + seq!['\t'] + line + seq!['\n']
}

/// A line emitted without a number.
pub open spec fn plain_line(line: Seq<char>) -> Seq<char> {
    line + seq!['\n']
}

/// A numeral is never empty, holds digits only, and starts with a zero only
/// when it is the numeral of zero.
pub proof fn lemma_decimal_shape(n: nat)
    ensures
        decimal(n).len() >= 1,
        forall|i: int| 0 <= i < decimal(n).len() ==> is_digit(#[trigger] decimal(n)[i]),
        decimal(n)[0] == '0' <==> n == 0,
    decreases n,
{
    if n >= 10 {
        lemma_decimal_shape(n / 10);
    }
}

/// Reading a numeral gives back the number it was written for.
pub proof fn lemma_decimal_round_trip(n: nat)
    ensures
        decimal_value(decimal(n)) == n,
    decreases n,
{
    if n < 10 {
        assert(decimal_value(decimal(n).drop_last()) == 0);
    } else {
        lemma_decimal_round_trip(n / 10);
        assert(decimal(n).drop_last() =~= decimal(n / 10));
    }
}

/// Two numbers with the same numeral are the same number.
pub proof fn lemma_decimal_injective(a: nat, b: nat)
    requires
        decimal(a) == decimal(b),
    ensures
        a == b,
{
    lemma_decimal_round_trip(a);
    lemma_decimal_round_trip(b);
}

/// A power of ten is positive.
pub proof fn lemma_pow10_positive(k: nat)
    ensures
        pow10(k) >= 1,
    decreases k,
{
    if k > 0 {
        lemma_pow10_positive((k - 1) as nat);
    }
}

/// A numeral has at most `k` digits exactly when the number is below ten to the `k`.
pub proof fn lemma_decimal_len(n: nat, k: nat)
    requires
        k >= 1,
    ensures
        decimal(n).len() <= k <==> n < pow10(k),
    decreases k,
{
    reveal_with_fuel(pow10, 2);
    lemma_pow10_positive((k - 1) as nat);
    if n >= 10 {
        if k == 1 {
            lemma_decimal_shape(n / 10);
        } else {
            lemma_decimal_len(n / 10, (k - 1) as nat);
        }
    }
}

/// The field is never narrower than [`FIELD_WIDTH`], never cuts the numeral,
/// ends with the numeral and holds nothing but spaces before it.
pub proof fn lemma_number_field_layout(n: nat)
    ensures
        number_field(n).len() == if decimal(n).len() < FIELD_WIDTH {
            FIELD_WIDTH as nat
        } else {
            decimal(n).len()
        },
        number_field(n).subrange(
            number_field(n).len() - decimal(n).len(),
            number_field(n).len() as int,
        ) == decimal(n),
        forall|i: int|
            0 <= i < number_field(n).len() - decimal(n).len() ==> #[trigger] number_field(n)[i]
                == ' ',
{
}

/// The one-character string of the decimal digit `d`.
fn digit_str(d: u128) -> (s: &'static str)
    requires
        d < 10,
    ensures
        s@ == seq![digit_char(d as nat)],
{
    if d == 0 {
        proof {
            reveal_strlit("0");
        }
        "0"
    } else if d == 1 {
        proof {
            reveal_strlit("1");
        }
        "1"
    } else if d == 2 {
        proof {
            reveal_strlit("2");
        }
        "2"
    } else if d == 3 {
        proof {
            reveal_strlit("3");
        }
        "3"
    } else if d == 4 {
        proof {
            reveal_strlit("4");
        }
        "4"
    } else if d == 5 {
        proof {
            reveal_strlit("5");
        }
        "5"
    } else if d == 6 {
        proof {
            reveal_strlit("6");
        }
        "6"
    } else if d == 7 {
        proof {
            reveal_strlit("7");
        }
        "7"
    } else if d == 8 {
        proof {
            reveal_strlit("8");
        }
        "8"
    } else {
        proof {
            reveal_strlit("9");
        }
        "9"
    }
}

/// Renders `n` as a decimal numeral.
pub fn format_decimal(n: u128) -> (s: String)
    ensures
        s@ == decimal(n as nat),
    decreases n,
{
    if n < 10 {
        String::from_str(digit_str(n))
    } else {
        let mut s = format_decimal(n / 10);
        s.append(digit_str(n % 10));
        s
    }
}

/// Counts the digits of the decimal numeral of `n`.
fn digit_count(n: u128) -> (k: usize)
    ensures
        k == decimal(n as nat).len(),
        1 <= k <= 39,
    decreases n,
{
    proof {
        reveal_with_fuel(pow10, 40);
        lemma_decimal_len(n as nat, 39);
    }
    if n < 10 {
        1
    } else {
        let k: usize = digit_count(n / 10);
        proof {
            lemma_decimal_len((n / 10) as nat, 38);
        }
        k + 1
    }
}

/// Renders `n` right-aligned in a field of at least [`FIELD_WIDTH`] characters.
pub fn format_number_field(n: u128) -> (s: String)
    ensures
        s@ == number_field(n as nat),
{
    let digits = format_decimal(n);
    let mut width: usize = digit_count(n);
    let mut s = String::new();
    while width < FIELD_WIDTH
        invariant
            decimal(n as nat).len() <= width,
            width <= FIELD_WIDTH || width == decimal(n as nat).len(),
            s@ == padding((width - decimal(n as nat).len()) as nat),
        decreases FIELD_WIDTH - width,
    {
        proof {
            reveal_strlit(" ");
        }
        s.append(" ");
        width = width + 1;
    }
    s.append(digits.as_str());
    s
}

/// Renders a line with the number `n` in front of it.
pub fn format_numbered_line(n: u128, line: &str) -> (s: String)
    ensures
        s@ == numbered_line(n as nat, line@),
{
    let mut s = format_number_field(n);
    proof {
        reveal_strlit("\t");
        reveal_strlit("\n");
    }
    s.append("\t");
    s.append(line);
    s.append("\n");
    s
}

/// Renders a line without a number.
pub fn format_plain_line(line: &str) -> (s: String)
    ensures
        s@ == plain_line(line@),
{
    let mut s = String::from_str(line);
    proof {
        reveal_strlit("\n");
    }
    s.append("\n");
    s
}

} // verus!
