//! Numbers written out in a base, and read back.

use vstd::prelude::*;

verus! {

/// The character for a digit below sixteen: `0` to `9`, then `a` to `f`.
pub open spec fn digit_char(digit: nat) -> char {
    if digit < 10 {
        (('0' as nat) + digit) as char
    } else {
        (('a' as nat) + digit - 10) as char
    }
}

/// Dividing by a base makes a number smaller.
pub proof fn quotient_shrinks(n: nat, base: nat)
    requires
        base >= 2,
        n >= base,
    ensures
        n / base < n,
{
    assert(n / base < n) by (nonlinear_arith)
        requires
            base >= 2,
            n >= base,
    ;
}

/// `n` written in `base`, without leading zeros.
pub open spec fn digits(n: nat, base: nat) -> Seq<char>
    decreases n,
    when base >= 2
{
    if n < base {
        seq![digit_char(n)]
    } else {
        proof {
            quotient_shrinks(n, base);
        }
        digits(n / base, base).push(digit_char(n % base))
    }
}

/// `n` in decimal.
pub open spec fn decimal(n: nat) -> Seq<char> {
    digits(n, 10)
}

/// Whether `c` is one of `0` to `9`.
pub open spec fn is_digit(c: char) -> bool {
    '0' <= c <= '9'
}

/// Whether `text` is made of the characters `0` to `9` alone.
pub open spec fn all_digits(text: Seq<char>) -> bool {
    forall|i: int| 0 <= i < text.len() ==> is_digit(#[trigger] text[i])
}

/// The number that a row of decimal digits stands for.
pub open spec fn decimal_value(text: Seq<char>) -> nat
    decreases text.len(),
{
    if text.len() == 0 {
        0
    } else {
        10 * decimal_value(text.drop_last()) + (text.last() as nat - '0' as nat) as nat
    }
}

/// The number that `text` reads as: decimal digits, at least one, after an
/// optional `+`, with a value that fits in 64 bits.
pub open spec fn parsed_u64(text: Seq<char>) -> Option<u64> {
    let body = if text.len() > 0 && text[0] == '+' {
        text.skip(1)
    } else {
        text
    };
    if body.len() > 0 && all_digits(body) && decimal_value(body) <= u64::MAX {
        Some(decimal_value(body) as u64)
    } else {
        None
    }
}

/// The digit `digit` as text of one character.
fn digit_text(digit: u8) -> (text: &'static str)
    requires
        digit < 16,
    ensures
        text@ == seq![digit_char(digit as nat)],
{
    proof {
        reveal_strlit("0");
        reveal_strlit("1");
        reveal_strlit("2");
        reveal_strlit("3");
        reveal_strlit("4");
        reveal_strlit("5");
        reveal_strlit("6");
        reveal_strlit("7");
        reveal_strlit("8");
        reveal_strlit("9");
        reveal_strlit("a");
        reveal_strlit("b");
        reveal_strlit("c");
        reveal_strlit("d");
        reveal_strlit("e");
        reveal_strlit("f");
    }
    match digit {
        0 => "0",
        1 => "1",
        2 => "2",
        3 => "3",
        4 => "4",
        5 => "5",
        6 => "6",
        7 => "7",
        8 => "8",
        9 => "9",
        10 => "a",
        11 => "b",
        12 => "c",
        13 => "d",
        14 => "e",
        _ => "f",
    }
}

/// `n` written in `base`.
fn digits_text(n: u128, base: u128) -> (text: String)
    requires
        2 <= base <= 16,
    ensures
        text@ == digits(n as nat, base as nat),
    decreases n,
{
    if n < base {
        digit_text(n as u8).to_string()
    } else {
        proof {
            quotient_shrinks(n as nat, base as nat);
        }
        let mut text = digits_text(n / base, base);
        text.append(digit_text((n % base) as u8));
        text
    }
}

/// `n` in decimal.
pub fn decimal_text(n: u64) -> (text: String)
    ensures
        text@ == decimal(n as nat),
{
    digits_text(n as u128, 10)
}

/// `n` in lower-case hexadecimal.
pub fn hex_text(n: u128) -> (text: String)
    ensures
        text@ == digits(n as nat, 16),
{
    digits_text(n, 16)
}

/// A longer row of digits stands for a number at least as large.
proof fn decimal_value_grows(text: Seq<char>, upto: int)
    requires
        all_digits(text),
        0 <= upto <= text.len(),
    ensures
        decimal_value(text.take(upto)) <= decimal_value(text),
    decreases text.len(),
{
    if upto < text.len() {
        let shorter = text.drop_last();
        assert(shorter.take(upto) =~= text.take(upto));
        decimal_value_grows(shorter, upto);
    } else {
        assert(text.take(upto) =~= text);
    }
}

/// Reads `text` as an unsigned 64-bit number.
pub fn parse_u64(text: &str) -> (number: Option<u64>)
    ensures
        number == parsed_u64(text@),
{
    let chars = crate::text::chars_of(text);
    let mut start: usize = 0;
    if chars.len() > 0 && chars[0] == '+' {
        start = 1;
    }
    let ghost body = text@.skip(start as int);
    assert(start == 0 ==> body =~= text@);
    if start == chars.len() {
        return None;
    }
    let mut value: u64 = 0;
    let mut i: usize = start;
    while i < chars.len()
        invariant
            chars@ == text@,
            start <= i <= chars@.len(),
            start <= 1,
            body == text@.skip(start as int),
            body.len() > 0,
            body == (if text@.len() > 0 && text@[0] == '+' {
                text@.skip(1)
            } else {
                text@
            }),
            value == decimal_value(body.take(i - start)),
            all_digits(body.take(i - start)),
        decreases chars@.len() - i,
    {
        let c: char = chars[i];
        assert(c == body[i - start]);
        if !('0' <= c && c <= '9') {
            return None;
        }
        let digit: u64 = (c as u32 - '0' as u32) as u64;
        let ghost next = body.take(i - start + 1);
        proof {
            assert(next.drop_last() =~= body.take(i - start));
            assert(next =~= body.take(i - start).push(c));
        }
        if value > (u64::MAX - digit) / 10 {
            proof {
                assert(decimal_value(next) > u64::MAX);
                if all_digits(body) {
                    decimal_value_grows(body, i - start + 1);
                }
            }
            return None;
        }
        value = value * 10 + digit;
        i += 1;
    }
    assert(body.take(i - start) =~= body);
    Some(value)
}

/// The value of a digit's character.
pub open spec fn digit_value(c: char) -> nat {
    if c <= '9' {
        (c as nat - '0' as nat) as nat
    } else {
        (c as nat - 'a' as nat + 10) as nat
    }
}

/// The number that a row of digits stands for in `base`.
pub open spec fn digits_value(text: Seq<char>, base: nat) -> nat
    decreases text.len(),
{
    if text.len() == 0 {
        0
    } else {
        base * digits_value(text.drop_last(), base) + digit_value(text.last())
    }
}

/// Writing a number in a base and reading it back gives the number.
pub proof fn digits_read_back(n: nat, base: nat)
    requires
        2 <= base <= 16,
    ensures
        digits_value(digits(n, base), base) == n,
        digits(n, base).len() > 0,
    decreases n,
{
    reveal_with_fuel(digits_value, 2);
    if n < base {
        assert(digits(n, base).drop_last() =~= Seq::<char>::empty());
        assert(base * 0 == 0) by (nonlinear_arith);
    } else {
        quotient_shrinks(n, base);
        digits_read_back(n / base, base);
        assert(digits(n, base).drop_last() =~= digits(n / base, base));
        assert(0 <= n % base < base) by (nonlinear_arith)
            requires
                base >= 2,
        ;
        assert(base * (n / base) + n % base == n) by (nonlinear_arith)
            requires
                base >= 2,
        ;
    }
}

/// Different numbers are written differently.
pub proof fn digits_injective(m: nat, n: nat, base: nat)
    requires
        2 <= base <= 16,
        digits(m, base) == digits(n, base),
    ensures
        m == n,
{
    digits_read_back(m, base);
    digits_read_back(n, base);
}

/// Every character of a number written in a base is `0` to `9` or `a` to `f`.
pub proof fn digits_are_digits(n: nat, base: nat)
    requires
        2 <= base <= 16,
    ensures
        forall|i: int|
            0 <= i < digits(n, base).len() ==> {
                ||| '0' <= #[trigger] digits(n, base)[i] <= '9'
                ||| 'a' <= digits(n, base)[i] <= 'f'
            },
    decreases n,
{
    if n >= base {
        quotient_shrinks(n, base);
        digits_are_digits(n / base, base);
        assert(0 <= n % base < base) by (nonlinear_arith)
            requires
                base >= 2,
        ;
        let shorter = digits(n / base, base);
        assert forall|i: int| 0 <= i < digits(n, base).len() implies {
            ||| '0' <= #[trigger] digits(n, base)[i] <= '9'
            ||| 'a' <= digits(n, base)[i] <= 'f'
        } by {
            if i < shorter.len() {
                assert(digits(n, base)[i] == shorter[i]);
            }
        }
    }
}

/// A number in decimal is a row of decimal digits with that value.
pub proof fn decimal_read_back(n: nat)
    ensures
        all_digits(decimal(n)),
        decimal(n).len() > 0,
        decimal_value(decimal(n)) == n,
    decreases n,
{
    reveal_with_fuel(decimal_value, 2);
    if n < 10 {
        assert(decimal(n).drop_last() =~= Seq::<char>::empty());
    } else {
        decimal_read_back(n / 10);
        assert(decimal(n).drop_last() =~= decimal(n / 10));
    }
}

/// Reading back a 64-bit number that was written in decimal gives the number.
pub proof fn parse_of_decimal(n: u64)
    ensures
        parsed_u64(decimal(n as nat)) == Some(n),
{
    decimal_read_back(n as nat);
    assert(is_digit(decimal(n as nat)[0]));
}

/// Numbers below ten are their usual digits, the six after them in base sixteen
/// the first letters, and every other number is its quotient by the base
/// followed by the digit of its remainder.
pub proof fn numbers_are_written_digit_by_digit(quotient: nat, digit: nat, base: nat)
    requires
        base == 10 || base == 16,
        digit < base,
    ensures
        digits(digit, base) == seq!["0123456789abcdef"@[digit as int]],
        quotient > 0 ==> digits(quotient * base + digit, base) == digits(quotient, base) + digits(
            digit,
            base,
        ),
        decimal(digit) == digits(digit, 10),
{
    reveal_strlit("0123456789abcdef");
    let usual = "0123456789abcdef"@;
    assert(usual[0] == '0' && usual[1] == '1' && usual[2] == '2' && usual[3] == '3' && usual[4]
        == '4' && usual[5] == '5' && usual[6] == '6' && usual[7] == '7' && usual[8] == '8'
        && usual[9] == '9' && usual[10] == 'a' && usual[11] == 'b' && usual[12] == 'c' && usual[13]
        == 'd' && usual[14] == 'e' && usual[15] == 'f');
    if quotient > 0 {
        let n = quotient * base + digit;
        assert(n >= base && n / base == quotient && n % base == digit) by (nonlinear_arith)
            requires
                n == quotient * base + digit,
                quotient > 0,
                digit < base,
        ;
        assert(digits(n, base) =~= digits(quotient, base) + digits(digit, base));
    }
}

/// What reads as a number: a row of decimal digits, with or without a `+`
/// before it, worth no more than fits. Nothing else does.
pub proof fn only_decimal_digits_are_read(n: nat, text: Seq<char>, c: char)
    ensures
        parsed_u64(decimal(n)) == if n <= u64::MAX {
            Some(n as u64)
        } else {
            None
        },
        parsed_u64("+"@ + decimal(n)) == parsed_u64(decimal(n)),
        parsed_u64("+"@ + decimal(n)) == parsed_u64("0"@ + decimal(n)),
        parsed_u64(Seq::empty()) is None,
        text.contains(c) && !('0' <= c && c <= '9') && c != '+' ==> parsed_u64(text) is None,
        text.len() > 0 && text.skip(1).contains('+') ==> parsed_u64(text) is None,
{
    reveal_strlit("+");
    reveal_strlit("0");
    decimal_read_back(n);
    let row = decimal(n);
    assert(is_digit(row[0]));
    let signed = "+"@ + row;
    assert(signed[0] == '+');
    assert(signed.skip(1) =~= row);
    let padded = "0"@ + row;
    assert(padded[0] == '0');
    assert forall|i: int| 0 <= i < padded.len() implies is_digit(#[trigger] padded[i]) by {
        if i > 0 {
            assert(is_digit(row[i - 1]));
        }
    }
    zeros_are_worth_nothing(row);
    if text.contains(c) && !('0' <= c && c <= '9') && c != '+' {
        let i = text.index_of(c);
        if text[0] == '+' {
            assert(text.skip(1)[i - 1] == c);
        }
    }
    if text.len() > 0 && text.skip(1).contains('+') {
        let i = text.skip(1).index_of('+');
        assert(text[i + 1] == '+');
        assert(!is_digit(text.skip(1)[i]));
        assert(!is_digit(text[i + 1]));
    }
}

/// A zero before a row of digits does not change its value.
proof fn zeros_are_worth_nothing(row: Seq<char>)
    ensures
        decimal_value("0"@ + row) == decimal_value(row),
    decreases row.len(),
{
    reveal_strlit("0");
    reveal_with_fuel(decimal_value, 2);
    let padded = "0"@ + row;
    if row.len() == 0 {
        assert(padded.drop_last() =~= Seq::<char>::empty());
    } else {
        zeros_are_worth_nothing(row.drop_last());
        assert(padded.drop_last() =~= "0"@ + row.drop_last());
        assert(padded.last() == row.last());
    }
}

} // verus!
