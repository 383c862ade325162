//! The blocks of digits and symbols that stand around the words.

use vstd::prelude::*;

use crate::random::{gen_index, uniform_u64};

verus! {

/// No block of digits is wider than this, so that the number it shows fits
/// in 64 bits.
pub const MAX_DIGITS: u8 = 20;

/// Ten to the power of `exponent`.
pub open spec fn pow10(exponent: nat) -> nat
    decreases exponent,
{
    if exponent == 0 {
        1
    } else {
        10 * pow10((exponent - 1) as nat)
    }
}

/// The character of a decimal digit.
pub open spec fn digit_char(digit: nat) -> char {
    if digit == 0 {
        '0'
    } else if digit == 1 {
        '1'
    } else if digit == 2 {
        '2'
    } else if digit == 3 {
        '3'
    } else if digit == 4 {
        '4'
    } else if digit == 5 {
        '5'
    } else if digit == 6 {
        '6'
    } else if digit == 7 {
        '7'
    } else if digit == 8 {
        '8'
    } else {
        '9'
    }
}

/// Whether a character is a decimal digit.
pub open spec fn is_digit(c: char) -> bool {
    '0' <= c <= '9'
}

/// A number in decimal, without leading zeros.
pub open spec fn decimal(number: nat) -> Seq<char>
    decreases number,
{
    if number < 10 {
        seq![digit_char(number)]
    } else {
        decimal(number / 10).push(digit_char(number % 10))
    }
}

/// How many digits a block holds that was asked to hold `count`.
pub open spec fn digits_width(count: u8) -> nat {
    if count > MAX_DIGITS {
        MAX_DIGITS as nat
    } else {
        count as nat
    }
}

/// The smallest number that a block of `count` digits can show.
pub open spec fn digits_lower(count: u8) -> nat
    recommends
        count > 0,
{
    pow10((digits_width(count) - 1) as nat)
}

/// The bound under which the numbers lie that a block of `count` digits can
/// show. The widest block stops under the largest number of 64 bits.
pub open spec fn digits_upper(count: u8) -> nat
    recommends
        count > 0,
{
    if digits_width(count) == MAX_DIGITS {
        u64::MAX as nat
    } else {
        pow10(digits_width(count))
    }
}

/// Whether `block` can be the digits drawn for a count: nothing for none,
/// else a number of that many digits in decimal.
pub open spec fn is_digit_block(block: Seq<char>, count: u8) -> bool {
    if count == 0 {
        block == Seq::<char>::empty()
    } else {
        exists|number: nat|
            digits_lower(count) <= number < digits_upper(count) && block == #[trigger] decimal(
                number,
            )
    }
}

/// Whether `block` can be the symbols drawn from `pool` for a count: nothing
/// out of an empty pool, else one character of the pool, `count` times.
pub open spec fn is_symbol_block(block: Seq<char>, pool: Seq<char>, count: nat) -> bool {
    if pool.len() == 0 {
        block == Seq::<char>::empty()
    } else {
        exists|index: int|
            0 <= index < pool.len() && block == Seq::new(count, |at: int| #[trigger] pool[index])
    }
}

/// The powers of ten grow.
pub proof fn lemma_pow10_grows(small: nat, large: nat)
    requires
        small <= large,
    ensures
        0 < pow10(small) <= pow10(large),
    decreases large,
{
    if small < large {
        lemma_pow10_grows(small, (large - 1) as nat);
    } else if small > 0 {
        lemma_pow10_grows((small - 1) as nat, (large - 1) as nat);
    }
}

/// The largest power of ten that fits in 64 bits, and the first that does
/// not.
pub proof fn lemma_pow10_limits()
    ensures
        pow10(19) == 10_000_000_000_000_000_000,
        pow10(19) < u64::MAX < pow10(20),
{
    reveal_with_fuel(pow10, 21);
}

/// A number between two neighbouring powers of ten has as many digits as the
/// larger power has zeros.
pub proof fn lemma_decimal_width(number: nat, width: nat)
    requires
        width >= 1,
        pow10((width - 1) as nat) <= number < pow10(width),
    ensures
        decimal(number).len() == width,
    decreases width,
{
    if width == 1 {
        assert(pow10(1) == 10) by {
            reveal_with_fuel(pow10, 2);
        }
    } else {
        lemma_pow10_grows(1, (width - 1) as nat);
        assert(pow10(1) == 10) by {
            reveal_with_fuel(pow10, 2);
        }
        lemma_decimal_width(number / 10, (width - 1) as nat);
    }
}

/// A number in decimal is made of digits, and starts with a zero only where
/// it is zero.
pub proof fn lemma_decimal_digits(number: nat)
    ensures
        decimal(number).len() >= 1,
        forall|at: int| 0 <= at < decimal(number).len() ==> is_digit(#[trigger] decimal(number)[at]),
        number > 0 ==> decimal(number)[0] != '0',
    decreases number,
{
    if number >= 10 {
        lemma_decimal_digits(number / 10);
    }
}

/// A block of digits has the width asked for, up to the widest; it holds
/// digits only and does not start with a zero.
pub proof fn lemma_digit_block(block: Seq<char>, count: u8)
    requires
        is_digit_block(block, count),
    ensures
        block.len() == digits_width(count),
        forall|at: int| 0 <= at < block.len() ==> is_digit(#[trigger] block[at]),
        count > 0 ==> block[0] != '0',
{
    if count > 0 {
        let number = choose|number: nat|
            digits_lower(count) <= number < digits_upper(count) && block == #[trigger] decimal(
                number,
            );
        let width = digits_width(count);
        lemma_pow10_limits();
        lemma_pow10_grows(0, (width - 1) as nat);
        lemma_decimal_width(number, width);
        lemma_decimal_digits(number);
    }
}

/// A block of symbols out of a pool that is not empty has the length asked
/// for, holds one character of the pool and no other.
pub proof fn lemma_symbol_block(block: Seq<char>, pool: Seq<char>, count: nat)
    requires
        is_symbol_block(block, pool, count),
    ensures
        block.len() == if pool.len() == 0 {
            0
        } else {
            count
        },
        forall|at: int| 0 <= at < block.len() ==> pool.contains(#[trigger] block[at]),
        forall|at: int, other: int|
            0 <= at < block.len() && 0 <= other < block.len() ==> block[at] == block[other],
{
    if pool.len() > 0 {
        let index = choose|index: int|
            0 <= index < pool.len() && block == Seq::new(count, |at: int| #[trigger] pool[index]);
        assert forall|at: int| 0 <= at < block.len() implies pool.contains(#[trigger] block[at]) by {
            assert(block[at] == pool[index]);
        }
    }
}

/// The text of one decimal digit.
fn digit_text(digit: u8) -> (text: &'static str)
    requires
        digit < 10,
    ensures
        text@ == seq![digit_char(digit as nat)],
{
    proof {
        reveal_strlit("0");
        reveal_strlit("1");
        reveal_strlit("2");
        reveal_strlit("3");
        reveal_strlit("4");
        reveal_strlit("5");
        reveal_strlit("6");
        reveal_strlit("7");
        reveal_strlit("8");
        reveal_strlit("9");
    }
    let text = match digit {
        0 => "0",
        1 => "1",
        2 => "2",
        3 => "3",
        4 => "4",
        5 => "5",
        6 => "6",
        7 => "7",
        8 => "8",
        _ => "9",
    };
    text
}

/// Writes a number in decimal.
pub fn decimal_string(number: u64) -> (text: String)
    ensures
        text@ == decimal(number as nat),
    decreases number,
{
    if number < 10 {
        String::from_str(digit_text(number as u8))
    } else {
        let mut text = decimal_string(number / 10);
        text.append(digit_text((number % 10) as u8));
        text
    }
}

/// The numbers that a block of `count` digits is drawn from: from the first
/// up to, and without, the second.
pub fn digit_bounds(count: u8) -> (bounds: (u64, u64))
    requires
        count > 0,
    ensures
        bounds.0 == digits_lower(count),
        bounds.1 == digits_upper(count),
        bounds.0 < bounds.1,
{
    let width: u8 = if count > MAX_DIGITS {
        MAX_DIGITS
    } else {
        count
    };
    let mut lower: u64 = 1;
    let mut exponent: u8 = 1;
    proof {
        lemma_pow10_limits();
    }
    while exponent < width
        invariant
            1 <= exponent <= width <= MAX_DIGITS,
            lower == pow10((exponent - 1) as nat),
            pow10(19) == 10_000_000_000_000_000_000,
        decreases width - exponent,
    {
        proof {
            lemma_pow10_grows(exponent as nat, 19);
        }
        lower = lower * 10;
        exponent = exponent + 1;
    }
    if width == MAX_DIGITS {
        (lower, u64::MAX)
    } else {
        proof {
            lemma_pow10_grows(width as nat, 19);
        }
        (lower, lower * 10)
    }
}

/// A block of `count` random digits: a number drawn from all those of that
/// many digits. A block of more than [`MAX_DIGITS`] digits is cut to that
/// width.
pub fn rand_digits(count: u8) -> (block: String)
    ensures
        is_digit_block(block@, count),
{
    if count == 0 {
        return String::new();
    }
    let (lower, upper) = digit_bounds(count);
    let number = uniform_u64(lower, upper);
    decimal_string(number)
}

/// The character at `index` of `pool`, `count` times over.
pub fn repeat_char(pool: &str, index: usize, count: u8) -> (block: String)
    requires
        index < pool@.len(),
    ensures
        block@ == Seq::new(count as nat, |at: int| pool@[index as int]),
{
    let length = pool.unicode_len();
    let symbol = pool.substring_char(index, index + 1);
    let mut block = String::new();
    let mut done: u8 = 0;
    while done < count
        invariant
            done <= count,
            index < pool@.len(),
            symbol@ == pool@.subrange(index as int, index + 1),
            block@ == Seq::new(done as nat, |at: int| pool@[index as int]),
        decreases count - done,
    {
        block.append(symbol);
        done = done + 1;
    }
    block
}

/// A block of `count` random symbols: one character drawn from `pool` and
/// repeated. An empty pool gives an empty block.
pub fn rand_chars(pool: &str, count: u8) -> (block: String)
    ensures
        is_symbol_block(block@, pool@, count as nat),
{
    let length = pool.unicode_len();
    if length == 0 {
        return String::new();
    }
    let index = gen_index(length);
    repeat_char(pool, index, count)
}

} // verus!
