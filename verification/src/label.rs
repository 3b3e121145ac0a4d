//! The short texts that the display shows, and how numbers are spelt in them.

use crate::raster::printable;
use vstd::prelude::*;

verus! {

/// Ten to the power `k`.
pub open spec fn pow10(k: nat) -> nat
    decreases k,
{
    if k == 0 {
        1
    } else {
        10 * pow10((k - 1) as nat)
    }
}

/// The ASCII code of a digit.
pub open spec fn digit(d: nat) -> u8 {
    (48 + d) as u8
}

/// The decimal spelling of `n`, most significant digit first, with no
/// leading zero except for zero itself.
pub open spec fn decimal(n: nat) -> Seq<u8>
    decreases n,
{
    if n < 10 {
        seq![digit(n)]
    } else {
        decimal(n / 10).push(digit(n % 10))
    }
}

/// The number that a run of digits spells.
pub open spec fn decimal_value(digits: Seq<u8>) -> nat
    decreases digits.len(),
{
    if digits.len() == 0 {
        0
    } else {
        (10 * decimal_value(digits.drop_last()) + (digits.last() - 48)) as nat
    }
}

/// The banner that bounces across the screen: `-=Ewen=-`.
pub open spec fn banner() -> Seq<u8> {
    seq![45u8, 61u8, 69u8, 119u8, 101u8, 110u8, 61u8, 45u8]
}

/// A text that the display shows. It is kept as what it stands for and
/// spelt out only when it is drawn.
#[derive(Clone, Copy, Debug, PartialEq, Eq, Structural)]
pub enum Label {
    /// The bouncing banner.
    Banner,
    /// A count, such as frames per second, in decimal.
    Number(u64),
    /// A touch point: both coordinates in decimal with a comma between.
    Touch(u16, u16),
}

/// The bytes of a label.
pub open spec fn label_text(label: Label) -> Seq<u8> {
    match label {
        Label::Banner => banner(),
        Label::Number(n) => decimal(n as nat),
        Label::Touch(x, y) => decimal(x as nat) + seq![44u8] + decimal(y as nat),
    }
}

/// A decimal spelling is made of digits, has at least one of them, and
/// spells the number it was made from.
pub proof fn lemma_decimal_digits(n: nat)
    ensures
        decimal(n).len() >= 1,
        forall|i: int| 0 <= i < decimal(n).len() ==> 48 <= #[trigger] decimal(n)[i] <= 57,
        decimal_value(decimal(n)) == n,
        n > 0 ==> decimal(n)[0] != 48,
    decreases n,
{
    if n >= 10 {
        lemma_decimal_digits(n / 10);
        let head = decimal(n / 10);
        assert(decimal(n).drop_last() == head);
        assert(decimal(n).last() == digit(n % 10));
        assert(decimal(n)[0] == head[0]);
    } else {
        assert(decimal(n).drop_last().len() == 0);
        assert(decimal_value(decimal(n).drop_last()) == 0);
        assert(decimal(n).last() == digit(n));
    }
}

/// A number below ten to the `k` has at most `k` digits.
pub proof fn lemma_decimal_len(n: nat, k: nat)
    requires
        k >= 1,
        n < pow10(k),
    ensures
        decimal(n).len() <= k,
    decreases k,
{
    if n >= 10 {
        assert(pow10(1) == 10) by {
            reveal_with_fuel(pow10, 2);
        }
        assert(k >= 2);
        assert(pow10(k) == 10 * pow10((k - 1) as nat));
        lemma_decimal_len(n / 10, (k - 1) as nat);
    }
}

/// No 64-bit number takes more than twenty digits.
pub proof fn lemma_decimal_len_u64(n: u64)
    ensures
        1 <= decimal(n as nat).len() <= 20,
{
    assert(pow10(20) == 100_000_000_000_000_000_000nat) by {
        reveal_with_fuel(pow10, 21);
    }
    lemma_decimal_len(n as nat, 20);
    lemma_decimal_digits(n as nat);
}

/// Every label is one line of printable characters, at most forty-one long.
pub proof fn lemma_label_printable(label: Label)
    ensures
        printable(label_text(label)),
        1 <= label_text(label).len() <= 41,
{
    match label {
        Label::Banner => {},
        Label::Number(n) => {
            lemma_decimal_digits(n as nat);
            lemma_decimal_len_u64(n);
        },
        Label::Touch(x, y) => {
            lemma_decimal_digits(x as nat);
            lemma_decimal_digits(y as nat);
            lemma_decimal_len_u64(x as u64);
            lemma_decimal_len_u64(y as u64);
        },
    }
}

/// Number of bytes in the digit buffer: enough for any 64-bit number.
pub const DIGITS_CAPACITY: usize = 20;

/// The digits of a number in a buffer of fixed size. They stand at the end
/// of the buffer, from `start` on, most significant digit first.
#[derive(Clone, Copy, Debug, PartialEq, Eq)]
pub struct Digits {
    pub buffer: [u8; 20],
    pub start: usize,
}

impl View for Digits {
    type V = Seq<u8>;

    /// The digits themselves, without the unused front of the buffer.
    open spec fn view(&self) -> Seq<u8> {
        self.buffer@.subrange(self.start as int, DIGITS_CAPACITY as int)
    }
}

/// Spells `value` in decimal into a buffer of fixed size.
pub fn format_digits(value: u64) -> (digits: Digits)
    ensures
        digits.start < DIGITS_CAPACITY,
        digits@ == decimal(value as nat),
{
    let mut buffer: [u8; 20] = [0u8; 20];
    if value == 0 {
        buffer[19] = 48u8;
        assert(buffer@.subrange(19, 20) == decimal(0));
        return Digits { buffer, start: 19 };
    }
    proof {
        assert(pow10(20) == 100_000_000_000_000_000_000nat) by {
            reveal_with_fuel(pow10, 21);
        }
    }
    let mut start: usize = DIGITS_CAPACITY;
    let mut rest: u64 = value;
    while rest > 0
        invariant
            value > 0,
            start <= DIGITS_CAPACITY,
            rest < pow10(start as nat),
            rest > 0 ==> decimal(value as nat) == decimal(rest as nat) + buffer@.subrange(
                start as int,
                20,
            ),
            rest == 0 ==> start < DIGITS_CAPACITY && decimal(value as nat) == buffer@.subrange(
                start as int,
                20,
            ),
        decreases rest,
    {
        assert(start > 0) by {
            assert(pow10(0) == 1);
        }
        let ghost before = buffer@.subrange(start as int, 20);
        assert(pow10(start as nat) == 10 * pow10((start - 1) as nat));
        start -= 1;
        let d: u8 = (rest % 10) as u8;
        buffer[start] = 48 + d;
        proof {
            assert(buffer@.subrange(start as int, 20) == seq![digit((rest % 10) as nat)] + before);
            if rest >= 10 {
                assert(decimal(rest as nat) == decimal((rest / 10) as nat).push(
                    digit((rest % 10) as nat),
                ));
                assert(decimal(value as nat) == decimal((rest / 10) as nat) + buffer@.subrange(
                    start as int,
                    20,
                ));
            } else {
                assert(decimal(rest as nat) == seq![digit(rest as nat)]);
                assert(decimal(value as nat) == buffer@.subrange(start as int, 20));
            }
        }
        rest = rest / 10;
    }
    Digits { buffer, start }
}

/// Spells `value` in decimal.
pub fn format_decimal(value: u64) -> (text: Vec<u8>)
    ensures
        text@ == decimal(value as nat),
{
    let digits = format_digits(value);
    let mut text: Vec<u8> = Vec::new();
    let mut i: usize = digits.start;
    while i < DIGITS_CAPACITY
        invariant
            digits.start <= i <= DIGITS_CAPACITY,
            text@ == digits.buffer@.subrange(digits.start as int, i as int),
        decreases DIGITS_CAPACITY - i,
    {
        text.push(digits.buffer[i]);
        i += 1;
        assert(text@ == digits.buffer@.subrange(digits.start as int, i as int));
    }
    text
}

impl Label {
    /// The bytes to draw for this label.
    pub fn text(&self) -> (text: Vec<u8>)
        ensures
            text@ == label_text(*self),
    {
        match *self {
            Label::Banner => {
                let mut text: Vec<u8> = Vec::new();
                text.push(45u8);
                text.push(61u8);
                text.push(69u8);
                text.push(119u8);
                text.push(101u8);
                text.push(110u8);
                text.push(61u8);
                text.push(45u8);
                assert(text@ == banner());
                text
            },
            Label::Number(n) => format_decimal(n),
            Label::Touch(x, y) => {
                let mut text = format_decimal(x as u64);
                text.push(44u8);
                let tail = format_decimal(y as u64);
                let mut i: usize = 0;
                while i < tail.len()
                    invariant
                        i <= tail@.len(),
                        text@ == decimal(x as nat) + seq![44u8] + tail@.take(i as int),
                    decreases tail.len() - i,
                {
                    text.push(tail[i]);
                    i += 1;
                    assert(text@ == decimal(x as nat) + seq![44u8] + tail@.take(i as int));
                }
                assert(tail@.take(i as int) == tail@);
                text
            },
        }
    }
}

} // verus!
