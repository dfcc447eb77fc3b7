//! Numeric literals: one or more hexadecimal digit characters followed by
//! an optional base suffix (`H` for hexadecimal, `Q` for octal, none for
//! decimal). Digits are hex-digit characters regardless of base; a digit
//! whose value reaches the declared base is rejected, as is any value that
//! does not fit in 16 bits.

use vstd::prelude::*;
use crate::assembler::parse::{L_H, L_Q};

verus! {

/// A parsed numeric literal, already reduced to its 16-bit value.
#[derive(Clone, Copy, Debug, PartialEq, Eq, Structural)]
pub struct LiteralNumber {
    pub value: u16,
}

/// A base suffix character.
#[derive(Clone, Copy, Debug, PartialEq, Eq, Structural)]
pub enum Base {
    Hex,
    Octal,
}

/// A digit character: `0` to `9` or `A` to `F`.
pub open spec fn is_digit_byte(b: u8) -> bool {
    (48 <= b <= 57) || (65 <= b <= 70)
}

/// The numeric value of one digit character.
pub open spec fn spec_digit_val(b: u8) -> int {
    if 48 <= b <= 57 {
        b - 48
    } else {
        b - 55
    }
}

/// The digit characters of a number word: everything before the base
/// suffix, or the whole word when there is none.
pub open spec fn spec_number_digits(w: Seq<u8>) -> Seq<u8> {
    if w.len() > 0 && (w.last() == L_H || w.last() == L_Q) {
        w.drop_last()
    } else {
        w
    }
}

/// The base a number word declares: 16 under an `H` suffix, 8 under `Q`,
/// 10 otherwise.
pub open spec fn spec_number_base(w: Seq<u8>) -> int {
    if w.len() > 0 && w.last() == L_H {
        16
    } else if w.len() > 0 && w.last() == L_Q {
        8
    } else {
        10
    }
}

/// The value a digit run denotes in the given base, most significant digit
/// first.
pub open spec fn spec_digits_value(ds: Seq<u8>, base: int) -> int
    decreases ds.len(),
{
    if ds.len() == 0 {
        0
    } else {
        spec_digits_value(ds.drop_last(), base) * base + spec_digit_val(ds.last())
    }
}

/// True of the words the numeric-literal grammar accepts: at least one
/// digit, every digit a hex-digit character whose value is below the
/// declared base.
pub open spec fn spec_is_number_word(w: Seq<u8>) -> bool {
    let ds = spec_number_digits(w);
    &&& ds.len() > 0
    &&& forall|i: int|
        0 <= i < ds.len() ==> is_digit_byte(#[trigger] ds[i]) && spec_digit_val(ds[i])
            < spec_number_base(w)
}

/// The value a number word denotes.
pub open spec fn spec_number_value(w: Seq<u8>) -> int {
    spec_digits_value(spec_number_digits(w), spec_number_base(w))
}

/// A digit run's value only grows as digits are appended.
proof fn lemma_digits_value_monotone(ds: Seq<u8>, i: int, base: int)
    requires
        0 <= i <= ds.len(),
        base >= 1,
        forall|j: int| 0 <= j < ds.len() ==> 0 <= spec_digit_val(#[trigger] ds[j]),
    ensures
        spec_digits_value(ds.take(i), base) <= spec_digits_value(ds, base),
        spec_digits_value(ds, base) >= 0,
    decreases ds.len() - i,
{
    if i == ds.len() {
        assert(ds.take(i) =~= ds);
        lemma_digits_value_nonneg(ds, base);
    } else {
        let shorter = ds.take(i);
        let longer = ds.take(i + 1);
        assert(longer.drop_last() =~= shorter);
        assert(longer.last() == ds[i]);
        lemma_digits_value_nonneg(shorter, base);
        assert(spec_digits_value(shorter, base) * base >= spec_digits_value(shorter, base))
            by (nonlinear_arith)
            requires
                base >= 1,
                spec_digits_value(shorter, base) >= 0,
        ;
        lemma_digits_value_monotone(ds, i + 1, base);
    }
}

/// A digit run of non-negative digits has a non-negative value.
proof fn lemma_digits_value_nonneg(ds: Seq<u8>, base: int)
    requires
        base >= 1,
        forall|j: int| 0 <= j < ds.len() ==> 0 <= spec_digit_val(#[trigger] ds[j]),
    ensures
        spec_digits_value(ds, base) >= 0,
    decreases ds.len(),
{
    if ds.len() > 0 {
        lemma_digits_value_nonneg(ds.drop_last(), base);
        assert(spec_digits_value(ds.drop_last(), base) * base >= 0) by (nonlinear_arith)
            requires
                base >= 1,
                spec_digits_value(ds.drop_last(), base) >= 0,
        ;
    }
}

/// Parses the word `src[start..end]` as a numeric literal. Succeeds with
/// the denoted value exactly when the word is well-formed under its
/// declared base and the value fits in 16 bits.
pub fn parse_literal_number(src: &[u8], start: usize, end: usize) -> (r: Option<LiteralNumber>)
    requires
        start <= end <= src@.len(),
    ensures
        match r {
            Some(n) => spec_is_number_word(src@.subrange(start as int, end as int))
                && spec_number_value(src@.subrange(start as int, end as int)) == n.value,
            None => !(spec_is_number_word(src@.subrange(start as int, end as int))
                && spec_number_value(src@.subrange(start as int, end as int)) <= 0xffff),
        },
{
    let ghost word = src@.subrange(start as int, end as int);
    let mut dig_end = end;
    let suffix: Option<Base> = if end > start && src[end - 1] == L_H {
        dig_end = end - 1;
        Some(Base::Hex)
    } else if end > start && src[end - 1] == L_Q {
        dig_end = end - 1;
        Some(Base::Octal)
    } else {
        None
    };
    let base: u32 = match suffix {
        Some(Base::Hex) => 16,
        Some(Base::Octal) => 8,
        None => 10,
    };
    proof {
        assert(spec_number_base(word) == base);
        assert(spec_number_digits(word) =~= src@.subrange(start as int, dig_end as int));
    }
    let ghost digits = spec_number_digits(word);
    if dig_end == start {
        return None;
    }
    let mut acc: u32 = 0;
    let mut i = start;
    while i < dig_end
        invariant
            start <= i <= dig_end <= src@.len(),
            word == src@.subrange(start as int, end as int),
            digits == spec_number_digits(word),
            digits == src@.subrange(start as int, dig_end as int),
            8 <= base <= 16,
            base == spec_number_base(word),
            acc <= 0xffff,
            acc == spec_digits_value(digits.take(i - start), base as int),
            forall|j: int|
                0 <= j < i - start ==> is_digit_byte(#[trigger] digits[j]) && spec_digit_val(
                    digits[j],
                ) < base,
        decreases dig_end - i,
    {
        let b = src[i];
        proof {
            assert(spec_number_digits(word)[i - start] == src@[i as int]);
        }
        let val: u32 = if 48 <= b && b <= 57 {
            (b - 48) as u32
        } else if 65 <= b && b <= 70 {
            (b - 55) as u32
        } else {
            proof {
                if spec_is_number_word(word) {
                    assert(is_digit_byte(spec_number_digits(word)[i - start]));
                }
            }
            return None;
        };
        if val >= base {
            proof {
                if spec_is_number_word(word) {
                    assert(spec_digit_val(spec_number_digits(word)[i - start]) < spec_number_base(
                        word,
                    ));
                }
            }
            return None;
        }
        proof {
            assert(acc * base + val < 0x110000) by (nonlinear_arith)
                requires
                    acc <= 0xffff,
                    base <= 16,
                    val < base,
            ;
        }
        acc = acc * base + val;
        proof {
            assert(digits.take(i + 1 - start).drop_last() =~= digits.take(i - start));
            assert(digits.take(i + 1 - start).last() == src@[i as int]);
        }
        if acc > 0xffff {
            proof {
                if spec_is_number_word(word) {
                    assert forall|j: int| 0 <= j < digits.len() implies 0 <= spec_digit_val(
                        #[trigger] digits[j],
                    ) by {
                        assert(is_digit_byte(spec_number_digits(word)[j]));
                    }
                    lemma_digits_value_monotone(digits, i + 1 - start, base as int);
                }
            }
            return None;
        }
        i = i + 1;
    }
    proof {
        assert(digits.take(dig_end - start) =~= digits);
    }
    Some(LiteralNumber { value: acc as u16 })
}

impl LiteralNumber {
    /// Narrows the value to eight bits; fails on anything larger.
    pub fn to_u8(&self) -> (r: Option<u8>)
        ensures
            match r {
                Some(b) => self.value < 256 && b == self.value,
                None => self.value >= 256,
            },
    {
        if self.value < 256 {
            Some(self.value as u8)
        } else {
            None
        }
    }
}

} // verus!
