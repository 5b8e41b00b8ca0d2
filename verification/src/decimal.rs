//! Numbers as decimal text: unsigned integers, and values with one decimal place.

use vstd::prelude::*;

verus! {

/// The ASCII code of the digit `d`.
pub open spec fn digit_byte(d: nat) -> u8
    recommends
        d < 10,
{
    (48 + d) as u8
}

/// The decimal digits of `n` as ASCII bytes, most significant first, without leading zeros.
pub open spec fn decimal_text(n: nat) -> Seq<u8>
    decreases n,
{
    if n < 10 {
        seq![digit_byte(n)]
    } else {
        decimal_text(n / 10).push(digit_byte(n % 10))
    }
}

/// The text of a number is never empty and holds digits only.
pub proof fn lemma_decimal_text_digits(n: nat)
    ensures
        decimal_text(n).len() >= 1,
        forall|i: int| 0 <= i < decimal_text(n).len() ==> 48 <= #[trigger] decimal_text(n)[i] <= 57,
    decreases n,
{
    if n >= 10 {
        lemma_decimal_text_digits(n / 10);
    }
}

/// Writes `n` in decimal.
pub fn format_u64(n: u64) -> (text: Vec<u8>)
    ensures
        text@ == decimal_text(n as nat),
{
    let mut text: Vec<u8> = Vec::new();
    text.push(48 + (n % 10) as u8);
    let mut rest: u64 = n / 10;
    while rest > 0
        invariant
            decimal_text(n as nat) == (if rest > 0 {
                decimal_text(rest as nat)
            } else {
                Seq::<u8>::empty()
            }) + text@,
        decreases rest,
    {
        let d: u8 = 48 + (rest % 10) as u8;
        let ghost before = text@;
        text.insert(0, d);
        proof {
            assert(text@ =~= seq![d] + before);
            if rest >= 10 {
                assert(decimal_text(rest as nat) + before =~= decimal_text((rest / 10) as nat)
                    + text@);
            } else {
                assert(decimal_text(rest as nat) + before =~= Seq::<u8>::empty() + text@);
            }
        }
        rest = rest / 10;
    }
    proof {
        assert(Seq::<u8>::empty() + text@ =~= text@);
    }
    text
}

/// A number with one decimal place, held as a count of tenths: the resolution at which the
/// sensor reports temperature and humidity.
#[derive(Debug, Clone, Copy, PartialEq, Eq, Structural)]
pub struct Decimal {
    /// Ten times the number.
    pub tenths: i32,
}

impl Decimal {
    /// The distance of the number from zero, in tenths.
    pub open spec fn magnitude(self) -> nat {
        if self.tenths < 0 {
            (-(self.tenths as int)) as nat
        } else {
            self.tenths as nat
        }
    }

    /// The number as text: a minus sign where it is below zero, the whole part, and the
    /// tenths digit behind a point unless that digit is zero.
    pub open spec fn text(self) -> Seq<u8> {
        let sign = if self.tenths < 0 {
            seq![45u8]
        } else {
            Seq::<u8>::empty()
        };
        let whole = decimal_text(self.magnitude() / 10);
        let fraction = if self.magnitude() % 10 == 0 {
            Seq::<u8>::empty()
        } else {
            seq![46u8, digit_byte(self.magnitude() % 10)]
        };
        sign + whole + fraction
    }

    /// The whole part of the number, rounded toward zero, with every number below zero
    /// taken as zero.
    pub open spec fn whole(self) -> nat {
        if self.tenths < 0 {
            0
        } else {
            self.tenths as nat / 10
        }
    }

    /// The text of a number holds digits, at most one minus sign, which comes first, and at
    /// most one point, which stands before the last digit: no other sign or separator occurs
    /// in it, whatever the number.
    pub proof fn lemma_text_shape(self)
        ensures
            self.text().len() >= 1,
            forall|i: int|
                0 <= i < self.text().len() ==> {
                    let b = #[trigger] self.text()[i];
                    ||| 48 <= b <= 57
                    ||| b == 45 && i == 0 && self.tenths < 0
                    ||| b == 46 && i == self.text().len() - 2 && i >= 1
                },
    {
        let whole = decimal_text(self.magnitude() / 10);
        lemma_decimal_text_digits(self.magnitude() / 10);
        let text = self.text();
        assert forall|i: int| 0 <= i < text.len() implies {
            let b = #[trigger] text[i];
            ||| 48 <= b <= 57
            ||| b == 45 && i == 0 && self.tenths < 0
            ||| b == 46 && i == text.len() - 2 && i >= 1
        } by {
            let shift: int = if self.tenths < 0 {
                1
            } else {
                0
            };
            if shift <= i < shift + whole.len() {
                assert(text[i] == whole[i - shift]);
            }
        }
    }

    /// The number that is `tenths` tenths.
    pub fn from_tenths(tenths: i32) -> (number: Decimal)
        ensures
            number.tenths == tenths,
    {
        Decimal { tenths }
    }

    /// Writes the number as text.
    pub fn format(&self) -> (text: Vec<u8>)
        ensures
            text@ == self.text(),
    {
        let magnitude: u32 = if self.tenths < 0 {
            (-(self.tenths as i64)) as u32
        } else {
            self.tenths as u32
        };
        let mut text: Vec<u8> = Vec::new();
        if self.tenths < 0 {
            text.push(45);
        }
        let ghost sign = text@;
        let mut whole = format_u64((magnitude / 10) as u64);
        text.append(&mut whole);
        let tenth: u8 = (magnitude % 10) as u8;
        if tenth != 0 {
            text.push(46);
            text.push(48 + tenth);
        }
        proof {
            let w = decimal_text(self.magnitude() / 10);
            if tenth != 0 {
                assert(text@ =~= sign + w + seq![46u8, digit_byte(self.magnitude() % 10)]);
            } else {
                assert(text@ =~= sign + w + Seq::<u8>::empty());
            }
        }
        text
    }

    /// The whole part of the number, rounded toward zero; zero for a number below zero.
    pub fn whole_part(&self) -> (whole: u32)
        ensures
            whole == self.whole(),
    {
        if self.tenths < 0 {
            0
        } else {
            (self.tenths / 10) as u32
        }
    }
}

} // verus!
