//! Amounts of money as decimal numbers with an explicit scale.

use crate::text::{
    chars_of, dec_bounded, dec_string_wide, dec_text, free_of, lemma_dec_round_trip,
    lemma_leading_zeros, lemma_split_pair, lemma_split_plain, parse_dec_wide, split_ranges,
    split_text,
};
use vstd::prelude::*;

verus! {

/// The number `mantissa / 10^scale`.  Two values with different scales are
/// different values, also where they are the same number.
#[derive(Debug, Clone, Copy, PartialEq, Eq, Hash, Structural)]
pub struct Decimal {
    pub mantissa: u128,
    pub scale: u32,
}

/// `n` zero digits.
pub open spec fn zeros(n: nat) -> Seq<char> {
    Seq::new(n, |i: int| '0')
}

/// How a decimal number is written: the digits of the mantissa, with a
/// point before the last `scale` of them, and zeros added in front where
/// there are too few digits.  No point is written for scale zero.
pub open spec fn decimal_text(d: Decimal) -> Seq<char> {
    let digits = dec_text(d.mantissa as nat);
    let scale = d.scale as int;
    if scale == 0 {
        digits
    } else if digits.len() > scale {
        digits.subrange(0, digits.len() - scale) + "."@ + digits.subrange(
            digits.len() - scale,
            digits.len() as int,
        )
    } else {
        "0."@ + zeros((scale - digits.len()) as nat) + digits
    }
}

/// The decimal number that a text writes: digits, or digits, a point and
/// digits.
pub open spec fn decimal_parsed(s: Seq<char>) -> Option<Decimal> {
    let parts = split_text(s, '.');
    if parts.len() == 1 {
        match dec_bounded(parts[0], u128::MAX as nat) {
            Some(m) => Some(Decimal { mantissa: m as u128, scale: 0 }),
            None => None,
        }
    } else if parts.len() == 2 && parts[0].len() > 0 && 0 < parts[1].len() <= u32::MAX {
        match dec_bounded(parts[0] + parts[1], u128::MAX as nat) {
            Some(m) => Some(Decimal { mantissa: m as u128, scale: parts[1].len() as u32 }),
            None => None,
        }
    } else {
        None
    }
}

impl Decimal {
    /// The mantissa of `n` times this number, which has the same scale.
    pub open spec fn times(self, n: nat) -> nat {
        self.mantissa as nat * n
    }

    pub fn new(mantissa: u128, scale: u32) -> (d: Decimal)
        ensures
            d == (Decimal { mantissa, scale }),
    {
        Decimal { mantissa, scale }
    }

    /// `qty` times this number, if its mantissa can be held.
    pub fn mul_qty(&self, qty: u32) -> (r: Option<Decimal>)
        ensures
            match r {
                Some(d) => d.scale == self.scale && d.mantissa == self.times(qty as nat),
                None => self.times(qty as nat) > u128::MAX,
            },
    {
        match self.mantissa.checked_mul(qty as u128) {
            Some(m) => Some(Decimal { mantissa: m, scale: self.scale }),
            None => None,
        }
    }

    /// The sum of two numbers of one scale, if its mantissa can be held.
    pub fn checked_add(&self, other: &Decimal) -> (r: Option<Decimal>)
        ensures
            match r {
                Some(d) => self.scale == other.scale && d.scale == self.scale && d.mantissa
                    == self.mantissa + other.mantissa,
                None => self.scale != other.scale || self.mantissa + other.mantissa > u128::MAX,
            },
    {
        if self.scale != other.scale {
            return None;
        }
        match self.mantissa.checked_add(other.mantissa) {
            Some(m) => Some(Decimal { mantissa: m, scale: self.scale }),
            None => None,
        }
    }

    /// Writes the number.
    pub fn to_text(&self) -> (r: String)
        ensures
            r@ == decimal_text(*self),
    {
        let digits = dec_string_wide(self.mantissa);
        if self.scale == 0 {
            return digits;
        }
        let cs = chars_of(digits.as_str());
        let n = cs.len();
        let scale = self.scale as usize;
        let mut out = String::new();
        if n > scale {
            let cut = n - scale;
            let mut i: usize = 0;
            while i < n
                invariant
                    i <= n == cs.len(),
                    0 < cut < n,
                    out@ == if i <= cut {
                        cs@.subrange(0, i as int)
                    } else {
                        cs@.subrange(0, cut as int).push('.') + cs@.subrange(cut as int, i as int)
                    },
                decreases n - i,
            {
                if i == cut {
                    out.push('.');
                }
                out.push(cs[i]);
                i += 1;
            }
            proof {
                reveal_strlit(".");
            }
            out
        } else {
            out.push('0');
            out.push('.');
            let pad = scale - n;
            let mut k: usize = 0;
            while k < pad
                invariant
                    k <= pad,
                    out@ == seq!['0', '.'] + zeros(k as nat),
                decreases pad - k,
            {
                out.push('0');
                k += 1;
            }
            let mut i: usize = 0;
            while i < n
                invariant
                    i <= n == cs.len(),
                    out@ == seq!['0', '.'] + zeros(pad as nat) + cs@.subrange(0, i as int),
                decreases n - i,
            {
                out.push(cs[i]);
                i += 1;
            }
            proof {
                reveal_strlit("0.");
            }
            out
        }
    }

    /// Reads a number.
    pub fn parse(s: &str) -> (r: Option<Decimal>)
        ensures
            r == decimal_parsed(s@),
    {
        let cs = chars_of(s);
        let ranges = split_ranges(&cs, '.');
        if ranges.len() == 1 {
            let (a, b) = ranges[0];
            match parse_dec_wide(&cs, a, b) {
                Some(m) => Some(Decimal { mantissa: m, scale: 0 }),
                None => None,
            }
        } else if ranges.len() == 2 {
            let (a, b) = ranges[0];
            let (c, d) = ranges[1];
            if a == b || c == d || d - c > u32::MAX as usize {
                return None;
            }
            let mut all: Vec<char> = Vec::new();
            let mut i: usize = a;
            while i < b
                invariant
                    a <= i <= b <= cs.len(),
                    all@ == cs@.subrange(a as int, i as int),
                decreases b - i,
            {
                all.push(cs[i]);
                i += 1;
            }
            let mut j: usize = c;
            while j < d
                invariant
                    c <= j <= d <= cs.len(),
                    all@ == cs@.subrange(a as int, b as int) + cs@.subrange(c as int, j as int),
                decreases d - j,
            {
                all.push(cs[j]);
                j += 1;
            }
            assert(all@.subrange(0, all@.len() as int) =~= all@);
            match parse_dec_wide(&all, 0, all.len()) {
                Some(m) => Some(Decimal { mantissa: m, scale: (d - c) as u32 }),
                None => None,
            }
        } else {
            None
        }
    }
}

/// Reading what was written gives the number back, with its scale.
pub proof fn lemma_decimal_round_trip(d: Decimal)
    ensures
        decimal_parsed(decimal_text(d)) == Some(d),
{
    let digits = dec_text(d.mantissa as nat);
    let scale = d.scale as int;
    let text = decimal_text(d);
    lemma_dec_round_trip(d.mantissa as nat);
    reveal_strlit(".");
    reveal_strlit("0.");
    if scale == 0 {
        lemma_split_plain(digits, '.');
    } else if digits.len() > scale {
        let a = digits.subrange(0, digits.len() - scale);
        let b = digits.subrange(digits.len() - scale, digits.len() as int);
        assert(free_of(b, '.')) by {
        }
        assert(text =~= a.push('.') + b);
        lemma_split_pair(a, b, '.');
        assert(a + b =~= digits);
    } else {
        let pad = (scale - digits.len()) as nat;
        let a = seq!['0'];
        let b = zeros(pad) + digits;
        assert(text =~= a.push('.') + b);
        lemma_split_pair(a, b, '.');
        let all = a + b;
        assert(all =~= Seq::new(pad + 1, |i: int| '0') + digits);
        lemma_leading_zeros(pad + 1, digits);
    }
}

} // verus!
