//! The structured input values that the query parsers consume.
//!
//! A request body is a JSON-like tree.  Numbers are exact non-negative
//! decimals (`mantissa / 10^scale`) rather than machine floats, so the
//! coercion to a fixed-point boost can be stated and proved exactly.
//! Object entries are held as a key/value list; a producer that works from
//! an ordered map hands the entries over sorted by key.

use vstd::arithmetic::div_mod::{
    lemma_div_denominator, lemma_div_is_ordered_by_denominator, lemma_div_pos_is_pos,
};
use vstd::prelude::*;

use crate::score::{sat64, SCALE};

verus! {

/// A non-negative decimal number: `mantissa / 10^scale`.
#[derive(Debug, Clone, Copy, PartialEq, Eq)]
pub struct Number {
    pub mantissa: u64,
    pub scale: u32,
}

/// A JSON-like structured value, the input of every query parser.
#[derive(Debug, PartialEq)]
pub enum JsonValue {
    Object(Vec<(String, JsonValue)>),
    Array(Vec<JsonValue>),
    String(String),
    Number(Number),
    Boolean(bool),
    Null,
}

/// `10^k`.
pub open spec fn pow10(k: nat) -> int
    decreases k,
{
    if k == 0 {
        1
    } else {
        10 * pow10((k - 1) as nat)
    }
}

proof fn lemma_pow10_pos(k: nat)
    ensures
        pow10(k) >= 1,
    decreases k,
{
    if k > 0 {
        lemma_pow10_pos((k - 1) as nat);
    }
}

proof fn lemma_pow10_mono(i: nat, j: nat)
    requires
        i <= j,
    ensures
        pow10(i) <= pow10(j),
    decreases j,
{
    lemma_pow10_pos(i);
    if i < j {
        lemma_pow10_mono(i, (j - 1) as nat);
        lemma_pow10_pos((j - 1) as nat);
    }
}

/// The fixed-point value of a decimal number, truncated to the scale
/// and clamped into the `u64` range.
pub open spec fn spec_number_millis(n: Number) -> u64 {
    sat64((n.mantissa * SCALE) / pow10(n.scale as nat))
}

impl Number {
    /// Coerce this decimal to fixed-point thousandths, truncating.
    pub fn to_millis(&self) -> (r: u64)
        ensures
            r == spec_number_millis(*self),
    {
        let full: u128 = (self.mantissa as u128) * (SCALE as u128);
        let ghost total: int = self.mantissa * SCALE;
        let mut v: u128 = full;
        let mut i: u32 = 0;
        proof {
            lemma_pow10_pos(0);
        }
        while i < self.scale && v > 0
            invariant
                i <= self.scale,
                pow10(i as nat) >= 1,
                v == total / pow10(i as nat),
                total == self.mantissa * SCALE,
            decreases self.scale - i,
        {
            proof {
                lemma_pow10_pos(i as nat);
                lemma_pow10_pos((i + 1) as nat);
                lemma_div_denominator(total, pow10(i as nat), 10);
                assert(pow10(i as nat) * 10 == pow10((i + 1) as nat));
            }
            v = v / 10;
            i = i + 1;
        }
        proof {
            lemma_pow10_pos(i as nat);
            lemma_pow10_pos(self.scale as nat);
            if v == 0 && i < self.scale {
                // the value already truncated to zero; further scale digits keep it there
                lemma_pow10_mono(i as nat, self.scale as nat);
                lemma_div_pos_is_pos(total, pow10(self.scale as nat));
                lemma_div_is_ordered_by_denominator(
                    total,
                    pow10(i as nat),
                    pow10(self.scale as nat),
                );
            }
        }
        if v > u64::MAX as u128 {
            u64::MAX
        } else {
            v as u64
        }
    }
}

} // verus!
