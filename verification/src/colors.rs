//! Colors as three unclamped channels.
use vstd::prelude::*;
use vstd::arithmetic::div_mod::{lemma_basic_div, lemma_div_multiples_vanish_quotient};
use vstd::arithmetic::power2::{lemma2_to64_rest, lemma_pow2_adds, lemma_pow2_pos, lemma_pow2_strictly_increases, lemma_pow2_unfold, pow2};
use crate::scalar::{Scalar, HIDDEN_BIT};

verus! {

/// A color: red, green and blue, each a number without bounds. Bringing a
/// channel into a displayable range is left to whoever encodes the image.
#[derive(Debug, Copy, Clone, PartialEq)]
pub struct Color {
    pub red: Scalar,
    pub green: Scalar,
    pub blue: Scalar,
}

/// A walk over the channels of one color.
#[derive(Debug, Copy, Clone)]
pub struct ColorIterator {
    pub color: Color,
    pub index: u8,
}

impl Color {
    /// The color with the given channels.
    pub fn new(red: Scalar, green: Scalar, blue: Scalar) -> (c: Self)
        ensures
            c.red == red,
            c.green == green,
            c.blue == blue,
    {
        Color { red, green, blue }
    }

    /// Whether every channel is positive zero.
    pub open spec fn is_black(self) -> bool {
        self.red.bits == 0 && self.green.bits == 0 && self.blue.bits == 0
    }

    /// Whether every channel is one.
    pub open spec fn is_white(self) -> bool {
        &&& self.red.bits == 0x3FF0_0000_0000_0000
        &&& self.green.bits == 0x3FF0_0000_0000_0000
        &&& self.blue.bits == 0x3FF0_0000_0000_0000
    }

    /// No light at all.
    pub fn black() -> (c: Self)
        ensures
            c.is_black(),
    {
        Color { red: Scalar::zero(), green: Scalar::zero(), blue: Scalar::zero() }
    }

    /// Full light in every channel.
    pub fn white() -> (c: Self)
        ensures
            c.is_white(),
    {
        Color { red: Scalar::one(), green: Scalar::one(), blue: Scalar::one() }
    }

    /// The channel at place `i`: red, green, blue.
    pub open spec fn channel(self, i: int) -> Scalar {
        if i == 0 {
            self.red
        } else if i == 1 {
            self.green
        } else {
            self.blue
        }
    }

    /// A walk over the channels in the order red, green, blue.
    pub fn iter(&self) -> (it: ColorIterator)
        ensures
            it.color == *self,
            it.index == 0,
    {
        ColorIterator { color: *self, index: 0 }
    }
}

/// A channel as a byte for display: 0 below zero, 255 from one on, and in
/// between 256 times the channel, rounded down. What is not a number
/// shows as 0.
pub open spec fn spec_to_byte(v: Scalar) -> int {
    if v.spec_is_nan() || v.rank() < 0 {
        0
    } else if v.rank() >= 0x3FF0_0000_0000_0000 {
        255
    } else {
        v.size() / (pow2(1066) as int)
    }
}

/// A channel as a byte for display: 0 below zero, 255 from one on, and in
/// between 256 times the channel, rounded down.
pub fn to_byte(v: Scalar) -> (b: u8)
    ensures
        b == spec_to_byte(v),
{
    if v.is_nan() || v.lt(Scalar::zero()) {
        return 0;
    }
    if v.ge(Scalar::one()) {
        return 255;
    }
    let m: u64 = v.abs().to_bits();
    let e: u64 = m / HIDDEN_BIT;
    let f: u64 = m % HIDDEN_BIT;
    proof {
        lemma2_to64_rest();
        assert(v.exponent() == e);
        assert(v.fraction() == f);
        assert(e <= 1022);
    }
    if e < 1015 {
        proof {
            lemma_small_channel(v);
        }
        return 0;
    }
    let mut d: u64 = 0x2000_0000_0000;
    let mut k: u64 = 1022;
    while k > e
        invariant
            1015 <= e <= k <= 1022,
            d == pow2((1067 - k) as nat),
            0x2000_0000_0000 <= d <= 0x10_0000_0000_0000,
        decreases k,
    {
        proof {
            lemma_pow2_unfold((1067 - k + 1) as nat);
            lemma2_to64_rest();
            if k > 1015 {
                lemma_pow2_strictly_increases((1067 - k + 1) as nat, 53);
            }
        }
        d = d * 2;
        k = k - 1;
    }
    proof {
        let p = pow2((e - 1) as nat) as int;
        lemma_pow2_pos((e - 1) as nat);
        lemma_pow2_adds((e - 1) as nat, (1067 - e) as nat);
        lemma_div_multiples_vanish_quotient(p, HIDDEN_BIT + f, d as int);
        assert(v.size() == (HIDDEN_BIT + f) * p);
        assert((HIDDEN_BIT + f) * p == p * (HIDDEN_BIT + f)) by (nonlinear_arith);
        assert(pow2(1066) == p * d);
        assert((HIDDEN_BIT + f) / (d as int) < 256) by (nonlinear_arith)
            requires
                0 <= HIDDEN_BIT + f < 0x20_0000_0000_0000,
                0x2000_0000_0000 <= d,
        ;
    }
    ((HIDDEN_BIT + f) / d) as u8
}

/// A channel of less than two to the power of -8 shows as 0.
proof fn lemma_small_channel(v: Scalar)
    requires
        v.exponent() < 1015,
    ensures
        v.size() / (pow2(1066) as int) == 0,
{
    let e = v.exponent();
    let f = v.fraction();
    let h = HIDDEN_BIT as int;
    lemma2_to64_rest();
    lemma_pow2_strictly_increases(52, 1066);
    if e > 0 {
        let p = pow2((e - 1) as nat) as int;
        lemma_pow2_pos((e - 1) as nat);
        lemma_pow2_adds(53, (e - 1) as nat);
        if e + 52 < 1066 {
            lemma_pow2_strictly_increases((e + 52) as nat, 1066);
        }
        assert(0 <= (h + f) * p < 0x20_0000_0000_0000 * p) by (nonlinear_arith)
            requires
                0 <= f < h,
                h == 0x10_0000_0000_0000,
                0 < p,
        ;
    }
    lemma_basic_div(v.size(), pow2(1066) as int);
}

/// The byte of a channel between zero and one is 256 times the channel,
/// rounded down: the channel lies between the byte and the byte plus one,
/// each divided by 256.
pub proof fn lemma_byte_is_floor(v: Scalar)
    requires
        v.is_number(),
        0 <= v.rank() < 0x3FF0_0000_0000_0000,
    ensures
        0 <= spec_to_byte(v) <= 255,
        spec_to_byte(v) * pow2(1066) <= v.scaled_value() < (spec_to_byte(v) + 1) * pow2(1066),
{
    let one = Scalar { bits: 0x3FF0_0000_0000_0000 };
    let zero = Scalar { bits: 0 };
    let unit = pow2(1066) as int;
    lemma_pow2_pos(1066);
    crate::scalar::lemma_one_is_one();
    crate::scalar::lemma_rank_orders_values(v, one);
    crate::scalar::lemma_rank_orders_values(zero, v);
    lemma_pow2_adds(8, 1066);
    vstd::arithmetic::power2::lemma2_to64();
    assert(0 <= v.size() < 256 * unit);
    vstd::arithmetic::div_mod::lemma_fundamental_div_mod(v.size(), unit);
    vstd::arithmetic::div_mod::lemma_mod_bound(v.size(), unit);
    let b = v.size() / unit;
    assert(unit * b + v.size() % unit == v.size());
    assert(unit * b == b * unit) by (nonlinear_arith);
    assert((b + 1) * unit == b * unit + unit) by (nonlinear_arith);
    assert(0 <= b <= 255) by (nonlinear_arith)
        requires
            0 <= v.size() < 256 * unit,
            b * unit <= v.size(),
            v.size() < b * unit + unit,
            0 < unit,
    ;
}

impl Color {
    /// The color as three bytes for display: red, green, blue.
    pub fn to_bytes(&self) -> (b: [u8; 3])
        ensures
            b[0] == spec_to_byte(self.red),
            b[1] == spec_to_byte(self.green),
            b[2] == spec_to_byte(self.blue),
    {
        [to_byte(self.red), to_byte(self.green), to_byte(self.blue)]
    }

    /// The color as one word for a frame buffer: the byte of red above the
    /// byte of green above the byte of blue, and nothing above red.
    pub fn to_u32(&self) -> (w: u32)
        ensures
            w == spec_to_byte(self.red) * 0x1_0000 + spec_to_byte(self.green) * 0x100
                + spec_to_byte(self.blue),
    {
        let r: u32 = to_byte(self.red) as u32;
        let g: u32 = to_byte(self.green) as u32;
        let b: u32 = to_byte(self.blue) as u32;
        r * 0x1_0000 + g * 0x100 + b
    }
}

impl Default for Color {
    /// Black.
    fn default() -> (c: Self)
        ensures
            c.is_black(),
    {
        Color::black()
    }
}

impl ColorIterator {
    /// The next channel, until all three have been given.
    pub fn next(&mut self) -> (r: Option<Scalar>)
        ensures
            final(self).color == old(self).color,
            old(self).index < 3 ==> r == Some(old(self).color.channel(old(self).index as int))
                && final(self).index == old(self).index + 1,
            old(self).index >= 3 ==> r.is_none() && final(self).index == old(self).index,
    {
        let v: Scalar = if self.index == 0 {
            self.color.red
        } else if self.index == 1 {
            self.color.green
        } else if self.index == 2 {
            self.color.blue
        } else {
            return None;
        };
        self.index += 1;
        Some(v)
    }
}

} // verus!
