//! Display scale factors in exact arithmetic.

use vstd::prelude::*;

verus! {

/// The ratio between physical and logical pixels of a display, as a
/// fraction of two whole numbers: 5/4 stands for 1.25. A fraction with the
/// denominator 0 is no scale; it scales every length to 0.
#[derive(Clone, Copy, Debug, PartialEq, Eq, Structural)]
pub struct DpiScale {
    pub numerator: u32,
    pub denominator: u32,
}

impl DpiScale {
    /// `len` logical pixels in physical pixels: the product of the length
    /// and the scale, rounded down.
    pub open spec fn spec_scaled(self, len: int) -> int {
        if self.denominator == 0 {
            0
        } else {
            len * self.numerator / (self.denominator as int)
        }
    }

    /// A logical coordinate in physical pixels: the product of the
    /// coordinate and the scale, rounded down. Left of the origin the
    /// result is negative, however small the product.
    pub open spec fn spec_scaled_position(self, pos: int) -> int {
        if pos >= 0 {
            self.spec_scaled(pos)
        } else if self.denominator == 0 {
            0
        } else {
            -(((-pos) * self.numerator + self.denominator - 1) / (self.denominator as int))
        }
    }

    /// What a scale makes of a length or a coordinate of a display fits
    /// 64 bits, and a length stays a length.
    pub proof fn lemma_scaled_in_range(self, len: u32, pos: i32)
        ensures
            0 <= self.spec_scaled(len as int) <= u64::MAX,
            i64::MIN <= self.spec_scaled_position(pos as int) <= i64::MAX,
            pos >= 0 ==> self.spec_scaled_position(pos as int) >= 0,
    {
        let n = self.numerator as int;
        let d = self.denominator as int;
        if d > 0 {
            assert(0 <= len * n / d <= len * n && len * n <= 0xFFFF_FFFF * 0xFFFF_FFFF)
                by (nonlinear_arith)
                requires
                    0 <= len <= 0xFFFF_FFFF,
                    0 <= n <= 0xFFFF_FFFF,
                    d > 0,
            ;
            if pos >= 0 {
                assert(0 <= pos * n / d <= pos * n && pos * n <= 0x7FFF_FFFF * 0xFFFF_FFFF)
                    by (nonlinear_arith)
                    requires
                        0 <= pos <= 0x7FFF_FFFF,
                        0 <= n <= 0xFFFF_FFFF,
                        d > 0,
                ;
            } else {
                let m = (-pos) * n;
                assert(0 <= (m + d - 1) / d <= m && m <= 0x8000_0000 * 0xFFFF_FFFF)
                    by (nonlinear_arith)
                    requires
                        m == (-pos) * n,
                        0 < -pos <= 0x8000_0000,
                        0 <= n <= 0xFFFF_FFFF,
                        d > 0,
                ;
            }
        }
    }

    /// The scale 1.0.
    pub fn one() -> (s: DpiScale)
        ensures
            s == (DpiScale { numerator: 1, denominator: 1 }),
    {
        DpiScale { numerator: 1, denominator: 1 }
    }

    /// The scale `numerator / denominator`.
    pub fn from_ratio(numerator: u32, denominator: u32) -> (s: DpiScale)
        ensures
            s == (DpiScale { numerator, denominator }),
    {
        DpiScale { numerator, denominator }
    }

    /// The scale of so many thousandths: 1250 stands for 1.25.
    pub fn from_per_mille(per_mille: u32) -> (s: DpiScale)
        ensures
            s == (DpiScale { numerator: per_mille, denominator: 1000 }),
    {
        DpiScale { numerator: per_mille, denominator: 1000 }
    }

    pub fn scaled(&self, len: u32) -> (r: u64)
        ensures
            r == self.spec_scaled(len as int),
    {
        if self.denominator == 0 {
            return 0;
        }
        assert(len * self.numerator <= 0xFFFF_FFFF * 0xFFFF_FFFF) by (nonlinear_arith)
            requires
                0 <= len <= 0xFFFF_FFFF,
                0 <= self.numerator <= 0xFFFF_FFFF,
        ;
        len as u64 * self.numerator as u64 / self.denominator as u64
    }

    pub fn scaled_position(&self, pos: i32) -> (r: i64)
        ensures
            r == self.spec_scaled_position(pos as int),
    {
        if pos >= 0 {
            let r: u64 = self.scaled(pos as u32);
            assert(r <= pos * self.numerator) by (nonlinear_arith)
                requires
                    self.denominator > 0 ==> r == pos * self.numerator / (self.denominator as int),
                    self.denominator == 0 ==> r == 0,
                    pos >= 0,
                    self.numerator >= 0,
                    self.denominator >= 0,
            ;
            assert(pos * self.numerator <= 0x7FFF_FFFF * 0xFFFF_FFFF) by (nonlinear_arith)
                requires
                    0 <= pos <= 0x7FFF_FFFF,
                    0 <= self.numerator <= 0xFFFF_FFFF,
            ;
            r as i64
        } else if self.denominator == 0 {
            0
        } else {
            let back: u64 = (-(pos as i64)) as u64;
            assert(back * self.numerator <= 0x8000_0000 * 0xFFFF_FFFF) by (nonlinear_arith)
                requires
                    0 <= back <= 0x8000_0000,
                    0 <= self.numerator <= 0xFFFF_FFFF,
            ;
            let product: u64 = back * self.numerator as u64;
            let up: u64 = (product + self.denominator as u64 - 1) / self.denominator as u64;
            assert(up <= product) by (nonlinear_arith)
                requires
                    up == (product + self.denominator - 1) / (self.denominator as int),
                    self.denominator > 0,
                    product >= 0,
            ;
            -(up as i64)
        }
    }
}

} // verus!
