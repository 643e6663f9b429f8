//! Numbers of the telemetry stream. A reading is a 64-bit IEEE 754 word and is
//! carried as it came; what is asked of it (its order, its whole part) is worked
//! out from the word in integers.
use vstd::arithmetic::power2::*;
use vstd::prelude::*;

verus! {

/// One more than the largest fraction field.
pub const FRACTION_SIZE: u64 = 0x10_0000_0000_0000;

/// The sign bit.
pub const SIGN_BIT: u64 = 0x8000_0000_0000_0000;

/// The word of positive infinity.
pub const INFINITY_WORD: u64 = 0x7FF0_0000_0000_0000;

/// The word of one half.
pub const HALF_WORD: u64 = 0x3FE0_0000_0000_0000;

/// A number: its 64-bit IEEE 754 word.
#[derive(Clone, Copy, Debug, PartialEq, Eq, Structural)]
pub struct Num {
    pub bits: u64,
}

/// A slider's number: its 32-bit IEEE 754 word.
#[derive(Clone, Copy, Debug, PartialEq, Eq, Structural)]
pub struct Num32 {
    pub bits: u32,
}

/// The word of one.
pub const ONE_WORD: u64 = 0x3FF0_0000_0000_0000;

impl Num {
    /// Is the sign bit set?
    pub open spec fn negative(self) -> bool {
        self.bits >= SIGN_BIT
    }

    /// The word without its sign bit.
    pub open spec fn size(self) -> int {
        if self.negative() {
            self.bits - SIGN_BIT
        } else {
            self.bits as int
        }
    }

    /// Not a number.
    pub open spec fn nan(self) -> bool {
        self.size() > INFINITY_WORD
    }

    /// Neither infinite nor `nan`.
    pub open spec fn finite(self) -> bool {
        self.size() < INFINITY_WORD
    }

    /// An integer that grows as the number does; both zeros have the same.
    pub open spec fn rank(self) -> int {
        if self.negative() {
            -self.size()
        } else {
            self.size()
        }
    }

    /// Is this number smaller than `other`? Nothing is smaller or larger than
    /// what is not a number.
    pub open spec fn below(self, other: Num) -> bool {
        !self.nan() && !other.nan() && self.rank() < other.rank()
    }

    /// The significand: the magnitude is this many units of the last place.
    pub open spec fn significand(self) -> nat {
        let e = self.size() / FRACTION_SIZE as int;
        let f = self.size() % FRACTION_SIZE as int;
        (if e == 0 {
            f
        } else {
            f + FRACTION_SIZE
        }) as nat
    }

    /// The unit of the last place is two to this power.
    pub open spec fn unit(self) -> int {
        let e = self.size() / FRACTION_SIZE as int;
        (if e == 0 {
            1
        } else {
            e
        }) - 1075
    }

    /// The whole part of the magnitude.
    pub open spec fn whole(self) -> nat {
        if self.unit() >= 0 {
            self.significand() * pow2(self.unit() as nat)
        } else {
            self.significand() / pow2((-self.unit()) as nat)
        }
    }

    /// The whole number nearest to the magnitude, upwards from halfway.
    pub open spec fn nearest(self) -> nat {
        if self.unit() >= 0 {
            self.significand() * pow2(self.unit() as nat)
        } else {
            (2 * self.significand() + pow2((-self.unit()) as nat)) / (2 * pow2(
                (-self.unit()) as nat,
            ))
        }
    }

    /// The nearest whole number within the range of `i64`, away from zero from
    /// halfway; zero for what is not a number.
    pub open spec fn rounded(self) -> int {
        if self.nan() {
            0
        } else if self.negative() {
            if self.nearest() > 0x8000_0000_0000_0000 {
                -0x8000_0000_0000_0000
            } else {
                -(self.nearest() as int)
            }
        } else if self.nearest() > 0x7FFF_FFFF_FFFF_FFFF {
            0x7FFF_FFFF_FFFF_FFFF
        } else {
            self.nearest() as int
        }
    }

    /// Build a number from its word.
    pub fn from_bits(bits: u64) -> (r: Num)
        ensures
            r.bits == bits,
    {
        Num { bits }
    }

    /// The word of the number.
    pub fn to_bits(self) -> (r: u64)
        ensures
            r == self.bits,
    {
        self.bits
    }

    /// The word without its sign bit.
    fn magnitude(self) -> (r: u64)
        ensures
            r == self.size(),
    {
        if self.bits >= SIGN_BIT {
            self.bits - SIGN_BIT
        } else {
            self.bits
        }
    }

    /// Is this not a number?
    pub fn is_nan(self) -> (r: bool)
        ensures
            r == self.nan(),
    {
        self.magnitude() > INFINITY_WORD
    }

    /// Is this number neither infinite nor `nan`?
    pub fn is_finite(self) -> (r: bool)
        ensures
            r == self.finite(),
    {
        self.magnitude() < INFINITY_WORD
    }

    /// Is this number smaller than `other`?
    pub fn is_below(self, other: Num) -> (r: bool)
        ensures
            r == self.below(other),
    {
        if self.is_nan() || other.is_nan() {
            return false;
        }
        let a: u64 = self.magnitude();
        let b: u64 = other.magnitude();
        if self.bits >= SIGN_BIT {
            if other.bits >= SIGN_BIT {
                a > b
            } else {
                a > 0 || b > 0
            }
        } else {
            other.bits < SIGN_BIT && a < b
        }
    }

    /// The number, or the bound that it lies beyond.
    pub open spec fn kept_within(self, lo: Num, hi: Num) -> Num {
        if self.below(lo) {
            lo
        } else if hi.below(self) {
            hi
        } else {
            self
        }
    }

    /// The number, or the bound that it lies beyond.
    pub fn clamp(self, lo: Num, hi: Num) -> (r: Num)
        ensures
            r == self.kept_within(lo, hi),
    {
        if self.is_below(lo) {
            lo
        } else if hi.is_below(self) {
            hi
        } else {
            self
        }
    }

    /// Is the magnitude more than one half?
    pub fn above_half(self) -> (r: bool)
        ensures
            r == (!self.nan() && self.size() > HALF_WORD),
    {
        let m: u64 = self.magnitude();
        m > HALF_WORD && m <= INFINITY_WORD
    }

    /// The number with its sign turned round.
    pub fn negated(self) -> (r: Num)
        ensures
            r.size() == self.size(),
            r.negative() != self.negative(),
    {
        if self.bits >= SIGN_BIT {
            Num { bits: self.bits - SIGN_BIT }
        } else {
            Num { bits: self.bits + SIGN_BIT }
        }
    }

    /// Significand, and the power of two of its unit.
    fn parts(self) -> (r: (u64, i64))
        ensures
            r.0 == self.significand(),
            r.1 == self.unit(),
            r.0 < 0x20_0000_0000_0000,
            -1074 <= r.1 <= 972,
            r.1 >= 0 ==> r.0 >= FRACTION_SIZE,
    {
        let m: u64 = self.magnitude();
        let e: u64 = m / FRACTION_SIZE;
        let f: u64 = m % FRACTION_SIZE;
        if e == 0 {
            (f, -1074)
        } else {
            (f + FRACTION_SIZE, e as i64 - 1075)
        }
    }

    /// The magnitude's whole part, at most `u64::MAX`.
    fn whole_u64(self) -> (r: u64)
        ensures
            r == if self.whole() > u64::MAX { u64::MAX as nat } else { self.whole() },
    {
        let (m, unit) = self.parts();
        proof {
            lemma2_to64();
            lemma2_to64_rest();
        }
        if unit >= 0 {
            proof {
                if unit > 11 {
                    if unit > 12 {
                        lemma_pow2_strictly_increases(12, unit as nat);
                    }
                    assert(m * pow2(unit as nat) > u64::MAX) by (nonlinear_arith)
                        requires
                            m >= 0x10_0000_0000_0000,
                            pow2(unit as nat) >= 4096,
                    ;
                } else if unit < 11 {
                    lemma_pow2_strictly_increases(unit as nat, 11);
                }
            }
            if unit > 11 {
                return u64::MAX;
            }
            let p: u64 = two_to(unit as u32);
            assert(m * p <= u64::MAX) by (nonlinear_arith)
                requires
                    m < 0x20_0000_0000_0000,
                    p <= 2048,
            ;
            m * p
        } else {
            let k: u64 = (-unit) as u64;
            if k >= 53 {
                proof {
                    if k > 53 {
                        lemma_pow2_strictly_increases(53, k as nat);
                    }
                    vstd::arithmetic::div_mod::lemma_basic_div(m as int, pow2(k as nat) as int);
                }
                return 0;
            }
            let p: u64 = two_to(k as u32);
            proof {
                lemma_pow2_pos(k as nat);
            }
            m / p
        }
    }

    /// The whole number nearest to the magnitude, at most `u64::MAX`.
    fn nearest_u64(self) -> (r: u64)
        ensures
            r == if self.nearest() > u64::MAX { u64::MAX as nat } else { self.nearest() },
    {
        let (m, unit) = self.parts();
        if unit >= 0 {
            return self.whole_u64();
        }
        proof {
            lemma2_to64();
            lemma2_to64_rest();
        }
        let k: u64 = (-unit) as u64;
        if k >= 54 {
            proof {
                if k > 54 {
                    lemma_pow2_strictly_increases(54, k as nat);
                }
                let q = pow2(k as nat) as int;
                vstd::arithmetic::div_mod::lemma_basic_div(2 * m + q, 2 * q);
            }
            return 0;
        }
        proof {
            if k < 53 {
                lemma_pow2_strictly_increases(k as nat, 53);
            }
            lemma_pow2_pos(k as nat);
        }
        let p: u64 = two_to(k as u32);
        let r: u64 = (2 * m + p) / (2 * p);
        proof {
            assert((2 * m + p) / (2 * p) <= 2 * m + p) by (nonlinear_arith)
                requires
                    p >= 1,
            ;
        }
        r
    }

    /// The nearest whole number within the range of `i64`, away from zero from
    /// halfway; zero for what is not a number.
    pub fn round_to_i64(self) -> (r: i64)
        ensures
            r == self.rounded(),
    {
        if self.is_nan() {
            return 0;
        }
        let n: u64 = self.nearest_u64();
        if self.bits >= SIGN_BIT {
            if n >= 0x8000_0000_0000_0000 {
                i64::MIN
            } else {
                -(n as i64)
            }
        } else if n > 0x7FFF_FFFF_FFFF_FFFF {
            i64::MAX
        } else {
            n as i64
        }
    }

    /// The bits of a flag word: the whole part of a finite number that is not
    /// negative, at most `u32::MAX`; zero for any other.
    pub fn flag_bits(self) -> (r: u32)
        ensures
            r == if !self.finite() || self.below((Num { bits: 0 })) {
                0
            } else if self.whole() > u32::MAX {
                u32::MAX as nat
            } else {
                self.whole()
            },
    {
        if !self.is_finite() || self.is_below(Num { bits: 0 }) {
            return 0;
        }
        let n: u64 = self.whole_u64();
        if n > u32::MAX as u64 {
            u32::MAX
        } else {
            n as u32
        }
    }
}

/// Two to the power `k`.
fn two_to(k: u32) -> (r: u64)
    requires
        k < 64,
    ensures
        r == pow2(k as nat),
{
    let mut p: u64 = 1;
    let mut i: u32 = 0;
    proof {
        lemma2_to64();
    }
    while i < k
        invariant
            i <= k < 64,
            p == pow2(i as nat),
        decreases k - i,
    {
        proof {
            lemma_pow2_unfold((i + 1) as nat);
            lemma2_to64_rest();
            if i + 1 < 63 {
                lemma_pow2_strictly_increases((i + 1) as nat, 63);
            }
        }
        p = p * 2;
        i = i + 1;
    }
    p
}

/// Every number lies above all that is below it, and none below itself.
pub proof fn below_is_an_order(a: Num, b: Num, c: Num)
    ensures
        !a.below(a),
        a.below(b) && b.below(c) ==> a.below(c),
        a.below(b) ==> !b.below(a),
{
}

} // verus!
