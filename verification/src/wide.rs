//! Numbers of 256 bits, as far as squared distances take them.
use vstd::prelude::*;

verus! {

/// Two to the 64th.
pub const HALF: u128 = 0x1_0000_0000_0000_0000;

/// Two to the 128th.
pub open spec fn full() -> int {
    HALF * HALF
}

/// A number of 256 bits.
#[derive(Clone, Copy, Debug, PartialEq, Eq, Structural)]
pub struct Wide {
    pub hi: u128,
    pub lo: u128,
}

/// A carry and the rest of a sum.
fn sum(a: u128, b: u128) -> (r: (u128, u128))
    ensures
        r.0 <= 1,
        r.0 * full() + r.1 == a + b,
{
    let room: u128 = u128::MAX - b;
    proof {
        assert(full() == 0x1_0000_0000_0000_0000 * 0x1_0000_0000_0000_0000);
    }
    if a <= room {
        (0, a + b)
    } else {
        (1, a - room - 1)
    }
}

impl Wide {
    /// The number.
    pub open spec fn value(self) -> int {
        self.hi * full() + self.lo
    }

    /// Is it less than another?
    pub fn less(self, other: Wide) -> (r: bool)
        ensures
            r == (self.value() < other.value()),
    {
        proof {
            let (a, b) = (self.hi as int, other.hi as int);
            assert(full() == 0x1_0000_0000_0000_0000 * 0x1_0000_0000_0000_0000);
            if a < b {
                assert(a * full() + full() <= b * full()) by (nonlinear_arith)
                    requires
                        a + 1 <= b,
                        full() >= 0,
                ;
            } else if b < a {
                assert(b * full() + full() <= a * full()) by (nonlinear_arith)
                    requires
                        b + 1 <= a,
                        full() >= 0,
                ;
            }
        }
        self.hi < other.hi || (self.hi == other.hi && self.lo < other.lo)
    }

    /// The square of a number of at most 96 bits.
    pub fn square(v: u128) -> (r: Wide)
        requires
            v < 0x1_0000_0000 * HALF,
        ensures
            r.value() == v * v,
            r.hi < 2 * HALF,
    {
        let a: u128 = v / HALF;
        let b: u128 = v % HALF;
        proof {
            vstd::arithmetic::div_mod::lemma_fundamental_div_mod(v as int, HALF as int);
            assert(a < 0x1_0000_0000);
            assert(b < HALF);
            assert(a * b < 0x1_0000_0000 * HALF) by (nonlinear_arith)
                requires
                    0 <= a < 0x1_0000_0000,
                    0 <= b < HALF,
            ;
            assert(b * b <= (HALF - 1) * (HALF - 1)) by (nonlinear_arith)
                requires
                    0 <= b <= HALF - 1,
            ;
            assert(a * a < 0x1_0000_0000 * 0x1_0000_0000) by (nonlinear_arith)
                requires
                    0 <= a < 0x1_0000_0000,
            ;
        }
        let cross: u128 = 2 * (a * b);
        let c: u128 = cross / HALF;
        let d: u128 = cross % HALF;
        proof {
            vstd::arithmetic::div_mod::lemma_fundamental_div_mod(cross as int, HALF as int);
        }
        let (carry, lo) = sum(d * HALF, b * b);
        let r = Wide { hi: a * a + c + carry, lo };
        proof {
            let h = HALF as int;
            let (x, y, k, l) = (a as int, b as int, c as int, d as int);
            assert((x * h + y) * (x * h + y) == x * x * (h * h) + 2 * (x * y) * h + y * y)
                by (nonlinear_arith);
            assert(2 * (x * y) * h == (k * h + l) * h) by (nonlinear_arith)
                requires
                    2 * (x * y) == k * h + l,
            ;
            assert((k * h + l) * h == k * (h * h) + l * h) by (nonlinear_arith);
            assert((x * x + k + carry) * full() == x * x * full() + k * full() + carry * full())
                by (nonlinear_arith);
            assert(v == x * h + y) by (nonlinear_arith)
                requires
                    v == h * x + y,
            ;
        }
        r
    }

    /// The sum of two numbers of at most 192 bits.
    pub fn plus(self, other: Wide) -> (r: Wide)
        requires
            self.hi < 2 * HALF,
            other.hi < 2 * HALF,
        ensures
            r.value() == self.value() + other.value(),
    {
        let (carry, lo) = sum(self.lo, other.lo);
        proof {
            assert((self.hi + other.hi + carry) * full() == self.hi * full() + other.hi * full()
                + carry * full()) by (nonlinear_arith);
        }
        Wide { hi: self.hi + other.hi + carry, lo }
    }
}

} // verus!
