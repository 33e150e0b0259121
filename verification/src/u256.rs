//! A 256-bit unsigned integer built from two `u128` limbs.
//!
//! The curve math multiplies two 128-bit quantities before dividing, so the
//! intermediate values need a full 256-bit width.  Every operation here is
//! checked: nothing wraps silently, and each function's contract states the
//! exact mathematical value it computes.

use vstd::prelude::*;
use vstd::arithmetic::power2::{
    pow2, lemma2_to64, lemma2_to64_rest, lemma_pow2_adds, lemma_pow2_unfold,
    lemma_pow2_strictly_increases, lemma_pow2_pos,
};
use vstd::arithmetic::div_mod::{
    lemma_basic_div, lemma_div_basics, lemma_small_mod, lemma_fundamental_div_mod,
    lemma_fundamental_div_mod_converse,
};

verus! {

/// `2^64`.
pub open spec fn p64() -> nat {
    0x10000000000000000nat
}

/// `2^127`.
pub open spec fn p127() -> nat {
    0x80000000000000000000000000000000nat
}

/// `2^128`.
pub open spec fn p128() -> nat {
    0x100000000000000000000000000000000nat
}

/// `2^256`.
pub open spec fn p256() -> nat {
    0x10000000000000000000000000000000000000000000000000000000000000000nat
}

/// An unsigned 256-bit integer: `value == lo + hi * 2^128`.
#[derive(Clone, Copy, Debug, PartialEq, Eq, Structural)]
pub struct U256 {
    pub lo: u128,
    pub hi: u128,
}

impl U256 {
    /// The mathematical value held by this integer.
    pub open spec fn v(self) -> nat {
        self.lo as nat + self.hi as nat * p128()
    }

    pub proof fn lemma_v_bound(self)
        ensures
            self.v() < p256(),
    {
        assert(self.hi as nat * p128() <= (p128() - 1) * p128()) by (nonlinear_arith)
            requires
                (self.hi as nat) <= p128() - 1,
        ;
    }

    /// The limb representation of a mathematical value below `2^256`.
    pub open spec fn of_nat(n: nat) -> U256 {
        U256 { lo: (n % p128()) as u128, hi: (n / p128()) as u128 }
    }

    /// The limb representation of a value below `2^256` holds that value.
    pub proof fn lemma_of_nat_value(n: nat)
        requires
            n < p256(),
        ensures
            U256::of_nat(n).v() == n,
            U256::of_nat(n).lo == n % p128(),
            U256::of_nat(n).hi == n / p128(),
    {
        lemma_fundamental_div_mod(n as int, p128() as int);
        assert(n / p128() < p128() && p128() * (n / p128()) == (n / p128()) * p128())
            by (nonlinear_arith)
            requires
                n < p256(),
                p256() == p128() * p128(),
                n == p128() * (n / p128()) + n % p128(),
                0 <= n % p128() < p128(),
        ;
    }

    /// Limb representations are unique: a value's representation is itself.
    pub proof fn lemma_of_nat_roundtrip(self)
        ensures
            U256::of_nat(self.v()) == self,
    {
        let n = self.v();
        assert(n % p128() == self.lo && n / p128() == self.hi) by (nonlinear_arith)
            requires
                n == self.lo as nat + self.hi as nat * p128(),
                (self.lo as nat) < p128(),
        ;
    }

    pub fn zero() -> (r: Self)
        ensures
            r.v() == 0,
    {
        U256 { lo: 0, hi: 0 }
    }

    pub fn from_u128(x: u128) -> (r: Self)
        ensures
            r.v() == x,
    {
        U256 { lo: x, hi: 0 }
    }

    pub fn from_u64(x: u64) -> (r: Self)
        ensures
            r.v() == x,
    {
        U256 { lo: x as u128, hi: 0 }
    }

    pub fn is_zero(&self) -> (r: bool)
        ensures
            r == (self.v() == 0),
    {
        self.lo == 0 && self.hi == 0
    }

    /// If the value fits in 128 bits, return it.
    pub fn to_u128(self) -> (r: Option<u128>)
        ensures
            match r {
                Some(x) => self.v() == x,
                None => self.v() >= p128(),
            },
    {
        if self.hi == 0 {
            Some(self.lo)
        } else {
            proof {
                assert(self.hi as nat * p128() >= p128()) by (nonlinear_arith)
                    requires
                        self.hi >= 1,
                ;
            }
            None
        }
    }

    /// If the value fits in 64 bits, return it.
    pub fn to_u64(self) -> (r: Option<u64>)
        ensures
            match r {
                Some(x) => self.v() == x,
                None => self.v() > u64::MAX,
            },
    {
        if self.hi == 0 && self.lo <= u64::MAX as u128 {
            Some(self.lo as u64)
        } else {
            proof {
                if self.hi >= 1 {
                    assert(self.hi as nat * p128() >= p128()) by (nonlinear_arith)
                        requires
                            self.hi >= 1,
                    ;
                }
            }
            None
        }
    }

    /// Exact comparison.
    pub fn lt(&self, other: &Self) -> (r: bool)
        ensures
            r == (self.v() < other.v()),
    {
        proof {
            if self.hi < other.hi {
                assert(self.v() < other.v()) by (nonlinear_arith)
                    requires
                        self.hi < other.hi,
                        self.lo < p128(),
                        self.v() == self.lo as nat + self.hi as nat * p128(),
                        other.v() == other.lo as nat + other.hi as nat * p128(),
                ;
            }
            if self.hi > other.hi {
                assert(self.v() > other.v()) by (nonlinear_arith)
                    requires
                        self.hi > other.hi,
                        other.lo < p128(),
                        self.v() == self.lo as nat + self.hi as nat * p128(),
                        other.v() == other.lo as nat + other.hi as nat * p128(),
                ;
            }
        }
        if self.hi == other.hi {
            self.lo < other.lo
        } else {
            self.hi < other.hi
        }
    }

    pub fn le(&self, other: &Self) -> (r: bool)
        ensures
            r == (self.v() <= other.v()),
    {
        !other.lt(self)
    }

    /// Checked addition: `None` exactly when the sum does not fit.
    pub fn checked_add(self, other: Self) -> (r: Option<Self>)
        ensures
            match r {
                Some(s) => s.v() == self.v() + other.v(),
                None => self.v() + other.v() >= p256(),
            },
    {
        let (lo, carry): (u128, u128) = if u128::MAX - self.lo >= other.lo {
            (self.lo + other.lo, 0)
        } else {
            // self.lo + other.lo == 2^128 + (self.lo - (2^128 - other.lo))
            (self.lo - 1 - (u128::MAX - other.lo), 1)
        };
        if u128::MAX - self.hi >= carry && u128::MAX - (self.hi + carry) >= other.hi {
            let hi = self.hi + carry + other.hi;
            proof {
                assert((self.hi + carry + other.hi) as nat * p128() == self.hi as nat * p128()
                    + carry as nat * p128() + other.hi as nat * p128()) by (nonlinear_arith);
            }
            Some(U256 { lo, hi })
        } else {
            proof {
                assert((self.hi as nat + carry as nat + other.hi as nat) * p128() == self.hi as nat
                    * p128() + carry as nat * p128() + other.hi as nat * p128())
                    by (nonlinear_arith);
                assert((self.hi as nat + carry as nat + other.hi as nat) * p128() >= p128()
                    * p128()) by (nonlinear_arith)
                    requires
                        self.hi as nat + carry as nat + other.hi as nat >= p128(),
                ;
            }
            None
        }
    }

    /// Checked subtraction: `None` exactly on underflow.
    pub fn checked_sub(self, other: Self) -> (r: Option<Self>)
        ensures
            match r {
                Some(d) => other.v() <= self.v() && d.v() == self.v() - other.v(),
                None => other.v() > self.v(),
            },
    {
        if self.lt(&other) {
            None
        } else {
            Some(self.wrapping_sub(other))
        }
    }

    /// The high 128 bits: `value >> 128`.
    pub fn shr128(self) -> (r: u128)
        ensures
            r == self.v() / p128(),
    {
        proof {
            assert(self.v() / p128() == self.hi) by (nonlinear_arith)
                requires
                    self.v() == self.lo as nat + self.hi as nat * p128(),
                    (self.lo as nat) < p128(),
                    (self.hi as nat) < p128(),
            ;
        }
        self.hi
    }

    /// Subtraction modulo `2^256`.
    fn wrapping_sub(self, other: Self) -> (r: Self)
        ensures
            self.v() >= other.v() ==> r.v() == self.v() - other.v(),
            self.v() < other.v() ==> r.v() == self.v() + p256() - other.v(),
    {
        let (lo, borrow): (u128, u128) = if self.lo >= other.lo {
            (self.lo - other.lo, 0)
        } else {
            // 2^128 + self.lo - other.lo
            (u128::MAX - other.lo + 1 + self.lo, 1)
        };
        // high limb: self.hi - other.hi - borrow, wrapping at 2^128
        let hi: u128 = if self.hi >= other.hi {
            let d = self.hi - other.hi;
            if d >= borrow {
                d - borrow
            } else {
                u128::MAX
            }
        } else {
            u128::MAX - other.hi + 1 + self.hi - borrow
        };
        proof {
            let a = self.v() as int;
            let b = other.v() as int;
            let rr = lo as int + hi as int * (p128() as int);
            // the high limb wrapped exactly when a borrow left the top
            assert(rr == a - b || rr == a - b + p256() as int) by (nonlinear_arith)
                requires
                    a == self.lo as int + self.hi as int * (p128() as int),
                    b == other.lo as int + other.hi as int * (p128() as int),
                    rr == lo as int + hi as int * (p128() as int),
                    (lo as int == self.lo - other.lo && borrow == 0) || (lo as int == self.lo
                        - other.lo + p128() && borrow == 1),
                    (hi as int == self.hi - other.hi - borrow) || (hi as int == self.hi - other.hi
                        - borrow + p128()),
                    p256() == p128() * p128(),
            ;
            U256 { lo, hi }.lemma_v_bound();
            self.lemma_v_bound();
            other.lemma_v_bound();
        }
        U256 { lo, hi }
    }

    /// Double the value, reporting the bit shifted out.
    /// The result is `(2 * value) mod 2^256`; the flag is set exactly when
    /// the true double is `>= 2^256`.
    fn shl1_with_carry(self) -> (r: (Self, bool))
        ensures
            2 * self.v() == r.0.v() + if r.1 {
                p256()
            } else {
                0
            },
            r.0.lo % 2 == 0,
    {
        let carry = self.hi >= 0x80000000000000000000000000000000u128;
        let new_hi = (self.hi % 0x80000000000000000000000000000000u128) * 2 + self.lo
            / 0x80000000000000000000000000000000u128;
        let new_lo = (self.lo % 0x80000000000000000000000000000000u128) * 2;
        proof {
            let lo = self.lo as nat;
            let hi = self.hi as nat;
            assert(lo == (lo % p127()) + p127() * (lo / p127()) && hi == (hi % p127()) + p127() * (
            hi / p127())) by (nonlinear_arith)
                requires
                    p127() > 0,
            ;
            assert(2 * self.v() == new_lo as nat + new_hi as nat * p128() + (if carry {
                p256()
            } else {
                0
            })) by (nonlinear_arith)
                requires
                    self.v() == lo + hi * p128(),
                    lo == (lo % p127()) + p127() * (lo / p127()),
                    hi == (hi % p127()) + p127() * (hi / p127()),
                    lo < p128(),
                    hi < p128(),
                    new_lo as nat == (lo % p127()) * 2,
                    new_hi as nat == (hi % p127()) * 2 + lo / p127(),
                    carry == (hi / p127() == 1),
                    hi / p127() <= 1,
                    p128() == 2 * p127(),
                    p256() == p128() * p128(),
            ;
        }
        (U256 { lo: new_lo, hi: new_hi }, carry)
    }

    /// Double the value and bring in a low bit; requires headroom.
    fn shl1_in(self, bit: bool) -> (r: Self)
        requires
            2 * self.v() + 1 < p256(),
        ensures
            r.v() == 2 * self.v() + if bit {
                1nat
            } else {
                0nat
            },
    {
        let (shifted, carry) = self.shl1_with_carry();
        proof {
            if carry {
                assert(false);
            }
        }
        if bit {
            proof {
                // the doubled low limb is even, so adding one cannot overflow it
                assert(shifted.lo % 2 == 0 ==> shifted.lo < u128::MAX);
                assert(shifted.v() % 2 == 0 ==> shifted.lo % 2 == 0) by (nonlinear_arith)
                    requires
                        shifted.v() == shifted.lo as nat + shifted.hi as nat * p128(),
                        p128() % 2 == 0,
                ;
                assert((2 * self.v()) % 2 == 0) by (nonlinear_arith);
            }
            U256 { lo: shifted.lo + 1, hi: shifted.hi }
        } else {
            shifted
        }
    }

    /// Full 128x128 -> 256 bit multiplication; never overflows.
    pub fn mul_u128(x: u128, y: u128) -> (r: Self)
        ensures
            r.v() == x as nat * y as nat,
    {
        let xl = x % 0x10000000000000000u128;
        let xh = x / 0x10000000000000000u128;
        let yl = y % 0x10000000000000000u128;
        let yh = y / 0x10000000000000000u128;
        proof {
            assert(xl < p64() && xh < p64() && yl < p64() && yh < p64()) by (nonlinear_arith)
                requires
                    xl == x as nat % p64(),
                    xh == x as nat / p64(),
                    yl == y as nat % p64(),
                    yh == y as nat / p64(),
                    (x as nat) < p64() * p64(),
                    (y as nat) < p64() * p64(),
                    p64() > 0,
            ;
            assert(xl * yl < p128() && xl * yh < p128() && xh * yl < p128() && xh * yh < p128())
                by (nonlinear_arith)
                requires
                    xl < p64() && xh < p64() && yl < p64() && yh < p64(),
                    p128() == p64() * p64(),
            ;
        }
        let ll = xl * yl;
        let lh = xl * yh;
        let hl = xh * yl;
        let hh = xh * yh;
        // mid collects the two cross terms plus the carry out of ll; it
        // cannot overflow because each summand is below 2^128 - 2^64.
        proof {
            assert(ll <= (p64() - 1) * (p64() - 1) && lh <= (p64() - 1) * (p64() - 1) && hl <= (
            p64() - 1) * (p64() - 1) && hh <= (p64() - 1) * (p64() - 1)) by (nonlinear_arith)
                requires
                    ll == xl * yl,
                    lh == xl * yh,
                    hl == xh * yl,
                    hh == xh * yh,
                    xl < p64() && xh < p64() && yl < p64() && yh < p64(),
            ;
        }
        let t = ll / 0x10000000000000000u128 + lh % 0x10000000000000000u128 + hl
            % 0x10000000000000000u128;
        let lo = ll % 0x10000000000000000u128 + (t % 0x10000000000000000u128)
            * 0x10000000000000000u128;
        let hi = t / 0x10000000000000000u128 + lh / 0x10000000000000000u128 + hl
            / 0x10000000000000000u128 + hh;
        proof {
            let lln = ll as nat;
            let lhn = lh as nat;
            let hln = hl as nat;
            let hhn = hh as nat;
            let tn = t as nat;
            assert(lln == (lln % p64()) + p64() * (lln / p64()) && lhn == (lhn % p64()) + p64() * (
            lhn / p64()) && hln == (hln % p64()) + p64() * (hln / p64()) && tn == (tn % p64())
                + p64() * (tn / p64())) by (nonlinear_arith)
                requires
                    p64() > 0,
            ;
            assert(x as nat * y as nat == lln + (lhn + hln) * p64() + hhn * p128())
                by (nonlinear_arith)
                requires
                    x as nat == xh * p64() + xl,
                    y as nat == yh * p64() + yl,
                    lln == xl * yl,
                    lhn == xl * yh,
                    hln == xh * yl,
                    hhn == xh * yh,
                    p128() == p64() * p64(),
            ;
            assert(lo as nat + hi as nat * p128() == lln + (lhn + hln) * p64() + hhn * p128())
                by (nonlinear_arith)
                requires
                    tn == lln / p64() + lhn % p64() + hln % p64(),
                    lo as nat == lln % p64() + (tn % p64()) * p64(),
                    hi as nat == tn / p64() + lhn / p64() + hln / p64() + hhn,
                    lln == (lln % p64()) + p64() * (lln / p64()),
                    lhn == (lhn % p64()) + p64() * (lhn / p64()),
                    hln == (hln % p64()) + p64() * (hln / p64()),
                    tn == (tn % p64()) + p64() * (tn / p64()),
                    p128() == p64() * p64(),
            ;
            // the high limb fits: the whole product is below 2^256
            assert(x as nat * y as nat <= (p128() - 1) * (p128() - 1)) by (nonlinear_arith)
                requires
                    (x as nat) <= p128() - 1,
                    (y as nat) <= p128() - 1,
            ;
            assert(hi as nat * p128() <= lo as nat + hi as nat * p128());
        }
        U256 { lo, hi }
    }

    /// Checked multiplication by a `u128`: `None` exactly when the product
    /// does not fit in 256 bits.
    pub fn checked_mul_u128(self, y: u128) -> (r: Option<Self>)
        ensures
            match r {
                Some(s) => s.v() == self.v() * y,
                None => self.v() * y >= p256(),
            },
    {
        let p1 = U256::mul_u128(self.lo, y);
        let p2 = U256::mul_u128(self.hi, y);
        proof {
            assert(self.v() * y as nat == p1.v() + p2.v() * p128()) by (nonlinear_arith)
                requires
                    self.v() == self.lo as nat + self.hi as nat * p128(),
                    p1.v() == self.lo as nat * y as nat,
                    p2.v() == self.hi as nat * y as nat,
            ;
        }
        if p2.hi != 0 {
            proof {
                assert(p2.v() * p128() >= p256()) by (nonlinear_arith)
                    requires
                        p2.v() >= p128(),
                        p256() == p128() * p128(),
                ;
                assert(p2.v() >= p128()) by (nonlinear_arith)
                    requires
                        p2.v() == p2.lo as nat + p2.hi as nat * p128(),
                        p2.hi >= 1,
                ;
            }
            return None;
        }
        if u128::MAX - p1.hi >= p2.lo {
            proof {
                assert((p1.hi + p2.lo) as nat * p128() == p1.hi as nat * p128() + p2.lo as nat
                    * p128()) by (nonlinear_arith);
            }
            Some(U256 { lo: p1.lo, hi: p1.hi + p2.lo })
        } else {
            proof {
                assert(p1.v() + p2.v() * p128() >= p256()) by (nonlinear_arith)
                    requires
                        p1.v() == p1.lo as nat + p1.hi as nat * p128(),
                        p2.v() == p2.lo as nat,
                        (p1.hi as nat) + (p2.lo as nat) >= p128(),
                        p256() == p128() * p128(),
                ;
            }
            None
        }
    }

    /// `2^k` as a 256-bit value.
    pub fn pow2_exec(k: usize) -> (r: Self)
        requires
            k < 256,
        ensures
            r.v() == pow2(k as nat),
    {
        let mut r = U256 { lo: 1, hi: 0 };
        let mut j: usize = 0;
        proof {
            lemma2_to64();
        }
        while j < k
            invariant
                j <= k,
                k < 256,
                r.v() == pow2(j as nat),
            decreases k - j,
        {
            proof {
                lemma_pow2_values();
                if (j as nat) + 1 < 256 {
                    lemma_pow2_strictly_increases((j + 1) as nat, 256);
                }
                lemma_pow2_unfold((j + 1) as nat);
                assert(2 * r.v() + 1 < p256());
            }
            r = r.shl1_in(false);
            j += 1;
        }
        r
    }

    /// Euclidean division with remainder, by binary long division.
    pub fn div_rem(self, d: Self) -> (r: (Self, Self))
        requires
            d.v() > 0,
        ensures
            r.0.v() == self.v() / d.v(),
            r.1.v() == self.v() % d.v(),
            r.0.v() * d.v() + r.1.v() == self.v(),
    {
        let mut q = U256::zero();
        let mut rem = U256::zero();
        let mut s = self;
        let mut i: usize = 0;
        proof {
            lemma_pow2_values();
            self.lemma_v_bound();
            d.lemma_v_bound();
            assert(self.v() / pow2(256) == 0 && self.v() % pow2(256) == self.v()) by {
                lemma_basic_div(self.v() as int, pow2(256) as int);
                lemma_small_mod(self.v(), pow2(256));
            }
            assert(pow2(0) == 1) by {
                lemma2_to64();
            }
        }
        while i < 256
            invariant
                i <= 256,
                d.v() > 0,
                d.v() < p256(),
                self.v() < p256(),
                rem.v() < d.v(),
                q.v() * d.v() + rem.v() == self.v() / pow2((256 - i) as nat),
                q.v() <= self.v() / pow2((256 - i) as nat),
                self.v() / pow2((256 - i) as nat) < pow2(i as nat),
                s.v() == (self.v() % pow2((256 - i) as nat)) * pow2(i as nat),
            decreases 256 - i,
        {
            let ghost m: nat = pow2((256 - i) as nat);
            let ghost m2: nat = pow2((255 - i) as nat);
            let ghost e: nat = pow2(i as nat);
            let ghost e2: nat = pow2((i + 1) as nat);
            let ghost top: nat = self.v() / m;
            let ghost low: nat = self.v() % m;
            proof {
                lemma_pow2_values();
                lemma_pow2_unfold((256 - i) as nat);
                lemma_pow2_unfold((i + 1) as nat);
                lemma_pow2_adds((i + 1) as nat, (255 - i) as nat);
                lemma_pow2_adds(i as nat, (255 - i) as nat);
                lemma_pow2_unfold(256);
                assert(m == 2 * m2 && e2 == 2 * e && e2 * m2 == p256() && 2 * (e * m2)
                    == p256());
                lemma_pow2_pos((255 - i) as nat);
                lemma_pow2_pos((256 - i) as nat);
                lemma_pow2_pos(i as nat);
                lemma_fundamental_div_mod(self.v() as int, m as int);
                if (i as nat) + 1 < 256 {
                    lemma_pow2_strictly_increases((i + 1) as nat, 256);
                }
                assert(e2 <= p256() && 2 * e <= p256());
            }
            // pull the next dividend bit out of the shift register
            let (s2, b) = s.shl1_with_carry();
            proof {
                s2.lemma_v_bound();
                // b is set exactly when the processed prefix gains a one bit
                assert(2 * (low * e) == 2 * low * e) by (nonlinear_arith);
                assert(b == (low >= m2) && (low >= m2 ==> 2 * low * e - p256() == (low - m2)
                    * e2) && (low < m2 ==> 2 * low * e == low * e2)) by (nonlinear_arith)
                    requires
                        2 * low * e == s2.v() + if b {
                            p256()
                        } else {
                            0nat
                        },
                        s2.v() < p256(),
                        low < m,
                        m == 2 * m2,
                        e2 == 2 * e,
                        e >= 1,
                        m2 >= 1,
                        2 * (e * m2) == p256(),
                ;
                // the prefix of one more bit splits as 2*top + bit
                let bbit: nat = if b {
                    1
                } else {
                    0
                };
                assert(self.v() == (2 * top + bbit) * m2 + (low - bbit * m2)
                    && low - bbit * m2 < m2) by (nonlinear_arith)
                    requires
                        self.v() == top * m + low,
                        m == 2 * m2,
                        low < m,
                        bbit == if b {
                            1nat
                        } else {
                            0nat
                        },
                        b == (low >= m2),
                ;
                lemma_fundamental_div_mod_converse(
                    self.v() as int,
                    m2 as int,
                    (2 * top + bbit) as int,
                    (low - bbit * m2) as int,
                );
            }
            s = s2;
            // rem2 = 2*rem + b, with a possible carry into bit 256
            let (rem_shifted, rem_carry) = rem.shl1_with_carry();
            let rem2 = if b {
                U256 { lo: rem_shifted.lo + 1, hi: rem_shifted.hi }
            } else {
                rem_shifted
            };
            let ghost actual: nat = 2 * rem.v() + if b {
                1nat
            } else {
                0nat
            };
            proof {
                assert(actual == rem2.v() + if rem_carry {
                    p256()
                } else {
                    0nat
                });
                rem2.lemma_v_bound();
            }
            let take = rem_carry || !rem2.lt(&d);
            let ghost old_q: nat = q.v();
            let ghost old_rem: nat = rem.v();
            proof {
                // headroom for the quotient shift
                assert(2 * q.v() + 1 < p256()) by (nonlinear_arith)
                    requires
                        q.v() < e,
                        2 * e <= p256(),
                ;
            }
            if take {
                proof {
                    // actual >= d, and actual - d < d, so the subtraction is exact
                    assert(actual >= d.v() && actual - d.v() < d.v());
                    if rem_carry {
                        assert(rem2.v() < d.v());
                    }
                }
                rem = rem2.wrapping_sub(d);
                proof {
                    assert(rem.v() == actual - d.v());
                }
                q = q.shl1_in(true);
            } else {
                proof {
                    assert(rem2.v() < d.v() && !rem_carry);
                }
                rem = rem2;
                q = q.shl1_in(false);
            }
            proof {
                let bbit: nat = if b {
                    1
                } else {
                    0
                };
                let qbit: nat = if take {
                    1
                } else {
                    0
                };
                // restore the main invariant for the extended prefix
                assert(q.v() * d.v() + rem.v() == 2 * top + bbit) by (nonlinear_arith)
                    requires
                        q.v() == 2 * old_q + qbit,
                        old_q * d.v() + old_rem == top,
                        rem.v() + qbit * d.v() == 2 * old_rem + bbit,
                ;
                assert(rem.v() + qbit * d.v() == 2 * old_rem + bbit);
                assert(q.v() <= 2 * top + bbit) by (nonlinear_arith)
                    requires
                        q.v() * d.v() + rem.v() == 2 * top + bbit,
                        d.v() >= 1,
                ;
                assert(self.v() == (self.v() / m2) * m2 + (self.v() % m2)) by {
                    lemma_fundamental_div_mod(self.v() as int, m2 as int);
                }
                // the next prefix stays below 2^(i+1)
                assert(self.v() / m2 < e2) by (nonlinear_arith)
                    requires
                        self.v() < p256(),
                        e2 * m2 == p256(),
                        m2 >= 1,
                        self.v() == (self.v() / m2) * m2 + (self.v() % m2),
                        self.v() % m2 >= 0,
                ;
                // the shift register still holds the unprocessed suffix
                assert(s.v() == (self.v() % m2) * e2);
            }
            i += 1;
        }
        proof {
            assert(pow2(0) == 1) by {
                lemma2_to64();
            }
            assert(self.v() / 1 == self.v()) by {
                lemma_div_basics(self.v() as int);
            }
            lemma_fundamental_div_mod_converse(
                self.v() as int,
                d.v() as int,
                q.v() as int,
                rem.v() as int,
            );
        }
        (q, rem)
    }
}

/// Concrete values for the powers of two the limb proofs rely on.
pub proof fn lemma_pow2_values()
    ensures
        pow2(64) == p64(),
        pow2(127) == p127(),
        pow2(128) == p128(),
        pow2(256) == p256(),
{
    lemma2_to64();
    lemma2_to64_rest();
    lemma_pow2_adds(64, 63);
    lemma_pow2_adds(64, 64);
    lemma_pow2_adds(128, 128);
    assert(pow2(127) == p64() * pow2(63));
    assert(pow2(128) == p64() * p64());
    assert(p64() * pow2(63) == p127()) by (nonlinear_arith)
        requires
            pow2(63) == 0x8000000000000000,
    ;
    assert(p64() * p64() == p128()) by (nonlinear_arith);
    assert(pow2(256) == pow2(128) * pow2(128));
    assert(p128() * p128() == p256()) by (nonlinear_arith);
}

} // verus!
