//! Numbers as bit patterns.

use vstd::prelude::*;

verus! {

/// A number of the script language: a single-precision binary floating-point
/// value, held as its 32-bit pattern (sign, 8 bits of exponent, 23 bits of
/// fraction). The library moves such values around, tells their sign and
/// order, and makes them from whole numbers; sums, products and the like
/// are computed by the embedder.
#[derive(Clone, Copy, Debug, PartialEq, Eq, Structural)]
pub struct Number {
    pub bits: u32,
}

/// The pattern of positive infinity; every larger magnitude is not a number.
pub const INFINITY_BITS: u32 = 0x7f80_0000;

/// The pattern of the sign alone.
pub const SIGN_BIT: u32 = 0x8000_0000;

/// The pattern of the not-a-number value that the library itself makes.
pub const NAN_BITS: u32 = 0x7fc0_0000;

/// The pattern of 1.
pub const ONE_BITS: u32 = 0x3f80_0000;

/// 2 to the power `k`.
pub open spec fn two_to(k: nat) -> nat
    decreases k,
{
    if k == 0 {
        1
    } else {
        2 * two_to((k - 1) as nat)
    }
}

/// True when `e` is the position of the highest set bit of `n`.
pub open spec fn is_exponent(n: nat, e: nat) -> bool {
    two_to(e) <= n < two_to(e + 1)
}

/// The pattern of the single-precision value nearest to the whole number
/// `n`, ties going to the value with an even last fraction bit. With `e`
/// the position of the highest set bit of `n`, the value is
/// `q * 2^(e - 23)` where `q` is `n / 2^(e - 23)` rounded to a whole number
/// of 24 bits; the pattern holds `e + 127` above the low 23 bits of `q`.
pub open spec fn spec_from_nat(n: nat) -> int {
    if n == 0 {
        0
    } else {
        let e = choose|e: nat| is_exponent(n, e);
        if e <= 23 {
            (127 + e) * 0x80_0000 + (n * two_to((23 - e) as nat) - 0x80_0000)
        } else {
            let u = two_to((e - 23) as nat);
            let q = n / u;
            let r = n % u;
            let rounded = if 2 * r > u || (2 * r == u && q % 2 == 1) {
                q + 1
            } else {
                q
            };
            (127 + e) * 0x80_0000 + (rounded - 0x80_0000)
        }
    }
}

/// A power of 2 is at least 1, and no smaller than a lower power.
pub proof fn lemma_two_to_grows(a: nat, b: nat)
    requires
        a <= b,
    ensures
        two_to(a) <= two_to(b),
        two_to(a) >= 1,
    decreases b,
{
    if a < b {
        lemma_two_to_grows(a, (b - 1) as nat);
    } else if a > 0 {
        lemma_two_to_grows((a - 1) as nat, (a - 1) as nat);
    }
}

/// The powers of 2 up to the 32nd.
pub proof fn lemma_two_to_values()
    ensures
        two_to(0) == 1,
        two_to(8) == 0x100,
        two_to(23) == 0x80_0000,
        two_to(24) == 0x100_0000,
        two_to(31) == 0x8000_0000,
        two_to(32) == 0x1_0000_0000,
{
    assert(two_to(0) == 1);
    assert(two_to(1) == 2);
    assert(two_to(2) == 4);
    assert(two_to(3) == 8);
    assert(two_to(4) == 16);
    assert(two_to(5) == 32);
    assert(two_to(6) == 64);
    assert(two_to(7) == 128);
    assert(two_to(8) == 256);
    assert(two_to(9) == 512);
    assert(two_to(10) == 1024);
    assert(two_to(11) == 2048);
    assert(two_to(12) == 4096);
    assert(two_to(13) == 8192);
    assert(two_to(14) == 16384);
    assert(two_to(15) == 32768);
    assert(two_to(16) == 65536);
    assert(two_to(17) == 131072);
    assert(two_to(18) == 262144);
    assert(two_to(19) == 524288);
    assert(two_to(20) == 1048576);
    assert(two_to(21) == 2097152);
    assert(two_to(22) == 4194304);
    assert(two_to(23) == 8388608);
    assert(two_to(24) == 16777216);
    assert(two_to(25) == 33554432);
    assert(two_to(26) == 67108864);
    assert(two_to(27) == 134217728);
    assert(two_to(28) == 268435456);
    assert(two_to(29) == 536870912);
    assert(two_to(30) == 1073741824);
    assert(two_to(31) == 2147483648);
    assert(two_to(32) == 4294967296);
}

/// A whole number has one highest set bit.
pub proof fn lemma_exponent_unique(n: nat, a: nat, b: nat)
    requires
        is_exponent(n, a),
        is_exponent(n, b),
    ensures
        a == b,
{
    if a < b {
        lemma_two_to_grows(a + 1, b);
    } else if b < a {
        lemma_two_to_grows(b + 1, a);
    }
}

/// The whole number that the pattern of a whole number stands for: with
/// the exponent `e` in the bits above the low 23 and the fraction `f` in
/// the low 23 bits, it is `(2^23 + f) * 2^(e - 150)`. Here it is given for
/// `e` of 150 and more, where that is a whole number.
pub open spec fn spec_whole_value(bits: int) -> int
    recommends
        150 * 0x80_0000 <= bits < 255 * 0x80_0000,
{
    (0x80_0000 + bits % 0x80_0000) * two_to((bits / 0x80_0000 - 150) as nat)
}

/// The pattern of a whole number of at most 24 bits stands for that
/// number: scaled to 24 bits, the number is the fraction with its leading
/// bit, under the exponent that undoes the scaling; where the number has
/// 24 bits, no scaling is left.
pub proof fn lemma_from_nat_exact(n: nat, e: nat)
    requires
        n > 0,
        is_exponent(n, e),
        e <= 23,
    ensures
        spec_from_nat(n) / 0x80_0000 == 127 + e,
        0x80_0000 + spec_from_nat(n) % 0x80_0000 == n * two_to((23 - e) as nat),
        e == 23 ==> spec_whole_value(spec_from_nat(n)) == n,
{
    let chosen = choose|c: nat| is_exponent(n, c);
    lemma_exponent_unique(n, e, chosen);
    let scale = two_to((23 - e) as nat);
    lemma_two_to_grows(0, (23 - e) as nat);
    lemma_two_to_sum(e, (23 - e) as nat);
    lemma_two_to_sum(e + 1, (23 - e) as nat);
    lemma_two_to_values();
    assert(two_to(e + 1) == 2 * two_to(e));
    assert(n * scale >= two_to(e) * scale) by (nonlinear_arith)
        requires
            n >= two_to(e),
            scale >= 0,
    ;
    assert(n * scale < two_to(e + 1) * scale) by (nonlinear_arith)
        requires
            n < two_to(e + 1),
            scale > 0,
    ;
    let f = n * scale - 0x80_0000;
    assert(0 <= f < 0x80_0000);
    assert(spec_from_nat(n) == (127 + e) * 0x80_0000 + f);
    if e == 23 {
        assert(n * 1 == n) by (nonlinear_arith);
        assert((0x80_0000 + f) * 1 == 0x80_0000 + f) by (nonlinear_arith);
    }
}

/// The pattern of a whole number of more than 24 bits stands for the
/// nearest whole number that 24 bits can give at that size: the two differ
/// by at most half of the step between such numbers, and where they differ
/// by exactly half, the last of the 24 bits is 0.
pub proof fn lemma_from_nat_nearest(n: nat, e: nat)
    requires
        is_exponent(n, e),
        23 < e,
    ensures
        ({
            let step = two_to((e - 23) as nat);
            let kept = spec_from_nat(n) - (126 + e) * 0x80_0000;
            &&& 0x80_0000 <= kept <= 0x100_0000
            &&& spec_whole_value(spec_from_nat(n)) == kept * step
            &&& 2 * (kept * step - n) <= step
            &&& 2 * (n - kept * step) <= step
            &&& (2 * (kept * step - n) == step || 2 * (n - kept * step) == step) ==> kept % 2 == 0
        }),
{
    let chosen = choose|c: nat| is_exponent(n, c);
    lemma_exponent_unique(n, e, chosen);
    let step = two_to((e - 23) as nat);
    lemma_two_to_grows(0, (e - 23) as nat);
    lemma_two_to_sum(23, (e - 23) as nat);
    lemma_two_to_sum(24, (e - 23) as nat);
    lemma_two_to_values();
    assert(two_to(e + 1) == 2 * two_to(e));
    let q = n as int / step as int;
    let r = n as int % step as int;
    assert(n == q * step + r && 0 <= r < step) by (nonlinear_arith)
        requires
            q == n as int / step as int,
            r == n as int % step as int,
            step > 0,
    ;
    assert(q >= 0x80_0000) by (nonlinear_arith)
        requires
            n == q * step + r,
            r < step,
            n >= 0x80_0000 * step,
            step > 0,
    ;
    assert(q < 0x100_0000) by (nonlinear_arith)
        requires
            n == q * step + r,
            r >= 0,
            n < 0x100_0000 * step,
            step > 0,
    ;
    let kept = if 2 * r > step || (2 * r == step && q % 2 == 1) {
        q + 1
    } else {
        q
    };
    assert(spec_from_nat(n) == (127 + e) * 0x80_0000 + (kept - 0x80_0000));
    assert(kept * step == q * step + (kept - q) * step) by (nonlinear_arith);
    let bits = spec_from_nat(n);
    if kept < 0x100_0000 {
        assert(bits / 0x80_0000 == 127 + e);
        assert(bits % 0x80_0000 == kept - 0x80_0000);
        assert(((127 + e) - 150) as nat == (e - 23) as nat);
    } else {
        assert(bits == (128 + e) * 0x80_0000);
        assert(bits / 0x80_0000 == 128 + e);
        assert(bits % 0x80_0000 == 0);
        assert(((128 + e) - 150) as nat == (e - 23) as nat + 1);
        assert(two_to((e - 23) as nat + 1) == 2 * step);
        assert(0x80_0000 * (2 * step) == 0x100_0000 * step) by (nonlinear_arith);
    }
    if kept == q + 1 {
        assert((kept - q) * step == step) by (nonlinear_arith)
            requires
                kept - q == 1,
        ;
    } else {
        assert((kept - q) * step == 0) by (nonlinear_arith)
            requires
                kept - q == 0,
        ;
    }
}

/// Powers of 2 multiply by adding the exponents.
pub proof fn lemma_two_to_sum(a: nat, b: nat)
    ensures
        two_to(a + b) == two_to(a) * two_to(b),
    decreases b,
{
    if b == 0 {
        assert(two_to(a) * 1 == two_to(a)) by (nonlinear_arith);
    } else {
        lemma_two_to_sum(a, (b - 1) as nat);
        let x = two_to(a);
        let y = two_to((b - 1) as nat);
        assert(x * (2 * y) == 2 * (x * y)) by (nonlinear_arith);
        assert(a + b == (a + (b - 1)) + 1);
    }
}

impl Number {
    /// The magnitude of the pattern: the pattern without its sign.
    pub open spec fn magnitude(self) -> int {
        if self.bits >= SIGN_BIT {
            self.bits - SIGN_BIT
        } else {
            self.bits as int
        }
    }

    /// True when the sign is set.
    pub open spec fn negative(self) -> bool {
        self.bits >= SIGN_BIT
    }

    /// True when the pattern is not a number: its magnitude lies above that
    /// of infinity.
    pub open spec fn spec_is_nan(self) -> bool {
        self.magnitude() > INFINITY_BITS
    }

    /// A whole number by which the patterns that are numbers are ordered
    /// as their values are; both zeros give 0.
    pub open spec fn order_key(self) -> int {
        if self.negative() {
            -self.magnitude()
        } else {
            self.magnitude()
        }
    }

    /// True when the value is a number above zero.
    pub open spec fn spec_is_positive(self) -> bool {
        0 < self.bits <= INFINITY_BITS
    }

    /// The value with the opposite sign.
    pub open spec fn spec_negate(self) -> Number {
        if self.bits >= SIGN_BIT {
            Number { bits: (self.bits - SIGN_BIT) as u32 }
        } else {
            Number { bits: (self.bits + SIGN_BIT) as u32 }
        }
    }

    /// Equality of values: a not-a-number equals nothing, the two zeros are
    /// equal, and otherwise equal values have equal patterns.
    pub open spec fn spec_equals(self, other: Number) -> bool {
        !self.spec_is_nan() && !other.spec_is_nan() && self.order_key() == other.order_key()
    }

    /// The order of values; a not-a-number lies below nothing and above
    /// nothing.
    pub open spec fn spec_less(self, other: Number) -> bool {
        !self.spec_is_nan() && !other.spec_is_nan() && self.order_key() < other.order_key()
    }

    /// The not-a-number value.
    pub open spec fn spec_nan() -> Number {
        Number { bits: NAN_BITS }
    }

    /// 1 for `true`, 0 for `false`.
    pub open spec fn spec_from_bool(b: bool) -> Number {
        if b {
            Number { bits: ONE_BITS }
        } else {
            Number { bits: 0 }
        }
    }

    /// The not-a-number value.
    #[verifier::when_used_as_spec(spec_nan)]
    pub fn nan() -> (x: Number)
        ensures
            x == Number::spec_nan(),
            x.spec_is_nan(),
    {
        Number { bits: NAN_BITS }
    }

    /// 1 for `true`, 0 for `false`.
    #[verifier::when_used_as_spec(spec_from_bool)]
    pub fn from_bool(b: bool) -> (x: Number)
        ensures
            x == Number::spec_from_bool(b),
    {
        if b {
            Number { bits: ONE_BITS }
        } else {
            Number { bits: 0 }
        }
    }

    /// True when the pattern is not a number.
    #[verifier::when_used_as_spec(spec_is_nan)]
    pub fn is_nan(self) -> (b: bool)
        ensures
            b == self.spec_is_nan(),
    {
        if self.bits >= SIGN_BIT {
            self.bits - SIGN_BIT > INFINITY_BITS
        } else {
            self.bits > INFINITY_BITS
        }
    }

    /// True when the value is a number above zero.
    #[verifier::when_used_as_spec(spec_is_positive)]
    pub fn is_positive(self) -> (b: bool)
        ensures
            b == self.spec_is_positive(),
    {
        0 < self.bits && self.bits <= INFINITY_BITS
    }

    /// The value with the opposite sign.
    #[verifier::when_used_as_spec(spec_negate)]
    pub fn negate(self) -> (x: Number)
        ensures
            x == self.spec_negate(),
            x.magnitude() == self.magnitude(),
            x.negative() != self.negative(),
    {
        if self.bits >= SIGN_BIT {
            Number { bits: self.bits - SIGN_BIT }
        } else {
            Number { bits: self.bits + SIGN_BIT }
        }
    }

    fn key(self) -> (k: i64)
        ensures
            k == self.order_key(),
    {
        if self.bits >= SIGN_BIT {
            -((self.bits - SIGN_BIT) as i64)
        } else {
            self.bits as i64
        }
    }

    /// True when both are numbers of the same value.
    #[verifier::when_used_as_spec(spec_equals)]
    pub fn equals(self, other: Number) -> (b: bool)
        ensures
            b == self.spec_equals(other),
    {
        !self.is_nan() && !other.is_nan() && self.key() == other.key()
    }

    /// True when both are numbers and `self` is the smaller one.
    #[verifier::when_used_as_spec(spec_less)]
    pub fn less(self, other: Number) -> (b: bool)
        ensures
            b == self.spec_less(other),
    {
        !self.is_nan() && !other.is_nan() && self.key() < other.key()
    }

    /// The number nearest to the whole number `n`.
    pub fn from_u32(n: u32) -> (x: Number)
        ensures
            x.bits == spec_from_nat(n as nat),
            !x.spec_is_nan(),
            !x.negative(),
    {
        if n == 0 {
            return Number { bits: 0 };
        }
        let wide: u64 = n as u64;
        let mut e: u64 = 0;
        let mut p: u64 = 1;
        proof {
            lemma_two_to_values();
        }
        while p * 2 <= wide
            invariant
                wide == n,
                p == two_to(e as nat),
                1 <= p <= wide,
                e <= 31,
            decreases wide - p,
        {
            proof {
                lemma_two_to_values();
                if e >= 31 {
                    lemma_two_to_grows(32, e as nat + 1);
                }
            }
            p = p * 2;
            e = e + 1;
        }
        proof {
            let witness = e as nat;
            assert(is_exponent(n as nat, witness));
            let chosen = choose|c: nat| is_exponent(n as nat, c);
            lemma_exponent_unique(n as nat, witness, chosen);
        }
        if e <= 23 {
            let mut m: u64 = wide;
            let mut k: u64 = e;
            proof {
                lemma_two_to_values();
                assert(wide * 1 == wide) by (nonlinear_arith);
            }
            while k < 23
                invariant
                    e <= k <= 23,
                    m == wide * two_to((k - e) as nat),
                    two_to(k as nat) <= m < two_to(k as nat + 1),
                decreases 23 - k,
            {
                proof {
                    lemma_two_to_values();
                    lemma_two_to_grows(k as nat + 2, 24);
                    let t = two_to((k - e) as nat);
                    assert(wide * (2 * t) == 2 * (wide * t)) by (nonlinear_arith);
                }
                m = m * 2;
                k = k + 1;
            }
            proof {
                lemma_two_to_values();
            }
            Number { bits: ((126 + e) * 0x80_0000 + m) as u32 }
        } else {
            let mut u: u64 = 1;
            let mut k: u64 = 23;
            proof {
                lemma_two_to_values();
                lemma_two_to_grows(23, e as nat);
                lemma_two_to_grows(e as nat, 31);
            }
            while k < e
                invariant
                    23 <= k <= e <= 31,
                    u == two_to((k - 23) as nat),
                    u * 0x80_0000 == two_to(k as nat),
                    1 <= u <= 256,
                    u * 0x80_0000 <= 0x8000_0000,
                decreases e - k,
            {
                proof {
                    lemma_two_to_values();
                    lemma_two_to_grows(k as nat + 1, 31);
                }
                u = u * 2;
                k = k + 1;
            }
            let q = wide / u;
            let r = wide % u;
            let rounded = if 2 * r > u || (2 * r == u && q % 2 == 1) {
                q + 1
            } else {
                q
            };
            proof {
                assert(wide < u * 0x100_0000);
                assert(q < 0x100_0000) by (nonlinear_arith)
                    requires
                        q == wide / u,
                        wide < u * 0x100_0000,
                        u > 0,
                ;
                assert(q >= 0x80_0000) by (nonlinear_arith)
                    requires
                        q == wide / u,
                        wide >= u * 0x80_0000,
                        u > 0,
                ;
            }
            Number { bits: ((126 + e) * 0x80_0000 + rounded) as u32 }
        }
    }
}

} // verus!
