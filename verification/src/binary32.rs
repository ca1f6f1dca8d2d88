//! IEEE 754 single-precision numbers, held by their bit pattern.
//!
//! The format stores several numbers in this encoding, and the save version
//! that decides which fields are present is one of them. Every comparison the
//! decoder makes is an exact comparison of two such numbers, so the numbers
//! are kept as the 32 bits found in the stream and compared as integers.

use vstd::prelude::*;
use vstd::arithmetic::power2::{
    lemma2_to64, lemma_pow2_adds, lemma_pow2_pos, lemma_pow2_strictly_increases, lemma_pow2_unfold,
    pow2,
};

verus! {

/// Two to the 23rd: the weight of the implicit leading bit of a significand.
pub const HIDDEN_BIT: u32 = 0x80_0000;

/// Two to the 31st: the sign bit.
pub const SIGN_BIT: u32 = 0x8000_0000;

/// The magnitude bits of positive infinity. Larger magnitudes are NaNs.
pub const INFINITY_MAGNITUDE: u32 = 0x7f80_0000;

/// The order-preserving integer that stands for a magnitude (a bit pattern
/// with the sign cleared). For a finite magnitude this is its value times
/// two to the 149th, which is an integer for every single-precision number.
/// The magnitude of infinity is mapped above every finite one.
pub open spec fn magnitude_scaled(magnitude: int) -> int {
    let exponent = magnitude / (HIDDEN_BIT as int);
    let fraction = magnitude % (HIDDEN_BIT as int);
    if exponent == 0 {
        fraction
    } else {
        (HIDDEN_BIT + fraction) * pow2((exponent - 1) as nat)
    }
}

/// The number of binary digits of `n`: zero has none.
pub open spec fn bit_length(n: nat) -> nat
    decreases n,
{
    if n == 0 {
        0
    } else {
        1 + bit_length(n / 2)
    }
}

/// `n / d` rounded to the nearest integer; a quotient that lies halfway
/// between two integers goes to the even one.
pub open spec fn round_half_even(n: nat, d: nat) -> nat {
    let q = n / d;
    let r = n % d;
    if 2 * r > d || (2 * r == d && q % 2 == 1) {
        q + 1
    } else {
        q
    }
}

/// The 24 leading binary digits of a positive `n`, as a number from two to
/// the 23rd up to two to the 24th. A shorter `n` is padded with zeros on the
/// right; of a longer one the digits that do not fit are rounded away, to the
/// nearest and on a tie to the even neighbour, which may carry into a 25th
/// digit.
pub open spec fn significand24(n: nat) -> nat {
    let len = bit_length(n);
    if len <= 24 {
        n * pow2((24 - len) as nat)
    } else {
        round_half_even(n, pow2((len - 24) as nat))
    }
}

/// A positive `n` with no more than 24 significant binary digits: `n`
/// itself where it has no more, and else the nearest number that ends in
/// zeros behind its 24th digit, on a tie the one whose 24th digit is even.
pub open spec fn rounded24(n: nat) -> nat {
    let len = bit_length(n);
    if len <= 24 {
        n
    } else {
        round_half_even(n, pow2((len - 24) as nat)) * pow2((len - 24) as nat)
    }
}

/// A single-precision number, as the 32 bits that encode it.
#[derive(Clone, Copy, Debug, PartialEq, Eq, Structural)]
pub struct Binary32 {
    pub bits: u32,
}

impl Binary32 {
    /// The bit pattern without its sign bit.
    pub open spec fn magnitude(self) -> int {
        (self.bits % SIGN_BIT) as int
    }

    /// Whether the sign bit is set.
    pub open spec fn negative(self) -> bool {
        self.bits >= SIGN_BIT
    }

    /// Whether the pattern encodes no number at all.
    pub open spec fn is_nan(self) -> bool {
        self.magnitude() > INFINITY_MAGNITUDE
    }

    /// The number times two to the 149th, as an integer. Infinities map
    /// beyond every finite number, on their side of zero.
    #[verifier::opaque]
    pub open spec fn scaled(self) -> int {
        if self.negative() {
            -magnitude_scaled(self.magnitude())
        } else {
            magnitude_scaled(self.magnitude())
        }
    }

    /// `self >= other` as IEEE 754 defines it: false when either is a NaN.
    pub open spec fn spec_ge(self, other: Binary32) -> bool {
        !self.is_nan() && !other.is_nan() && self.scaled() >= other.scaled()
    }

    /// `self < other` as IEEE 754 defines it: false when either is a NaN.
    pub open spec fn spec_lt(self, other: Binary32) -> bool {
        !self.is_nan() && !other.is_nan() && self.scaled() < other.scaled()
    }

    /// `self == other` as IEEE 754 defines it: false when either is a NaN,
    /// true of the two zeros.
    pub open spec fn spec_same_number(self, other: Binary32) -> bool {
        !self.is_nan() && !other.is_nan() && self.scaled() == other.scaled()
    }

    /// The sign-and-magnitude reading of the bits, which orders the numbers
    /// as `scaled` does.
    pub open spec fn key(self) -> int {
        if self.negative() {
            -self.magnitude()
        } else {
            self.magnitude()
        }
    }

    /// The single-precision number nearest to `n / 65536`, where a tie goes
    /// to the neighbour with the even significand: what converting `n` to
    /// single precision and dividing by 65536 gives.
    pub open spec fn spec_from_fixed16(n: u32) -> Binary32 {
        if n == 0 {
            Binary32 { bits: 0 }
        } else {
            let len = bit_length(n as nat);
            let significand = significand24(n as nat);
            if significand == 2 * HIDDEN_BIT {
                Binary32 { bits: ((len + 111) * HIDDEN_BIT) as u32 }
            } else {
                Binary32 { bits: ((len + 110) * HIDDEN_BIT + (significand - HIDDEN_BIT)) as u32 }
            }
        }
    }

    /// The number with the given encoding.
    pub fn from_bits(bits: u32) -> (number: Binary32)
        ensures
            number.bits == bits,
    {
        Binary32 { bits }
    }

    /// The encoding of the number.
    pub fn to_bits(self) -> (bits: u32)
        ensures
            bits == self.bits,
    {
        self.bits
    }

    fn nan(self) -> (b: bool)
        ensures
            b == self.is_nan(),
    {
        self.bits % SIGN_BIT > INFINITY_MAGNITUDE
    }

    fn order_key(self) -> (k: i64)
        ensures
            k == self.key(),
    {
        let magnitude: u32 = self.bits % SIGN_BIT;
        if self.bits >= SIGN_BIT {
            0i64 - (magnitude as i64)
        } else {
            magnitude as i64
        }
    }

    /// Whether `self >= other`.
    pub fn ge(self, other: Binary32) -> (b: bool)
        ensures
            b == self.spec_ge(other),
    {
        proof {
            lemma_key_orders(self, other);
        }
        !self.nan() && !other.nan() && self.order_key() >= other.order_key()
    }

    /// Whether `self < other`.
    pub fn lt(self, other: Binary32) -> (b: bool)
        ensures
            b == self.spec_lt(other),
    {
        proof {
            lemma_key_orders(self, other);
        }
        !self.nan() && !other.nan() && self.order_key() < other.order_key()
    }

    /// Whether `self` and `other` are the same number.
    pub fn same_number(self, other: Binary32) -> (b: bool)
        ensures
            b == self.spec_same_number(other),
    {
        proof {
            lemma_key_orders(self, other);
            lemma_key_orders(other, self);
        }
        !self.nan() && !other.nan() && self.order_key() == other.order_key()
    }
}

/// A positive number lies between the powers of two that its length names.
pub proof fn lemma_bit_length_bounds(n: nat)
    requires
        n > 0,
    ensures
        bit_length(n) >= 1,
        pow2((bit_length(n) - 1) as nat) <= n < pow2(bit_length(n)),
    decreases n,
{
    lemma2_to64();
    if n >= 2 {
        lemma_bit_length_bounds(n / 2);
        let k = bit_length(n / 2);
        lemma_pow2_unfold(k);
        lemma_pow2_unfold((k + 1) as nat);
    } else {
        assert(n / 2 == 0);
        assert(bit_length(n) == 1 + bit_length(0));
    }
}

/// A number between two neighbouring powers of two has the length that the
/// larger one names.
pub proof fn lemma_bit_length_is(n: nat, k: nat)
    requires
        k >= 1,
        pow2((k - 1) as nat) <= n < pow2(k),
    ensures
        bit_length(n) == k,
{
    lemma_pow2_pos((k - 1) as nat);
    lemma_bit_length_bounds(n);
    let len = bit_length(n);
    if len < k {
        if len < k - 1 {
            lemma_pow2_strictly_increases(len, (k - 1) as nat);
        }
    } else if len > k {
        if k < len - 1 {
            lemma_pow2_strictly_increases(k, (len - 1) as nat);
        }
    }
}

/// Rounding to the nearest multiple lands within half a step of the number;
/// where it lands exactly half a step away, on the even multiple.
pub proof fn lemma_round_half_even_nearest(n: nat, d: nat)
    requires
        d > 0,
    ensures
        2 * (round_half_even(n, d) * d - n) <= d,
        2 * (n - round_half_even(n, d) * d) <= d,
        2 * (round_half_even(n, d) * d - n) == d || 2 * (n - round_half_even(n, d) * d) == d
            ==> round_half_even(n, d) % 2 == 0,
{
    let q = n / d;
    let r = n % d;
    assert(n == q * d + r && 0 <= r < d && (q + 1) * d == q * d + d) by (nonlinear_arith)
        requires
            d > 0,
            q == n / d,
            r == n % d,
    ;
}

/// The significand of a positive 32-bit number has 24 or, after a carry, 25
/// digits, and with the exponent that the length of the number gives it
/// stands for the rounded number.
pub proof fn lemma_significand24(n: nat)
    requires
        0 < n < 0x1_0000_0000,
    ensures
        1 <= bit_length(n) <= 32,
        HIDDEN_BIT <= significand24(n) <= 2 * HIDDEN_BIT,
        significand24(n) * pow2(bit_length(n) + 109) == rounded24(n) * pow2(133),
{
    lemma_bit_length_bounds(n);
    lemma2_to64();
    let len = bit_length(n);
    if len > 32 {
        if len > 33 {
            lemma_pow2_strictly_increases(32, (len - 1) as nat);
        }
        assert(false);
    }
    let low = pow2((len - 1) as nat) as int;
    let high = pow2(len) as int;
    let weight = pow2(len + 109) as int;
    let unit = pow2(133) as int;
    if len <= 24 {
        let pad = pow2((24 - len) as nat) as int;
        lemma_pow2_adds((24 - len) as nat, (len - 1) as nat);
        lemma_pow2_adds((24 - len) as nat, len);
        lemma_pow2_adds((24 - len) as nat, len + 109);
        lemma_pow2_pos((24 - len) as nat);
        assert(0x80_0000 <= n * pad < 0x100_0000 && (n * pad) * weight == n * unit)
            by (nonlinear_arith)
            requires
                pad > 0,
                low <= n < high,
                pad * low == 0x80_0000,
                pad * high == 0x100_0000,
                pad * weight == unit,
        ;
    } else {
        let d = pow2((len - 24) as nat) as int;
        lemma_pow2_adds((len - 24) as nat, 23);
        lemma_pow2_adds((len - 24) as nat, 24);
        lemma_pow2_adds((len - 24) as nat, 133);
        lemma_pow2_pos((len - 24) as nat);
        let q = (n as int) / d;
        assert(0x80_0000 <= q < 0x100_0000) by (nonlinear_arith)
            requires
                q == (n as int) / d,
                d > 0,
                low == d * 0x80_0000,
                high == d * 0x100_0000,
                low <= n < high,
        ;
        let kept = round_half_even(n, d as nat) as int;
        assert(kept == q || kept == q + 1);
        assert(kept * weight == (kept * d) * unit) by (nonlinear_arith)
            requires
                weight == d * unit,
        ;
    }
}

/// What `spec_from_fixed16` names is a number, not negative, and its value
/// is `n`, rounded to 24 significant digits, over 65536: `scaled` gives a
/// value times two to the 149th, and 149 is 133 and 16.
pub proof fn lemma_from_fixed16_value(n: u32)
    ensures
        !Binary32::spec_from_fixed16(n).is_nan(),
        !Binary32::spec_from_fixed16(n).negative(),
        Binary32::spec_from_fixed16(n).scaled() == rounded24(n as nat) * pow2(133),
{
    reveal(Binary32::scaled);
    let number = Binary32::spec_from_fixed16(n);
    if n == 0 {
        assert(bit_length(0) == 0);
        assert(magnitude_scaled(0) == 0);
        assert(0 * pow2(133) == 0);
    } else {
        lemma_significand24(n as nat);
        let len = bit_length(n as nat) as int;
        let significand = significand24(n as nat) as int;
        let weight = pow2((len + 109) as nat) as int;
        let h = HIDDEN_BIT as int;
        if significand == 2 * HIDDEN_BIT {
            let magnitude = (len + 111) * h;
            assert(number.bits == magnitude);
            assert(magnitude / h == len + 111 && magnitude % h == 0) by (nonlinear_arith)
                requires
                    magnitude == (len + 111) * h,
                    h == 0x80_0000,
            ;
            lemma_pow2_unfold((len + 110) as nat);
            assert((h + 0) * (2 * weight) == (2 * h) * weight) by (nonlinear_arith);
        } else {
            let fraction = significand - h;
            let magnitude = (len + 110) * h + fraction;
            assert(number.bits == magnitude);
            assert(magnitude / h == len + 110 && magnitude % h == fraction) by (nonlinear_arith)
                requires
                    magnitude == (len + 110) * h + fraction,
                    0 <= fraction < h,
                    h == 0x80_0000,
            ;
        }
    }
}

/// Converts the 16.16 fixed-point number `n`, which stands for `n / 65536`,
/// to single precision.
pub fn from_fixed16(n: u32) -> (number: Binary32)
    ensures
        number == Binary32::spec_from_fixed16(n),
{
    if n == 0 {
        return Binary32 { bits: 0 };
    }
    proof {
        lemma2_to64();
    }
    let mut len: u32 = 1;
    let mut top: u64 = 2;
    while top <= n as u64
        invariant
            1 <= len <= 32,
            top == pow2(len as nat),
            pow2((len - 1) as nat) <= n,
            n > 0,
        decreases 33 - len,
    {
        proof {
            lemma_pow2_unfold((len + 1) as nat);
            if len >= 32 {
                lemma2_to64();
            }
        }
        top = top * 2;
        len = len + 1;
    }
    proof {
        lemma_bit_length_is(n as nat, len as nat);
    }
    let significand: u32 = if len <= 24 {
        let mut padded: u32 = n;
        let mut k: u32 = len;
        assert(n * pow2(0) == n) by {
            lemma2_to64();
        }
        while k < 24
            invariant
                1 <= len <= k <= 24,
                padded == n * pow2((k - len) as nat),
                pow2((k - 1) as nat) <= padded < pow2(k as nat),
            decreases 24 - k,
        {
            proof {
                lemma_pow2_unfold((k + 1) as nat);
                lemma_pow2_unfold(k as nat);
                lemma_pow2_unfold((k + 1 - len) as nat);
                lemma2_to64();
                if k < 23 {
                    lemma_pow2_strictly_increases((k + 1) as nat, 24);
                }
                assert(n * (2 * pow2((k - len) as nat)) == 2 * (n * pow2((k - len) as nat)))
                    by (nonlinear_arith);
            }
            padded = padded * 2;
            k = k + 1;
        }
        padded
    } else {
        let mut d: u32 = 1;
        let mut k: u32 = 24;
        while k < len
            invariant
                24 <= k <= len <= 32,
                d == pow2((k - 24) as nat),
                d <= 0x100,
                k < 32 ==> d <= 0x80,
            decreases len - k,
        {
            proof {
                lemma_pow2_unfold((k + 1 - 24) as nat);
                lemma2_to64();
                if k + 1 - 24 < 8 {
                    lemma_pow2_strictly_increases((k + 1 - 24) as nat, 8);
                }
            }
            d = d * 2;
            k = k + 1;
        }
        let q: u32 = n / d;
        let r: u32 = n % d;
        proof {
            lemma_pow2_adds((len - 24) as nat, 23);
            lemma_pow2_adds((len - 24) as nat, 24);
            let lo = pow2((len - 1) as nat) as int;
            let hi = pow2(len as nat) as int;
            assert(0x80_0000 <= q < 0x100_0000) by (nonlinear_arith)
                requires
                    q == (n as int) / (d as int),
                    d > 0,
                    lo == (d as int) * 0x80_0000,
                    hi == (d as int) * 0x100_0000,
                    lo <= n < hi,
            ;
        }
        if 2 * r > d || (2 * r == d && q % 2 == 1) {
            q + 1
        } else {
            q
        }
    };
    if significand == 2 * HIDDEN_BIT {
        Binary32 { bits: (len + 111) * HIDDEN_BIT }
    } else {
        Binary32 { bits: (len + 110) * HIDDEN_BIT + (significand - HIDDEN_BIT) }
    }
}

/// A larger magnitude stands for a larger number.
pub proof fn lemma_magnitude_scaled_increases(a: int, b: int)
    requires
        0 <= a < b,
    ensures
        0 <= magnitude_scaled(a) < magnitude_scaled(b),
{
    let h = HIDDEN_BIT as int;
    let ea = a / h;
    let eb = b / h;
    let fa = a % h;
    let fb = b % h;
    assert(a == h * ea + fa && b == h * eb + fb && 0 <= ea <= eb) by (nonlinear_arith)
        requires
            0 <= a < b,
            h == 0x80_0000,
            ea == a / h,
            eb == b / h,
            fa == a % h,
            fb == b % h,
    ;
    if ea > 0 {
        lemma_pow2_pos((ea - 1) as nat);
    }
    lemma_pow2_pos((eb - 1) as nat);
    let pa = pow2((ea - 1) as nat) as int;
    let pb = pow2((eb - 1) as nat) as int;
    if ea == eb {
        assert(fa < fb);
        if ea > 0 {
            assert(0 <= (h + fa) * pa < (h + fb) * pa) by (nonlinear_arith)
                requires
                    0 <= fa < fb,
                    h > 0,
                    pa > 0,
            ;
        }
    } else {
        assert(h <= (h + fb) * pb) by (nonlinear_arith)
            requires
                0 <= fb,
                h > 0,
                pb >= 1,
        ;
        if ea > 0 {
            lemma_pow2_unfold(ea as nat);
            if ea < eb - 1 {
                lemma_pow2_strictly_increases(ea as nat, (eb - 1) as nat);
            }
            assert(pow2(ea as nat) <= pb);
            assert(0 <= (h + fa) * pa < (h + fb) * pb) by (nonlinear_arith)
                requires
                    0 <= fa < h,
                    0 <= fb,
                    h > 0,
                    pa > 0,
                    2 * pa <= pb,
            ;
        }
    }
}

/// The sign-and-magnitude keys of two numbers compare as the numbers do.
pub proof fn lemma_key_orders(x: Binary32, y: Binary32)
    ensures
        x.key() <= y.key() <==> x.scaled() <= y.scaled(),
        x.key() == y.key() <==> x.scaled() == y.scaled(),
{
    reveal(Binary32::scaled);
    let a = x.magnitude();
    let b = y.magnitude();
    assert(magnitude_scaled(0) == 0);
    if a < b {
        lemma_magnitude_scaled_increases(a, b);
    }
    if b < a {
        lemma_magnitude_scaled_increases(b, a);
    }
    if 0 < a {
        lemma_magnitude_scaled_increases(0, a);
    }
    if 0 < b {
        lemma_magnitude_scaled_increases(0, b);
    }
}

/// `x` is what rounding `numerator / denominator` to single precision
/// gives, for a quotient that is positive and a result that is a normal
/// number: `x` lies within half a unit in its last place of the quotient,
/// and at the foot of its binade, where the spacing below it is finer, only
/// if it is the quotient exactly.
pub open spec fn is_nearest(x: Binary32, numerator: nat, denominator: nat) -> bool {
    let exponent = x.magnitude() / (HIDDEN_BIT as int);
    let fraction = x.magnitude() % (HIDDEN_BIT as int);
    let distance = denominator * x.scaled() - numerator * pow2(149);
    &&& !x.negative()
    &&& 0 < exponent < 255
    &&& -denominator * pow2((exponent - 1) as nat) <= 2 * distance <= denominator * pow2(
        (exponent - 1) as nat,
    )
    &&& fraction == 0 ==> distance == 0
}

/// A check of `is_nearest` by the parts of the number: with the significand
/// `significand` and the exponent field `exponent`, the quotient is compared
/// at the scale of the significand.
pub proof fn lemma_is_nearest(
    bits: u32,
    exponent: nat,
    significand: nat,
    numerator: nat,
    denominator: nat,
)
    requires
        0 < exponent <= 150,
        HIDDEN_BIT <= significand < 2 * HIDDEN_BIT,
        bits == exponent * HIDDEN_BIT + (significand - HIDDEN_BIT),
        -denominator <= 2 * (denominator * significand - numerator * pow2((150 - exponent) as nat))
            <= denominator,
        significand == HIDDEN_BIT ==> denominator * significand == numerator * pow2(
            (150 - exponent) as nat,
        ),
    ensures
        is_nearest(Binary32 { bits }, numerator, denominator),
{
    reveal(Binary32::scaled);
    let x = Binary32 { bits };
    let h = HIDDEN_BIT as int;
    let magnitude = bits as int;
    let fraction = significand - h;
    assert(magnitude / h == exponent && magnitude % h == fraction) by (nonlinear_arith)
        requires
            magnitude == exponent * h + fraction,
            0 <= fraction < h,
            h == 0x80_0000,
    ;
    lemma_pow2_adds((150 - exponent) as nat, (exponent - 1) as nat);
    lemma_pow2_pos((exponent - 1) as nat);
    let unit = pow2((exponent - 1) as nat) as int;
    let scale = pow2((150 - exponent) as nat) as int;
    let q = denominator as int;
    let p = numerator as int;
    let m = significand as int;
    assert(x.scaled() == m * unit);
    assert(q * (m * unit) - p * (scale * unit) == (q * m - p * scale) * unit) by (nonlinear_arith);
    assert(-q * unit <= 2 * ((q * m - p * scale) * unit) <= q * unit) by (nonlinear_arith)
        requires
            -q <= 2 * (q * m - p * scale) <= q,
            unit > 0,
    ;
    if fraction == 0 {
        assert((q * m - p * scale) * unit == 0) by (nonlinear_arith)
            requires
                q * m == p * scale,
        ;
    }
}

} // verus!
