//! The saturating arithmetic on [`ByteUnit`]: addition, subtraction and
//! multiplication clamp into the `u64` range, division and remainder are
//! total even at zero, and the shifts saturate and empty as the leading
//! zero bits dictate.

use vstd::prelude::*;
use vstd::arithmetic::power2::pow2;
use vstd::std_specs::bits::u64_leading_zeros;

use crate::byte_unit::{ByteUnit, sat_add64, sat_mul64, sat_sub64};

verus! {

/// `a / b` on byte counts: dividing by zero yields `u64::MAX`, treating a
/// division by nothing as unboundedly large rather than as an error.
pub open spec fn quot64(a: u64, b: u64) -> u64 {
    if b == 0 {
        u64::MAX
    } else {
        (a / b) as u64
    }
}

/// `a % b` on byte counts: the remainder of a division by zero is zero.
pub open spec fn rem64(a: u64, b: u64) -> u64 {
    if b == 0 {
        0
    } else {
        (a % b) as u64
    }
}

/// `a << n` on byte counts: once `n` exceeds the number of leading zero
/// bits of `a`, the shifted value cannot be represented and the result
/// saturates to `u64::MAX`; otherwise the result is exactly `a * 2^n`.
pub open spec fn shl64(a: u64, n: u64) -> u64 {
    if n > u64_leading_zeros(a) {
        u64::MAX
    } else {
        (a * pow2(n as nat)) as u64
    }
}

/// `a >> n` on byte counts: the quotient of `a` by `2^n`, which is zero
/// for every `n >= 64`.
pub open spec fn shr64(a: u64, n: u64) -> u64 {
    (a as nat / pow2(n as nat)) as u64
}

/// A shift that stays within the leading zero bits of `a` cannot overflow:
/// `a * 2^n` still fits in a `u64`.
proof fn lemma_shl_fits(a: u64, n: u64)
    requires
        n <= u64_leading_zeros(a),
        n < 64,
    ensures
        a * pow2(n as nat) <= u64::MAX,
{
    broadcast use vstd::std_specs::bits::axiom_u64_leading_zeros;

    vstd::arithmetic::power2::lemma2_to64();
    let lz = u64_leading_zeros(a);
    if a == 0 {
        assert(0 * pow2(n as nat) == 0) by (nonlinear_arith);
    } else if n == 0 {
        assert(a * pow2(0) == a) by {
            vstd::arithmetic::power2::lemma_pow2_unfold(1);
            assert(a * 1 == a) by (nonlinear_arith);
        }
    } else {
        // `a` fits below `2^(64 - lz)`.
        let s = (64 - lz) as u64;
        assert(a >> s == 0);
        vstd::bits::lemma_u64_shr_is_div(a, s);
        broadcast use vstd::arithmetic::div_mod::lemma_small_div_converse;

        vstd::arithmetic::power2::lemma_pow2_pos(s as nat);
        assert(a < pow2(s as nat));
        // `2^n` divides the remaining headroom: `2^n <= 2^lz`.
        if (n as nat) < (lz as nat) {
            vstd::arithmetic::power2::lemma_pow2_strictly_increases(n as nat, lz as nat);
        }
        assert(pow2(n as nat) <= pow2(lz as nat));
        // (2^(64-lz) - 1) * 2^lz == 2^64 - 2^lz <= u64::MAX
        vstd::arithmetic::power2::lemma_pow2_adds(s as nat, lz as nat);
        vstd::arithmetic::power2::lemma_pow2_pos(lz as nat);
        vstd::arithmetic::power2::lemma_pow2_pos(n as nat);
        assert(a * pow2(n as nat) <= u64::MAX) by (nonlinear_arith)
            requires
                a < pow2(s as nat),
                pow2(n as nat) <= pow2(lz as nat),
                pow2(s as nat) * pow2(lz as nat) == pow2(64),
                pow2(64) == 0x10000000000000000,
                pow2(n as nat) > 0,
                pow2(lz as nat) > 0,
        {
        }
    }
}

impl ByteUnit {
    /// Adds `rhs` bytes, saturating to the maximum on overflow.
    pub fn add(self, rhs: ByteUnit) -> (r: ByteUnit)
        ensures
            r.bytes == sat_add64(self.bytes, rhs.bytes),
    {
        ByteUnit { bytes: self.bytes.saturating_add(rhs.bytes) }
    }

    /// Subtracts `rhs` bytes, saturating to zero on underflow.
    pub fn sub(self, rhs: ByteUnit) -> (r: ByteUnit)
        ensures
            r.bytes == sat_sub64(self.bytes, rhs.bytes),
    {
        ByteUnit { bytes: self.bytes.saturating_sub(rhs.bytes) }
    }

    /// Multiplies by `rhs` bytes, saturating to the maximum on overflow.
    pub fn mul(self, rhs: ByteUnit) -> (r: ByteUnit)
        ensures
            r.bytes == sat_mul64(self.bytes, rhs.bytes),
    {
        ByteUnit::from_units(self.bytes, rhs.bytes)
    }

    /// Divides by `rhs` bytes. Dividing by zero yields
    /// [`ByteUnit::max_value()`]: a division by nothing is treated as
    /// unboundedly large, not as an error.
    pub fn div(self, rhs: ByteUnit) -> (r: ByteUnit)
        ensures
            r.bytes == quot64(self.bytes, rhs.bytes),
            rhs.bytes == 0 ==> r.bytes == u64::MAX,
    {
        if rhs.bytes == 0 {
            ByteUnit { bytes: u64::MAX }
        } else {
            ByteUnit { bytes: self.bytes / rhs.bytes }
        }
    }

    /// The remainder of dividing by `rhs` bytes. The remainder of a
    /// division by zero is zero.
    pub fn rem(self, rhs: ByteUnit) -> (r: ByteUnit)
        ensures
            r.bytes == rem64(self.bytes, rhs.bytes),
            rhs.bytes == 0 ==> r.bytes == 0,
    {
        if rhs.bytes == 0 {
            ByteUnit { bytes: 0 }
        } else {
            ByteUnit { bytes: self.bytes % rhs.bytes }
        }
    }

    /// Multiplies by `2^rhs`, saturating: when `rhs` exceeds the number of
    /// leading zero bits of `self`, the result is
    /// [`ByteUnit::max_value()`]; otherwise it is exact.
    pub fn shl(self, rhs: ByteUnit) -> (r: ByteUnit)
        ensures
            r.bytes == shl64(self.bytes, rhs.bytes),
            rhs.bytes > u64_leading_zeros(self.bytes) ==> r.bytes == u64::MAX,
            rhs.bytes <= u64_leading_zeros(self.bytes) ==> r.bytes == self.bytes * pow2(
                rhs.bytes as nat,
            ),
    {
        let wanted = rhs.bytes;
        let available = self.bytes.leading_zeros() as u64;
        if wanted > available {
            ByteUnit { bytes: u64::MAX }
        } else if wanted >= 64 {
            // Only reachable when `self` is zero, whose 64 leading zero
            // bits admit a shift of 64; the value stays zero.
            proof {
                broadcast use vstd::std_specs::bits::axiom_u64_leading_zeros;

                assert(self.bytes == 0);
                assert(0 * pow2(wanted as nat) == 0) by (nonlinear_arith);
            }
            ByteUnit { bytes: 0 }
        } else {
            proof {
                lemma_shl_fits(self.bytes, wanted);
                vstd::bits::lemma_u64_shl_is_mul(self.bytes, wanted);
            }
            ByteUnit { bytes: self.bytes << wanted }
        }
    }

    /// Divides by `2^rhs`: a plain magnitude right-shift, which is zero
    /// for every shift of 64 or more.
    pub fn shr(self, rhs: ByteUnit) -> (r: ByteUnit)
        ensures
            r.bytes == shr64(self.bytes, rhs.bytes),
            rhs.bytes >= 64 ==> r.bytes == 0,
    {
        let wanted = rhs.bytes;
        if wanted >= 64 {
            proof {
                lemma_shr_64_or_more(self.bytes, wanted);
            }
            ByteUnit { bytes: 0 }
        } else {
            proof {
                vstd::bits::lemma_u64_shr_is_div(self.bytes, wanted);
            }
            ByteUnit { bytes: self.bytes >> wanted }
        }
    }
}

impl ByteUnit {
    /// Adds `rhs` bytes in place, saturating to the maximum on overflow.
    pub fn add_assign(&mut self, rhs: ByteUnit)
        ensures
            final(self).bytes == sat_add64(old(self).bytes, rhs.bytes),
    {
        *self = self.add(rhs);
    }

    /// Subtracts `rhs` bytes in place, saturating to zero on underflow.
    pub fn sub_assign(&mut self, rhs: ByteUnit)
        ensures
            final(self).bytes == sat_sub64(old(self).bytes, rhs.bytes),
    {
        *self = self.sub(rhs);
    }

    /// Multiplies by `rhs` bytes in place, saturating to the maximum on
    /// overflow.
    pub fn mul_assign(&mut self, rhs: ByteUnit)
        ensures
            final(self).bytes == sat_mul64(old(self).bytes, rhs.bytes),
    {
        *self = self.mul(rhs);
    }

    /// Divides by `rhs` bytes in place; dividing by zero yields
    /// [`ByteUnit::max_value()`].
    pub fn div_assign(&mut self, rhs: ByteUnit)
        ensures
            final(self).bytes == quot64(old(self).bytes, rhs.bytes),
    {
        *self = self.div(rhs);
    }

    /// Replaces `self` with the remainder of dividing by `rhs` bytes; the
    /// remainder of a division by zero is zero.
    pub fn rem_assign(&mut self, rhs: ByteUnit)
        ensures
            final(self).bytes == rem64(old(self).bytes, rhs.bytes),
    {
        *self = self.rem(rhs);
    }

    /// Multiplies by `2^rhs` in place, saturating as [`ByteUnit::shl`]
    /// does.
    pub fn shl_assign(&mut self, rhs: ByteUnit)
        ensures
            final(self).bytes == shl64(old(self).bytes, rhs.bytes),
    {
        *self = self.shl(rhs);
    }

    /// Divides by `2^rhs` in place.
    pub fn shr_assign(&mut self, rhs: ByteUnit)
        ensures
            final(self).bytes == shr64(old(self).bytes, rhs.bytes),
    {
        *self = self.shr(rhs);
    }
}

/// The boundary identities of the saturating arithmetic: adding zero or
/// subtracting zero changes nothing, subtracting a quantity from itself or
/// anything smaller-or-equal from zero yields zero, adding the maximum to
/// anything non-zero saturates, and a multiplication by one is exact.
pub proof fn lemma_saturation_identities(q: u64)
    ensures
        sat_add64(0, q) == q,
        sat_add64(q, 0) == q,
        sat_sub64(q, 0) == q,
        sat_sub64(0, q) == 0,
        sat_sub64(q, q) == 0,
        sat_add64(q, u64::MAX) == u64::MAX,
        sat_sub64(q, u64::MAX) == 0,
        sat_mul64(q, 1) == q,
        sat_mul64(1, q) == q,
{
    assert(q * 1 == q) by (nonlinear_arith);
    assert(1 * q == q) by (nonlinear_arith);
}

/// Division and remainder are total: dividing by zero yields the maximum
/// and taking a remainder by zero yields zero, for every quantity.
pub proof fn lemma_div_rem_by_zero(q: u64)
    ensures
        quot64(q, 0) == u64::MAX,
        rem64(q, 0) == 0,
{
}

/// A left shift past the leading zero bits of the value saturates to the
/// maximum, and a right shift by 64 or more yields zero.
pub proof fn lemma_shift_bounds(q: u64, n: u64)
    ensures
        n > u64_leading_zeros(q) ==> shl64(q, n) == u64::MAX,
        n >= 64 ==> shr64(q, n) == 0,
{
    if n >= 64 {
        lemma_shr_64_or_more(q, n);
    }
}

/// Shifting right by 64 or more empties a 64-bit value: `2^n` then
/// exceeds every representable `a`, so the quotient is zero.
proof fn lemma_shr_64_or_more(a: u64, n: u64)
    requires
        n >= 64,
    ensures
        a as nat / pow2(n as nat) == 0,
{
    vstd::arithmetic::power2::lemma2_to64();
    if n > 64 {
        vstd::arithmetic::power2::lemma_pow2_strictly_increases(64, n as nat);
    }
    broadcast use vstd::arithmetic::div_mod::lemma_basic_div;

    assert(a < pow2(n as nat));
}

} // verus!
