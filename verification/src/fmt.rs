//! The minimal unit representation and the human-readable rendering:
//! which display unit a count picks, and how it prints with a field
//! width and a precision.

use vstd::prelude::*;

use crate::byte_unit::{ByteUnit, sat_add64, sat_mul64};
use crate::parse::pow10_sat;

verus! {

/// The display unit for a count of `n` bytes and its suffix: the largest
/// unit of the ladder that leaves a non-zero whole part, decimal and
/// binary rungs compared pairwise. At each rung, the binary unit is
/// preferred when the remainder against the decimal unit covers the gap
/// between the two unit sizes; below one kilobyte the unit is the plain
/// byte.
pub open spec fn repr_unit(n: u64) -> (u64, Seq<char>) {
    if n >= ByteUnit::EB {
        if n % ByteUnit::EB >= ByteUnit::EiB - ByteUnit::EB {
            (ByteUnit::EiB, "EiB"@)
        } else {
            (ByteUnit::EB, "EB"@)
        }
    } else if n >= ByteUnit::PB {
        if n % ByteUnit::PB >= ByteUnit::PiB - ByteUnit::PB {
            (ByteUnit::PiB, "PiB"@)
        } else {
            (ByteUnit::PB, "PB"@)
        }
    } else if n >= ByteUnit::TB {
        if n % ByteUnit::TB >= ByteUnit::TiB - ByteUnit::TB {
            (ByteUnit::TiB, "TiB"@)
        } else {
            (ByteUnit::TB, "TB"@)
        }
    } else if n >= ByteUnit::GB {
        if n % ByteUnit::GB >= ByteUnit::GiB - ByteUnit::GB {
            (ByteUnit::GiB, "GiB"@)
        } else {
            (ByteUnit::GB, "GB"@)
        }
    } else if n >= ByteUnit::MB {
        if n % ByteUnit::MB >= ByteUnit::MiB - ByteUnit::MB {
            (ByteUnit::MiB, "MiB"@)
        } else {
            (ByteUnit::MB, "MB"@)
        }
    } else if n >= ByteUnit::kB {
        if n % ByteUnit::kB >= ByteUnit::KiB - ByteUnit::kB {
            (ByteUnit::KiB, "KiB"@)
        } else {
            (ByteUnit::kB, "kB"@)
        }
    } else {
        (ByteUnit::B, "B"@)
    }
}

impl ByteUnit {
    /// The components of the minimal unit representation of `self`: the
    /// whole number of display units, the remainder in bytes, the unit's
    /// suffix, and the unit itself. The remainder is returned in bytes, so
    /// `whole * unit + remainder` reconstructs `self` exactly and the
    /// fractional part of the representation is `remainder / unit`.
    pub fn repr(self) -> (r: (u64, u64, &'static str, ByteUnit))
        ensures
            r.3.bytes == repr_unit(self.bytes).0,
            r.2@ == repr_unit(self.bytes).1,
            r.0 == self.bytes / repr_unit(self.bytes).0 as u64,
            r.1 == self.bytes % repr_unit(self.bytes).0 as u64,
    {
        let n = self.bytes;
        if n >= ByteUnit::EB {
            if n % ByteUnit::EB >= ByteUnit::EiB - ByteUnit::EB {
                (n / ByteUnit::EiB, n % ByteUnit::EiB, "EiB", ByteUnit { bytes: ByteUnit::EiB })
            } else {
                (n / ByteUnit::EB, n % ByteUnit::EB, "EB", ByteUnit { bytes: ByteUnit::EB })
            }
        } else if n >= ByteUnit::PB {
            if n % ByteUnit::PB >= ByteUnit::PiB - ByteUnit::PB {
                (n / ByteUnit::PiB, n % ByteUnit::PiB, "PiB", ByteUnit { bytes: ByteUnit::PiB })
            } else {
                (n / ByteUnit::PB, n % ByteUnit::PB, "PB", ByteUnit { bytes: ByteUnit::PB })
            }
        } else if n >= ByteUnit::TB {
            if n % ByteUnit::TB >= ByteUnit::TiB - ByteUnit::TB {
                (n / ByteUnit::TiB, n % ByteUnit::TiB, "TiB", ByteUnit { bytes: ByteUnit::TiB })
            } else {
                (n / ByteUnit::TB, n % ByteUnit::TB, "TB", ByteUnit { bytes: ByteUnit::TB })
            }
        } else if n >= ByteUnit::GB {
            if n % ByteUnit::GB >= ByteUnit::GiB - ByteUnit::GB {
                (n / ByteUnit::GiB, n % ByteUnit::GiB, "GiB", ByteUnit { bytes: ByteUnit::GiB })
            } else {
                (n / ByteUnit::GB, n % ByteUnit::GB, "GB", ByteUnit { bytes: ByteUnit::GB })
            }
        } else if n >= ByteUnit::MB {
            if n % ByteUnit::MB >= ByteUnit::MiB - ByteUnit::MB {
                (n / ByteUnit::MiB, n % ByteUnit::MiB, "MiB", ByteUnit { bytes: ByteUnit::MiB })
            } else {
                (n / ByteUnit::MB, n % ByteUnit::MB, "MB", ByteUnit { bytes: ByteUnit::MB })
            }
        } else if n >= ByteUnit::kB {
            if n % ByteUnit::kB >= ByteUnit::KiB - ByteUnit::kB {
                (n / ByteUnit::KiB, n % ByteUnit::KiB, "KiB", ByteUnit { bytes: ByteUnit::KiB })
            } else {
                (n / ByteUnit::kB, n % ByteUnit::kB, "kB", ByteUnit { bytes: ByteUnit::kB })
            }
        } else {
            proof {
                vstd::arithmetic::div_mod::lemma_div_basics(n as int);
                vstd::arithmetic::div_mod::lemma_small_mod(0, 1);
                assert(n % 1u64 == 0) by (nonlinear_arith);
            }
            (n, 0, "B", ByteUnit { bytes: ByteUnit::B })
        }
    }
}

/// The minimal representation loses nothing: the display unit is never
/// zero, the remainder is less than one unit, and whole units plus the
/// remainder give back the original count exactly.
pub proof fn lemma_repr_reconstructs(n: u64)
    ensures
        repr_unit(n).0 > 0,
        n % repr_unit(n).0 < repr_unit(n).0,
        (n / repr_unit(n).0) * repr_unit(n).0 + (n % repr_unit(n).0) == n,
{
    let u = repr_unit(n).0 as int;
    vstd::arithmetic::div_mod::lemma_fundamental_div_mod(n as int, u);
    vstd::arithmetic::div_mod::lemma_mod_bound(n as int, u);
}

/// The character of a single decimal digit.
pub open spec fn digit_char(d: nat) -> char
    recommends
        d < 10,
{
    if d == 0 {
        '0'
    } else if d == 1 {
        '1'
    } else if d == 2 {
        '2'
    } else if d == 3 {
        '3'
    } else if d == 4 {
        '4'
    } else if d == 5 {
        '5'
    } else if d == 6 {
        '6'
    } else if d == 7 {
        '7'
    } else if d == 8 {
        '8'
    } else {
        '9'
    }
}

/// The decimal digits of `v`, most significant first, with no leading
/// zeros (a lone zero for zero).
pub open spec fn dec_str(v: nat) -> Seq<char>
    decreases v,
{
    if v < 10 {
        seq![digit_char(v)]
    } else {
        dec_str(v / 10) + seq![digit_char(v % 10)]
    }
}

/// A decimal rendering is never empty and holds digits alone.
pub proof fn lemma_dec_str_digits(v: nat)
    ensures
        dec_str(v).len() >= 1,
        forall|j: int|
            0 <= j < dec_str(v).len() ==> crate::parse::is_digit_char(#[trigger] dec_str(v)[j]),
    decreases v,
{
    if v >= 10 {
        lemma_dec_str_digits(v / 10);
        assert forall|j: int|
            0 <= j < dec_str(v).len() implies crate::parse::is_digit_char(
            #[trigger] dec_str(v)[j],
        ) by {
            if j < dec_str(v / 10).len() {
                assert(dec_str(v)[j] == dec_str(v / 10)[j]);
            } else {
                assert(dec_str(v)[j] == digit_char(v % 10));
            }
        }
    }
}

/// Reading a decimal rendering back as a numeral gives the value it was
/// made from.
pub proof fn lemma_dec_str_value(v: nat)
    ensures
        crate::parse::digits_to_nat(dec_str(v)) == v,
    decreases v,
{
    if v < 10 {
        assert(dec_str(v).drop_last() =~= Seq::<char>::empty());
        assert(crate::parse::digits_to_nat(Seq::<char>::empty()) == 0);
        assert(dec_str(v).last() == digit_char(v));
        assert(crate::parse::digit_val(digit_char(v)) == v);
    } else {
        lemma_dec_str_value(v / 10);
        assert(dec_str(v).drop_last() =~= dec_str(v / 10));
        assert(dec_str(v).last() == digit_char(v % 10));
        assert(crate::parse::digit_val(digit_char(v % 10)) == v % 10);
        vstd::arithmetic::div_mod::lemma_fundamental_div_mod(v as int, 10);
    }
}

/// `t` padded on the left with zeros up to width `w`.
pub open spec fn pad_left(t: Seq<char>, w: nat) -> Seq<char> {
    if t.len() >= w {
        t
    } else {
        Seq::new((w - t.len()) as nat, |i: int| '0') + t
    }
}

/// The integer nearest `a / d`, ties rounded to the even neighbour.
pub open spec fn round_div_half_even(a: int, d: int) -> int
    recommends
        0 <= a,
        0 < d,
{
    let q = a / d;
    let r = a % d;
    if 2 * r > d || (2 * r == d && q % 2 == 1) {
        q + 1
    } else {
        q
    }
}

/// How a count of `n` bytes renders with a field width and an optional
/// precision (the number of fractional digits; 2 when unspecified).
///
/// With a non-zero remainder and a non-zero precision, the rendering is
/// `whole.fraction suffix`, the whole part zero-padded to the width and
/// the fraction's digits to the precision. With a remainder over half a
/// unit and no fractional digits asked for, the count rounds up to the
/// next whole unit and renders afresh, which can carry the unit choice
/// upward; when that next count is out of range, the whole part renders
/// as it stands. Otherwise the rendering is `whole suffix`.
pub open spec fn render(n: u64, width: usize, precision: Option<usize>) -> Seq<char>
    decreases u64::MAX - n,
{
    let u = repr_unit(n).0;
    let suffix = repr_unit(n).1;
    let whole = (n / u) as u64;
    let rem = (n % u) as u64;
    let positive_precision = match precision {
        Option::None => true,
        Option::Some(p) => p > 0,
    };
    if rem != 0 && positive_precision {
        let p = match precision {
            Option::None => 2,
            Option::Some(p) => p,
        };
        let digits = round_div_half_even(rem * pow10_sat(p as nat), u as int) as u64;
        pad_left(dec_str(whole as nat), width as nat) + seq!['.'] + pad_left(
            dec_str(digits as nat),
            p as nat,
        ) + suffix
    } else if 2 * rem > u {
        let next = sat_mul64(sat_add64(whole, 1), u);
        if next > n {
            render(next, width, precision)
        } else {
            pad_left(dec_str(whole as nat), width as nat) + suffix
        }
    } else {
        pad_left(dec_str(whole as nat), width as nat) + suffix
    }
}

/// The one-character string of a single decimal digit.
fn digit_str(d: u64) -> (r: &'static str)
    requires
        d < 10,
    ensures
        r@ == seq![digit_char(d as nat)],
{
    proof {
        reveal_strlit("0");
        reveal_strlit("1");
        reveal_strlit("2");
        reveal_strlit("3");
        reveal_strlit("4");
        reveal_strlit("5");
        reveal_strlit("6");
        reveal_strlit("7");
        reveal_strlit("8");
        reveal_strlit("9");
    }
    let r = if d == 0 {
        "0"
    } else if d == 1 {
        "1"
    } else if d == 2 {
        "2"
    } else if d == 3 {
        "3"
    } else if d == 4 {
        "4"
    } else if d == 5 {
        "5"
    } else if d == 6 {
        "6"
    } else if d == 7 {
        "7"
    } else if d == 8 {
        "8"
    } else {
        "9"
    };
    proof {
        assert(r@ =~= seq![digit_char(d as nat)]);
    }
    r
}

/// Renders `v` in decimal, most significant digit first.
pub(crate) fn u64_to_string(v: u64) -> (r: String)
    ensures
        r@ == dec_str(v as nat),
    decreases v,
{
    if v < 10 {
        let mut s = String::new();
        s.append(digit_str(v));
        proof {
            assert(s@ =~= dec_str(v as nat));
        }
        s
    } else {
        let mut s = u64_to_string(v / 10);
        s.append(digit_str(v % 10));
        proof {
            assert(s@ =~= dec_str(v as nat));
        }
        s
    }
}

/// Renders `v` in decimal, zero-padded on the left to width `w`.
fn u64_to_padded(v: u64, w: usize) -> (r: String)
    ensures
        r@ == pad_left(dec_str(v as nat), w as nat),
{
    let digits = u64_to_string(v);
    let len = digits.as_str().unicode_len();
    let mut out = String::new();
    if len < w {
        let pad = w - len;
        let mut j: usize = 0;
        proof {
            reveal_strlit("0");
        }
        while j < pad
            invariant
                j <= pad,
                out@ =~= Seq::new(j as nat, |i: int| '0'),
                "0"@ =~= seq!['0'],
            decreases pad - j,
        {
            out.append("0");
            j = j + 1;
            proof {
                assert(out@ =~= Seq::new(j as nat, |i: int| '0'));
            }
        }
    }
    out.append(digits.as_str());
    proof {
        assert(out@ =~= pad_left(dec_str(v as nat), w as nat));
    }
    out
}

/// Rounds `rem * k / u` to the nearest integer, ties to even: the digits
/// of the fractional part of `rem / u`, scaled to `k = 10^p`.
fn round_frac(rem: u64, k: u64, u: u64) -> (r: u64)
    requires
        u > 0,
        k > 0,
        rem < u,
    ensures
        r == round_div_half_even(rem * k, u as int),
{
    proof {
        assert((rem as u128) * (k as u128) == rem * k && (rem as u128) * (k as u128)
            <= u128::MAX) by (nonlinear_arith)
            requires
                rem <= u64::MAX && k <= u64::MAX,
        {
        }
    }
    let a = (rem as u128) * (k as u128);
    let du = u as u128;
    let q = a / du;
    let rr = a % du;
    proof {
        assert(q == (rem * k) as int / (u as int) && rr == (rem * k) as int % (u as int));
        // The quotient never reaches `k`, because `rem < u`.
        assert((rem * k) < (u as int) * (k as int)) by (nonlinear_arith)
            requires
                rem < u,
                0 < k,
                0 < u,
        {
        }
        vstd::arithmetic::div_mod::lemma_multiply_divide_lt(
            (rem * k) as int,
            u as int,
            k as int,
        );
        vstd::arithmetic::div_mod::lemma_mod_bound((rem * k) as int, u as int);
    }
    let bump = 2 * rr > du || (2 * rr == du && q % 2 == 1);
    if bump {
        (q + 1) as u64
    } else {
        q as u64
    }
}

impl ByteUnit {
    /// Renders `self` in its minimal unit representation, the whole part
    /// zero-padded to `width` and the fractional part to `precision`
    /// digits (2 when unspecified; 0 rounds to whole units). The result is
    /// exactly [`render`] of the value.
    pub fn format_with(self, width: usize, precision: Option<usize>) -> (r: String)
        ensures
            r@ == render(self.bytes, width, precision),
        decreases u64::MAX - self.bytes,
    {
        let (whole, rem, suffix, unit) = self.repr();
        let positive_precision = match precision {
            None => true,
            Some(p) => p > 0,
        };
        if rem != 0 && positive_precision {
            let p = match precision {
                None => 2,
                Some(p) => p,
            };
            let k = crate::parse::pow10_clamped(p);
            proof {
                lemma_repr_reconstructs(self.bytes);
                vstd::arithmetic::power::lemma_pow_positive(10, p as nat);
            }
            let digits = round_frac(rem, k, unit.as_u64());
            let mut out = u64_to_padded(whole, width);
            proof {
                reveal_strlit(".");
            }
            out.append(".");
            let frac = u64_to_padded(digits, p);
            out.append(frac.as_str());
            out.append(suffix);
            proof {
                assert(out@ =~= render(self.bytes, width, precision));
            }
            out
        } else {
            proof {
                lemma_repr_reconstructs(self.bytes);
            }
            let round_up = (rem as u128) * 2 > unit.as_u64() as u128;
            if round_up {
                let next = ByteUnit::from_units(whole.saturating_add(1), unit.as_u64());
                if next.as_u64() > self.bytes {
                    return next.format_with(width, precision);
                }
            }
            let mut out = u64_to_padded(whole, width);
            out.append(suffix);
            proof {
                assert(out@ =~= render(self.bytes, width, precision));
            }
            out
        }
    }

    /// Renders `self` in its minimal unit representation with no padding
    /// and the default two fractional digits, as in `"323kB"` or
    /// `"2.50MiB"`.
    pub fn format(self) -> (r: String)
        ensures
            r@ == render(self.bytes, 0, None),
    {
        self.format_with(0, None)
    }
}

} // verus!
