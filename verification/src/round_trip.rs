//! The round trip between the renderer and the parser: a count that is a
//! whole number of its display unit parses back from its own rendering
//! unchanged, and any other default rendering parses back to within a
//! hundredth of the display unit of the count it was made from.

use vstd::prelude::*;

use crate::byte_unit::{ByteUnit, sat_add64, sat_mul64};
use crate::fmt::{
    dec_str, lemma_dec_str_digits, lemma_dec_str_value, lemma_repr_reconstructs, pad_left, render,
    repr_unit, round_div_half_even,
};
use crate::parse::{
    Error, bad_char_at, digits_to_nat, dot_char_at, first_bad, frac_bytes, is_digit_char,
    is_suffix_char_spec, lemma_first_idx_is, non_space_at, parse_spec, pow10_sat, suffix_char_at,
    suffix_start, suffix_trimmed_start, suffix_unit,
};

verus! {

/// The suffix a rendering attaches parses back to the unit it stands
/// for: it is one to three suffix characters, none of them a space or a
/// dot, and it matches its own unit token.
proof fn lemma_repr_suffix_parses(n: u64)
    ensures
        ({
            let (u, t) = repr_unit(n);
            &&& 1 <= t.len() <= 3
            &&& suffix_unit(t) == Some(u)
            &&& forall|j: int| 0 <= j < t.len() ==> is_suffix_char_spec(#[trigger] t[j])
            &&& forall|j: int| 0 <= j < t.len() ==> #[trigger] t[j] != ' '
        }),
{
    reveal_strlit("B");
    reveal_strlit("kB");
    reveal_strlit("KiB");
    reveal_strlit("MB");
    reveal_strlit("MiB");
    reveal_strlit("GB");
    reveal_strlit("GiB");
    reveal_strlit("TB");
    reveal_strlit("TiB");
    reveal_strlit("PB");
    reveal_strlit("PiB");
    reveal_strlit("EB");
    reveal_strlit("EiB");
    let t = repr_unit(n).1;
    assert forall|j: int| 0 <= j < t.len() implies is_suffix_char_spec(#[trigger] t[j]) && t[j]
        != ' ' by {
        assert(j == 0 || j == 1 || j == 2);
    }
}

/// The round trip is exact wherever the rendering shows no fraction: a
/// count that is a whole number of its display unit renders as
/// `whole suffix`, and that string parses back to exactly the same
/// count.
pub proof fn lemma_exact_render_reparses(n: u64)
    requires
        n % repr_unit(n).0 == 0,
    ensures
        render(n, 0, None) == dec_str((n / repr_unit(n).0) as nat) + repr_unit(n).1,
        parse_spec(render(n, 0, None)) == Ok::<ByteUnit, Error>(ByteUnit { bytes: n }),
{
    lemma_repr_reconstructs(n);
    lemma_repr_suffix_parses(n);
    let u = repr_unit(n).0;
    let t = repr_unit(n).1;
    let whole = (n / u) as u64;
    let d = dec_str(whole as nat);
    lemma_dec_str_digits(whole as nat);
    lemma_dec_str_value(whole as nat);
    let s = d + t;
    // With no remainder the rendering is the bare whole part and suffix.
    assert(pad_left(d, 0) =~= d);
    assert(render(n, 0, None) == s);

    let dlen = d.len() as int;
    let slen = s.len() as int;
    // Digits are neither suffix characters nor dots, so the suffix
    // region starts exactly where the suffix was attached ...
    assert forall|j: int| 0 <= j < dlen implies !#[trigger] suffix_char_at(s)(j) by {
        assert(s[j] == d[j]);
        assert(is_digit_char(d[j]));
    }
    assert(suffix_char_at(s)(dlen));
    lemma_first_idx_is(slen, 0, suffix_char_at(s), dlen);
    assert(suffix_start(s) == dlen);

    // ... no character is a dot ...
    assert forall|j: int| 0 <= j < slen implies !#[trigger] dot_char_at(s)(j) by {
        if j < dlen {
            assert(s[j] == d[j]);
            assert(is_digit_char(d[j]));
        } else {
            assert(s[j] == t[j - dlen]);
            assert(is_suffix_char_spec(t[j - dlen]));
        }
    }
    lemma_first_idx_is(slen, 0, dot_char_at(s), slen);
    assert(crate::parse::dot_start(s) == slen);

    // ... every character is legal where it stands ...
    assert forall|j: int| 0 <= j < slen implies !#[trigger] bad_char_at(s)(j) by {
        if j < dlen {
            assert(s[j] == d[j]);
            assert(is_digit_char(d[j]));
        } else {
            assert(s[j] == t[j - dlen]);
            assert(is_suffix_char_spec(s[j]));
        }
        assert(crate::parse::char_ok(s, j));
    }
    lemma_first_idx_is(slen, 0, bad_char_at(s), slen);
    assert(first_bad(s) == slen);

    // ... and the suffix region needs no trimming, since unit tokens
    // hold no spaces.
    assert(non_space_at(s)(dlen));
    lemma_first_idx_is(slen, dlen, non_space_at(s), dlen);
    assert(suffix_trimmed_start(s) == dlen);
    assert(s.subrange(dlen, slen) =~= t);

    // The whole numeral reads back as the whole count, which fits.
    assert(s.subrange(0, dlen) =~= d);
    assert(digits_to_nat(s.subrange(0, dlen)) == whole as nat);

    // The value reassembles exactly: `whole * unit` neither overflows
    // nor saturates, because it is the original count.
    assert(whole * u == n);
    assert(sat_mul64(whole, u) == n);
}


/// A string of zeros reads as the numeral zero.
proof fn lemma_digits_all_zeros(z: Seq<char>)
    requires
        forall|j: int| 0 <= j < z.len() ==> #[trigger] z[j] == '0',
    ensures
        digits_to_nat(z) == 0,
    decreases z.len(),
{
    if z.len() > 0 {
        lemma_digits_all_zeros(z.drop_last());
    }
}

/// Leading zeros do not change what a numeral reads as.
proof fn lemma_digits_zeros_prefix(z: Seq<char>, t: Seq<char>)
    requires
        forall|j: int| 0 <= j < z.len() ==> #[trigger] z[j] == '0',
    ensures
        digits_to_nat(z + t) == digits_to_nat(t),
    decreases t.len(),
{
    if t.len() == 0 {
        assert(z + t =~= z);
        lemma_digits_all_zeros(z);
    } else {
        assert((z + t).drop_last() =~= z + t.drop_last());
        lemma_digits_zeros_prefix(z, t.drop_last());
        assert((z + t).last() == t.last());
    }
}

/// A value below one hundred renders in at most two digits.
proof fn lemma_dec_str_short(v: nat)
    requires
        v < 100,
    ensures
        dec_str(v).len() <= 2,
{
    if v >= 10 {
        assert(dec_str(v / 10).len() == 1);
    }
}

/// The general round-trip law for the default rendering: the two
/// fractional digits a rendering shows stand for hundredths of the
/// display unit, so the string parses back to within one hundredth of a
/// unit (plus a byte of floor error) of the value it was made from.
///
/// The one family of inputs left out is where the remainder rounds to a
/// full hundred hundredths: the rendering then shows the scaled fraction
/// as `100` (three digits), which reads back as a tenth of a unit.
pub proof fn lemma_default_render_reparses(n: u64)
    requires
        round_div_half_even((n % repr_unit(n).0) * 100, repr_unit(n).0 as int) < 100,
    ensures
        parse_spec(render(n, 0, None)) is Ok,
        ({
            let p = parse_spec(render(n, 0, None))->Ok_0.bytes;
            let u = repr_unit(n).0;
            &&& p <= n + u / 100
            &&& n <= p + u / 100 + 1
        }),
{
    lemma_repr_reconstructs(n);
    let u = repr_unit(n).0;
    let t = repr_unit(n).1;
    let w = (n / u) as u64;
    let rem = (n % u) as u64;
    if rem == 0 {
        lemma_exact_render_reparses(n);
        return ;
    }
    lemma_repr_suffix_parses(n);
    assert(vstd::arithmetic::power::pow(10, 2) == 100) by {
        reveal_with_fuel(vstd::arithmetic::power::pow, 3);
    }
    assert(pow10_sat(2) == 100);

    // The fraction digits: at most ninety-nine hundredths by assumption,
    // and never negative.
    let a = rem * 100;
    let q0 = a / (u as int);
    let r0 = a % (u as int);
    vstd::arithmetic::div_mod::lemma_fundamental_div_mod(a, u as int);
    vstd::arithmetic::div_mod::lemma_mod_bound(a, u as int);
    vstd::arithmetic::div_mod::lemma_div_pos_is_pos(a, u as int);
    let big_d = round_div_half_even(a, u as int);
    assert(big_d == q0 || big_d == q0 + 1);
    assert(0 <= big_d < 100);
    let dd = big_d as u64;

    // The rendering is `whole.fraction suffix` with exactly two fraction
    // digits.
    let d1 = dec_str(w as nat);
    lemma_dec_str_digits(w as nat);
    lemma_dec_str_value(w as nat);
    let f = pad_left(dec_str(dd as nat), 2);
    lemma_dec_str_digits(dd as nat);
    lemma_dec_str_value(dd as nat);
    lemma_dec_str_short(dd as nat);
    assert(f.len() == 2);
    assert(forall|j: int| 0 <= j < f.len() ==> is_digit_char(#[trigger] f[j])) by {
        assert(is_digit_char('0'));
    }
    assert(digits_to_nat(f) == dd) by {
        if dec_str(dd as nat).len() < 2 {
            lemma_digits_zeros_prefix(
                Seq::new((2 - dec_str(dd as nat).len()) as nat, |i: int| '0'),
                dec_str(dd as nat),
            );
        }
    }
    let s = pad_left(d1, 0) + seq!['.'] + f + t;
    assert(pad_left(d1, 0) =~= d1);
    assert(render(n, 0, None) == s);

    let dlen = d1.len() as int;
    let slen = s.len() as int;
    assert(slen == dlen + 3 + t.len());

    // Where each kind of character stands in the rendered string.
    assert(forall|j: int| 0 <= j < dlen ==> s[j] == d1[j] && is_digit_char(#[trigger] s[j]));
    assert(s[dlen] == '.');
    assert(forall|j: int|
        dlen + 1 <= j < dlen + 3 ==> s[j] == f[j - dlen - 1] && is_digit_char(#[trigger] s[j]));
    assert(forall|j: int|
        dlen + 3 <= j < slen ==> s[j] == t[j - dlen - 3] && is_suffix_char_spec(#[trigger] s[j]));

    // The scan lands where the pieces were put: the suffix region starts
    // after the fraction, the first dot is the decimal point, everything
    // is legal, and the suffix needs no trimming.
    assert forall|j: int| 0 <= j < dlen + 3 implies !#[trigger] suffix_char_at(s)(j) by {
        if j < dlen || dlen + 1 <= j {
            assert(is_digit_char(s[j]));
        } else {
            assert(s[j] == '.');
        }
    }
    assert(suffix_char_at(s)(dlen + 3));
    lemma_first_idx_is(slen, 0, suffix_char_at(s), dlen + 3);
    assert(suffix_start(s) == dlen + 3);

    assert forall|j: int| 0 <= j < dlen implies !#[trigger] dot_char_at(s)(j) by {
        assert(is_digit_char(s[j]));
    }
    assert(dot_char_at(s)(dlen));
    lemma_first_idx_is(slen, 0, dot_char_at(s), dlen);
    assert(crate::parse::dot_start(s) == dlen);

    assert forall|j: int| 0 <= j < slen implies !#[trigger] bad_char_at(s)(j) by {
        if j < dlen || (dlen + 1 <= j < dlen + 3) {
            assert(is_digit_char(s[j]));
        } else if j == dlen {
            assert(s[j] == '.');
        } else {
            assert(is_suffix_char_spec(s[j]));
        }
        assert(crate::parse::char_ok(s, j));
    }
    lemma_first_idx_is(slen, 0, bad_char_at(s), slen);
    assert(first_bad(s) == slen);

    assert(non_space_at(s)(dlen + 3));
    lemma_first_idx_is(slen, dlen + 3, non_space_at(s), dlen + 3);
    assert(suffix_trimmed_start(s) == dlen + 3);
    assert(s.subrange(dlen + 3, slen) =~= t);

    // A non-zero remainder rules the plain byte unit out, so no
    // fractional-byte error arises.
    assert(n % 1u64 == 0) by (nonlinear_arith);
    assert(u != ByteUnit::B);

    // Both numerals read back as what was written.
    assert(s.subrange(0, dlen) =~= d1);
    assert(digits_to_nat(s.subrange(0, dlen)) == w as nat);
    assert(s.subrange(dlen + 1, dlen + 3) =~= f);
    assert(digits_to_nat(s.subrange(dlen + 1, dlen + 3)) == dd);

    // So the parse succeeds, with the fraction read as hundredths.
    assert(parse_spec(s) == Ok::<ByteUnit, Error>(
        ByteUnit { bytes: sat_add64(sat_mul64(w, u), frac_bytes(dd, 2, u)) },
    ));

    // The reassembled value sits within a hundredth of a unit of `n`.
    assert(w * u + rem == n);
    assert(sat_mul64(w, u) == w * u);
    let fb = (dd * u) / 100;
    assert(frac_bytes(dd, 2, u) == fb) by {
        vstd::arithmetic::div_mod::lemma_div_is_ordered(dd * u, 99 * (u as int), 100);
        assert(dd * u <= 99 * (u as int)) by (nonlinear_arith)
            requires
                0 <= dd <= 99 && 0 < u,
        {
        }
        assert((99 * (u as int)) / 100 <= u64::MAX) by {
            vstd::arithmetic::div_mod::lemma_div_is_ordered(
                99 * (u as int),
                100 * (u64::MAX as int),
                100,
            );
            vstd::arithmetic::div_mod::lemma_div_multiples_vanish(u64::MAX as int, 100);
            assert(99 * (u as int) <= 100 * (u64::MAX as int)) by (nonlinear_arith)
                requires
                    0 < u <= u64::MAX,
            {
            }
        }
    }

    // Upper bound: the fraction read back is at most the remainder plus
    // a hundredth of a unit.
    assert(fb <= rem + u / 100) by {
        assert(big_d * u <= (q0 + 1) * u) by (nonlinear_arith)
            requires
                big_d <= q0 + 1 && 0 < u,
        {
        }
        assert((q0 + 1) * u == q0 * u + u) by (nonlinear_arith);
        assert(q0 * u == a - r0);
        assert(big_d * u <= rem * 100 + u);
        vstd::arithmetic::div_mod::lemma_div_is_ordered(dd * u, rem * 100 + u, 100);
        assert((rem * 100 + u) / 100 == rem + u / 100) by {
            vstd::arithmetic::div_mod::lemma_hoist_over_denominator(
                u as int,
                rem as int,
                100nat,
            );
        }
    }

    // Lower bound: it is at least the remainder less a hundredth of a
    // unit and a byte.
    assert(rem <= fb + u / 100 + 1) by {
        assert(q0 * u <= big_d * u) by (nonlinear_arith)
            requires
                q0 <= big_d && 0 < u,
        {
        }
        assert(q0 * u == a - r0);
        assert(a - u < q0 * u);
        assert(rem * 100 - u <= dd * u);
        assert((rem * 100 - 100 * (u / 100) - 100) <= dd * u) by {
            vstd::arithmetic::div_mod::lemma_fundamental_div_mod(u as int, 100);
            vstd::arithmetic::div_mod::lemma_mod_bound(u as int, 100);
        }
        vstd::arithmetic::div_mod::lemma_div_is_ordered(
            rem * 100 - 100 * (u / 100) - 100,
            dd * u,
            100,
        );
        assert((rem * 100 - 100 * (u / 100) - 100) / 100 == rem - u / 100 - 1) by {
            vstd::arithmetic::div_mod::lemma_div_multiples_vanish(
                rem - u / 100 - 1,
                100,
            );
            assert(100 * (rem - u / 100 - 1) == rem * 100 - 100 * (u / 100) - 100)
                by (nonlinear_arith);
        }
    }

    // The bounds survive the final saturating addition.
    let p = sat_add64(sat_mul64(w, u), frac_bytes(dd, 2, u));
    assert(p <= n + u / 100 && n <= p + u / 100 + 1);
}

} // verus!

