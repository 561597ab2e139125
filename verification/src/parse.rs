//! The byte-unit string grammar: the single-pass scan, the
//! case-insensitive unit suffixes, the numeral limits, the error
//! taxonomy, and the parser proved to match [`parse_spec`] exactly.

use vstd::prelude::*;

use crate::byte_unit::{ByteUnit, sat_add64, sat_mul64};

verus! {

/// The reason a numeral inside a byte-unit string failed to parse.
#[derive(Debug, Clone, Copy, PartialEq, Eq, Structural)]
pub enum NumeralError {
    /// The numeral had no digits.
    Empty,
    /// The numeral exceeds the range of its integer type.
    Overflow,
}

/// Parsing error, as returned by [`ByteUnit::from_str`].
#[derive(Debug, Clone, Copy, PartialEq, Eq, Structural)]
#[non_exhaustive]
pub enum Error {
    /// The input was empty.
    Empty,
    /// Found unexpected character `.1` at index `.0`.
    Unexpected(usize, char),
    /// A byte unit contained a fractional component.
    FractionalByte,
    /// The parsed byte unit suffix is unknown.
    BadSuffix,
    /// The whole part of the number (`{whole}.{frac}`) was invalid.
    BadWhole(NumeralError),
    /// The fractional part of the number (`{whole}.{frac}`) was invalid.
    BadFractional(NumeralError),
}

/// True of the characters that may appear in a unit suffix: the letters of
/// the thirteen unit tokens, in either case, and the space that may
/// separate the numeral from the suffix.
pub open spec fn is_suffix_char_spec(c: char) -> bool {
    ||| c == 'b' || c == 'B'
    ||| c == 'e' || c == 'E'
    ||| c == 'g' || c == 'G'
    ||| c == 'i' || c == 'I'
    ||| c == 'k' || c == 'K'
    ||| c == 'm' || c == 'M'
    ||| c == 'p' || c == 'P'
    ||| c == 't' || c == 'T'
    ||| c == ' '
}

/// Whether `c` may start or continue a unit suffix region.
pub fn is_suffix_char(c: char) -> (r: bool)
    ensures
        r == is_suffix_char_spec(c),
{
    c == 'b' || c == 'B' || c == 'e' || c == 'E' || c == 'g' || c == 'G' || c == 'i' || c == 'I'
        || c == 'k' || c == 'K' || c == 'm' || c == 'M' || c == 'p' || c == 'P' || c == 't' || c
        == 'T' || c == ' '
}

/// True of the ASCII decimal digits.
pub open spec fn is_digit_char(c: char) -> bool {
    48 <= c as u32 <= 57
}

/// The value of an ASCII decimal digit.
pub open spec fn digit_val(c: char) -> nat
    recommends
        is_digit_char(c),
{
    (c as u32 - 48) as nat
}

/// The value of a string of decimal digits, most significant first.
pub open spec fn digits_to_nat(s: Seq<char>) -> nat
    decreases s.len(),
{
    if s.len() == 0 {
        0
    } else {
        digits_to_nat(s.drop_last()) * 10 + digit_val(s.last())
    }
}

/// The first index at or after `i` satisfying `p`, or `s_len` when none
/// does.
pub open spec fn first_idx_where(s_len: int, i: int, p: spec_fn(int) -> bool) -> int
    decreases s_len - i,
{
    if i >= s_len {
        s_len
    } else if p(i) {
        i
    } else {
        first_idx_where(s_len, i + 1, p)
    }
}

/// What makes `first_idx_where` the first such index: it lies between `i`
/// and `s_len`, it satisfies `p` unless it is `s_len`, and nothing before
/// it satisfies `p`.
pub proof fn lemma_first_idx_where(s_len: int, i: int, p: spec_fn(int) -> bool)
    requires
        0 <= i <= s_len,
    ensures
        ({
            let r = first_idx_where(s_len, i, p);
            &&& i <= r <= s_len
            &&& (r < s_len ==> p(r))
            &&& forall|j: int| i <= j < r ==> !#[trigger] p(j)
        }),
    decreases s_len - i,
{
    if i < s_len && !p(i) {
        lemma_first_idx_where(s_len, i + 1, p);
    }
}

/// Pins `first_idx_where` down: when nothing in `[i, k)` satisfies `p`
/// and `k` does (or is the end), the first index is exactly `k`.
pub proof fn lemma_first_idx_is(s_len: int, i: int, p: spec_fn(int) -> bool, k: int)
    requires
        0 <= i <= k <= s_len,
        forall|j: int| i <= j < k ==> !#[trigger] p(j),
        k < s_len ==> p(k),
    ensures
        first_idx_where(s_len, i, p) == k,
    decreases k - i,
{
    if i < k {
        lemma_first_idx_is(s_len, i + 1, p, k);
    }
}

/// The predicate picking out the suffix characters of `s`, by index.
pub open spec fn suffix_char_at(s: Seq<char>) -> spec_fn(int) -> bool {
    |j: int| is_suffix_char_spec(s[j])
}

/// The predicate picking out the dots of `s`, by index.
pub open spec fn dot_char_at(s: Seq<char>) -> spec_fn(int) -> bool {
    |j: int| s[j] == '.'
}

/// The index of the first suffix character of `s`, or `s.len()` when
/// there is none: where the unit suffix region begins.
pub open spec fn suffix_start(s: Seq<char>) -> int {
    first_idx_where(s.len() as int, 0, suffix_char_at(s))
}

/// The index of the first `.` of `s`, or `s.len()` when there is none.
pub open spec fn dot_start(s: Seq<char>) -> int {
    first_idx_where(s.len() as int, 0, dot_char_at(s))
}

/// Whether the character of `s` at `i` is legal where it stands: suffix
/// characters are always legal, a digit is legal only before the suffix
/// region, and a dot is legal only if it is the first dot and stands
/// before the suffix region.
pub open spec fn char_ok(s: Seq<char>, i: int) -> bool {
    ||| is_suffix_char_spec(s[i])
    ||| (is_digit_char(s[i]) && suffix_start(s) >= i)
    ||| (s[i] == '.' && dot_start(s) == i && suffix_start(s) >= i)
}

/// The predicate picking out the illegal characters of `s`, by index.
pub open spec fn bad_char_at(s: Seq<char>) -> spec_fn(int) -> bool {
    |j: int| !char_ok(s, j)
}

/// The index of the first illegal character of `s`, or `s.len()` when the
/// whole string scans cleanly.
pub open spec fn first_bad(s: Seq<char>) -> int {
    first_idx_where(s.len() as int, 0, bad_char_at(s))
}

/// The predicate picking out the non-space characters of `s`, by index.
pub open spec fn non_space_at(s: Seq<char>) -> spec_fn(int) -> bool {
    |j: int| s[j] != ' '
}

/// The first index at or after the suffix region start that is not a
/// space: the leading whitespace of the suffix region is ignored.
pub open spec fn suffix_trimmed_start(s: Seq<char>) -> int {
    first_idx_where(s.len() as int, suffix_start(s), non_space_at(s))
}

/// The suffix region starts at the first suffix character: nothing before
/// it is a suffix character, and the character there is one.
pub proof fn lemma_suffix_start(s: Seq<char>)
    ensures
        0 <= suffix_start(s) <= s.len(),
        suffix_start(s) < s.len() ==> is_suffix_char_spec(s[suffix_start(s)]),
        forall|j: int| 0 <= j < suffix_start(s) ==> !is_suffix_char_spec(#[trigger] s[j]),
{
    lemma_first_idx_where(s.len() as int, 0, suffix_char_at(s));
    assert forall|j: int| 0 <= j < suffix_start(s) implies !is_suffix_char_spec(
        #[trigger] s[j],
    ) by {
        assert(!suffix_char_at(s)(j));
    }
}

/// The first dot is the first dot: nothing before it is a `.`, and the
/// character there is one.
pub proof fn lemma_dot_start(s: Seq<char>)
    ensures
        0 <= dot_start(s) <= s.len(),
        dot_start(s) < s.len() ==> s[dot_start(s)] == '.',
        forall|j: int| 0 <= j < dot_start(s) ==> #[trigger] s[j] != '.',
{
    lemma_first_idx_where(s.len() as int, 0, dot_char_at(s));
    assert forall|j: int| 0 <= j < dot_start(s) implies #[trigger] s[j] != '.' by {
        assert(!dot_char_at(s)(j));
    }
}

/// Everything before the first illegal character is legal, and the
/// character there is illegal unless the whole string scans cleanly.
pub proof fn lemma_first_bad(s: Seq<char>)
    ensures
        0 <= first_bad(s) <= s.len(),
        first_bad(s) < s.len() ==> !char_ok(s, first_bad(s)),
        forall|j: int| 0 <= j < first_bad(s) ==> #[trigger] char_ok(s, j),
{
    lemma_first_idx_where(s.len() as int, 0, bad_char_at(s));
    assert forall|j: int| 0 <= j < first_bad(s) implies #[trigger] char_ok(s, j) by {
        assert(!bad_char_at(s)(j));
    }
}

/// The trimmed suffix region starts at the first non-space character at or
/// after the suffix region start: everything between is a space, and the
/// character there is not one.
pub proof fn lemma_suffix_trimmed_start(s: Seq<char>)
    requires
        0 <= suffix_start(s) <= s.len(),
    ensures
        suffix_start(s) <= suffix_trimmed_start(s) <= s.len(),
        suffix_trimmed_start(s) < s.len() ==> s[suffix_trimmed_start(s)] != ' ',
        forall|j: int|
            suffix_start(s) <= j < suffix_trimmed_start(s) ==> #[trigger] s[j] == ' ',
{
    lemma_first_idx_where(s.len() as int, suffix_start(s), non_space_at(s));
    assert forall|j: int|
        suffix_start(s) <= j < suffix_trimmed_start(s) implies #[trigger] s[j] == ' ' by {
        assert(!non_space_at(s)(j));
    }
}

/// True when `c` is the lowercase letter `lower` in either ASCII case.
pub open spec fn matches_ci(c: char, lower: char) -> bool {
    c == lower || c as u32 == lower as u32 - 32
}

/// The unit, in bytes, named by the suffix token `t`, compared
/// case-insensitively against the thirteen unit tokens; `None` when `t` is
/// no unit token.
pub open spec fn suffix_unit(t: Seq<char>) -> Option<u64> {
    if t.len() == 1 {
        if matches_ci(t[0], 'b') {
            Some(ByteUnit::B)
        } else {
            None
        }
    } else if t.len() == 2 {
        if !matches_ci(t[1], 'b') {
            None
        } else if matches_ci(t[0], 'k') {
            Some(ByteUnit::kB)
        } else if matches_ci(t[0], 'm') {
            Some(ByteUnit::MB)
        } else if matches_ci(t[0], 'g') {
            Some(ByteUnit::GB)
        } else if matches_ci(t[0], 't') {
            Some(ByteUnit::TB)
        } else if matches_ci(t[0], 'p') {
            Some(ByteUnit::PB)
        } else if matches_ci(t[0], 'e') {
            Some(ByteUnit::EB)
        } else {
            None
        }
    } else if t.len() == 3 {
        if !(matches_ci(t[1], 'i') && matches_ci(t[2], 'b')) {
            None
        } else if matches_ci(t[0], 'k') {
            Some(ByteUnit::KiB)
        } else if matches_ci(t[0], 'm') {
            Some(ByteUnit::MiB)
        } else if matches_ci(t[0], 'g') {
            Some(ByteUnit::GiB)
        } else if matches_ci(t[0], 't') {
            Some(ByteUnit::TiB)
        } else if matches_ci(t[0], 'p') {
            Some(ByteUnit::PiB)
        } else if matches_ci(t[0], 'e') {
            Some(ByteUnit::EiB)
        } else {
            None
        }
    } else {
        None
    }
}

/// `10^l`, clamped to `u64::MAX`.
pub open spec fn pow10_sat(l: nat) -> u64 {
    if vstd::arithmetic::power::pow(10, l) > u64::MAX {
        u64::MAX
    } else {
        vstd::arithmetic::power::pow(10, l) as u64
    }
}

/// The bytes contributed by a fractional numeral `f` of `l` digits read
/// against a unit of `unit` bytes: the floor of `f / 10^l` of a unit,
/// clamped to `u64::MAX`.
pub open spec fn frac_bytes(f: u64, l: nat, unit: u64) -> u64 {
    if (f * unit) / (pow10_sat(l) as int) > u64::MAX {
        u64::MAX
    } else {
        ((f * unit) / (pow10_sat(l) as int)) as u64
    }
}

/// What [`ByteUnit::from_str`] returns for the character string `s`: the
/// whole grammar in one place.
///
/// A legal string is `digit+ ('.' digit+)? ' '* suffix?`, scanned left to
/// right. The first illegal character is reported with its index; a string
/// may not begin with a dot or a suffix character; the suffix region,
/// trimmed of leading spaces, must match a unit token case-insensitively
/// (an absent suffix means plain bytes); a fractional part is illegal with
/// the plain byte unit; the whole part must fit in a `u64` and the
/// fractional part in a `u32`. The value is `whole * unit` plus the floor
/// of `frac / 10^(frac digits)` of a unit, all saturating.
pub open spec fn parse_spec(s: Seq<char>) -> Result<ByteUnit, Error> {
    if s.len() == 0 {
        Err(Error::Empty)
    } else if first_bad(s) < s.len() {
        Err(Error::Unexpected(first_bad(s) as usize, s[first_bad(s)]))
    } else if dot_start(s) == 0 || suffix_start(s) == 0 {
        Err(Error::Unexpected(0, s[0]))
    } else {
        let su = suffix_start(s);
        let unit_opt = if su == s.len() {
            Some(ByteUnit::B)
        } else {
            suffix_unit(s.subrange(suffix_trimmed_start(s), s.len() as int))
        };
        match unit_opt {
            None => Err(Error::BadSuffix),
            Some(unit) => {
                let d = dot_start(s);
                let num_end = if d < su {
                    d
                } else {
                    su
                };
                if unit == ByteUnit::B && d < su {
                    Err(Error::FractionalByte)
                } else if digits_to_nat(s.subrange(0, num_end)) > u64::MAX {
                    Err(Error::BadWhole(NumeralError::Overflow))
                } else {
                    let whole = digits_to_nat(s.subrange(0, num_end)) as u64;
                    if d < su {
                        if d + 1 == su {
                            Err(Error::BadFractional(NumeralError::Empty))
                        } else if digits_to_nat(s.subrange(d + 1, su)) > u32::MAX {
                            Err(Error::BadFractional(NumeralError::Overflow))
                        } else {
                            let f = digits_to_nat(s.subrange(d + 1, su)) as u64;
                            Ok(
                                ByteUnit {
                                    bytes: sat_add64(
                                        sat_mul64(whole, unit),
                                        frac_bytes(f, (su - d - 1) as nat, unit),
                                    ),
                                },
                            )
                        }
                    } else {
                        Ok(ByteUnit { bytes: sat_mul64(whole, unit) })
                    }
                }
            },
        }
    }
}

/// Matches the characters of `s` between `from` and `to` against the unit
/// tokens, case-insensitively.
fn parse_suffix(s: &str, from: usize, to: usize) -> (r: Option<u64>)
    requires
        from <= to <= s@.len(),
    ensures
        r == suffix_unit(s@.subrange(from as int, to as int)),
{
    let len = to - from;
    if len == 1 {
        let c0 = s.get_char(from);
        if c0 == 'b' || c0 == 'B' {
            Some(ByteUnit::B)
        } else {
            None
        }
    } else if len == 2 {
        let c0 = s.get_char(from);
        let c1 = s.get_char(from + 1);
        if !(c1 == 'b' || c1 == 'B') {
            None
        } else if c0 == 'k' || c0 == 'K' {
            Some(ByteUnit::kB)
        } else if c0 == 'm' || c0 == 'M' {
            Some(ByteUnit::MB)
        } else if c0 == 'g' || c0 == 'G' {
            Some(ByteUnit::GB)
        } else if c0 == 't' || c0 == 'T' {
            Some(ByteUnit::TB)
        } else if c0 == 'p' || c0 == 'P' {
            Some(ByteUnit::PB)
        } else if c0 == 'e' || c0 == 'E' {
            Some(ByteUnit::EB)
        } else {
            None
        }
    } else if len == 3 {
        let c0 = s.get_char(from);
        let c1 = s.get_char(from + 1);
        let c2 = s.get_char(from + 2);
        if !((c1 == 'i' || c1 == 'I') && (c2 == 'b' || c2 == 'B')) {
            None
        } else if c0 == 'k' || c0 == 'K' {
            Some(ByteUnit::KiB)
        } else if c0 == 'm' || c0 == 'M' {
            Some(ByteUnit::MiB)
        } else if c0 == 'g' || c0 == 'G' {
            Some(ByteUnit::GiB)
        } else if c0 == 't' || c0 == 'T' {
            Some(ByteUnit::TiB)
        } else if c0 == 'p' || c0 == 'P' {
            Some(ByteUnit::PiB)
        } else if c0 == 'e' || c0 == 'E' {
            Some(ByteUnit::EiB)
        } else {
            None
        }
    } else {
        None
    }
}

/// Reading one more digit can only grow a numeral: every prefix of a digit
/// string reads as at most the whole string.
proof fn lemma_digits_prefix_le(t: Seq<char>, i: int)
    requires
        0 <= i <= t.len(),
    ensures
        digits_to_nat(t.take(i)) <= digits_to_nat(t),
    decreases t.len() - i,
{
    if i < t.len() {
        assert(t.take(i + 1).drop_last() =~= t.take(i));
        lemma_digits_prefix_le(t, i + 1);
    } else {
        assert(t.take(i) =~= t);
    }
}

/// Reads the digits of `s` between `from` and `to` as a `u64`, most
/// significant first; `None` when the value exceeds `u64::MAX`.
fn parse_digits(s: &str, from: usize, to: usize) -> (r: Option<u64>)
    requires
        from <= to <= s@.len(),
        forall|j: int| from <= j < to ==> is_digit_char(#[trigger] s@[j]),
    ensures
        match r {
            Some(v) => v == digits_to_nat(s@.subrange(from as int, to as int)),
            None => digits_to_nat(s@.subrange(from as int, to as int)) > u64::MAX,
        },
{
    let ghost whole = s@.subrange(from as int, to as int);
    let mut acc: u64 = 0;
    let mut i: usize = from;
    while i < to
        invariant
            from <= i <= to <= s@.len(),
            forall|j: int| from <= j < to ==> is_digit_char(#[trigger] s@[j]),
            whole == s@.subrange(from as int, to as int),
            acc == digits_to_nat(s@.subrange(from as int, i as int)),
        decreases to - i,
    {
        let c = s.get_char(i);
        let d = (c as u32 - 48) as u64;
        proof {
            assert(s@.subrange(from as int, i + 1).drop_last() =~= s@.subrange(
                from as int,
                i as int,
            ));
            assert(digits_to_nat(s@.subrange(from as int, i + 1)) == acc * 10 + d);
        }
        let step = match acc.checked_mul(10) {
            Some(m) => m.checked_add(d),
            None => None,
        };
        match step {
            Some(v) => {
                acc = v;
            },
            None => {
                proof {
                    assert(digits_to_nat(whole.take(i + 1 - from)) == digits_to_nat(
                        s@.subrange(from as int, i + 1),
                    )) by {
                        assert(whole.take(i + 1 - from) =~= s@.subrange(from as int, i + 1));
                    }
                    lemma_digits_prefix_le(whole, i + 1 - from);
                }
                return None;
            },
        }
        i = i + 1;
    }
    proof {
        assert(s@.subrange(from as int, to as int) =~= s@.subrange(from as int, i as int));
    }
    Some(acc)
}

/// Computes `10^l`, clamped to `u64::MAX`.
pub(crate) fn pow10_clamped(l: usize) -> (r: u64)
    ensures
        r == pow10_sat(l as nat),
{
    if l >= 20 {
        proof {
            pow10_at_least(l as nat);
        }
        u64::MAX
    } else {
        let mut acc: u64 = 1;
        let mut i: usize = 0;
        proof {
            vstd::arithmetic::power::lemma_pow0(10);
        }
        while i < l
            invariant
                i <= l < 20,
                acc == vstd::arithmetic::power::pow(10, i as nat),
            decreases l - i,
        {
            proof {
                pow10_fits(i as nat);
                vstd::arithmetic::power::lemma_pow_adds(10, i as nat, 1);
                vstd::arithmetic::power::lemma_pow1(10);
            }
            acc = acc * 10;
            i = i + 1;
        }
        proof {
            if l > 0 {
                pow10_fits((l - 1) as nat);
                vstd::arithmetic::power::lemma_pow_adds(10, (l - 1) as nat, 1);
                vstd::arithmetic::power::lemma_pow1(10);
            }
        }
        acc
    }
}

/// `10^(l + 1)` still fits in a `u64` for every `l` below 19.
proof fn pow10_fits(l: nat)
    requires
        l < 19,
    ensures
        vstd::arithmetic::power::pow(10, l) * 10 <= u64::MAX,
{
    assert(vstd::arithmetic::power::pow(10, 18) == 1_000_000_000_000_000_000) by {
        reveal_with_fuel(vstd::arithmetic::power::pow, 19);
    }
    if l < 18 {
        vstd::arithmetic::power::lemma_pow_increases(10, l, 18);
    }
    assert(vstd::arithmetic::power::pow(10, l) <= 1_000_000_000_000_000_000
        ==> vstd::arithmetic::power::pow(10, l) * 10 <= 10_000_000_000_000_000_000)
        by (nonlinear_arith);
}

/// `10^l` needs more than 64 bits from 20 digits on.
proof fn pow10_at_least(l: nat)
    requires
        l >= 20,
    ensures
        vstd::arithmetic::power::pow(10, l) > u64::MAX,
    decreases l,
{
    if l == 20 {
        assert(vstd::arithmetic::power::pow(10, 20) == 100_000_000_000_000_000_000) by {
            reveal_with_fuel(vstd::arithmetic::power::pow, 21);
        }
    } else {
        pow10_at_least((l - 1) as nat);
        vstd::arithmetic::power::lemma_pow_adds(10, (l - 1) as nat, 1);
        vstd::arithmetic::power::lemma_pow1(10);
        assert(vstd::arithmetic::power::pow(10, (l - 1) as nat) > u64::MAX ==> vstd::arithmetic::power::pow(
            10,
            (l - 1) as nat,
        ) * 10 > u64::MAX) by (nonlinear_arith);
    }
}

/// Computes [`frac_bytes`]: the floor of `f / 10^l` of a unit of `unit`
/// bytes, clamped to `u64::MAX`.
fn frac_bytes_exec(f: u64, l: usize, unit: u64) -> (r: u64)
    ensures
        r == frac_bytes(f, l as nat, unit),
{
    let k = pow10_clamped(l);
    proof {
        vstd::arithmetic::power::lemma_pow_positive(10, l as nat);
        assert((f as u128) * (unit as u128) == (f * unit) as u128) by (nonlinear_arith);
    }
    let prod: u128 = (f as u128) * (unit as u128);
    let q = prod / (k as u128);
    if q > u64::MAX as u128 {
        u64::MAX
    } else {
        q as u64
    }
}

impl ByteUnit {
    /// Parses a byte-unit string: a decimal numeral, an optional fractional
    /// part, optional spaces, and an optional case-insensitive SI or IEC
    /// unit suffix, as in `"1GiB"`, `"256 kB"` or `"0.5MB"`. An absent
    /// suffix means plain bytes. The result is exactly [`parse_spec`] of
    /// the input.
    pub fn from_str(s: &str) -> (r: Result<ByteUnit, Error>)
        ensures
            r == parse_spec(s@),
    {
        let n = s.unicode_len();
        if n == 0 {
            return Err(Error::Empty);
        }
        proof {
            lemma_suffix_start(s@);
            lemma_dot_start(s@);
            lemma_first_bad(s@);
        }
        let ghost su = suffix_start(s@);
        let ghost ds = dot_start(s@);
        let ghost bad = first_bad(s@);
        let mut dot: Option<usize> = None;
        let mut suffix: Option<usize> = None;
        let mut i: usize = 0;
        while i < n
            invariant
                n == s@.len(),
                0 < n,
                i <= n,
                su == suffix_start(s@),
                ds == dot_start(s@),
                bad == first_bad(s@),
                0 <= su <= n,
                su < n ==> is_suffix_char_spec(s@[su as int]),
                forall|j: int| 0 <= j < su ==> !is_suffix_char_spec(#[trigger] s@[j]),
                0 <= ds <= n,
                ds < n ==> s@[ds as int] == '.',
                forall|j: int| 0 <= j < ds ==> #[trigger] s@[j] != '.',
                0 <= bad <= n,
                bad < n ==> !char_ok(s@, bad as int),
                forall|j: int| 0 <= j < bad ==> #[trigger] char_ok(s@, j),
                match suffix {
                    Option::None => su >= i,
                    Option::Some(p) => su == p && p < i,
                },
                match dot {
                    Option::None => ds >= i,
                    Option::Some(p) => ds == p && p < i && ds < su,
                },
                forall|j: int| 0 <= j < i ==> #[trigger] char_ok(s@, j),
            decreases n - i,
        {
            let c = s.get_char(i);
            let u = c as u32;
            if u >= 48 && u <= 57 && suffix.is_none() {
                // A digit extends the numeral while no suffix has begun.
                proof {
                    assert(char_ok(s@, i as int));
                }
            } else if c == '.' && dot.is_none() && suffix.is_none() {
                proof {
                    // The first dot of the numeral: nothing before it is a
                    // dot, so it is `dot_start`.
                    assert(ds == i);
                    // A suffix character cannot stand at `su == i`, since
                    // this character is a dot.
                    assert(su != i);
                    assert(char_ok(s@, i as int));
                }
                dot = Some(i);
            } else if is_suffix_char(c) {
                proof {
                    assert(char_ok(s@, i as int));
                }
                if suffix.is_none() {
                    proof {
                        assert(su == i);
                    }
                    suffix = Some(i);
                }
            } else {
                proof {
                    assert(!char_ok(s@, i as int));
                    // Everything earlier scanned cleanly, so this is the
                    // first illegal character.
                    if bad < i {
                        assert(char_ok(s@, bad as int));
                        assert(false);
                    }
                    if bad > i {
                        assert(char_ok(s@, i as int));
                        assert(false);
                    }
                    assert(bad == i);
                }
                return Err(Error::Unexpected(i, c));
            }
            i = i + 1;
        }
        proof {
            assert(bad == n);
        }
        // The string may not begin with a dot or a suffix character: a
        // numeral must come first.
        let starts_bad = match dot {
            Some(p) => p == 0,
            None => match suffix {
                Some(p) => p == 0,
                None => false,
            },
        };
        if starts_bad {
            return Err(Error::Unexpected(0, s.get_char(0)));
        }
        proof {
            assert(ds != 0 && su != 0);
        }
        // Resolve the unit named by the suffix region, trimmed of leading
        // spaces; an absent region means plain bytes.
        let num_end = match suffix {
            Some(p) => p,
            None => n,
        };
        let unit_opt = match suffix {
            None => Some(ByteUnit::B),
            Some(p) => {
                proof {
                    lemma_suffix_trimmed_start(s@);
                }
                let ghost ts = suffix_trimmed_start(s@);
                let mut t = p;
                while t < n && s.get_char(t) == ' '
                    invariant
                        n == s@.len(),
                        su == suffix_start(s@),
                        su <= t <= n,
                        ts == suffix_trimmed_start(s@),
                        t <= ts,
                        su <= ts <= n,
                        ts < n ==> s@[ts as int] != ' ',
                        forall|j: int| su <= j < ts ==> #[trigger] s@[j] == ' ',
                    decreases n - t,
                {
                    proof {
                        assert(t < ts);
                    }
                    t = t + 1;
                }
                proof {
                    assert(t == ts);
                }
                parse_suffix(s, t, n)
            },
        };
        let unit = match unit_opt {
            Some(u) => u,
            None => {
                return Err(Error::BadSuffix);
            },
        };
        // A fractional number of plain bytes has no meaning.
        if unit == ByteUnit::B && dot.is_some() {
            return Err(Error::FractionalByte);
        }
        let whole_end = match dot {
            Some(p) => p,
            None => num_end,
        };
        proof {
            assert forall|j: int| 0 <= j < whole_end implies is_digit_char(#[trigger] s@[j]) by {
                assert(char_ok(s@, j));
            }
        }
        let whole = match parse_digits(s, 0, whole_end) {
            Some(w) => w,
            None => {
                return Err(Error::BadWhole(NumeralError::Overflow));
            },
        };
        match dot {
            Some(p) => {
                if p + 1 == num_end {
                    return Err(Error::BadFractional(NumeralError::Empty));
                }
                proof {
                    assert forall|j: int| p + 1 <= j < num_end implies is_digit_char(
                        #[trigger] s@[j],
                    ) by {
                        assert(char_ok(s@, j));
                    }
                }
                let f = match parse_digits(s, p + 1, num_end) {
                    Some(v) => {
                        if v <= u32::MAX as u64 {
                            v
                        } else {
                            return Err(Error::BadFractional(NumeralError::Overflow));
                        }
                    },
                    None => {
                        return Err(Error::BadFractional(NumeralError::Overflow));
                    },
                };
                let extra = frac_bytes_exec(f, num_end - (p + 1), unit);
                Ok(ByteUnit::from_units(whole, unit).add(ByteUnit { bytes: extra }))
            },
            None => Ok(ByteUnit::from_units(whole, unit)),
        }
    }
}


/// The human-readable description of a numeral failure.
pub open spec fn numeral_message(c: NumeralError) -> Seq<char> {
    match c {
        NumeralError::Empty => "the numeral is empty"@,
        NumeralError::Overflow => "the numeral is too large"@,
    }
}

/// The human-readable description of a parse error: an unexpected
/// character is reported with both the character itself and its index.
pub open spec fn error_message(e: Error) -> Seq<char> {
    match e {
        Error::Empty => "the input was empty"@,
        Error::Unexpected(i, c) => "unexpected character '"@ + seq![c] + "' at index "@
            + crate::fmt::dec_str(i as nat),
        Error::FractionalByte => "the byte unit cannot have a fractional component"@,
        Error::BadSuffix => "unknown or malformed byte unit suffix"@,
        Error::BadWhole(c) => "the whole part failed to parse: "@ + numeral_message(c),
        Error::BadFractional(c) => "the fractional part failed to parse: "@ + numeral_message(c),
    }
}

/// Relies on `String::push`: appends exactly the one character to the
/// string.
#[verifier::external_body]
fn push_char(s: &mut String, c: char)
    ensures
        final(s)@ == old(s)@ + seq![c],
{
    s.push(c);
}

impl NumeralError {
    /// Describes the failure in words.
    pub fn message(&self) -> (r: String)
        ensures
            r@ == numeral_message(*self),
    {
        match self {
            NumeralError::Empty => String::from_str("the numeral is empty"),
            NumeralError::Overflow => String::from_str("the numeral is too large"),
        }
    }
}

impl Error {
    /// Describes the error in words, with the index of an unexpected
    /// character rendered in decimal.
    pub fn message(&self) -> (r: String)
        ensures
            r@ == error_message(*self),
    {
        match self {
            Error::Empty => String::from_str("the input was empty"),
            Error::Unexpected(i, c) => {
                let mut s = String::from_str("unexpected character '");
                push_char(&mut s, *c);
                s.append("' at index ");
                let num = crate::fmt::u64_to_string(*i as u64);
                s.append(num.as_str());
                s
            },
            Error::FractionalByte => String::from_str(
                "the byte unit cannot have a fractional component",
            ),
            Error::BadSuffix => String::from_str("unknown or malformed byte unit suffix"),
            Error::BadWhole(c) => {
                let mut s = String::from_str("the whole part failed to parse: ");
                let cause = c.message();
                s.append(cause.as_str());
                s
            },
            Error::BadFractional(c) => {
                let mut s = String::from_str("the fractional part failed to parse: ");
                let cause = c.message();
                s.append(cause.as_str());
                s
            },
        }
    }
}


impl core::str::FromStr for ByteUnit {
    type Err = Error;

    fn from_str(s: &str) -> Result<ByteUnit, Error> {
        ByteUnit::from_str(s)
    }
}

} // verus!
