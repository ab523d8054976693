//! OpenGL version numbers and the parsing of version strings like `"4.6"`.
//!
//! A version string is split at its first `.`; the two pieces are then read
//! as decimal `u32`s, where a piece may carry one leading `+` sign. The
//! contracts below say exactly which input yields which version and which
//! error, and [`dec_value`] gives the mathematical value of a digit string.

use vstd::prelude::*;

verus! {

/// An OpenGL version: a major and a minor number, as in `"4.6"`.
#[derive(Clone, Copy, Debug, PartialEq, Eq, Structural)]
pub struct GLVersion(pub u32, pub u32);

/// Why a piece of a version string failed to parse as a `u32`.
#[derive(Clone, Copy, Debug, PartialEq, Eq, Structural)]
pub enum ParseIntErrorKind {
    /// The piece was empty.
    Empty,
    /// A character was not a decimal digit (a lone `+` counts here too).
    InvalidDigit,
    /// The digits spell a number larger than `u32::MAX`.
    PosOverflow,
}

/// Why a whole version string was rejected.
///
/// Each variant carries the offending piece of the input.
#[derive(Clone, Debug)]
pub enum GLVersionError {
    /// The string holds no `.` separating a major from a minor number.
    InvalidVersion(String),
    /// The piece before the first `.` is not a `u32`; why not is attached.
    InvalidMajor(String, ParseIntErrorKind),
    /// The piece after the first `.` is not a `u32`; why not is attached.
    InvalidMinor(String, ParseIntErrorKind),
}

/// Is `c` a decimal digit `'0'..='9'`?
pub open spec fn is_dec_digit(c: char) -> bool {
    48 <= c as u32 && c as u32 <= 57
}

/// The numeric value of the digit `c`.
pub open spec fn digit_val(c: char) -> nat
    recommends
        is_dec_digit(c),
{
    (c as u32 - 48) as nat
}

/// Every character of `s` is a decimal digit.
pub open spec fn all_digits(s: Seq<char>) -> bool {
    forall|i: int| 0 <= i < s.len() ==> is_dec_digit(#[trigger] s[i])
}

/// The value of `s` read as a decimal numeral, most significant digit first.
pub open spec fn dec_value(s: Seq<char>) -> nat
    recommends
        all_digits(s),
    decreases s.len(),
{
    if s.len() == 0 {
        0
    } else {
        dec_value(s.drop_last()) * 10 + digit_val(s.last())
    }
}

/// `s` with one leading `+` sign stripped, if it has one.
pub open spec fn digits_of(s: Seq<char>) -> Seq<char> {
    if s.len() > 0 && s[0] == '+' {
        s.subrange(1, s.len() as int)
    } else {
        s
    }
}

/// The length of the longest prefix of `s` made of decimal digits.
pub open spec fn digit_prefix_len(s: Seq<char>) -> nat
    decreases s.len(),
{
    if s.len() == 0 || !is_dec_digit(s[0]) {
        0
    } else {
        1 + digit_prefix_len(s.subrange(1, s.len() as int))
    }
}

/// Does `s` parse as a `u32`: after an optional `+`, at least one character,
/// all of them digits, spelling a value that fits in a `u32`?
pub open spec fn u32_from_chars_ok(s: Seq<char>) -> bool {
    let ds = digits_of(s);
    &&& s.len() > 0
    &&& ds.len() > 0
    &&& all_digits(ds)
    &&& dec_value(ds) <= u32::MAX
}

/// Which error parsing `s` as a `u32` reports. Digits are consumed left to
/// right and overflow is noticed as soon as the value read so far outgrows
/// `u32`, so an overflowing run of digits wins over a bad character after it.
pub open spec fn u32_from_chars_err(s: Seq<char>) -> ParseIntErrorKind
    recommends
        !u32_from_chars_ok(s),
{
    let ds = digits_of(s);
    if s.len() == 0 {
        ParseIntErrorKind::Empty
    } else if ds.len() == 0 {
        ParseIntErrorKind::InvalidDigit
    } else if dec_value(ds.subrange(0, digit_prefix_len(ds) as int)) > u32::MAX {
        ParseIntErrorKind::PosOverflow
    } else {
        ParseIntErrorKind::InvalidDigit
    }
}

/// `digit_prefix_len(s)` is the unique `i` with only digits before it and a
/// non-digit (or the end) at it.
proof fn lemma_digit_prefix_len_is(s: Seq<char>, i: int)
    requires
        0 <= i <= s.len(),
        forall|j: int| 0 <= j < i ==> is_dec_digit(#[trigger] s[j]),
        i == s.len() || !is_dec_digit(s[i]),
    ensures
        digit_prefix_len(s) == i,
    decreases s.len(),
{
    if s.len() == 0 {
    } else if i == 0 {
    } else {
        let t = s.subrange(1, s.len() as int);
        assert(forall|j: int| 0 <= j < i - 1 ==> is_dec_digit(#[trigger] t[j]));
        lemma_digit_prefix_len_is(t, i - 1);
    }
}

/// At least the first `k` characters being digits bounds `digit_prefix_len`
/// from below.
proof fn lemma_digit_prefix_len_at_least(s: Seq<char>, k: int)
    requires
        0 <= k <= s.len(),
        forall|j: int| 0 <= j < k ==> is_dec_digit(#[trigger] s[j]),
    ensures
        digit_prefix_len(s) >= k,
    decreases s.len(),
{
    if k > 0 {
        let t = s.subrange(1, s.len() as int);
        assert(forall|j: int| 0 <= j < k - 1 ==> is_dec_digit(#[trigger] t[j]));
        lemma_digit_prefix_len_at_least(t, k - 1);
    }
}

/// The digit prefix is never longer than the string.
proof fn lemma_digit_prefix_len_le_len(s: Seq<char>)
    ensures
        digit_prefix_len(s) <= s.len(),
    decreases s.len(),
{
    if s.len() > 0 && is_dec_digit(s[0]) {
        lemma_digit_prefix_len_le_len(s.subrange(1, s.len() as int));
    }
}

/// Reading more digits never shrinks the value: the value of a prefix is at
/// most the value of a longer prefix.
proof fn lemma_dec_value_prefix_le(s: Seq<char>, i: int, j: int)
    requires
        0 <= i <= j <= s.len(),
    ensures
        dec_value(s.subrange(0, i)) <= dec_value(s.subrange(0, j)),
    decreases j - i,
{
    if i < j {
        lemma_dec_value_prefix_le(s, i, j - 1);
        assert(s.subrange(0, j).drop_last() =~= s.subrange(0, j - 1));
        assert(dec_value(s.subrange(0, j)) == dec_value(s.subrange(0, j - 1)) * 10 + digit_val(
            s.subrange(0, j).last(),
        ));
        assert(dec_value(s.subrange(0, j - 1)) * 10 >= dec_value(s.subrange(0, j - 1)));
    }
}

/// Parse `s` as a decimal `u32`, as the version pieces are parsed: an
/// optional leading `+`, then at least one decimal digit, and a value of at
/// most `u32::MAX`. On failure the reported error is exactly
/// [`u32_from_chars_err`].
pub fn parse_u32(s: &str) -> (r: Result<u32, ParseIntErrorKind>)
    ensures
        r == (if u32_from_chars_ok(s@) {
            Ok::<u32, ParseIntErrorKind>((dec_value(digits_of(s@)) as u32))
        } else {
            Err::<u32, ParseIntErrorKind>(u32_from_chars_err(s@))
        }),
{
    let n: usize = s.unicode_len();
    if n == 0 {
        return Err(ParseIntErrorKind::Empty);
    }
    let mut i: usize = 0;
    if s.get_char(0) == '+' {
        i = 1;
    }
    let start: usize = i;
    let ghost ds = digits_of(s@);
    proof {
        assert(ds =~= s@.subrange(start as int, n as int));
    }
    if i == n {
        // The string was a lone `+`: no digits at all.
        return Err(ParseIntErrorKind::InvalidDigit);
    }
    let mut val: u64 = 0;
    while i < n
        invariant
            start <= i <= n,
            start < n,
            n == s@.len(),
            ds == digits_of(s@),
            ds =~= s@.subrange(start as int, n as int),
            forall|j: int| start <= j < i ==> is_dec_digit(#[trigger] s@[j]),
            val as nat == dec_value(s@.subrange(start as int, i as int)),
            val <= u32::MAX,
        decreases n - i,
    {
        let c = s.get_char(i);
        let cu = c as u32;
        if cu < 48 || cu > 57 {
            proof {
                let k = i - start;
                assert(ds[k] == s@[i as int]);
                assert(forall|j: int| 0 <= j < k ==> is_dec_digit(#[trigger] ds[j]));
                lemma_digit_prefix_len_is(ds, k);
                assert(ds.subrange(0, k) =~= s@.subrange(start as int, i as int));
                assert(!all_digits(ds));
            }
            return Err(ParseIntErrorKind::InvalidDigit);
        }
        let d: u64 = (cu - 48) as u64;
        let nv: u64 = val * 10 + d;
        proof {
            assert(s@.subrange(start as int, i + 1).drop_last() =~= s@.subrange(
                start as int,
                i as int,
            ));
            assert(dec_value(s@.subrange(start as int, i + 1)) == val as nat * 10 + digit_val(
                s@[i as int],
            ));
        }
        if nv > 0xFFFF_FFFF {
            proof {
                let k = i + 1 - start;
                assert(forall|j: int| 0 <= j < k ==> is_dec_digit(#[trigger] ds[j]));
                lemma_digit_prefix_len_at_least(ds, k);
                lemma_digit_prefix_len_le_len(ds);
                assert(ds.subrange(0, k) =~= s@.subrange(start as int, i + 1));
                let dpl = digit_prefix_len(ds) as int;
                lemma_dec_value_prefix_le(ds, k, dpl);
                assert(dec_value(ds.subrange(0, dpl)) > u32::MAX);
                if all_digits(ds) {
                    lemma_digit_prefix_len_is(ds, ds.len() as int);
                    assert(ds.subrange(0, ds.len() as int) =~= ds);
                    assert(!u32_from_chars_ok(s@));
                }
            }
            return Err(ParseIntErrorKind::PosOverflow);
        }
        val = nv;
        i = i + 1;
    }
    proof {
        assert(s@.subrange(start as int, n as int) =~= ds);
        assert(all_digits(ds));
        assert(u32_from_chars_ok(s@));
    }
    Ok(val as u32)
}

/// Does some character of `s` equal `.`?
pub open spec fn has_dot(s: Seq<char>) -> bool {
    exists|i: int| 0 <= i < s.len() && s[i] == '.'
}

/// The index of the first `.` in `s`; `s.len()` when there is none.
pub open spec fn first_dot(s: Seq<char>) -> int
    decreases s.len(),
{
    if s.len() == 0 {
        0
    } else if s[0] == '.' {
        0
    } else {
        1 + first_dot(s.subrange(1, s.len() as int))
    }
}

/// `first_dot(s)` is the unique `i` with no `.` before it and a `.` (or the
/// end) at it.
proof fn lemma_first_dot_is(s: Seq<char>, i: int)
    requires
        0 <= i <= s.len(),
        forall|j: int| 0 <= j < i ==> #[trigger] s[j] != '.',
        i == s.len() || s[i] == '.',
    ensures
        first_dot(s) == i,
    decreases s.len(),
{
    if s.len() == 0 {
    } else if i == 0 {
    } else {
        let t = s.subrange(1, s.len() as int);
        assert(forall|j: int| 0 <= j < i - 1 ==> #[trigger] t[j] != '.');
        lemma_first_dot_is(t, i - 1);
    }
}

/// The piece of a version string before its first `.`.
pub open spec fn spec_major(s: Seq<char>) -> Seq<char>
    recommends
        has_dot(s),
{
    s.subrange(0, first_dot(s))
}

/// The piece of a version string after its first `.`.
pub open spec fn spec_minor(s: Seq<char>) -> Seq<char>
    recommends
        has_dot(s),
{
    s.subrange(first_dot(s) + 1, s.len() as int)
}

/// Does `s` parse as a whole version: a `.` is present and both pieces parse
/// as `u32`s?
pub open spec fn version_parse_ok(s: Seq<char>) -> bool {
    &&& has_dot(s)
    &&& u32_from_chars_ok(spec_major(s))
    &&& u32_from_chars_ok(spec_minor(s))
}

/// The version that `s` parses to, when [`version_parse_ok`] holds.
pub open spec fn spec_version_of(s: Seq<char>) -> GLVersion
    recommends
        version_parse_ok(s),
{
    GLVersion(
        dec_value(digits_of(spec_major(s))) as u32,
        dec_value(digits_of(spec_minor(s))) as u32,
    )
}

/// `e` is exactly the error that parsing `s` as a version reports: the first
/// failing step wins (no dot, then the major piece, then the minor piece),
/// and the payload is the offending piece together with why it failed.
pub open spec fn is_version_error_for(e: GLVersionError, s: Seq<char>) -> bool {
    match e {
        GLVersionError::InvalidVersion(t) => {
            &&& !has_dot(s)
            &&& t@ == s
        },
        GLVersionError::InvalidMajor(t, k) => {
            &&& has_dot(s)
            &&& !u32_from_chars_ok(spec_major(s))
            &&& t@ == spec_major(s)
            &&& k == u32_from_chars_err(spec_major(s))
        },
        GLVersionError::InvalidMinor(t, k) => {
            &&& has_dot(s)
            &&& u32_from_chars_ok(spec_major(s))
            &&& !u32_from_chars_ok(spec_minor(s))
            &&& t@ == spec_minor(s)
            &&& k == u32_from_chars_err(spec_minor(s))
        },
    }
}

impl GLVersion {
    /// Parse a version string like `"4.6"`: split at the first `.`, then read
    /// each piece as a decimal `u32`. Returns exactly the version the string
    /// spells, or the error describing the first thing wrong with it.
    pub fn from_str(s: &str) -> (r: Result<GLVersion, GLVersionError>)
        ensures
            version_parse_ok(s@) ==> (r matches Ok(v) && v == spec_version_of(s@)),
            !version_parse_ok(s@) ==> (r matches Err(e) && is_version_error_for(e, s@)),
    {
        let n: usize = s.unicode_len();
        let mut i: usize = 0;
        while i < n && s.get_char(i) != '.'
            invariant
                0 <= i <= n,
                n == s@.len(),
                forall|j: int| 0 <= j < i ==> #[trigger] s@[j] != '.',
            decreases n - i,
        {
            i = i + 1;
        }
        if i == n {
            proof {
                assert(!has_dot(s@));
            }
            return Err(GLVersionError::InvalidVersion(s.to_owned()));
        }
        proof {
            lemma_first_dot_is(s@, i as int);
        }
        let major_s = s.substring_char(0, i);
        let minor_s = s.substring_char(i + 1, n);
        let major = match parse_u32(major_s) {
            Ok(major) => major,
            Err(kind) => {
                return Err(GLVersionError::InvalidMajor(major_s.to_owned(), kind));
            },
        };
        let minor = match parse_u32(minor_s) {
            Ok(minor) => minor,
            Err(kind) => {
                return Err(GLVersionError::InvalidMinor(minor_s.to_owned(), kind));
            },
        };
        Ok(GLVersion(major, minor))
    }
}

impl Default for GLVersion {
    /// The version requested when none is given explicitly: OpenGL 4.6.
    fn default() -> (r: Self)
        ensures
            r == GLVersion(4u32, 6u32),
    {
        GLVersion(4, 6)
    }
}

impl core::str::FromStr for GLVersion {
    type Err = GLVersionError;

    fn from_str(s: &str) -> Result<Self, Self::Err> {
        GLVersion::from_str(s)
    }
}

} // verus!
