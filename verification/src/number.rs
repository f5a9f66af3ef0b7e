//! Integers in decimal notation, as the fields of a record hold them.

use vstd::prelude::*;
use crate::text::{chars_of, digit_value, signed_value, value_of_digit};

verus! {

/// Every character of `s` is a decimal digit.
pub open spec fn all_digits(s: Seq<char>) -> bool {
    forall|i: int| 0 <= i < s.len() ==> digit_value(#[trigger] s[i]) is Some
}

/// The number that the digits of `s` denote, the last digit counting least.
pub open spec fn digits_value(s: Seq<char>) -> nat
    decreases s.len(),
{
    if s.len() == 0 {
        0
    } else {
        digits_value(s.drop_last()) * 10 + match digit_value(s.last()) {
            Some(d) => d,
            None => 0,
        }
    }
}

/// The integer that `s` denotes: an optional sign, then one digit or more.
/// A plus sign is always accepted, a minus sign only where `signed` holds.
/// `None` where `s` has another shape.
pub open spec fn parse_int_spec(s: Seq<char>, signed: bool) -> Option<int> {
    if s.len() == 0 {
        None
    } else {
        let negative = s[0] == '-' && signed;
        let digits = if s[0] == '+' || negative {
            s.skip(1)
        } else {
            s
        };
        if digits.len() > 0 && all_digits(digits) {
            Some(
                if negative {
                    -(digits_value(digits) as int)
                } else {
                    digits_value(digits) as int
                },
            )
        } else {
            None
        }
    }
}

/// The integer that `s` denotes where it lies between `lower` and `upper`.
/// The minus sign is accepted where `lower` is negative.
pub open spec fn parse_in_range(s: Seq<char>, lower: int, upper: int) -> Option<int> {
    match parse_int_spec(s, lower < 0) {
        Some(x) => if lower <= x <= upper {
            Some(x)
        } else {
            None
        },
        None => None,
    }
}

proof fn lemma_digits_prefix(s: Seq<char>, k: int)
    requires
        0 <= k <= s.len(),
    ensures
        digits_value(s.take(k)) <= digits_value(s),
    decreases s.len() - k,
{
    if k == s.len() {
        assert(s.take(k) == s);
    } else {
        lemma_digits_prefix(s.drop_last(), k);
        assert(s.drop_last().take(k) == s.take(k));
    }
}

/// Reads `s` as an integer from `-low` to `high`, and gives its sign and
/// magnitude. The minus sign is accepted where `low` is above zero.
fn parse_bounded(s: &str, low: u128, high: u128) -> (r: Option<(bool, u128)>)
    ensures
        match r {
            Some(x) => parse_in_range(s@, -(low as int), high as int) == Some(
                signed_value(x.0, x.1),
            ),
            None => parse_in_range(s@, -(low as int), high as int) is None,
        },
{
    let v = chars_of(s);
    let n = v.len();
    if n == 0 {
        return None;
    }
    let negative = v[0] == '-' && low > 0;
    let start: usize = if v[0] == '+' || negative {
        1
    } else {
        0
    };
    let ghost digits = v@.skip(start as int);
    if start >= n {
        return None;
    }
    let limit: u128 = if negative {
        low
    } else {
        high
    };
    let mut acc: u128 = 0;
    let mut i: usize = start;
    while i < n
        invariant
            start <= i <= n == v@.len(),
            v@ == s@,
            negative == (v@[0] == '-' && low > 0),
            start == (if v@[0] == '+' || negative { 1usize } else { 0usize }),
            limit == (if negative { low } else { high }),
            digits == v@.skip(start as int),
            acc == digits_value(digits.take(i - start)),
            acc <= limit,
            all_digits(digits.take(i - start)),
        decreases n - i,
    {
        let ghost before = digits.take(i - start);
        let ghost after = digits.take(i - start + 1);
        proof {
            assert(after.drop_last() == before);
            assert(after.last() == v@[i as int]);
        }
        match value_of_digit(v[i]) {
            None => {
                proof {
                    assert(digits[i - start] == v@[i as int]);
                }
                return None;
            },
            Some(d) => {
                if acc > limit / 10 || (acc == limit / 10 && d as u128 > limit % 10) {
                    proof {
                        assert(digits_value(after) > limit);
                        lemma_digits_prefix(digits, i - start + 1);
                        assert(s@.skip(0) == s@);
                    }
                    return None;
                }
                acc = acc * 10 + d as u128;
                proof {
                    assert forall|j: int| 0 <= j < after.len() implies digit_value(
                        #[trigger] after[j],
                    ) is Some by {
                        if j < before.len() {
                            assert(after[j] == before[j]);
                        }
                    }
                }
            },
        }
        i = i + 1;
    }
    proof {
        assert(digits.take(n - start) == digits);
        assert(s@.skip(0) == s@);
    }
    Some((negative, acc))
}

/// An integer type that a field's value can be read as: every integer type
/// of the language, from `u8` to `u128` and from `i8` to `i128`.
pub trait FieldInt: Sized {
    /// The least value of the type.
    spec fn lower() -> int;

    /// The greatest value of the type.
    spec fn upper() -> int;

    /// The value as a mathematical integer.
    spec fn as_int(&self) -> int;

    /// The magnitude of the least value of the type, and the greatest value.
    fn range() -> (r: (u128, u128))
        ensures
            -(r.0 as int) == Self::lower(),
            r.1 as int == Self::upper(),
    ;

    /// The value with the given sign and magnitude in this type.
    fn from_parts(negative: bool, magnitude: u128) -> (r: Self)
        requires
            Self::lower() <= signed_value(negative, magnitude) <= Self::upper(),
        ensures
            r.as_int() == signed_value(negative, magnitude),
    ;

    /// The sign and the magnitude of the value.
    fn to_parts(&self) -> (r: (bool, u128))
        ensures
            signed_value(r.0, r.1) == self.as_int(),
    ;
}

impl FieldInt for u8 {
    open spec fn lower() -> int {
        0
    }

    open spec fn upper() -> int {
        u8::MAX as int
    }

    open spec fn as_int(&self) -> int {
        *self as int
    }

    fn range() -> (r: (u128, u128)) {
        (0, u8::MAX as u128)
    }

    fn from_parts(negative: bool, magnitude: u128) -> (r: u8) {
        magnitude as u8
    }

    fn to_parts(&self) -> (r: (bool, u128)) {
        (false, *self as u128)
    }
}

impl FieldInt for u16 {
    open spec fn lower() -> int {
        0
    }

    open spec fn upper() -> int {
        u16::MAX as int
    }

    open spec fn as_int(&self) -> int {
        *self as int
    }

    fn range() -> (r: (u128, u128)) {
        (0, u16::MAX as u128)
    }

    fn from_parts(negative: bool, magnitude: u128) -> (r: u16) {
        magnitude as u16
    }

    fn to_parts(&self) -> (r: (bool, u128)) {
        (false, *self as u128)
    }
}

impl FieldInt for u32 {
    open spec fn lower() -> int {
        0
    }

    open spec fn upper() -> int {
        u32::MAX as int
    }

    open spec fn as_int(&self) -> int {
        *self as int
    }

    fn range() -> (r: (u128, u128)) {
        (0, u32::MAX as u128)
    }

    fn from_parts(negative: bool, magnitude: u128) -> (r: u32) {
        magnitude as u32
    }

    fn to_parts(&self) -> (r: (bool, u128)) {
        (false, *self as u128)
    }
}

impl FieldInt for u64 {
    open spec fn lower() -> int {
        0
    }

    open spec fn upper() -> int {
        u64::MAX as int
    }

    open spec fn as_int(&self) -> int {
        *self as int
    }

    fn range() -> (r: (u128, u128)) {
        (0, u64::MAX as u128)
    }

    fn from_parts(negative: bool, magnitude: u128) -> (r: u64) {
        magnitude as u64
    }

    fn to_parts(&self) -> (r: (bool, u128)) {
        (false, *self as u128)
    }
}

impl FieldInt for u128 {
    open spec fn lower() -> int {
        0
    }

    open spec fn upper() -> int {
        u128::MAX as int
    }

    open spec fn as_int(&self) -> int {
        *self as int
    }

    fn range() -> (r: (u128, u128)) {
        (0, u128::MAX as u128)
    }

    fn from_parts(negative: bool, magnitude: u128) -> (r: u128) {
        magnitude as u128
    }

    fn to_parts(&self) -> (r: (bool, u128)) {
        (false, *self as u128)
    }
}

impl FieldInt for usize {
    open spec fn lower() -> int {
        0
    }

    open spec fn upper() -> int {
        usize::MAX as int
    }

    open spec fn as_int(&self) -> int {
        *self as int
    }

    fn range() -> (r: (u128, u128)) {
        (0, usize::MAX as u128)
    }

    fn from_parts(negative: bool, magnitude: u128) -> (r: usize) {
        magnitude as usize
    }

    fn to_parts(&self) -> (r: (bool, u128)) {
        (false, *self as u128)
    }
}

impl FieldInt for i8 {
    open spec fn lower() -> int {
        i8::MIN as int
    }

    open spec fn upper() -> int {
        i8::MAX as int
    }

    open spec fn as_int(&self) -> int {
        *self as int
    }

    fn range() -> (r: (u128, u128)) {
        (i8::MAX as u128 + 1, i8::MAX as u128)
    }

    fn from_parts(negative: bool, magnitude: u128) -> (r: i8) {
        if !negative {
            magnitude as i8
        } else if magnitude > i8::MAX as u128 {
            i8::MIN
        } else {
            -(magnitude as i8)
        }
    }

    fn to_parts(&self) -> (r: (bool, u128)) {
        if *self >= 0 {
            (false, *self as u128)
        } else if *self == i8::MIN {
            (true, i8::MAX as u128 + 1)
        } else {
            (true, (-*self) as u128)
        }
    }
}

impl FieldInt for i16 {
    open spec fn lower() -> int {
        i16::MIN as int
    }

    open spec fn upper() -> int {
        i16::MAX as int
    }

    open spec fn as_int(&self) -> int {
        *self as int
    }

    fn range() -> (r: (u128, u128)) {
        (i16::MAX as u128 + 1, i16::MAX as u128)
    }

    fn from_parts(negative: bool, magnitude: u128) -> (r: i16) {
        if !negative {
            magnitude as i16
        } else if magnitude > i16::MAX as u128 {
            i16::MIN
        } else {
            -(magnitude as i16)
        }
    }

    fn to_parts(&self) -> (r: (bool, u128)) {
        if *self >= 0 {
            (false, *self as u128)
        } else if *self == i16::MIN {
            (true, i16::MAX as u128 + 1)
        } else {
            (true, (-*self) as u128)
        }
    }
}

impl FieldInt for i32 {
    open spec fn lower() -> int {
        i32::MIN as int
    }

    open spec fn upper() -> int {
        i32::MAX as int
    }

    open spec fn as_int(&self) -> int {
        *self as int
    }

    fn range() -> (r: (u128, u128)) {
        (i32::MAX as u128 + 1, i32::MAX as u128)
    }

    fn from_parts(negative: bool, magnitude: u128) -> (r: i32) {
        if !negative {
            magnitude as i32
        } else if magnitude > i32::MAX as u128 {
            i32::MIN
        } else {
            -(magnitude as i32)
        }
    }

    fn to_parts(&self) -> (r: (bool, u128)) {
        if *self >= 0 {
            (false, *self as u128)
        } else if *self == i32::MIN {
            (true, i32::MAX as u128 + 1)
        } else {
            (true, (-*self) as u128)
        }
    }
}

impl FieldInt for i64 {
    open spec fn lower() -> int {
        i64::MIN as int
    }

    open spec fn upper() -> int {
        i64::MAX as int
    }

    open spec fn as_int(&self) -> int {
        *self as int
    }

    fn range() -> (r: (u128, u128)) {
        (i64::MAX as u128 + 1, i64::MAX as u128)
    }

    fn from_parts(negative: bool, magnitude: u128) -> (r: i64) {
        if !negative {
            magnitude as i64
        } else if magnitude > i64::MAX as u128 {
            i64::MIN
        } else {
            -(magnitude as i64)
        }
    }

    fn to_parts(&self) -> (r: (bool, u128)) {
        if *self >= 0 {
            (false, *self as u128)
        } else if *self == i64::MIN {
            (true, i64::MAX as u128 + 1)
        } else {
            (true, (-*self) as u128)
        }
    }
}

impl FieldInt for i128 {
    open spec fn lower() -> int {
        i128::MIN as int
    }

    open spec fn upper() -> int {
        i128::MAX as int
    }

    open spec fn as_int(&self) -> int {
        *self as int
    }

    fn range() -> (r: (u128, u128)) {
        (i128::MAX as u128 + 1, i128::MAX as u128)
    }

    fn from_parts(negative: bool, magnitude: u128) -> (r: i128) {
        if !negative {
            magnitude as i128
        } else if magnitude > i128::MAX as u128 {
            i128::MIN
        } else {
            -(magnitude as i128)
        }
    }

    fn to_parts(&self) -> (r: (bool, u128)) {
        if *self >= 0 {
            (false, *self as u128)
        } else if *self == i128::MIN {
            (true, i128::MAX as u128 + 1)
        } else {
            (true, (-*self) as u128)
        }
    }
}

impl FieldInt for isize {
    open spec fn lower() -> int {
        isize::MIN as int
    }

    open spec fn upper() -> int {
        isize::MAX as int
    }

    open spec fn as_int(&self) -> int {
        *self as int
    }

    fn range() -> (r: (u128, u128)) {
        (isize::MAX as u128 + 1, isize::MAX as u128)
    }

    fn from_parts(negative: bool, magnitude: u128) -> (r: isize) {
        if !negative {
            magnitude as isize
        } else if magnitude > isize::MAX as u128 {
            isize::MIN
        } else {
            -(magnitude as isize)
        }
    }

    fn to_parts(&self) -> (r: (bool, u128)) {
        if *self >= 0 {
            (false, *self as u128)
        } else if *self == isize::MIN {
            (true, isize::MAX as u128 + 1)
        } else {
            (true, (-*self) as u128)
        }
    }
}

/// What `s` denotes as a value of the integer type `T`.
pub open spec fn parse_as<T: FieldInt>(s: Seq<char>) -> Option<int> {
    parse_in_range(s, T::lower(), T::upper())
}

/// Reads `s` as an integer of type `T`: an optional sign and decimal digits,
/// within the range of `T`.
pub fn parse_int<T: FieldInt>(s: &str) -> (r: Option<T>)
    ensures
        match r {
            Some(x) => parse_as::<T>(s@) == Some(x.as_int()),
            None => parse_as::<T>(s@) is None,
        },
{
    let bounds = T::range();
    match parse_bounded(s, bounds.0, bounds.1) {
        Some(x) => Some(T::from_parts(x.0, x.1)),
        None => None,
    }
}

} // verus!
