//! Character-level helpers for strings.
//!
//! A string is modelled by its view, the sequence of its characters. Everything
//! here is stated over that view.

use vstd::prelude::*;
use vstd::std_specs::iter::IteratorSpec;
use vstd::utf8::{decode_utf8, valid_utf8};

verus! {

/// Appends one character to a string.
///
/// Trusted: calls `String::push`, which appends the given `char` to the end of
/// the string. The contract says exactly that, over the string's view.
#[verifier::external_body]
pub(crate) fn push_char(s: &mut String, c: char)
    ensures
        final(s)@ == old(s)@.push(c),
{
    s.push(c)
}

/// Decodes `bytes` as UTF-8.
///
/// Trusted: calls `String::from_utf8`, which returns the string with these
/// bytes where they are valid UTF-8, and otherwise an error that hands the
/// bytes back.
#[verifier::external_body]
pub(crate) fn string_from_utf8(bytes: Vec<u8>) -> (r: Result<String, Vec<u8>>)
    ensures
        match r {
            Ok(s) => valid_utf8(bytes@) && s@ == decode_utf8(bytes@),
            Err(b) => !valid_utf8(bytes@) && b@ == bytes@,
        },
{
    match String::from_utf8(bytes) {
        Ok(s) => Ok(s),
        Err(e) => Err(e.into_bytes()),
    }
}

/// The characters of `s`, in order.
pub fn chars_of(s: &str) -> (v: Vec<char>)
    ensures
        v@ == s@,
{
    let mut out: Vec<char> = Vec::new();
    let mut it = s.chars();
    let ghost mut n: int = 0;
    loop
        invariant
            0 <= n <= s@.len(),
            it.remaining() == s@.skip(n),
            out@ == s@.take(n),
        ensures
            out@ == s@,
        decreases s@.len() - n,
    {
        match it.next() {
            Some(c) => {
                out.push(c);
                proof {
                    assert(s@.take(n + 1) == s@.take(n).push(s@[n]));
                    n = n + 1;
                }
            },
            None => {
                break ;
            },
        }
    }
    out
}

/// The string made of the characters `v[from..to]`.
pub(crate) fn substring(v: &Vec<char>, from: usize, to: usize) -> (s: String)
    requires
        from <= to <= v.len(),
    ensures
        s@ == v@.subrange(from as int, to as int),
{
    let mut out = String::new();
    let mut i: usize = from;
    while i < to
        invariant
            from <= i <= to <= v.len(),
            out@ == v@.subrange(from as int, i as int),
        decreases to - i,
    {
        push_char(&mut out, v[i]);
        proof {
            assert(v@.subrange(from as int, i + 1) == v@.subrange(from as int, i as int).push(
                v@[i as int],
            ));
        }
        i = i + 1;
    }
    out
}

/// Whether two strings hold the same characters.
pub fn str_eq(a: &str, b: &str) -> (r: bool)
    ensures
        r == (a@ == b@),
{
    let mut ia = a.chars();
    let mut ib = b.chars();
    let ghost mut n: int = 0;
    loop
        invariant
            0 <= n <= a@.len(),
            n <= b@.len(),
            ia.remaining() == a@.skip(n),
            ib.remaining() == b@.skip(n),
            a@.take(n) == b@.take(n),
        decreases a@.len() - n,
    {
        match ia.next() {
            Some(ca) => {
                match ib.next() {
                    Some(cb) => {
                        if ca != cb {
                            proof {
                                assert(a@[n] != b@[n]);
                            }
                            return false;
                        }
                        proof {
                            assert(a@.take(n + 1) == a@.take(n).push(a@[n]));
                            assert(b@.take(n + 1) == b@.take(n).push(b@[n]));
                            n = n + 1;
                        }
                    },
                    None => {
                        proof {
                            assert(a@.len() != b@.len());
                        }
                        return false;
                    },
                }
            },
            None => {
                match ib.next() {
                    Some(_) => {
                        proof {
                            assert(a@.len() != b@.len());
                        }
                        return false;
                    },
                    None => {
                        proof {
                            assert(a@.take(n) == a@);
                            assert(b@.take(n) == b@);
                        }
                        return true;
                    },
                }
            },
        }
    }
}

/// The number of characters of `s` before the first `c`; the length of `s`
/// where `c` does not occur.
pub open spec fn index_of(s: Seq<char>, c: char) -> nat
    decreases s.len(),
{
    if s.len() == 0 || s[0] == c {
        0
    } else {
        1 + index_of(s.drop_first(), c)
    }
}

/// The pieces of `s` between the occurrences of `sep`, in order. There is
/// always at least one piece, and a piece may be empty.
pub open spec fn split_on(s: Seq<char>, sep: char) -> Seq<Seq<char>>
    decreases s.len(),
{
    let i = index_of(s, sep);
    if i >= s.len() {
        seq![s]
    } else {
        seq![s.take(i as int)] + split_on(s.skip(i as int + 1), sep)
    }
}

/// The position of the first `c` in `v[from..to]`, or `to` where there is
/// none.
pub(crate) fn find_char(v: &Vec<char>, from: usize, to: usize, c: char) -> (r: usize)
    requires
        from <= to <= v.len(),
    ensures
        from <= r <= to,
        r == from + index_of(v@.subrange(from as int, to as int), c),
{
    let mut i: usize = from;
    while i < to && v[i] != c
        invariant
            from <= i <= to <= v.len(),
            index_of(v@.subrange(from as int, to as int), c) == (i - from) + index_of(
                v@.subrange(i as int, to as int),
                c,
            ),
        decreases to - i,
    {
        proof {
            assert(v@.subrange(i as int, to as int).drop_first() == v@.subrange(
                i + 1,
                to as int,
            ));
        }
        i = i + 1;
    }
    proof {
        let rest = v@.subrange(i as int, to as int);
        assert(rest.len() == 0 || rest[0] == c);
    }
    i
}

/// The pieces of `v` between the occurrences of `sep`.
pub fn split_chars(v: &Vec<char>, sep: char) -> (r: Vec<String>)
    ensures
        r.deep_view() == split_on(v@, sep),
{
    let mut out: Vec<String> = Vec::new();
    let n = v.len();
    let mut start: usize = 0;
    proof {
        assert(out.deep_view() == Seq::<Seq<char>>::empty());
        assert(v@.skip(0) == v@);
    }
    loop
        invariant_except_break
            start <= n == v@.len(),
            out.deep_view() + split_on(v@.skip(start as int), sep) == split_on(v@, sep),
        ensures
            out.deep_view() == split_on(v@, sep),
        decreases n - start,
    {
        let ghost rest = v@.skip(start as int);
        let ghost done = out.deep_view();
        proof {
            assert(rest == v@.subrange(start as int, n as int));
        }
        let stop = find_char(v, start, n, sep);
        let piece = substring(v, start, stop);
        proof {
            assert(v@.subrange(start as int, stop as int) == rest.take(stop - start));
        }
        out.push(piece);
        proof {
            assert(out.deep_view() == done.push(piece@));
        }
        if stop >= n {
            proof {
                assert(rest.take(stop - start) == rest);
                assert(done.push(piece@) == done + seq![rest]);
            }
            break ;
        }
        proof {
            assert(rest.skip(stop - start + 1) == v@.skip(stop + 1));
            assert(done.push(piece@) + split_on(v@.skip(stop + 1), sep) == done + (seq![piece@]
                + split_on(v@.skip(stop + 1), sep)));
        }
        start = stop + 1;
    }
    out
}

/// Whether `s` begins with the characters of `prefix`.
pub open spec fn starts_with_spec(s: Seq<char>, prefix: Seq<char>) -> bool {
    prefix.len() <= s.len() && s.take(prefix.len() as int) == prefix
}

/// Whether `v[from..]` begins with the characters of `prefix`.
pub(crate) fn starts_with_at(v: &Vec<char>, from: usize, prefix: &str) -> (r: bool)
    requires
        from <= v.len(),
    ensures
        r == starts_with_spec(v@.skip(from as int), prefix@),
{
    let p = chars_of(prefix);
    if p.len() > v.len() - from {
        return false;
    }
    let ghost s = v@.skip(from as int);
    let mut i: usize = 0;
    while i < p.len()
        invariant
            from <= v.len(),
            p@ == prefix@,
            p.len() <= v.len() - from,
            s == v@.skip(from as int),
            0 <= i <= p.len(),
            s.take(i as int) == p@.take(i as int),
        decreases p.len() - i,
    {
        if v[from + i] != p[i] {
            proof {
                assert(s.take(p.len() as int)[i as int] != p@[i as int]);
            }
            return false;
        }
        proof {
            assert(s.take(i + 1) == s.take(i as int).push(s[i as int]));
            assert(p@.take(i + 1) == p@.take(i as int).push(p@[i as int]));
        }
        i = i + 1;
    }
    proof {
        assert(p@.take(p.len() as int) == p@);
    }
    true
}

/// The decimal digit for `d`, where `d` is below ten.
pub open spec fn digit_char(d: nat) -> char {
    if d == 0 {
        '0'
    } else if d == 1 {
        '1'
    } else if d == 2 {
        '2'
    } else if d == 3 {
        '3'
    } else if d == 4 {
        '4'
    } else if d == 5 {
        '5'
    } else if d == 6 {
        '6'
    } else if d == 7 {
        '7'
    } else if d == 8 {
        '8'
    } else {
        '9'
    }
}

/// The value of the decimal digit `c`, or `None` where `c` is no digit.
pub open spec fn digit_value(c: char) -> Option<nat> {
    if c == '0' {
        Some(0)
    } else if c == '1' {
        Some(1)
    } else if c == '2' {
        Some(2)
    } else if c == '3' {
        Some(3)
    } else if c == '4' {
        Some(4)
    } else if c == '5' {
        Some(5)
    } else if c == '6' {
        Some(6)
    } else if c == '7' {
        Some(7)
    } else if c == '8' {
        Some(8)
    } else if c == '9' {
        Some(9)
    } else {
        None
    }
}

/// The decimal notation of `n`, without sign or leading zeros.
pub open spec fn decimal_spec(n: nat) -> Seq<char>
    decreases n,
{
    if n < 10 {
        seq![digit_char(n)]
    } else {
        decimal_spec(n / 10).push(digit_char(n % 10))
    }
}

/// The decimal notation of the integer `n`: a minus sign where `n` is
/// negative, then the digits.
pub open spec fn signed_decimal_spec(n: int) -> Seq<char> {
    if n < 0 {
        seq!['-'] + decimal_spec((-n) as nat)
    } else {
        decimal_spec(n as nat)
    }
}

/// The digit for `d`.
fn digit_of(d: u8) -> (c: char)
    requires
        d < 10,
    ensures
        c == digit_char(d as nat),
{
    if d == 0 {
        '0'
    } else if d == 1 {
        '1'
    } else if d == 2 {
        '2'
    } else if d == 3 {
        '3'
    } else if d == 4 {
        '4'
    } else if d == 5 {
        '5'
    } else if d == 6 {
        '6'
    } else if d == 7 {
        '7'
    } else if d == 8 {
        '8'
    } else {
        '9'
    }
}

/// The value of the digit `c`.
pub(crate) fn value_of_digit(c: char) -> (r: Option<u8>)
    ensures
        match r {
            Some(d) => d < 10 && digit_value(c) == Some(d as nat),
            None => digit_value(c) is None,
        },
{
    if c == '0' {
        Some(0)
    } else if c == '1' {
        Some(1)
    } else if c == '2' {
        Some(2)
    } else if c == '3' {
        Some(3)
    } else if c == '4' {
        Some(4)
    } else if c == '5' {
        Some(5)
    } else if c == '6' {
        Some(6)
    } else if c == '7' {
        Some(7)
    } else if c == '8' {
        Some(8)
    } else if c == '9' {
        Some(9)
    } else {
        None
    }
}

/// The digits of `n`, the last one first.
spec fn reversed_digits(n: nat) -> Seq<char>
    decreases n,
{
    if n < 10 {
        seq![digit_char(n)]
    } else {
        seq![digit_char(n % 10)] + reversed_digits(n / 10)
    }
}

proof fn lemma_reversed_digits(n: nat)
    ensures
        reversed_digits(n).reverse() == decimal_spec(n),
    decreases n,
{
    if n < 10 {
        assert(seq![digit_char(n)].reverse() == seq![digit_char(n)]);
    } else {
        lemma_reversed_digits(n / 10);
        let head = seq![digit_char(n % 10)];
        let tail = reversed_digits(n / 10);
        assert((head + tail).reverse() == tail.reverse().push(digit_char(n % 10)));
    }
}

/// Appends the decimal notation of `n` to `out`.
pub fn push_decimal(out: &mut String, n: u128)
    ensures
        final(out)@ == old(out)@ + decimal_spec(n as nat),
{
    let mut digits: Vec<char> = Vec::new();
    let mut rest: u128 = n;
    while rest >= 10
        invariant
            digits@ + reversed_digits(rest as nat) == reversed_digits(n as nat),
        decreases rest,
    {
        digits.push(digit_of((rest % 10) as u8));
        proof {
            assert(digits@ + reversed_digits((rest / 10) as nat) == digits@.drop_last() + (
            seq![digit_char((rest % 10) as nat)] + reversed_digits((rest / 10) as nat)));
        }
        rest = rest / 10;
    }
    digits.push(digit_of(rest as u8));
    proof {
        assert(digits@ == digits@.drop_last() + reversed_digits(rest as nat));
        lemma_reversed_digits(n as nat);
    }
    let mut i: usize = digits.len();
    while i > 0
        invariant
            0 <= i <= digits.len(),
            out@ == old(out)@ + digits@.reverse().take(digits.len() - i),
        decreases i,
    {
        i = i - 1;
        push_char(out, digits[i]);
        proof {
            let r = digits@.reverse();
            let k = digits.len() - i;
            assert(r.take(k) == r.take(k - 1).push(r[k - 1]));
            assert(old(out)@ + r.take(k - 1).push(r[k - 1]) == (old(out)@ + r.take(k - 1)).push(
                r[k - 1],
            ));
        }
    }
    proof {
        assert(digits@.reverse().take(digits.len() as int) == digits@.reverse());
    }
}

/// The decimal notation of `n`.
pub fn decimal_of(n: u128) -> (s: String)
    ensures
        s@ == decimal_spec(n as nat),
{
    let mut out = String::new();
    push_decimal(&mut out, n);
    proof {
        assert(Seq::<char>::empty() + decimal_spec(n as nat) == decimal_spec(n as nat));
    }
    out
}

/// The integer with the magnitude `magnitude`, below zero where `negative`
/// holds.
pub open spec fn signed_value(negative: bool, magnitude: u128) -> int {
    if negative {
        -(magnitude as int)
    } else {
        magnitude as int
    }
}

/// Appends the decimal notation of the integer with the given sign and
/// magnitude to `out`.
pub fn push_sign_magnitude(out: &mut String, negative: bool, magnitude: u128)
    ensures
        final(out)@ == old(out)@ + signed_decimal_spec(signed_value(negative, magnitude)),
{
    if negative && magnitude > 0 {
        push_char(out, '-');
        push_decimal(out, magnitude);
        proof {
            assert(old(out)@.push('-') + decimal_spec(magnitude as nat) == old(out)@ + (seq!['-']
                + decimal_spec(magnitude as nat)));
        }
    } else {
        push_decimal(out, magnitude);
    }
}

/// Appends the decimal notation of the signed integer `n` to `out`.
pub fn push_signed_decimal(out: &mut String, n: i128)
    ensures
        final(out)@ == old(out)@ + signed_decimal_spec(n as int),
{
    if n >= 0 {
        push_sign_magnitude(out, false, n as u128);
    } else if n == i128::MIN {
        push_sign_magnitude(out, true, 0x8000_0000_0000_0000_0000_0000_0000_0000u128);
    } else {
        push_sign_magnitude(out, true, (-n) as u128);
    }
}

} // verus!
