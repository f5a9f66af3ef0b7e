//! The escape codec of the query protocol.
//!
//! Eleven characters have a meaning on the wire or cannot travel in a line:
//! backslash, slash, space, pipe, and the control characters BEL, BS, FF, LF,
//! CR, TAB and VT. Escaping writes each of them as a backslash followed by a
//! marker character; every other character is passed through unchanged.
//!
//! The codec works on bytes. All eleven characters are ASCII, and no byte of
//! a longer UTF-8 sequence is ASCII, so the work on bytes never splits a
//! character: on text it does what the definitions over characters say.

use vstd::prelude::*;
use vstd::string::StrSliceExecFns;
use vstd::utf8::{
    char_is_scalar, char_u32_cast, encode_scalar, encode_utf8, encode_utf8_decode_utf8,
    encode_utf8_valid_utf8, has_width_1_encoding, has_width_2_encoding, has_width_3_encoding,
    is_ascii_chars, is_ascii_chars_encode_utf8,
};
use crate::text::string_from_utf8;

verus! {

/// The marker that follows the backslash when `c` is escaped, or `None` when
/// `c` travels unescaped.
pub open spec fn escape_marker(c: char) -> Option<char> {
    if c == '\\' {
        Some('\\')
    } else if c == '/' {
        Some('/')
    } else if c == ' ' {
        Some('s')
    } else if c == '|' {
        Some('p')
    } else if c == '\u{7}' {
        Some('a')
    } else if c == '\u{8}' {
        Some('b')
    } else if c == '\u{c}' {
        Some('f')
    } else if c == '\n' {
        Some('n')
    } else if c == '\r' {
        Some('r')
    } else if c == '\t' {
        Some('t')
    } else if c == '\u{b}' {
        Some('v')
    } else {
        None
    }
}

/// The character that a backslash followed by `m` stands for. A marker that
/// is not one of the nine letters stands for itself, which covers `\\` and
/// `\/` as well as unknown escapes.
pub open spec fn unescape_marker(m: char) -> char {
    if m == 's' {
        ' '
    } else if m == 'p' {
        '|'
    } else if m == 'a' {
        '\u{7}'
    } else if m == 'b' {
        '\u{8}'
    } else if m == 'f' {
        '\u{c}'
    } else if m == 'n' {
        '\n'
    } else if m == 'r' {
        '\r'
    } else if m == 't' {
        '\t'
    } else if m == 'v' {
        '\u{b}'
    } else {
        m
    }
}

/// What one character becomes on the wire.
pub open spec fn escape_char(c: char) -> Seq<char> {
    match escape_marker(c) {
        Some(m) => seq!['\\', m],
        None => seq![c],
    }
}

/// The wire form of `s`: each character replaced by its escaped form.
pub open spec fn escape_spec(s: Seq<char>) -> Seq<char>
    decreases s.len(),
{
    if s.len() == 0 {
        Seq::empty()
    } else {
        escape_char(s[0]) + escape_spec(s.drop_first())
    }
}

/// The text that the wire form `s` stands for. A backslash takes the next
/// character as a marker; a backslash at the very end, with no marker after
/// it, is kept as a backslash.
pub open spec fn unescape_spec(s: Seq<char>) -> Seq<char>
    decreases s.len(),
{
    if s.len() == 0 {
        Seq::empty()
    } else if s[0] != '\\' {
        seq![s[0]] + unescape_spec(s.drop_first())
    } else if s.len() == 1 {
        seq!['\\']
    } else {
        seq![unescape_marker(s[1])] + unescape_spec(s.skip(2))
    }
}

/// A character that must never appear raw on the wire: space, pipe, or one of
/// the seven control characters.
pub open spec fn is_raw_special(c: char) -> bool {
    c == ' ' || c == '|' || c == '\u{7}' || c == '\u{8}' || c == '\u{c}' || c == '\n' || c == '\r'
        || c == '\t' || c == '\u{b}'
}

/// Whether `s` is made only of plain characters and complete escape
/// sequences: no raw special character, and every backslash or slash is part
/// of a two-character sequence that starts with a backslash.
pub open spec fn is_wire_safe(s: Seq<char>) -> bool
    decreases s.len(),
{
    if s.len() == 0 {
        true
    } else if s[0] == '\\' {
        s.len() >= 2 && !is_raw_special(s[1]) && is_wire_safe(s.skip(2))
    } else {
        escape_marker(s[0]) is None && is_wire_safe(s.drop_first())
    }
}

/// Unescaping undoes escaping, for every text.
pub proof fn lemma_unescape_escape(s: Seq<char>)
    ensures
        unescape_spec(escape_spec(s)) == s,
    decreases s.len(),
{
    if s.len() == 0 {
    } else {
        let rest = s.drop_first();
        let tail = escape_spec(rest);
        let wire = escape_spec(s);
        lemma_unescape_escape(rest);
        match escape_marker(s[0]) {
            Some(m) => {
                assert(wire == seq!['\\', m] + tail);
                assert(wire.skip(2) == tail);
                assert(unescape_marker(m) == s[0]);
                assert(unescape_spec(wire) == seq![s[0]] + rest);
            },
            None => {
                assert(wire == seq![s[0]] + tail);
                assert(wire.drop_first() == tail);
                assert(unescape_spec(wire) == seq![s[0]] + rest);
            },
        }
        assert(seq![s[0]] + rest == s);
    }
}

/// Escaped text holds no raw space, pipe or control character, at any
/// position.
pub proof fn lemma_escape_has_no_raw_special(s: Seq<char>)
    ensures
        forall|i: int| 0 <= i < escape_spec(s).len() ==> !is_raw_special(#[trigger] escape_spec(s)[i]),
    decreases s.len(),
{
    if s.len() > 0 {
        lemma_escape_has_no_raw_special(s.drop_first());
        let head = escape_char(s[0]);
        let tail = escape_spec(s.drop_first());
        assert forall|i: int| 0 <= i < escape_spec(s).len() implies !is_raw_special(
            #[trigger] escape_spec(s)[i],
        ) by {
            if i < head.len() {
                assert(escape_spec(s)[i] == head[i]);
            } else {
                assert(escape_spec(s)[i] == tail[i - head.len()]);
            }
        }
    }
}

/// Escaped text is made only of plain characters and of the two-character
/// escape sequences: nothing in it needs escaping outside those sequences.
pub proof fn lemma_escape_is_wire_safe(s: Seq<char>)
    ensures
        is_wire_safe(escape_spec(s)),
    decreases s.len(),
{
    if s.len() > 0 {
        let rest = s.drop_first();
        let tail = escape_spec(rest);
        let wire = escape_spec(s);
        lemma_escape_is_wire_safe(rest);
        match escape_marker(s[0]) {
            Some(m) => {
                assert(wire == seq!['\\', m] + tail);
                assert(wire.skip(2) == tail);
            },
            None => {
                assert(wire == seq![s[0]] + tail);
                assert(wire.drop_first() == tail);
            },
        }
    }
}

/// The marker byte that follows the backslash when the byte `b` is escaped,
/// or `None` when `b` travels unescaped. The bytes are those of the
/// characters in `escape_marker`: 92 is the backslash, 47 the slash, 32 the
/// space, 124 the pipe, and 115, 112, 97, 98, 102, 110, 114, 116, 118 are the
/// letters s, p, a, b, f, n, r, t, v.
pub open spec fn escape_byte_marker(b: u8) -> Option<u8> {
    if b == 92 {
        Some(92)
    } else if b == 47 {
        Some(47)
    } else if b == 32 {
        Some(115)
    } else if b == 124 {
        Some(112)
    } else if b == 7 {
        Some(97)
    } else if b == 8 {
        Some(98)
    } else if b == 12 {
        Some(102)
    } else if b == 10 {
        Some(110)
    } else if b == 13 {
        Some(114)
    } else if b == 9 {
        Some(116)
    } else if b == 11 {
        Some(118)
    } else {
        None
    }
}

/// What one byte becomes on the wire.
pub open spec fn escape_byte(b: u8) -> Seq<u8> {
    match escape_byte_marker(b) {
        Some(m) => seq![92, m],
        None => seq![b],
    }
}

/// The wire form of the bytes `s`: each byte replaced by its escaped form.
pub open spec fn escape_bytes(s: Seq<u8>) -> Seq<u8>
    decreases s.len(),
{
    if s.len() == 0 {
        Seq::empty()
    } else {
        escape_byte(s[0]) + escape_bytes(s.drop_first())
    }
}

/// Escaping bytes distributes over concatenation.
pub proof fn lemma_escape_bytes_concat(a: Seq<u8>, b: Seq<u8>)
    ensures
        escape_bytes(a + b) == escape_bytes(a) + escape_bytes(b),
    decreases a.len(),
{
    if a.len() == 0 {
        assert(a + b == b);
    } else {
        lemma_escape_bytes_concat(a.drop_first(), b);
        assert((a + b).drop_first() == a.drop_first() + b);
    }
}

/// Escaped bytes are at least as many as the bytes, and at most twice as
/// many.
pub proof fn lemma_escape_bytes_len(s: Seq<u8>)
    ensures
        s.len() <= escape_bytes(s).len() <= 2 * s.len(),
    decreases s.len(),
{
    if s.len() > 0 {
        lemma_escape_bytes_len(s.drop_first());
    }
}

/// Bytes outside ASCII are never escaped.
proof fn lemma_escape_high_bytes(s: Seq<u8>)
    requires
        forall|i: int| 0 <= i < s.len() ==> s[i] >= 0x80,
    ensures
        escape_bytes(s) == s,
    decreases s.len(),
{
    if s.len() > 0 {
        let rest = s.drop_first();
        assert forall|i: int| 0 <= i < rest.len() implies rest[i] >= 0x80 by {
            assert(rest[i] == s[i + 1]);
        }
        lemma_escape_high_bytes(rest);
        assert(s[0] >= 0x80);
        assert(seq![s[0]] + rest == s);
    }
}

/// The UTF-8 encoding distributes over concatenation.
proof fn lemma_encode_concat(a: Seq<char>, b: Seq<char>)
    ensures
        encode_utf8(a + b) == encode_utf8(a) + encode_utf8(b),
    decreases a.len(),
{
    if a.len() == 0 {
        assert(a + b == b);
    } else {
        lemma_encode_concat(a.drop_first(), b);
        assert((a + b).drop_first() == a.drop_first() + b);
        assert((a + b)[0] == a[0]);
    }
}

/// The UTF-8 bytes of one character: the character's own value where it is
/// ASCII, else two bytes or more, none of them ASCII.
proof fn lemma_scalar_bytes(c: char)
    ensures
        (c as u32) <= 0x7F ==> encode_scalar(c as u32) == seq![c as u8],
        (c as u32) > 0x7F ==> encode_scalar(c as u32).len() >= 2 && forall|i: int|
            0 <= i < encode_scalar(c as u32).len() ==> #[trigger] encode_scalar(c as u32)[i]
                >= 0x80,
{
    let v = c as u32;
    let bytes = encode_scalar(v);
    char_is_scalar(c);
    if has_width_1_encoding(v) {
        assert((v & 0x7F) as u8 == v as u8) by (bit_vector)
            requires
                v <= 0x7F,
        ;
    } else {
        assert(0xC0u8 | (((v >> 6) & 0x1F) as u8) >= 0x80u8) by (bit_vector);
        assert(0xE0u8 | (((v >> 12) & 0x0F) as u8) >= 0x80u8) by (bit_vector);
        assert(0xF0u8 | (((v >> 18) & 0x7) as u8) >= 0x80u8) by (bit_vector);
        assert(0x80u8 | ((v & 0x3F) as u8) >= 0x80u8) by (bit_vector);
        assert(0x80u8 | (((v >> 6) & 0x3F) as u8) >= 0x80u8) by (bit_vector);
        assert(0x80u8 | (((v >> 12) & 0x3F) as u8) >= 0x80u8) by (bit_vector);
        assert forall|i: int| 0 <= i < bytes.len() implies bytes[i] >= 0x80 by {
            if has_width_2_encoding(v) {
            } else if has_width_3_encoding(v) {
            } else {
            }
        }
    }
}

/// The UTF-8 bytes of a text of one character are those of the character.
proof fn lemma_encode_one(c: char)
    ensures
        encode_utf8(seq![c]) == encode_scalar(c as u32),
{
    let one = seq![c];
    assert(one[0] == c);
    assert(encode_utf8(one.drop_first()) == Seq::<u8>::empty());
    assert(encode_scalar(c as u32) + Seq::<u8>::empty() == encode_scalar(c as u32));
}

/// Escaping the bytes of one character gives the bytes of the escaped
/// character.
proof fn lemma_escape_scalar(c: char)
    ensures
        escape_bytes(encode_scalar(c as u32)) == encode_utf8(escape_char(c)),
{
    let v = c as u32;
    let bytes = encode_scalar(v);
    lemma_scalar_bytes(c);
    if v <= 0x7F {
        let b = v as u8;
        assert(bytes[0] == b);
        assert(escape_bytes(bytes.drop_first()) == Seq::<u8>::empty());
        assert(escape_byte(b) + Seq::<u8>::empty() == escape_byte(b));
        assert(escape_bytes(bytes) == escape_byte(b));
        let wire = escape_char(c);
        assert(is_ascii_chars(wire));
        is_ascii_chars_encode_utf8(wire);
        assert(encode_utf8(wire) =~= escape_byte(b));
    } else {
        lemma_escape_high_bytes(bytes);
        assert(escape_marker(c) is None);
        lemma_encode_one(c);
    }
}

/// Escaping works on bytes and never splits a character: the escaped bytes
/// of a text in UTF-8 are the UTF-8 of the escaped text.
pub proof fn lemma_escape_utf8(s: Seq<char>)
    ensures
        escape_bytes(encode_utf8(s)) == encode_utf8(escape_spec(s)),
    decreases s.len(),
{
    if s.len() > 0 {
        let rest = s.drop_first();
        lemma_escape_utf8(rest);
        lemma_escape_scalar(s[0]);
        lemma_escape_bytes_concat(encode_scalar(s[0] as u32), encode_utf8(rest));
        lemma_encode_concat(escape_char(s[0]), escape_spec(rest));
    }
}

/// The byte that a backslash followed by the byte `m` stands for: the bytes
/// of the letters s, p, a, b, f, n, r, t, v stand for space, pipe, BEL, BS,
/// FF, LF, CR, TAB and VT, and any other byte stands for itself.
pub open spec fn unescape_byte_marker(m: u8) -> u8 {
    if m == 115 {
        32
    } else if m == 112 {
        124
    } else if m == 97 {
        7
    } else if m == 98 {
        8
    } else if m == 102 {
        12
    } else if m == 110 {
        10
    } else if m == 114 {
        13
    } else if m == 116 {
        9
    } else if m == 118 {
        11
    } else {
        m
    }
}

/// The bytes that the wire form `s` stands for. A backslash takes the next
/// byte as a marker; a backslash at the very end is kept.
pub open spec fn unescape_bytes(s: Seq<u8>) -> Seq<u8>
    decreases s.len(),
{
    if s.len() == 0 {
        Seq::empty()
    } else if s[0] != 92 {
        seq![s[0]] + unescape_bytes(s.drop_first())
    } else if s.len() == 1 {
        seq![92u8]
    } else {
        seq![unescape_byte_marker(s[1])] + unescape_bytes(s.skip(2))
    }
}

/// Unescaping undoes escaping, for every sequence of bytes.
pub proof fn lemma_unescape_escape_bytes(s: Seq<u8>)
    ensures
        unescape_bytes(escape_bytes(s)) == s,
    decreases s.len(),
{
    if s.len() > 0 {
        let rest = s.drop_first();
        let tail = escape_bytes(rest);
        let wire = escape_bytes(s);
        lemma_unescape_escape_bytes(rest);
        match escape_byte_marker(s[0]) {
            Some(m) => {
                assert(wire == seq![92u8, m] + tail);
                assert(wire.skip(2) == tail);
                assert(unescape_byte_marker(m) == s[0]);
            },
            None => {
                assert(wire == seq![s[0]] + tail);
                assert(wire.drop_first() == tail);
            },
        }
        assert(seq![s[0]] + rest == s);
    }
}

/// Bytes without a backslash among them are not changed by unescaping,
/// whatever follows them.
proof fn lemma_unescape_plain(p: Seq<u8>, r: Seq<u8>)
    requires
        forall|i: int| 0 <= i < p.len() ==> p[i] != 92,
    ensures
        unescape_bytes(p + r) == p + unescape_bytes(r),
    decreases p.len(),
{
    if p.len() == 0 {
        assert(p + r == r);
        assert(p + unescape_bytes(r) == unescape_bytes(r));
    } else {
        let tail = p.drop_first();
        assert forall|i: int| 0 <= i < tail.len() implies tail[i] != 92 by {
            assert(tail[i] == p[i + 1]);
        }
        lemma_unescape_plain(tail, r);
        assert((p + r)[0] == p[0]);
        assert((p + r).drop_first() == tail + r);
        assert(seq![p[0]] + (tail + unescape_bytes(r)) == p + unescape_bytes(r));
    }
}

/// Unescaping works on bytes and never splits a character: the unescaped
/// bytes of a text in UTF-8 are the UTF-8 of the unescaped text.
pub proof fn lemma_unescape_utf8(s: Seq<char>)
    ensures
        unescape_bytes(encode_utf8(s)) == encode_utf8(unescape_spec(s)),
    decreases s.len(),
{
    if s.len() > 0 {
        let c = s[0];
        let rest = s.drop_first();
        let head = encode_scalar(c as u32);
        lemma_scalar_bytes(c);
        lemma_unescape_utf8(rest);
        if c != '\\' {
            assert forall|i: int| 0 <= i < head.len() implies head[i] != 92 by {
                if (c as u32) <= 0x7F {
                    char_u32_cast(c, c as u32);
                    char_u32_cast('\\', 92u32);
                }
            }
            lemma_unescape_plain(head, encode_utf8(rest));
            lemma_encode_concat(seq![c], unescape_spec(rest));
            lemma_encode_one(c);
        } else if s.len() == 1 {
            assert(encode_utf8(rest) == Seq::<u8>::empty());
            assert(encode_utf8(s) == seq![92u8]);
            lemma_encode_one('\\');
        } else {
            let m = rest[0];
            let after = rest.drop_first();
            let mid = encode_scalar(m as u32);
            let tail = mid.drop_first();
            let done = encode_utf8(after);
            lemma_scalar_bytes(m);
            lemma_unescape_utf8(after);
            assert(s.skip(2) == after);
            let wire = encode_utf8(s);
            assert(wire == seq![92u8] + (mid + done));
            assert(wire[1] == mid[0]);
            assert(wire.skip(2) == tail + done);
            assert forall|i: int| 0 <= i < tail.len() implies tail[i] != 92 by {
                assert(tail[i] == mid[i + 1]);
            }
            lemma_unescape_plain(tail, done);
            let plain = unescape_marker(m);
            lemma_scalar_bytes(plain);
            assert(encode_scalar(plain as u32) == seq![unescape_byte_marker(mid[0])] + tail) by {
                if (m as u32) <= 0x7F {
                    assert(tail == Seq::<u8>::empty());
                    assert(seq![unescape_byte_marker(mid[0])] + tail == seq![
                        unescape_byte_marker(mid[0]),
                    ]);
                } else {
                    assert(plain == m);
                    assert(seq![mid[0]] + tail == mid);
                }
            }
            lemma_encode_concat(seq![plain], unescape_spec(after));
            lemma_encode_one(plain);
            assert(seq![unescape_byte_marker(mid[0])] + (tail + encode_utf8(unescape_spec(after)))
                == seq![unescape_byte_marker(mid[0])] + tail + encode_utf8(unescape_spec(after)));
        }
    }
}

/// The byte that the marker byte `m` stands for.
fn byte_unmarked(m: u8) -> (b: u8)
    ensures
        b == unescape_byte_marker(m),
{
    if m == 115 {
        32
    } else if m == 112 {
        124
    } else if m == 97 {
        7
    } else if m == 98 {
        8
    } else if m == 102 {
        12
    } else if m == 110 {
        10
    } else if m == 114 {
        13
    } else if m == 116 {
        9
    } else if m == 118 {
        11
    } else {
        m
    }
}

/// Unescapes the bytes `wire`.
pub fn unescape_slice(wire: &[u8]) -> (r: Vec<u8>)
    ensures
        r@ == unescape_bytes(wire@),
{
    let mut res: Vec<u8> = Vec::new();
    let n = wire.len();
    let mut i: usize = 0;
    proof {
        assert(wire@.skip(0) == wire@);
    }
    while i < n
        invariant
            0 <= i <= n == wire@.len(),
            res@ + unescape_bytes(wire@.skip(i as int)) == unescape_bytes(wire@),
        decreases n - i,
    {
        let ghost rest = wire@.skip(i as int);
        let ghost done = res@;
        let b = wire[i];
        if b != 92 {
            res.push(b);
            proof {
                assert(rest.drop_first() == wire@.skip(i + 1));
                assert(done.push(b) + unescape_bytes(rest.drop_first()) == done + (seq![b]
                    + unescape_bytes(rest.drop_first())));
            }
            i = i + 1;
        } else if i + 1 < n {
            let m = byte_unmarked(wire[i + 1]);
            res.push(m);
            proof {
                assert(rest.skip(2) == wire@.skip(i + 2));
                assert(rest[1] == wire@[i + 1]);
                assert(done.push(m) + unescape_bytes(rest.skip(2)) == done + (seq![m]
                    + unescape_bytes(rest.skip(2))));
            }
            i = i + 2;
        } else {
            res.push(92);
            proof {
                assert(rest.len() == 1);
                assert(wire@.skip(i + 1) == Seq::<u8>::empty());
                assert(done.push(92u8) + Seq::<u8>::empty() == done + seq![92u8]);
            }
            i = i + 1;
        }
    }
    proof {
        assert(res@ + Seq::<u8>::empty() == res@);
    }
    res
}

/// The marker for the byte `b`, if `b` has to be escaped.
fn byte_marker_of(b: u8) -> (m: Option<u8>)
    ensures
        m == escape_byte_marker(b),
        m matches Some(x) ==> x != 0,
{
    if b == 92 {
        Some(92)
    } else if b == 47 {
        Some(47)
    } else if b == 32 {
        Some(115)
    } else if b == 124 {
        Some(112)
    } else if b == 7 {
        Some(97)
    } else if b == 8 {
        Some(98)
    } else if b == 12 {
        Some(102)
    } else if b == 10 {
        Some(110)
    } else if b == 13 {
        Some(114)
    } else if b == 9 {
        Some(116)
    } else if b == 11 {
        Some(118)
    } else {
        None
    }
}

/// Escapes bytes one at a time: the bytes given to `new`, in their wire form,
/// come out of `next`. Between two calls it holds at most one byte back, the
/// marker of an escape sequence whose backslash has just come out.
#[derive(Debug)]
pub struct Escape {
    inner: Vec<u8>,
    pos: usize,
    buffer: u8,
}

impl View for Escape {
    type V = Seq<u8>;

    /// The bytes that are still to come out.
    closed spec fn view(&self) -> Seq<u8> {
        if self.buffer != 0 {
            seq![self.buffer] + escape_bytes(self.inner@.skip(self.pos as int))
        } else {
            escape_bytes(self.inner@.skip(self.pos as int))
        }
    }
}

impl Escape {
    #[verifier::type_invariant]
    spec fn well_formed(self) -> bool {
        self.pos <= self.inner@.len()
    }

    /// The number of bytes given to `new` that were not looked at yet.
    pub closed spec fn unread(&self) -> nat {
        (self.inner@.len() - self.pos) as nat
    }

    /// The number of bytes held back: 1 between the backslash and the marker
    /// of an escape sequence, else 0.
    pub closed spec fn held(&self) -> nat {
        if self.buffer != 0 {
            1
        } else {
            0
        }
    }

    /// An escaper of the bytes `i`.
    pub fn new(i: Vec<u8>) -> (r: Escape)
        ensures
            r@ == escape_bytes(i@),
            r.unread() == i@.len(),
            r.held() == 0,
    {
        proof {
            assert(i@.skip(0) == i@);
        }
        Escape { inner: i, pos: 0, buffer: 0 }
    }

    /// The next byte of the wire form, or `None` when all have come out.
    pub fn next(&mut self) -> (r: Option<u8>)
        ensures
            match r {
                Some(b) => old(self)@.len() > 0 && b == old(self)@[0] && final(self)@ == old(
                    self,
                )@.drop_first(),
                None => old(self)@.len() == 0 && final(self)@.len() == 0,
            },
            final(self).unread() == old(self).unread() - (if old(self).held() == 0 && r is Some {
                1int
            } else {
                0int
            }),
            final(self).held() == (if old(self).held() == 0 && r == Some(92u8) {
                1nat
            } else {
                0nat
            }),
    {
        proof {
            use_type_invariant(&*self);
        }
        let ghost rest = self.inner@.skip(self.pos as int);
        if self.buffer != 0 {
            let ret = self.buffer;
            self.buffer = 0;
            proof {
                assert((seq![ret] + escape_bytes(rest)).drop_first() == escape_bytes(rest));
            }
            Some(ret)
        } else if self.pos < self.inner.len() {
            let ch = self.inner[self.pos];
            self.pos = self.pos + 1;
            proof {
                assert(rest.drop_first() == self.inner@.skip(self.pos as int));
                assert(rest[0] == ch);
            }
            match byte_marker_of(ch) {
                Some(m) => {
                    self.buffer = m;
                    proof {
                        let tail = escape_bytes(rest.drop_first());
                        assert((seq![92, m] + tail).drop_first() == seq![m] + tail);
                    }
                    Some(92)
                },
                None => {
                    proof {
                        let tail = escape_bytes(rest.drop_first());
                        assert((seq![ch] + tail).drop_first() == tail);
                    }
                    Some(ch)
                },
            }
        } else {
            None
        }
    }

    /// Bounds on the number of bytes that are still to come out. The lower
    /// bound is the number of unread bytes. The upper bound is twice that
    /// number and the byte held back, or `None` where that does not fit.
    pub fn size_hint(&self) -> (r: (usize, Option<usize>))
        ensures
            r.0 == self.unread(),
            r.1 == (if 2 * self.unread() + self.held() <= usize::MAX {
                Some((2 * self.unread() + self.held()) as usize)
            } else {
                None
            }),
            self.unread() <= self@.len() <= 2 * self.unread() + self.held(),
    {
        proof {
            use_type_invariant(self);
            lemma_escape_bytes_len(self.inner@.skip(self.pos as int));
        }
        let left = self.inner.len() - self.pos;
        let held: usize = if self.buffer != 0 {
            1
        } else {
            0
        };
        let upper = match left.checked_mul(2) {
            Some(twice) => twice.checked_add(held),
            None => None,
        };
        (left, upper)
    }
}

/// Escapes `input` for use as an argument in a command line. The bytes of
/// `input` go through an `Escape`; what comes out is valid UTF-8 again.
pub fn escape_arg(input: &str) -> (res: String)
    ensures
        res@ == escape_spec(input@),
{
    let mut it = Escape::new(input.as_bytes_vec());
    let ghost all = it@;
    let mut out: Vec<u8> = Vec::new();
    loop
        invariant
            out@ + it@ == all,
        ensures
            out@ == all,
        decreases it@.len(),
    {
        let ghost left = it@;
        match it.next() {
            Some(b) => {
                out.push(b);
                proof {
                    assert(seq![b] + left.drop_first() == left);
                }
            },
            None => {
                proof {
                    assert(left == Seq::<u8>::empty());
                }
                break ;
            },
        }
    }
    proof {
        lemma_escape_utf8(input@);
        encode_utf8_valid_utf8(escape_spec(input@));
        encode_utf8_decode_utf8(escape_spec(input@));
    }
    match string_from_utf8(out) {
        Ok(s) => s,
        // not reached: the escaped bytes are valid UTF-8
        Err(_) => String::new(),
    }
}

/// Unescapes a value received from the server. The bytes of `it` are
/// unescaped; what comes out is valid UTF-8 again.
pub fn unescape_val(it: &str) -> (res: String)
    ensures
        res@ == unescape_spec(it@),
{
    let out = unescape_slice(it.as_bytes());
    proof {
        lemma_unescape_utf8(it@);
        encode_utf8_valid_utf8(unescape_spec(it@));
        encode_utf8_decode_utf8(unescape_spec(it@));
    }
    match string_from_utf8(out) {
        Ok(s) => s,
        // not reached: the unescaped bytes are valid UTF-8
        Err(_) => String::new(),
    }
}

} // verus!
