//! Reading the lines of a response: records, lists of records, and typed
//! fields. The escape codec is at hand here too.

use vstd::prelude::*;
use crate::error::{Ts3Error, Ts3ErrorView};
use crate::escape::unescape_spec;
pub use crate::escape::{escape_arg, unescape_val, Escape};
use crate::number::{parse_as, parse_int, FieldInt};
use crate::record::{value_view, Record};
use crate::text::{chars_of, find_char, index_of, split_chars, split_on, substring};

verus! {

/// ASCII whitespace: space, tab, line feed, form feed, carriage return.
pub open spec fn is_space(c: char) -> bool {
    c == ' ' || c == '\t' || c == '\n' || c == '\u{c}' || c == '\r'
}

/// The number of characters at the start of `s` that are no whitespace.
pub open spec fn token_len(s: Seq<char>) -> nat
    decreases s.len(),
{
    if s.len() == 0 || is_space(s[0]) {
        0
    } else {
        1 + token_len(s.drop_first())
    }
}

/// `token_len` never exceeds the length.
pub proof fn lemma_token_len_bound(s: Seq<char>)
    ensures
        token_len(s) <= s.len(),
    decreases s.len(),
{
    if s.len() > 0 && !is_space(s[0]) {
        lemma_token_len_bound(s.drop_first());
    }
}

/// The tokens of a line: its maximal runs of characters that are no
/// whitespace, in order.
pub open spec fn tokens(s: Seq<char>) -> Seq<Seq<char>>
    decreases s.len(),
{
    if s.len() == 0 {
        Seq::empty()
    } else if is_space(s[0]) {
        tokens(s.drop_first())
    } else {
        proof {
            lemma_token_len_bound(s);
        }
        seq![s.take(token_len(s) as int)] + tokens(s.skip(token_len(s) as int))
    }
}

/// A word: at least one character, and no whitespace.
pub open spec fn is_word(t: Seq<char>) -> bool {
    t.len() > 0 && forall|j: int| 0 <= j < t.len() ==> !is_space(#[trigger] t[j])
}

/// The first `token_len` characters are no whitespace.
proof fn lemma_token_len_chars(s: Seq<char>)
    ensures
        token_len(s) <= s.len(),
        forall|j: int| 0 <= j < token_len(s) ==> !is_space(#[trigger] s[j]),
    decreases s.len(),
{
    if s.len() > 0 && !is_space(s[0]) {
        let rest = s.drop_first();
        lemma_token_len_chars(rest);
        assert forall|j: int| 0 <= j < token_len(s) implies !is_space(#[trigger] s[j]) by {
            if j > 0 {
                assert(s[j] == rest[j - 1]);
            }
        }
    }
}

/// Every token is a word.
pub proof fn lemma_tokens_are_words(s: Seq<char>)
    ensures
        forall|i: int| 0 <= i < tokens(s).len() ==> is_word(#[trigger] tokens(s)[i]),
    decreases s.len(),
{
    if s.len() == 0 {
        assert(tokens(s).len() == 0);
    } else if is_space(s[0]) {
        lemma_tokens_are_words(s.drop_first());
        assert(tokens(s) == tokens(s.drop_first()));
    } else {
        let n = token_len(s) as int;
        lemma_token_len_chars(s);
        lemma_tokens_are_words(s.skip(n));
        let first = s.take(n);
        let others = tokens(s.skip(n));
        assert(tokens(s) == seq![first] + others);
        assert(is_word(first)) by {
            assert forall|j: int| 0 <= j < first.len() implies !is_space(#[trigger] first[j]) by {
                assert(first[j] == s[j]);
            }
        }
        assert forall|i: int| 0 <= i < tokens(s).len() implies is_word(#[trigger] tokens(s)[i]) by {
            if i > 0 {
                assert(tokens(s)[i] == others[i - 1]);
            } else {
                assert(tokens(s)[0] == first);
            }
        }
    }
}

/// The field name of a token: what stands before its first `=`, or the whole
/// token where it has none.
pub open spec fn token_key(t: Seq<char>) -> Seq<char> {
    t.take(index_of(t, '=') as int)
}

/// The value of a token: what stands after its first `=`, unescaped where
/// `unescape` holds, or `None` where the token has no `=`.
pub open spec fn token_value(t: Seq<char>, unescape: bool) -> Option<Seq<char>> {
    let i = index_of(t, '=');
    if i >= t.len() {
        None
    } else if unescape {
        Some(unescape_spec(t.skip(i as int + 1)))
    } else {
        Some(t.skip(i as int + 1))
    }
}

/// The map `m` after the fields of the tokens `ts` were put into it, one
/// after the other. A later token overwrites an earlier one of the same name.
pub open spec fn put_tokens(
    m: Map<Seq<char>, Option<Seq<char>>>,
    ts: Seq<Seq<char>>,
    unescape: bool,
) -> Map<Seq<char>, Option<Seq<char>>>
    decreases ts.len(),
{
    if ts.len() == 0 {
        m
    } else {
        put_tokens(
            m.insert(token_key(ts[0]), token_value(ts[0], unescape)),
            ts.drop_first(),
            unescape,
        )
    }
}

/// The map `m` after the fields of `line` were put into it.
pub open spec fn put_line(m: Map<Seq<char>, Option<Seq<char>>>, line: Seq<char>, unescape: bool) -> Map<
    Seq<char>,
    Option<Seq<char>>,
> {
    put_tokens(m, tokens(line), unescape)
}

/// The map `m` after the fields of each of `lines` were put into it, in
/// order.
pub open spec fn put_lines(
    m: Map<Seq<char>, Option<Seq<char>>>,
    lines: Seq<Seq<char>>,
    unescape: bool,
) -> Map<Seq<char>, Option<Seq<char>>>
    decreases lines.len(),
{
    if lines.len() == 0 {
        m
    } else {
        put_lines(put_line(m, lines[0], unescape), lines.drop_first(), unescape)
    }
}

/// The record that one line without `|` stands for.
pub open spec fn record_of(line: Seq<char>, unescape: bool) -> Map<Seq<char>, Option<Seq<char>>> {
    put_line(Map::empty(), line, unescape)
}

/// The records of one line: one for each of its pieces between `|`, in order.
pub open spec fn records_of_line(line: Seq<char>, unescape: bool) -> Seq<
    Map<Seq<char>, Option<Seq<char>>>,
> {
    split_on(line, '|').map_values(|piece: Seq<char>| record_of(piece, unescape))
}

/// The records of several lines: those of the first line, then those of the
/// second, and so on.
pub open spec fn records_of_lines(lines: Seq<Seq<char>>, unescape: bool) -> Seq<
    Map<Seq<char>, Option<Seq<char>>>,
>
    decreases lines.len(),
{
    if lines.len() == 0 {
        Seq::empty()
    } else {
        records_of_line(lines[0], unescape) + records_of_lines(lines.drop_first(), unescape)
    }
}

/// The maps that a list of records stands for.
pub open spec fn records_view(v: Seq<Record>) -> Seq<Map<Seq<char>, Option<Seq<char>>>> {
    v.map_values(|r: Record| r@)
}

/// Whether `c` is ASCII whitespace.
fn is_space_char(c: char) -> (r: bool)
    ensures
        r == is_space(c),
{
    c == ' ' || c == '\t' || c == '\n' || c == '\u{c}' || c == '\r'
}

/// The end of the token that starts at `from`.
fn token_end(v: &Vec<char>, from: usize) -> (r: usize)
    requires
        from <= v.len(),
    ensures
        from <= r <= v.len(),
        r == from + token_len(v@.skip(from as int)),
{
    let mut i: usize = from;
    while i < v.len() && !is_space_char(v[i])
        invariant
            from <= i <= v.len(),
            token_len(v@.skip(from as int)) == (i - from) + token_len(v@.skip(i as int)),
        decreases v.len() - i,
    {
        proof {
            assert(v@.skip(i as int).drop_first() == v@.skip(i + 1));
        }
        i = i + 1;
    }
    proof {
        let rest = v@.skip(i as int);
        assert(rest.len() == 0 || is_space(rest[0]));
    }
    i
}

/// Puts the fields of one line into `map`. The line is split into tokens at
/// whitespace; a token `name=value` sets the field `name` to the value,
/// unescaped where `unescape` holds, and a token without `=` sets the field of
/// that name to `None`. Does not split at `|`: see `parse_multi_hashmap`.
pub fn parse_single_line_hashmap(line: &str, map: &mut Record, unescape: bool)
    ensures
        final(map)@ == put_line(old(map)@, line@, unescape),
{
    let v = chars_of(line);
    let n = v.len();
    let mut i: usize = 0;
    proof {
        assert(v@.skip(0) == v@);
    }
    while i < n
        invariant
            0 <= i <= n == v@.len(),
            v@ == line@,
            put_tokens(map@, tokens(v@.skip(i as int)), unescape) == put_line(
                old(map)@,
                line@,
                unescape,
            ),
        decreases n - i,
    {
        let ghost rest = v@.skip(i as int);
        if is_space_char(v[i]) {
            proof {
                assert(rest.drop_first() == v@.skip(i + 1));
            }
            i = i + 1;
        } else {
            let end = token_end(&v, i);
            let ghost t = v@.subrange(i as int, end as int);
            proof {
                assert(t == rest.take(token_len(rest) as int));
                assert(rest.skip(token_len(rest) as int) == v@.skip(end as int));
                assert((seq![t] + tokens(v@.skip(end as int))).drop_first() == tokens(
                    v@.skip(end as int),
                ));
            }
            let eq = find_char(&v, i, end, '=');
            if eq < end {
                let key = substring(&v, i, eq);
                let raw = substring(&v, eq + 1, end);
                proof {
                    assert(key@ == token_key(t));
                    assert(raw@ == t.skip(eq - i + 1));
                }
                let value = if unescape {
                    unescape_val(raw.as_str())
                } else {
                    raw
                };
                map.insert(key, Some(value));
            } else {
                let key = substring(&v, i, end);
                proof {
                    assert(t.take(t.len() as int) == t);
                }
                map.insert(key, None);
            }
            i = end;
        }
    }
}

/// The record that the lines of a response stand for: the fields of every
/// line, a later field overwriting an earlier one of the same name.
pub fn parse_hashmap(input: Vec<String>, unescape: bool) -> (r: Record)
    ensures
        r@ == put_lines(Map::empty(), input.deep_view(), unescape),
{
    let mut map = Record::new();
    let mut i: usize = 0;
    let ghost lines = input.deep_view();
    proof {
        assert(lines.skip(0) == lines);
    }
    while i < input.len()
        invariant
            0 <= i <= input.len(),
            lines == input.deep_view(),
            put_lines(map@, lines.skip(i as int), unescape) == put_lines(
                Map::empty(),
                lines,
                unescape,
            ),
        decreases input.len() - i,
    {
        proof {
            assert(lines.skip(i as int).drop_first() == lines.skip(i + 1));
            assert(lines.skip(i as int)[0] == input@[i as int]@);
        }
        parse_single_line_hashmap(input[i].as_str(), &mut map, unescape);
        i = i + 1;
    }
    map
}

/// The records of a response whose lines hold lists: each line is split at
/// `|`, and each piece gives one record.
pub fn parse_multi_hashmap(input: Vec<String>, unescape: bool) -> (r: Vec<Record>)
    ensures
        records_view(r@) == records_of_lines(input.deep_view(), unescape),
{
    let mut out: Vec<Record> = Vec::new();
    let ghost lines = input.deep_view();
    let mut i: usize = 0;
    proof {
        assert(lines.skip(0) == lines);
        assert(records_view(out@) == Seq::<Map<Seq<char>, Option<Seq<char>>>>::empty());
    }
    while i < input.len()
        invariant
            0 <= i <= input.len(),
            lines == input.deep_view(),
            records_view(out@) + records_of_lines(lines.skip(i as int), unescape)
                == records_of_lines(lines, unescape),
        decreases input.len() - i,
    {
        let ghost line = input@[i as int]@;
        let ghost before = records_view(out@);
        proof {
            assert(lines.skip(i as int).drop_first() == lines.skip(i + 1));
            assert(lines.skip(i as int)[0] == line);
        }
        let chars = chars_of(input[i].as_str());
        let pieces = split_chars(&chars, '|');
        let ghost parts = split_on(line, '|');
        let mut j: usize = 0;
        while j < pieces.len()
            invariant
                0 <= j <= pieces.len(),
                pieces.deep_view() == parts,
                records_view(out@) == before + records_of_line(line, unescape).take(j as int),
                parts == split_on(line, '|'),
            decreases pieces.len() - j,
        {
            let ghost done = records_view(out@);
            let mut map = Record::new();
            parse_single_line_hashmap(pieces[j].as_str(), &mut map, unescape);
            proof {
                assert(pieces@[j as int]@ == parts[j as int]);
                let all = records_of_line(line, unescape);
                assert(all.take(j + 1) == all.take(j as int).push(all[j as int]));
                assert(map@ == all[j as int]);
            }
            out.push(map);
            proof {
                assert(records_view(out@) == done.push(map@));
            }
            j = j + 1;
        }
        proof {
            let all = records_of_line(line, unescape);
            assert(all.take(pieces.len() as int) == all);
        }
        i = i + 1;
    }
    out
}

/// What `string_val_parser_opt` returns for the field `key` of `m`.
pub open spec fn string_field_opt(m: Map<Seq<char>, Option<Seq<char>>>, key: Seq<char>) -> Result<
    Option<Seq<char>>,
    Ts3ErrorView,
> {
    if !m.contains_key(key) {
        Err(Ts3ErrorView::NoEntryResponse { key })
    } else {
        match m[key] {
            Some(s) => Ok(Some(unescape_spec(s))),
            None => Ok(None),
        }
    }
}

/// What `string_val_parser` returns for the field `key` of `m`.
pub open spec fn string_field(m: Map<Seq<char>, Option<Seq<char>>>, key: Seq<char>) -> Result<
    Seq<char>,
    Ts3ErrorView,
> {
    match string_field_opt(m, key) {
        Ok(Some(s)) => Ok(s),
        Ok(None) => Err(Ts3ErrorView::NoValueResponse { key }),
        Err(e) => Err(e),
    }
}

/// What `int_val_parser_opt` returns, as a mathematical integer, for the
/// field `key` of `m` and the integer type `T`.
pub open spec fn int_field_opt<T: FieldInt>(
    m: Map<Seq<char>, Option<Seq<char>>>,
    key: Seq<char>,
) -> Result<Option<int>, Ts3ErrorView> {
    if !m.contains_key(key) {
        Err(Ts3ErrorView::NoEntryResponse { key })
    } else {
        match m[key] {
            Some(s) => match parse_as::<T>(s) {
                Some(x) => Ok(Some(x)),
                None => Err(Ts3ErrorView::InvalidIntResponse { data: s }),
            },
            None => Ok(None),
        }
    }
}

/// What `int_val_parser` returns, as a mathematical integer, for the field
/// `key` of `m` and the integer type `T`.
pub open spec fn int_field<T: FieldInt>(
    m: Map<Seq<char>, Option<Seq<char>>>,
    key: Seq<char>,
) -> Result<int, Ts3ErrorView> {
    if !m.contains_key(key) {
        Err(Ts3ErrorView::NoEntryResponse { key })
    } else {
        match m[key] {
            Some(s) => match parse_as::<T>(s) {
                Some(x) => Ok(x),
                None => Err(Ts3ErrorView::InvalidIntResponse { data: s }),
            },
            None => Err(Ts3ErrorView::NoValueResponse { key }),
        }
    }
}

/// What `bool_val_parser` returns for the field `key` of `m`: whether the
/// field, read as an `i32`, is above zero.
pub open spec fn bool_field(m: Map<Seq<char>, Option<Seq<char>>>, key: Seq<char>) -> Result<
    bool,
    Ts3ErrorView,
> {
    match int_field::<i32>(m, key) {
        Ok(x) => Ok(x > 0),
        Err(e) => Err(e),
    }
}

/// The integers that the pieces `ps` denote in the type `T`, or the error for
/// the first piece that denotes none.
pub open spec fn int_pieces<T: FieldInt>(ps: Seq<Seq<char>>) -> Result<Seq<int>, Ts3ErrorView>
    decreases ps.len(),
{
    if ps.len() == 0 {
        Ok(Seq::empty())
    } else {
        match parse_as::<T>(ps[0]) {
            None => Err(Ts3ErrorView::InvalidIntResponse { data: ps[0] }),
            Some(x) => match int_pieces::<T>(ps.drop_first()) {
                Ok(rest) => Ok(seq![x] + rest),
                Err(e) => Err(e),
            },
        }
    }
}

/// What `int_list_val_parser` returns, as mathematical integers, for the
/// field `key` of `m` and the integer type `T`: the field's unescaped value is
/// split at commas, and every piece has to denote an integer.
pub open spec fn int_list_field<T: FieldInt>(
    m: Map<Seq<char>, Option<Seq<char>>>,
    key: Seq<char>,
) -> Result<Seq<int>, Ts3ErrorView> {
    match string_field(m, key) {
        Ok(s) => int_pieces::<T>(split_on(s, ',')),
        Err(e) => Err(e),
    }
}

/// The mathematical integers that a list of `T` holds.
pub open spec fn ints_view<T: FieldInt>(v: Seq<T>) -> Seq<int> {
    v.map_values(|x: T| x.as_int())
}

/// Takes the field `key` out of `data` and returns its value, unescaped; a
/// field without value gives `None`. Fails where `data` has no such field.
pub fn string_val_parser_opt(data: &mut Record, key: &'static str) -> (r: Result<
    Option<String>,
    Ts3Error,
>)
    ensures
        final(data)@ == old(data)@.remove(key@),
        match r {
            Ok(v) => string_field_opt(old(data)@, key@) == Ok::<_, Ts3ErrorView>(value_view(v)),
            Err(e) => string_field_opt(old(data)@, key@) == Err::<Option<Seq<char>>, _>(e@),
        },
{
    match data.remove(key) {
        None => Err(Ts3Error::NoEntryResponse { key }),
        Some(None) => Ok(None),
        Some(Some(s)) => Ok(Some(unescape_val(s.as_str()))),
    }
}

/// Takes the field `key` out of `data` and returns its value, unescaped.
/// Fails where `data` has no such field, or has it without a value.
pub fn string_val_parser(data: &mut Record, key: &'static str) -> (r: Result<String, Ts3Error>)
    ensures
        final(data)@ == old(data)@.remove(key@),
        match r {
            Ok(v) => string_field(old(data)@, key@) == Ok::<_, Ts3ErrorView>(v@),
            Err(e) => string_field(old(data)@, key@) == Err::<Seq<char>, _>(e@),
        },
{
    match string_val_parser_opt(data, key) {
        Err(e) => Err(e),
        Ok(None) => Err(Ts3Error::NoValueResponse { key }),
        Ok(Some(s)) => Ok(s),
    }
}

/// Takes the field `key` out of `data` and reads its value as an integer of
/// type `T`; a field without value gives `None`. Fails where `data` has no
/// such field, or where the value is no integer of that type.
pub fn int_val_parser_opt<T: FieldInt>(data: &mut Record, key: &'static str) -> (r: Result<
    Option<T>,
    Ts3Error,
>)
    ensures
        final(data)@ == old(data)@.remove(key@),
        match r {
            Ok(Some(x)) => int_field_opt::<T>(old(data)@, key@) == Ok::<_, Ts3ErrorView>(
                Some(x.as_int()),
            ),
            Ok(None) => int_field_opt::<T>(old(data)@, key@) == Ok::<Option<int>, Ts3ErrorView>(
                None,
            ),
            Err(e) => int_field_opt::<T>(old(data)@, key@) == Err::<Option<int>, _>(e@),
        },
{
    match data.remove(key) {
        None => Err(Ts3Error::NoEntryResponse { key }),
        Some(None) => Ok(None),
        Some(Some(s)) => match parse_int::<T>(s.as_str()) {
            Some(x) => Ok(Some(x)),
            None => Err(Ts3Error::InvalidIntResponse { data: s }),
        },
    }
}

/// Takes the field `key` out of `data` and reads its value as an integer of
/// type `T`. Fails where `data` has no such field, has it without a value, or
/// where the value is no integer of that type.
pub fn int_val_parser<T: FieldInt>(data: &mut Record, key: &'static str) -> (r: Result<T, Ts3Error>)
    ensures
        final(data)@ == old(data)@.remove(key@),
        match r {
            Ok(x) => int_field::<T>(old(data)@, key@) == Ok::<_, Ts3ErrorView>(x.as_int()),
            Err(e) => int_field::<T>(old(data)@, key@) == Err::<int, _>(e@),
        },
{
    match data.remove(key) {
        None => Err(Ts3Error::NoEntryResponse { key }),
        Some(None) => Err(Ts3Error::NoValueResponse { key }),
        Some(Some(s)) => match parse_int::<T>(s.as_str()) {
            Some(x) => Ok(x),
            None => Err(Ts3Error::InvalidIntResponse { data: s }),
        },
    }
}

/// Takes the field `key` out of `data` and reads it as a truth value: the
/// value is read as an `i32`, and is true where it is above zero.
pub fn bool_val_parser(data: &mut Record, key: &'static str) -> (r: Result<bool, Ts3Error>)
    ensures
        final(data)@ == old(data)@.remove(key@),
        match r {
            Ok(b) => bool_field(old(data)@, key@) == Ok::<_, Ts3ErrorView>(b),
            Err(e) => bool_field(old(data)@, key@) == Err::<bool, _>(e@),
        },
{
    match int_val_parser::<i32>(data, key) {
        Ok(x) => Ok(x > 0),
        Err(e) => Err(e),
    }
}

/// Takes the field `key` out of `data` and reads its value as a list of
/// integers of type `T`, separated by commas.
pub fn int_list_val_parser<T: FieldInt>(data: &mut Record, key: &'static str) -> (r: Result<
    Vec<T>,
    Ts3Error,
>)
    ensures
        final(data)@ == old(data)@.remove(key@),
        match r {
            Ok(v) => int_list_field::<T>(old(data)@, key@) == Ok::<_, Ts3ErrorView>(
                ints_view(v@),
            ),
            Err(e) => int_list_field::<T>(old(data)@, key@) == Err::<Seq<int>, _>(e@),
        },
{
    let text = match string_val_parser(data, key) {
        Ok(s) => s,
        Err(e) => {
            return Err(e);
        },
    };
    let chars = chars_of(text.as_str());
    let pieces = split_chars(&chars, ',');
    let ghost parts = split_on(text@, ',');
    let mut out: Vec<T> = Vec::new();
    let n = pieces.len();
    let mut i: usize = 0;
    proof {
        assert(parts.skip(0) == parts);
        assert(ints_view::<T>(out@) == Seq::<int>::empty());
        match int_pieces::<T>(parts) {
            Ok(rest) => {
                assert(Seq::<int>::empty() + rest == rest);
            },
            Err(_) => {},
        }
    }
    while i < n
        invariant
            0 <= i <= n == parts.len(),
            pieces.deep_view() == parts,
            parts == split_on(text@, ','),
            data@ == old(data)@.remove(key@),
            string_field(old(data)@, key@) == Ok::<_, Ts3ErrorView>(text@),
            match int_pieces::<T>(parts.skip(i as int)) {
                Ok(rest) => int_pieces::<T>(parts) == Ok::<_, Ts3ErrorView>(ints_view(out@) + rest),
                Err(e) => int_pieces::<T>(parts) == Err::<Seq<int>, _>(e),
            },
        decreases n - i,
    {
        let ghost before = ints_view(out@);
        proof {
            assert(parts.skip(i as int).drop_first() == parts.skip(i + 1));
            assert(parts.skip(i as int)[0] == pieces@[i as int]@);
        }
        match parse_int::<T>(pieces[i].as_str()) {
            Some(x) => {
                out.push(x);
                proof {
                    assert(ints_view(out@) == before.push(x.as_int()));
                    match int_pieces::<T>(parts.skip(i + 1)) {
                        Ok(rest) => {
                            assert(before + (seq![x.as_int()] + rest) == before.push(x.as_int())
                                + rest);
                        },
                        Err(_) => {},
                    }
                }
            },
            None => {
                return Err(Ts3Error::InvalidIntResponse { data: pieces[i].clone() });
            },
        }
        i = i + 1;
    }
    proof {
        assert(parts.skip(n as int) == Seq::<Seq<char>>::empty());
        assert(ints_view(out@) + Seq::<int>::empty() == ints_view(out@));
    }
    Ok(out)
}

} // verus!
