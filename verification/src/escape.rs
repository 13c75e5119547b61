//! Quoting of configuration values, in the form that Godot's `ConfigFile` reads and writes.

use crate::text::{chars_of, cut};
use vstd::prelude::*;
use vstd::string::*;

verus! {

/// `char::from_u32`: the character with the given code point, for every number up to `0x10ffff`
/// outside the surrogate range, and nothing for any other number.
pub assume_specification[ char::from_u32 ](i: u32) -> (r: Option<char>)
    ensures
        r == if is_scalar(i as int) {
            Some(i as char)
        } else {
            None
        },
;

/// The numbers that are code points of characters.
pub open spec fn is_scalar(n: int) -> bool {
    0 <= n < 0xd800 || 0xe000 <= n <= 0x10ffff
}

/// How a character of a value is written between the quotes.
pub open spec fn escaped_char(c: char) -> Seq<char> {
    if c == '\\' {
        seq!['\\', '\\']
    } else if c == '\u{07}' {
        seq!['\\', 'a']
    } else if c == '\u{08}' {
        seq!['\\', 'b']
    } else if c == '\u{0c}' {
        seq!['\\', 'f']
    } else if c == '\n' {
        seq!['\\', 'n']
    } else if c == '\r' {
        seq!['\\', 'r']
    } else if c == '\t' {
        seq!['\\', 't']
    } else if c == '\u{0b}' {
        seq!['\\', 'v']
    } else if c == '\'' {
        seq!['\\', '\'']
    } else if c == '"' {
        seq!['\\', '"']
    } else {
        seq![c]
    }
}

/// How a value is written between the quotes.
pub open spec fn escaped(value: Seq<char>) -> Seq<char>
    decreases value.len(),
{
    if value.len() == 0 {
        Seq::empty()
    } else {
        escaped(value.drop_last()) + escaped_char(value.last())
    }
}

/// How a value is written, quotes and all.
pub open spec fn encoded(value: Seq<char>) -> Seq<char> {
    seq!['"'] + escaped(value) + seq!['"']
}

/// The character that a backslash and `marker` stand for, unless `marker` starts a hex escape.
pub open spec fn unescaped_char(marker: char) -> char {
    if marker == 'a' {
        '\u{07}'
    } else if marker == 'b' {
        '\u{08}'
    } else if marker == 'f' {
        '\u{0c}'
    } else if marker == 'n' {
        '\n'
    } else if marker == 'r' {
        '\r'
    } else if marker == 't' {
        '\t'
    } else if marker == 'v' {
        '\u{0b}'
    } else {
        marker
    }
}

pub open spec fn is_hex(c: char) -> bool {
    '0' <= c <= '9' || 'a' <= c <= 'f' || 'A' <= c <= 'F'
}

pub open spec fn hex_digit(c: char) -> int {
    if '0' <= c <= '9' {
        c as int - '0' as int
    } else if 'a' <= c <= 'f' {
        c as int - 'a' as int + 10
    } else {
        c as int - 'A' as int + 10
    }
}

/// The number that hex digits write.
pub open spec fn hex_value(digits: Seq<char>) -> int
    decreases digits.len(),
{
    if digits.len() == 0 {
        0
    } else {
        16 * hex_value(digits.drop_last()) + hex_digit(digits.last())
    }
}

/// How many hex digits `s` starts with, counting no further than `limit`.
pub open spec fn hex_run(s: Seq<char>, limit: int) -> int
    decreases limit,
{
    if limit <= 0 || s.len() == 0 || !is_hex(s[0]) {
        0
    } else {
        1 + hex_run(s.skip(1), limit - 1)
    }
}

/// The character that a hex escape of `len` digits at the start of `s` stands for.
pub open spec fn hex_escape(s: Seq<char>, len: int) -> Option<char> {
    if hex_run(s, len) == len && is_scalar(hex_value(s.take(len))) {
        Some(hex_value(s.take(len)) as char)
    } else {
        None
    }
}

/// The number of digits of a hex escape.
pub open spec fn hex_len(marker: char) -> int {
    if marker == 'u' {
        4
    } else {
        6
    }
}

/// What the text between the quotes stands for. A hex escape that names no character stands for
/// its marker, and a backslash at the very end for nothing.
pub open spec fn unescaped(s: Seq<char>) -> Seq<char>
    decreases s.len(),
{
    if s.len() == 0 {
        Seq::empty()
    } else if s[0] != '\\' {
        seq![s[0]] + unescaped(s.skip(1))
    } else if s.len() == 1 {
        Seq::empty()
    } else if s[1] == 'u' || s[1] == 'U' {
        let n = hex_run(s.skip(2), hex_len(s[1]));
        let c = match hex_escape(s.skip(2), hex_len(s[1])) {
            Some(c) => c,
            None => s[1],
        };
        if 0 <= n <= s.len() - 2 {
            seq![c] + unescaped(s.skip(2 + n))
        } else {
            seq![c]
        }
    } else {
        seq![unescaped_char(s[1])] + unescaped(s.skip(2))
    }
}

/// The text is written in double quotes.
pub open spec fn is_quoted(raw: Seq<char>) -> bool {
    raw.len() >= 2 && raw[0] == '"' && raw.last() == '"'
}

/// What a written value stands for: itself where it is not in quotes.
pub open spec fn decoded(raw: Seq<char>) -> Seq<char> {
    if is_quoted(raw) {
        unescaped(raw.subrange(1, raw.len() - 1))
    } else {
        raw
    }
}

pub proof fn lemma_hex_run(s: Seq<char>, limit: int)
    ensures
        0 <= hex_run(s, limit) <= s.len(),
        limit >= 0 ==> hex_run(s, limit) <= limit,
    decreases limit,
{
    if limit > 0 && s.len() > 0 && is_hex(s[0]) {
        lemma_hex_run(s.skip(1), limit - 1);
    }
}

proof fn lemma_hex_run_is(s: Seq<char>, limit: int, n: int)
    requires
        0 <= n <= s.len(),
        n <= limit,
        forall|j: int| 0 <= j < n ==> is_hex(#[trigger] s[j]),
        n == limit || n == s.len() || !is_hex(s[n]),
    ensures
        hex_run(s, limit) == n,
    decreases n,
{
    if n > 0 {
        assert(is_hex(s[0]));
        let t = s.skip(1);
        assert forall|j: int| 0 <= j < n - 1 implies is_hex(#[trigger] t[j]) by {
            assert(t[j] == s[j + 1]);
        }
        lemma_hex_run_is(t, limit - 1, n - 1);
    }
}

proof fn lemma_escaped_concat(a: Seq<char>, b: Seq<char>)
    ensures
        escaped(a + b) == escaped(a) + escaped(b),
    decreases b.len(),
{
    if b.len() == 0 {
        assert(a + b == a);
    } else {
        assert((a + b).drop_last() == a + b.drop_last());
        lemma_escaped_concat(a, b.drop_last());
    }
}

proof fn lemma_unescaped_step(c: char, rest: Seq<char>)
    ensures
        unescaped(escaped_char(c) + rest) == seq![c] + unescaped(rest),
{
    let s = escaped_char(c) + rest;
    if escaped_char(c).len() == 2 {
        assert(s[0] == '\\' && s[1] == escaped_char(c)[1]);
        assert(s.skip(2) == rest);
        assert(unescaped_char(s[1]) == c);
    } else {
        assert(s[0] == c);
        assert(s.skip(1) == rest);
    }
}

proof fn lemma_unescaped_escaped(value: Seq<char>)
    ensures
        unescaped(escaped(value)) == value,
    decreases value.len(),
{
    if value.len() > 0 {
        let head = seq![value[0]];
        let rest = value.skip(1);
        assert(value == head + rest);
        lemma_escaped_concat(head, rest);
        assert(head.drop_last() == Seq::<char>::empty());
        assert(escaped(head) == escaped_char(value[0])) by {
            assert(escaped(head.drop_last()) == Seq::<char>::empty());
            assert(escaped(head) == Seq::<char>::empty() + escaped_char(value[0]));
        }
        lemma_unescaped_step(value[0], escaped(rest));
        lemma_unescaped_escaped(rest);
    }
}

/// A written value reads back as the value, whatever characters it holds.
pub proof fn decoding_undoes_encoding(value: Seq<char>)
    ensures
        decoded(encoded(value)) == value,
{
    let raw = encoded(value);
    assert(raw.subrange(1, raw.len() - 1) == escaped(value));
    lemma_unescaped_escaped(value);
}

/// A written value stands on one line, in quotes.
pub proof fn lemma_encoded_shape(value: Seq<char>)
    ensures
        is_quoted(encoded(value)),
        !encoded(value).contains('\n'),
        !escaped(value).contains('\n'),
    decreases value.len(),
{
    if value.len() > 0 {
        lemma_encoded_shape(value.drop_last());
        let e = escaped(value);
        let n = escaped(value.drop_last()).len();
        assert forall|i: int| 0 <= i < e.len() implies e[i] != '\n' by {
            if i < n {
                assert(e[i] == escaped(value.drop_last())[i]);
            } else {
                assert(e[i] == escaped_char(value.last())[i - n]);
            }
        }
    }
    let raw = encoded(value);
    assert forall|i: int| 0 <= i < raw.len() implies raw[i] != '\n' by {
        if 0 < i < raw.len() - 1 {
            assert(raw[i] == escaped(value)[i - 1]);
        }
    }
}

/// Writes a value as Godot's `VariantWriter` writes a string: in double quotes, with the escapes
/// of `String::c_escape()`.
pub fn encode_value(value: &str) -> (r: String)
    ensures
        r@ == encoded(value@),
{
    let v = chars_of(value);
    let mut out = String::new();
    out.push('"');
    let mut i: usize = 0;
    assert(v@.take(0) == Seq::<char>::empty());
    assert(out@ == seq!['"'] + escaped(v@.take(0)));
    while i < v.len()
        invariant
            v@ == value@,
            i <= v.len(),
            out@ == seq!['"'] + escaped(v@.take(i as int)),
        decreases v.len() - i,
    {
        let c = v[i];
        let ghost before = out@;
        if c == '\\' {
            out.push('\\');
            out.push('\\');
        } else if c == '\u{07}' {
            out.push('\\');
            out.push('a');
        } else if c == '\u{08}' {
            out.push('\\');
            out.push('b');
        } else if c == '\u{0c}' {
            out.push('\\');
            out.push('f');
        } else if c == '\n' {
            out.push('\\');
            out.push('n');
        } else if c == '\r' {
            out.push('\\');
            out.push('r');
        } else if c == '\t' {
            out.push('\\');
            out.push('t');
        } else if c == '\u{0b}' {
            out.push('\\');
            out.push('v');
        } else if c == '\'' {
            out.push('\\');
            out.push('\'');
        } else if c == '"' {
            out.push('\\');
            out.push('"');
        } else {
            out.push(c);
        }
        assert(out@ == before + escaped_char(c));
        assert(v@.take(i + 1).drop_last() == v@.take(i as int));
        assert(out@ == seq!['"'] + escaped(v@.take(i + 1)));
        i = i + 1;
    }
    assert(v@.take(v@.len() as int) == value@);
    out.push('"');
    assert(out@ == encoded(value@));
    out
}

spec fn hex_limit(n: int) -> int
    decreases n,
{
    if n <= 0 {
        1
    } else {
        16 * hex_limit(n - 1)
    }
}

fn hex_digit_value(c: char) -> (r: Option<u32>)
    ensures
        r == if is_hex(c) {
            Some(hex_digit(c) as u32)
        } else {
            None
        },
        r is Some ==> hex_digit(c) == r->0 && r->0 < 16,
{
    if '0' <= c && c <= '9' {
        Some(c as u32 - '0' as u32)
    } else if 'a' <= c && c <= 'f' {
        Some(c as u32 - 'a' as u32 + 10)
    } else if 'A' <= c && c <= 'F' {
        Some(c as u32 - 'A' as u32 + 10)
    } else {
        None
    }
}

/// Reads the digits of a hex escape from place `*at` on and moves past the digits that it read.
/// Gives the character, or nothing where fewer than `len` digits stand there or the number names
/// no character.
pub fn decode_hex_escape(chars: &Vec<char>, at: &mut usize, len: usize) -> (r: Option<char>)
    requires
        *old(at) <= chars.len(),
        len <= 6,
    ensures
        r == hex_escape(chars@.skip(*old(at) as int), len as int),
        *final(at) == *old(at) + hex_run(chars@.skip(*old(at) as int), len as int),
        *final(at) <= chars.len(),
{
    let ghost s = chars@.skip(*at as int);
    let start = *at;
    let mut value: u32 = 0;
    let mut n: usize = 0;
    let mut more = true;
    assert(s.take(0) == Seq::<char>::empty());
    while more && n < len && *at < chars.len()
        invariant
            len <= 6,
            start <= chars.len(),
            s == chars@.skip(start as int),
            n <= len,
            *at == start + n,
            *at <= chars.len(),
            value == hex_value(s.take(n as int)),
            value < hex_limit(n as int),
            forall|j: int| 0 <= j < n ==> is_hex(#[trigger] s[j]),
            !more ==> n < s.len() && !is_hex(s[n as int]),
        decreases len - n, (if more { 1int } else { 0 }),
    {
        assert(s[n as int] == chars@[*at as int]);
        match hex_digit_value(chars[*at]) {
            Some(d) => {
                proof {
                    reveal_with_fuel(hex_limit, 7);
                    assert(s.take(n + 1).drop_last() == s.take(n as int));
                }
                value = 16 * value + d;
                n = n + 1;
                *at = *at + 1;
            },
            None => {
                more = false;
            },
        }
    }
    proof {
        lemma_hex_run_is(s, len as int, n as int);
    }
    if n != len {
        return None;
    }
    char::from_u32(value)
}

/// Reads a written value: a text in double quotes with its escapes resolved, any other text as it
/// stands.
pub fn decode_value(raw: &str) -> (r: String)
    ensures
        r@ == decoded(raw@),
{
    let v = chars_of(raw);
    if v.len() < 2 || v[0] != '"' || v[v.len() - 1] != '"' {
        return raw.to_owned();
    }
    let inner = cut(&v, 1, v.len() - 1);
    let mut out = String::new();
    let mut i: usize = 0;
    assert(inner@.skip(0) == inner@);
    assert(out@ + unescaped(inner@) == unescaped(inner@));
    while i < inner.len()
        invariant
            i <= inner.len(),
            out@ + unescaped(inner@.skip(i as int)) == unescaped(inner@),
        decreases inner.len() - i,
    {
        let ghost rest = inner@.skip(i as int);
        let ghost before = out@;
        let c = inner[i];
        assert(rest[0] == c);
        if c != '\\' {
            out.push(c);
            i = i + 1;
            assert(rest.skip(1) == inner@.skip(i as int));
            assert(out@ + unescaped(inner@.skip(i as int)) == before + (seq![c] + unescaped(
                rest.skip(1),
            )));
        } else if i + 1 == inner.len() {
            i = i + 1;
            assert(inner@.skip(i as int) == Seq::<char>::empty());
        } else {
            let marker = inner[i + 1];
            assert(rest[1] == marker);
            let mut next: usize = i + 2;
            let meant = if marker == 'u' || marker == 'U' {
                let len: usize = if marker == 'u' {
                    4
                } else {
                    6
                };
                assert(rest.skip(2) == inner@.skip(next as int));
                proof {
                    lemma_hex_run(rest.skip(2), len as int);
                }
                match decode_hex_escape(&inner, &mut next, len) {
                    Some(c) => c,
                    None => marker,
                }
            } else if marker == 'a' {
                '\u{07}'
            } else if marker == 'b' {
                '\u{08}'
            } else if marker == 'f' {
                '\u{0c}'
            } else if marker == 'n' {
                '\n'
            } else if marker == 'r' {
                '\r'
            } else if marker == 't' {
                '\t'
            } else if marker == 'v' {
                '\u{0b}'
            } else {
                marker
            };
            out.push(meant);
            assert(rest.skip(next - i) == inner@.skip(next as int));
            assert(unescaped(rest) == seq![meant] + unescaped(rest.skip(next - i)));
            assert(out@ + unescaped(inner@.skip(next as int)) == before + (seq![meant] + unescaped(
                inner@.skip(next as int),
            )));
            i = next;
        }
    }
    assert(inner@.skip(i as int) == Seq::<char>::empty());
    assert(out@ == unescaped(inner@));
    out
}

/// How each character of a value is written: those that have no form of their own in a quoted value
/// after a backslash, and all others as they are.
pub proof fn characters_are_escaped(c: char)
    ensures
        escaped_char('\\') == seq!['\\', '\\'],
        escaped_char('\u{07}') == seq!['\\', 'a'],
        escaped_char('\u{08}') == seq!['\\', 'b'],
        escaped_char('\u{0c}') == seq!['\\', 'f'],
        escaped_char('\n') == seq!['\\', 'n'],
        escaped_char('\r') == seq!['\\', 'r'],
        escaped_char('\t') == seq!['\\', 't'],
        escaped_char('\u{0b}') == seq!['\\', 'v'],
        escaped_char('\'') == seq!['\\', '\''],
        escaped_char('"') == seq!['\\', '"'],
        c != '\\' && c != '\u{07}' && c != '\u{08}' && c != '\u{0c}' && c != '\n' && c != '\r' && c
            != '\t' && c != '\u{0b}' && c != '\'' && c != '"' ==> escaped_char(c) == seq![c],
{
}

/// A value is written character by character, between two quotes.
pub proof fn values_are_written_character_by_character(a: Seq<char>, b: Seq<char>, c: char)
    ensures
        escaped(Seq::empty()) == Seq::<char>::empty(),
        escaped(seq![c]) == escaped_char(c),
        escaped(a + b) == escaped(a) + escaped(b),
        encoded(a)[0] == '"',
        encoded(a).last() == '"',
        encoded(a).len() == escaped(a).len() + 2,
        encoded(a).subrange(1, encoded(a).len() - 1) == escaped(a),
    decreases b.len(),
{
    reveal_with_fuel(escaped, 2);
    assert(seq![c].drop_last() == Seq::<char>::empty());
    assert(Seq::<char>::empty() + escaped_char(c) == escaped_char(c));
    assert(encoded(a).subrange(1, encoded(a).len() - 1) =~= escaped(a));
    if b.len() > 0 {
        values_are_written_character_by_character(a, b.drop_last(), c);
        assert((a + b).drop_last() == a + b.drop_last());
        assert((a + b).last() == b.last());
        assert(escaped(a) + (escaped(b.drop_last()) + escaped_char(b.last())) == (escaped(a)
            + escaped(b.drop_last())) + escaped_char(b.last()));
    } else {
        assert(a + b == a);
        assert(escaped(a) + Seq::<char>::empty() == escaped(a));
    }
}

/// How a quoted value is read: a backslash and a letter stand for one character, a backslash before
/// any other character for that character, and what stands after no backslash for itself.
pub proof fn escapes_are_read(rest: Seq<char>, c: char)
    ensures
        unescaped(seq!['\\', 'a'] + rest) == seq!['\u{07}'] + unescaped(rest),
        unescaped(seq!['\\', 'b'] + rest) == seq!['\u{08}'] + unescaped(rest),
        unescaped(seq!['\\', 'f'] + rest) == seq!['\u{0c}'] + unescaped(rest),
        unescaped(seq!['\\', 'n'] + rest) == seq!['\n'] + unescaped(rest),
        unescaped(seq!['\\', 'r'] + rest) == seq!['\r'] + unescaped(rest),
        unescaped(seq!['\\', 't'] + rest) == seq!['\t'] + unescaped(rest),
        unescaped(seq!['\\', 'v'] + rest) == seq!['\u{0b}'] + unescaped(rest),
        c != 'a' && c != 'b' && c != 'f' && c != 'n' && c != 'r' && c != 't' && c != 'v' && c != 'u'
            && c != 'U' ==> unescaped(seq!['\\', c] + rest) == seq![c] + unescaped(rest),
        c != '\\' ==> unescaped(seq![c] + rest) == seq![c] + unescaped(rest),
        unescaped(seq!['\\']) == Seq::<char>::empty(),
        unescaped(Seq::empty()) == Seq::<char>::empty(),
{
    lemma_two(rest, 'a');
    lemma_two(rest, 'b');
    lemma_two(rest, 'f');
    lemma_two(rest, 'n');
    lemma_two(rest, 'r');
    lemma_two(rest, 't');
    lemma_two(rest, 'v');
    lemma_two(rest, c);
    assert((seq![c] + rest).skip(1) == rest);
}

proof fn lemma_two(rest: Seq<char>, c: char)
    ensures
        c != 'u' && c != 'U' ==> unescaped(seq!['\\', c] + rest) == seq![unescaped_char(c)]
            + unescaped(rest),
{
    let s = seq!['\\', c] + rest;
    assert(s[0] == '\\' && s[1] == c);
    assert(s.skip(2) == rest);
}

/// A backslash, the letter of a hex escape, and as many hex digits as the letter asks for, four or
/// six, stand for the character of that number. Where there are fewer digits, or no character has the
/// number, they stand for the letter.
pub proof fn hex_escapes_are_read(digits: Seq<char>, rest: Seq<char>, marker: char)
    requires
        marker == 'u' || marker == 'U',
        forall|i: int| 0 <= i < digits.len() ==> is_hex(#[trigger] digits[i]),
        digits.len() <= if marker == 'u' {
            4int
        } else {
            6
        },
        digits.len() < (if marker == 'u' {
            4int
        } else {
            6
        }) ==> rest.len() == 0 || !is_hex(rest[0]),
    ensures
        ({
            let wanted = if marker == 'u' {
                4int
            } else {
                6
            };
            let n = hex_value(digits);
            unescaped(seq!['\\', marker] + digits + rest) == seq![
                if digits.len() == wanted && (0 <= n < 0xd800 || 0xe000 <= n <= 0x10ffff) {
                    n as char
                } else {
                    marker
                },
            ] + unescaped(rest)
        }),
{
    let s = seq!['\\', marker] + digits + rest;
    let len = hex_len(marker);
    assert(s[0] == '\\' && s[1] == marker);
    let tail = s.skip(2);
    assert(tail == digits + rest);
    assert forall|j: int| 0 <= j < digits.len() implies is_hex(#[trigger] tail[j]) by {
        assert(tail[j] == digits[j]);
    }
    if digits.len() < len && rest.len() > 0 {
        assert(tail[digits.len() as int] == rest[0]);
    }
    lemma_hex_run_is(tail, len, digits.len() as int);
    assert(s.skip(2 + digits.len() as int) == rest);
    if digits.len() == len {
        assert(tail.take(len) == digits);
    }
}

/// Hex digits count from zero to fifteen, in either case, and a number is read from the left.
pub proof fn hex_digits_count_to_fifteen(digits: Seq<char>, c: char)
    ensures
        hex_value(Seq::empty()) == 0,
        hex_value(digits.push(c)) == 16 * hex_value(digits) + hex_digit(c),
        '0' <= c <= '9' ==> is_hex(c) && hex_digit(c) == c as int - 48,
        'a' <= c <= 'f' ==> is_hex(c) && hex_digit(c) == c as int - 87,
        'A' <= c <= 'F' ==> is_hex(c) && hex_digit(c) == c as int - 55,
        is_hex(c) ==> 0 <= hex_digit(c) < 16,
        is_hex(c) <==> ('0' <= c <= '9' || 'a' <= c <= 'f' || 'A' <= c <= 'F'),
{
    assert(digits.push(c).drop_last() == digits);
}

/// A value that is not in quotes stands for itself.
pub proof fn bare_values_stand_for_themselves(raw: Seq<char>)
    ensures
        raw.len() < 2 || raw[0] != '"' || raw.last() != '"' ==> decoded(raw) == raw,
        decoded(seq!['"'] + raw + seq!['"']) == unescaped(raw),
{
    let quoted = seq!['"'] + raw + seq!['"'];
    assert(quoted.subrange(1, quoted.len() - 1) =~= raw);
}

} // verus!
