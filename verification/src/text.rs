//! Text as sequences of characters: searching, cutting, trimming, joining and writing numbers.

use vstd::prelude::*;
use vstd::string::*;

verus! {

/// `String::push` appends one character at the end of the string and leaves what stood there
/// before it unchanged.
pub assume_specification[ std::string::String::push ](s: &mut std::string::String, c: char)
    ensures
        final(s)@ == old(s)@.push(c),
;

/// The Unicode characters with the property `White_Space`.
pub open spec fn is_white_space(c: char) -> bool {
    let n = c as u32;
    ||| 0x09 <= n <= 0x0d
    ||| n == 0x20
    ||| n == 0x85
    ||| n == 0xa0
    ||| n == 0x1680
    ||| 0x2000 <= n <= 0x200a
    ||| n == 0x2028
    ||| n == 0x2029
    ||| n == 0x202f
    ||| n == 0x205f
    ||| n == 0x3000
}

/// `s` without the white space at its start.
pub open spec fn trim_start(s: Seq<char>) -> Seq<char>
    decreases s.len(),
{
    if s.len() > 0 && is_white_space(s[0]) {
        trim_start(s.skip(1))
    } else {
        s
    }
}

/// `s` without the white space at its end.
pub open spec fn trim_end(s: Seq<char>) -> Seq<char>
    decreases s.len(),
{
    if s.len() > 0 && is_white_space(s.last()) {
        trim_end(s.drop_last())
    } else {
        s
    }
}

/// `s` without the white space at both ends.
pub open spec fn trim(s: Seq<char>) -> Seq<char> {
    trim_end(trim_start(s))
}

/// Neither end of `s` is white space.
pub open spec fn is_trimmed(s: Seq<char>) -> bool {
    s.len() > 0 ==> !is_white_space(s[0]) && !is_white_space(s.last())
}

/// The first place at which `c` stands in `s`, or the length of `s` where it does not occur.
pub open spec fn first_index(s: Seq<char>, c: char) -> int
    decreases s.len(),
{
    if s.len() == 0 || s[0] == c {
        0
    } else {
        1 + first_index(s.skip(1), c)
    }
}

/// The last place at which `c` stands in `s`, or -1 where it does not occur.
pub open spec fn last_index(s: Seq<char>, c: char) -> int
    decreases s.len(),
{
    if s.len() == 0 {
        -1
    } else if s.last() == c {
        s.len() - 1
    } else {
        last_index(s.drop_last(), c)
    }
}

/// `needle` stands in `s` at place `i`.
pub open spec fn occurs_at(s: Seq<char>, needle: Seq<char>, i: int) -> bool {
    &&& 0 <= i
    &&& i + needle.len() <= s.len()
    &&& s.subrange(i, i + needle.len()) == needle
}

/// `needle` stands somewhere in `s`.
pub open spec fn contains_text(s: Seq<char>, needle: Seq<char>) -> bool {
    exists|i: int| occurs_at(s, needle, i)
}

/// `s` with each `from` replaced by `to`.
pub open spec fn replace_char(s: Seq<char>, from: char, to: Seq<char>) -> Seq<char>
    decreases s.len(),
{
    if s.len() == 0 {
        Seq::empty()
    } else {
        replace_char(s.drop_last(), from, to) + if s.last() == from {
            to
        } else {
            seq![s.last()]
        }
    }
}

/// The decimal digit for a number below ten.
pub open spec fn digit_char(d: nat) -> char {
    ('0' as u32 + d) as char
}

/// The decimal digits of `n`, without leading zeros.
pub open spec fn decimal(n: nat) -> Seq<char>
    decreases n,
{
    if n < 10 {
        seq![digit_char(n)]
    } else {
        decimal(n / 10).push(digit_char(n % 10))
    }
}

/// The decimal digits of `n`, after a minus sign where `n` is negative.
pub open spec fn signed_decimal(n: int) -> Seq<char> {
    if n < 0 {
        seq!['-'] + decimal((-n) as nat)
    } else {
        decimal(n as nat)
    }
}

/// The texts that a vector of strings holds.
pub open spec fn texts(v: Seq<String>) -> Seq<Seq<char>> {
    v.map_values(|s: String| s@)
}

/// The text, where there is one.
pub open spec fn text_in(text: Option<&str>) -> Option<Seq<char>> {
    match text {
        Some(t) => Some(t@),
        None => None,
    }
}

pub proof fn lemma_first_index(s: Seq<char>, c: char)
    ensures
        0 <= first_index(s, c) <= s.len(),
        forall|j: int| 0 <= j < first_index(s, c) ==> s[j] != c,
        first_index(s, c) < s.len() ==> s[first_index(s, c)] == c,
    decreases s.len(),
{
    if s.len() > 0 && s[0] != c {
        lemma_first_index(s.skip(1), c);
        let k = first_index(s.skip(1), c);
        assert forall|j: int| 0 <= j < 1 + k implies s[j] != c by {
            if j > 0 {
                assert(s[j] == s.skip(1)[j - 1]);
            }
        }
    }
}

/// The first place of `c` is fixed by: `c` stands there, and nowhere before.
pub proof fn lemma_first_index_is(s: Seq<char>, c: char, i: int)
    requires
        0 <= i <= s.len(),
        forall|j: int| 0 <= j < i ==> s[j] != c,
        i < s.len() ==> s[i] == c,
    ensures
        first_index(s, c) == i,
{
    lemma_first_index(s, c);
    let k = first_index(s, c);
    if k < i {
        assert(s[k] != c);
    } else if i < k {
        assert(s[i] != c);
    }
}

pub proof fn lemma_last_index(s: Seq<char>, c: char)
    ensures
        -1 <= last_index(s, c) < s.len(),
        forall|j: int| last_index(s, c) < j < s.len() ==> s[j] != c,
        last_index(s, c) >= 0 ==> s[last_index(s, c)] == c,
    decreases s.len(),
{
    if s.len() > 0 && s.last() != c {
        lemma_last_index(s.drop_last(), c);
        assert forall|j: int| last_index(s, c) < j < s.len() implies s[j] != c by {
            if j < s.len() - 1 {
                assert(s[j] == s.drop_last()[j]);
            }
        }
    }
}

/// The last place of `c` is fixed by: `c` stands there, and nowhere after.
pub proof fn lemma_last_index_is(s: Seq<char>, c: char, i: int)
    requires
        -1 <= i < s.len(),
        forall|j: int| i < j < s.len() ==> s[j] != c,
        i >= 0 ==> s[i] == c,
    ensures
        last_index(s, c) == i,
{
    lemma_last_index(s, c);
    let k = last_index(s, c);
    if k > i {
        assert(s[k] != c);
    } else if i > k {
        assert(s[i] != c);
    }
}

proof fn lemma_trim_start_skip(s: Seq<char>, n: int)
    requires
        0 <= n <= s.len(),
        forall|j: int| 0 <= j < n ==> is_white_space(#[trigger] s[j]),
    ensures
        trim_start(s) == trim_start(s.skip(n)),
    decreases n,
{
    if n > 0 {
        let t = s.skip(1);
        assert forall|j: int| 0 <= j < n - 1 implies is_white_space(#[trigger] t[j]) by {
            assert(t[j] == s[j + 1]);
        }
        lemma_trim_start_skip(t, n - 1);
        assert(is_white_space(s[0]));
        assert(t.skip(n - 1) == s.skip(n));
    } else {
        assert(s.skip(0) == s);
    }
}

proof fn lemma_trim_end_take(s: Seq<char>, n: int)
    requires
        0 <= n <= s.len(),
        forall|j: int| n <= j < s.len() ==> is_white_space(#[trigger] s[j]),
    ensures
        trim_end(s) == trim_end(s.take(n)),
    decreases s.len() - n,
{
    if n < s.len() {
        let t = s.drop_last();
        assert forall|j: int| n <= j < t.len() implies is_white_space(#[trigger] t[j]) by {
            assert(t[j] == s[j]);
        }
        lemma_trim_end_take(t, n);
        assert(t.take(n) == s.take(n));
        assert(is_white_space(s[s.len() - 1]));
    } else {
        assert(s.take(n) == s);
    }
}

/// Trimming cuts one run out of the text, with white space on both sides of it.
pub proof fn lemma_trim_is(s: Seq<char>, from: int, to: int)
    requires
        0 <= from <= to <= s.len(),
        forall|j: int| 0 <= j < from ==> is_white_space(#[trigger] s[j]),
        forall|j: int| to <= j < s.len() ==> is_white_space(#[trigger] s[j]),
        is_trimmed(s.subrange(from, to)),
        from < to || from == s.len(),
    ensures
        trim(s) == s.subrange(from, to),
{
    lemma_trim_start_skip(s, from);
    let t = s.skip(from);
    assert(trim_start(t) == t) by {
        if t.len() > 0 {
            assert(t[0] == s.subrange(from, to)[0]);
        }
    }
    assert forall|j: int| to - from <= j < t.len() implies is_white_space(#[trigger] t[j]) by {
        assert(t[j] == s[j + from]);
    }
    lemma_trim_end_take(t, to - from);
    let m = t.take(to - from);
    assert(m == s.subrange(from, to));
}

/// A text that neither starts nor ends with white space is its own trimmed text.
pub proof fn lemma_trim_trimmed(s: Seq<char>)
    requires
        is_trimmed(s),
    ensures
        trim(s) == s,
{
}

pub proof fn lemma_trim_is_trimmed(s: Seq<char>)
    ensures
        is_trimmed(trim(s)),
        exists|from: int, to: int|
            0 <= from <= to <= s.len() && trim(s) == #[trigger] s.subrange(from, to),
{
    lemma_trim_start_is_tail(s);
    let t = trim_start(s);
    let n = choose|n: int| 0 <= n <= s.len() && t == #[trigger] s.skip(n);
    lemma_trim_end_is_head(t);
    let m = choose|m: int| 0 <= m <= t.len() && trim_end(t) == #[trigger] t.take(m);
    assert(s.skip(n).take(m) == s.subrange(n, n + m));
    if trim(s).len() > 0 {
        assert(trim(s)[0] == t[0]);
    }
}

proof fn lemma_trim_start_is_tail(s: Seq<char>)
    ensures
        trim_start(s).len() > 0 ==> !is_white_space(trim_start(s)[0]),
        exists|n: int| 0 <= n <= s.len() && trim_start(s) == #[trigger] s.skip(n),
    decreases s.len(),
{
    if s.len() > 0 && is_white_space(s[0]) {
        lemma_trim_start_is_tail(s.skip(1));
        let n = choose|n: int|
            0 <= n <= s.skip(1).len() && trim_start(s.skip(1)) == #[trigger] s.skip(1).skip(n);
        assert(s.skip(1).skip(n) == s.skip(n + 1));
    } else {
        assert(s.skip(0) == s);
    }
}

proof fn lemma_trim_end_is_head(s: Seq<char>)
    ensures
        trim_end(s).len() > 0 ==> !is_white_space(trim_end(s).last()),
        exists|n: int| 0 <= n <= s.len() && trim_end(s) == #[trigger] s.take(n),
    decreases s.len(),
{
    if s.len() > 0 && is_white_space(s.last()) {
        lemma_trim_end_is_head(s.drop_last());
        let n = choose|n: int|
            0 <= n <= s.drop_last().len() && trim_end(s.drop_last())
                == #[trigger] s.drop_last().take(n);
        assert(s.drop_last().take(n) == s.take(n));
    } else {
        assert(s.take(s.len() as int) == s);
    }
}

/// The characters of a string.
pub fn chars_of(s: &str) -> (r: Vec<char>)
    ensures
        r@ == s@,
{
    let mut v: Vec<char> = Vec::new();
    for c in it: s.chars()
        invariant
            v@ == s@.take(it.index()),
            it.seq() == s@,
    {
        v.push(c);
        assert(s@.take(it.index() + 1) == s@.take(it.index()).push(c));
    }
    assert(s@.take(s@.len() as int) == s@);
    v
}

/// The string of the characters from `from` up to `to`.
pub fn string_between(v: &Vec<char>, from: usize, to: usize) -> (r: String)
    requires
        from <= to <= v.len(),
    ensures
        r@ == v@.subrange(from as int, to as int),
{
    let mut s: String = String::new();
    let mut i: usize = from;
    while i < to
        invariant
            from <= i <= to <= v.len(),
            s@ == v@.subrange(from as int, i as int),
        decreases to - i,
    {
        s.push(v[i]);
        assert(v@.subrange(from as int, i + 1) == v@.subrange(from as int, i as int).push(
            v[i as int],
        ));
        i = i + 1;
    }
    s
}

/// The string of the given characters.
pub fn string_of(v: &Vec<char>) -> (r: String)
    ensures
        r@ == v@,
{
    let r = string_between(v, 0, v.len());
    assert(v@.subrange(0, v@.len() as int) == v@);
    r
}

/// The characters from `from` up to `to`.
pub fn cut(v: &Vec<char>, from: usize, to: usize) -> (r: Vec<char>)
    requires
        from <= to <= v.len(),
    ensures
        r@ == v@.subrange(from as int, to as int),
{
    let mut s: Vec<char> = Vec::new();
    let mut i: usize = from;
    while i < to
        invariant
            from <= i <= to <= v.len(),
            s@ == v@.subrange(from as int, i as int),
        decreases to - i,
    {
        s.push(v[i]);
        assert(v@.subrange(from as int, i + 1) == v@.subrange(from as int, i as int).push(
            v[i as int],
        ));
        i = i + 1;
    }
    s
}

/// Whether two texts are the same.
pub fn same_text(a: &str, b: &str) -> (r: bool)
    ensures
        r == (a@ == b@),
{
    a.to_owned() == b.to_owned()
}

/// Whether two optional texts are the same.
pub fn same_optional_text(a: &Option<String>, b: &Option<String>) -> (r: bool)
    ensures
        r == match (*a, *b) {
            (Some(x), Some(y)) => x@ == y@,
            (None, None) => true,
            _ => false,
        },
{
    match (a, b) {
        (Some(x), Some(y)) => same_text(x.as_str(), y.as_str()),
        (None, None) => true,
        _ => false,
    }
}

/// Whether a character is white space.
pub fn white_space(c: char) -> (r: bool)
    ensures
        r == is_white_space(c),
{
    let n = c as u32;
    (0x09 <= n && n <= 0x0d) || n == 0x20 || n == 0x85 || n == 0xa0 || n == 0x1680 || (0x2000 <= n
        && n <= 0x200a) || n == 0x2028 || n == 0x2029 || n == 0x202f || n == 0x205f || n == 0x3000
}

/// The text without the white space at both ends.
pub fn trimmed(v: &Vec<char>) -> (r: Vec<char>)
    ensures
        r@ == trim(v@),
{
    let mut from: usize = 0;
    while from < v.len() && white_space(v[from])
        invariant
            from <= v.len(),
            forall|j: int| 0 <= j < from ==> is_white_space(#[trigger] v@[j]),
        decreases v.len() - from,
    {
        from = from + 1;
    }
    let mut to: usize = v.len();
    while from < to && white_space(v[to - 1])
        invariant
            from <= to <= v.len(),
            from < v.len() ==> !is_white_space(v@[from as int]),
            forall|j: int| to <= j < v.len() ==> is_white_space(#[trigger] v@[j]),
        decreases to,
    {
        to = to - 1;
    }
    proof {
        lemma_trim_is(v@, from as int, to as int);
    }
    cut(v, from, to)
}

/// The first place of `c` at or after `from`, or the length of `v`.
pub fn find_char(v: &Vec<char>, c: char, from: usize) -> (r: usize)
    requires
        from <= v.len(),
    ensures
        from <= r <= v.len(),
        r == from + first_index(v@.skip(from as int), c),
        forall|j: int| from <= j < r ==> v@[j] != c,
        r < v.len() ==> v@[r as int] == c,
{
    let mut i: usize = from;
    while i < v.len() && v[i] != c
        invariant
            from <= i <= v.len(),
            forall|j: int| from <= j < i ==> v@[j] != c,
        decreases v.len() - i,
    {
        i = i + 1;
    }
    proof {
        let t = v@.skip(from as int);
        assert forall|j: int| 0 <= j < i - from implies t[j] != c by {
            assert(t[j] == v@[j + from]);
        }
        lemma_first_index_is(t, c, i - from);
    }
    i
}

/// The place after the last `c`, or 0 where there is none.
pub fn after_last(v: &Vec<char>, c: char) -> (r: usize)
    ensures
        r <= v.len(),
        r == last_index(v@, c) + 1,
{
    let mut i: usize = v.len();
    while i > 0 && v[i - 1] != c
        invariant
            i <= v.len(),
            forall|j: int| i <= j < v.len() ==> v@[j] != c,
        decreases i,
    {
        i = i - 1;
    }
    proof {
        lemma_last_index_is(v@, c, i - 1);
    }
    i
}

/// Whether `needle` stands in `v` at place `at`.
pub fn has_at(v: &Vec<char>, needle: &Vec<char>, at: usize) -> (r: bool)
    requires
        at <= v.len(),
    ensures
        r == occurs_at(v@, needle@, at as int),
{
    if needle.len() > v.len() - at {
        return false;
    }
    let mut i: usize = 0;
    while i < needle.len()
        invariant
            at <= v.len(),
            needle.len() <= v.len() - at,
            i <= needle.len(),
            forall|j: int| 0 <= j < i ==> v@[at + j] == needle@[j],
        decreases needle.len() - i,
    {
        if v[at + i] != needle[i] {
            assert(v@.subrange(at as int, at + needle.len())[i as int] == v@[at + i]);
            return false;
        }
        i = i + 1;
    }
    assert(v@.subrange(at as int, at + needle.len()) == needle@);
    true
}

/// Whether `needle` stands somewhere in `s`.
pub fn has_text(s: &str, needle: &str) -> (r: bool)
    ensures
        r == contains_text(s@, needle@),
{
    let v = chars_of(s);
    let n = chars_of(needle);
    let mut i: usize = 0;
    loop
        invariant
            v@ == s@,
            n@ == needle@,
            i <= v.len(),
            forall|j: int| 0 <= j < i ==> !occurs_at(s@, needle@, j),
        decreases v.len() - i,
    {
        if has_at(&v, &n, i) {
            return true;
        }
        if i == v.len() {
            return false;
        }
        i = i + 1;
    }
}

/// Whether `s` begins with `prefix`.
pub fn begins_with(s: &str, prefix: &str) -> (r: bool)
    ensures
        r == prefix@.is_prefix_of(s@),
{
    let v = chars_of(s);
    let p = chars_of(prefix);
    let r = has_at(&v, &p, 0);
    proof {
        if p.len() <= v.len() {
            assert(v@.subrange(0, p.len() as int) == v@.take(p.len() as int));
        }
    }
    r
}

/// `s` without its first `n` characters.
pub fn without_first(s: &str, n: usize) -> (r: String)
    requires
        n <= s@.len(),
    ensures
        r@ == s@.skip(n as int),
{
    let v = chars_of(s);
    let r = string_between(&v, n, v.len());
    assert(v@.subrange(n as int, v@.len() as int) == s@.skip(n as int));
    r
}

/// `s` with each `from` replaced by `to`.
pub fn with_replaced(s: &str, from: char, to: &str) -> (r: String)
    ensures
        r@ == replace_char(s@, from, to@),
{
    let v = chars_of(s);
    let mut out = String::new();
    let mut i: usize = 0;
    assert(v@.take(0) == Seq::<char>::empty());
    while i < v.len()
        invariant
            v@ == s@,
            i <= v.len(),
            out@ == replace_char(v@.take(i as int), from, to@),
        decreases v.len() - i,
    {
        assert(v@.take(i + 1).drop_last() == v@.take(i as int));
        if v[i] == from {
            out.append(to);
        } else {
            out.push(v[i]);
            assert(out@ == replace_char(v@.take(i as int), from, to@) + seq![v@[i as int]]);
        }
        i = i + 1;
    }
    assert(v@.take(v@.len() as int) == s@);
    out
}

/// The decimal digits of `n`.
pub fn decimal_text(n: u64) -> (r: String)
    ensures
        r@ == decimal(n as nat),
    decreases n,
{
    let digit = digit_of((n % 10) as u8);
    let mut out = if n < 10 {
        String::new()
    } else {
        decimal_text(n / 10)
    };
    out.push(digit);
    proof {
        if n < 10 {
            assert(Seq::<char>::empty().push(digit) == seq![digit]);
        }
    }
    out
}

fn digit_of(d: u8) -> (c: char)
    requires
        d < 10,
    ensures
        c == digit_char(d as nat),
{
    ('0' as u8 + d) as char
}

/// The decimal digits of `n`, after a minus sign where it is negative.
pub fn signed_decimal_text(n: i64) -> (r: String)
    ensures
        r@ == signed_decimal(n as int),
{
    if n < 0 {
        let mut out = String::new();
        out.push('-');
        let m: u64 = if n == i64::MIN {
            0x8000_0000_0000_0000u64
        } else {
            (-n) as u64
        };
        let digits = decimal_text(m);
        out.append(digits.as_str());
        assert(out@ == seq!['-'] + decimal(m as nat));
        out
    } else {
        decimal_text(n as u64)
    }
}

/// The texts put one after the other.
pub fn joined(a: &str, b: &str) -> (r: String)
    ensures
        r@ == a@ + b@,
{
    let mut r = a.to_owned();
    r.append(b);
    r
}

/// The three texts put one after the other.
pub fn joined3(a: &str, b: &str, c: &str) -> (r: String)
    ensures
        r@ == a@ + b@ + c@,
{
    let mut r = a.to_owned();
    r.append(b);
    r.append(c);
    r
}

/// Whether a list of texts holds `t`.
pub fn list_has(list: &Vec<String>, t: &str) -> (r: bool)
    ensures
        r == texts(list@).contains(t@),
{
    let mut i: usize = 0;
    while i < list.len()
        invariant
            i <= list.len(),
            forall|j: int| 0 <= j < i ==> list@[j]@ != t@,
        decreases list.len() - i,
    {
        if same_text(list[i].as_str(), t) {
            assert(texts(list@)[i as int] == t@);
            return true;
        }
        i = i + 1;
    }
    false
}

/// Replacing goes character by character: each `from` becomes `to`, and every other character stays,
/// in its order.
pub proof fn each_character_is_replaced(a: Seq<char>, b: Seq<char>, c: char, from: char, to: Seq<char>)
    ensures
        replace_char(Seq::empty(), from, to) == Seq::<char>::empty(),
        replace_char(seq![from], from, to) == to,
        c != from ==> replace_char(seq![c], from, to) == seq![c],
        replace_char(a + b, from, to) == replace_char(a, from, to) + replace_char(b, from, to),
    decreases b.len(),
{
    reveal_with_fuel(replace_char, 2);
    assert(seq![from].drop_last() == Seq::<char>::empty());
    assert(seq![c].drop_last() == Seq::<char>::empty());
    assert(Seq::<char>::empty() + to == to);
    assert(Seq::<char>::empty() + seq![c] == seq![c]);
    if b.len() > 0 {
        each_character_is_replaced(a, b.drop_last(), c, from, to);
        assert((a + b).drop_last() == a + b.drop_last());
        assert((a + b).last() == b.last());
        let last = if b.last() == from {
            to
        } else {
            seq![b.last()]
        };
        assert(replace_char(a, from, to) + (replace_char(b.drop_last(), from, to) + last) == (
        replace_char(a, from, to) + replace_char(b.drop_last(), from, to)) + last);
    } else {
        assert(a + b == a);
        assert(replace_char(a, from, to) + Seq::<char>::empty() == replace_char(a, from, to));
    }
}

/// The number that decimal digits stand for.
pub open spec fn number_of(digits: Seq<char>) -> int
    decreases digits.len(),
{
    if digits.len() == 0 {
        0
    } else {
        10 * number_of(digits.drop_last()) + (digits.last() as u32 - '0' as u32)
    }
}

/// A number is written with decimal digits alone, which stand for it, and never with a zero first
/// unless it is zero.
pub proof fn digits_stand_for_the_number(n: nat)
    ensures
        number_of(decimal(n)) == n,
        decimal(n).len() > 0,
        forall|i: int| 0 <= i < decimal(n).len() ==> '0' <= #[trigger] decimal(n)[i] <= '9',
        n > 0 ==> decimal(n)[0] != '0',
    decreases n,
{
    if n < 10 {
        assert(seq![digit_char(n)].drop_last() == Seq::<char>::empty());
        assert(number_of(Seq::<char>::empty()) == 0);
    } else {
        digits_stand_for_the_number(n / 10);
        let front = decimal(n / 10);
        let all = front.push(digit_char(n % 10));
        assert(all.drop_last() == front);
        assert(all[0] == front[0]);
    }
}

/// A negative number is written as its opposite after a minus sign.
pub proof fn negative_numbers_have_a_sign(n: int)
    ensures
        n >= 0 ==> signed_decimal(n) == decimal(n as nat),
        n < 0 ==> signed_decimal(n) == seq!['-'] + decimal((-n) as nat),
{
}

} // verus!
