//! Backstitch's configuration files: an INI document with sections of quoted values.

use crate::escape::{
    decode_value, decoded, decoding_undoes_encoding, encode_value, encoded, lemma_encoded_shape,
};
use crate::ordered::{
    distinct_keys, get_section, get_text, has_key, insert_pair, lemma_place, lemma_put,
    no_sections, pair_at, pair_count, pairs, place, put, section_at, section_count,
    section_or_default, sections, value_at,
};
use crate::text::{
    chars_of, cut, find_char, first_index, is_trimmed, is_white_space, lemma_first_index,
    lemma_first_index_is, lemma_trim_is_trimmed, lemma_trim_trimmed, string_of, trim, trimmed,
};
use indexmap::IndexMap;
use vstd::prelude::*;
use vstd::string::*;

verus! {

/// The name of a configuration file.
pub const CONFIG_FILE_NAME: &'static str = "backstitch.cfg";

/// The directory, below the user's data directory, that holds the user's configuration file.
pub const USER_DIR_NAME: &'static str = "backstitch_plugin";

/// The section that holds Backstitch's own values.
pub const SECTION: &'static str = "backstitch";

/// The keys and values of a section, in order.
pub type Pairs = Seq<(Seq<char>, Seq<char>)>;

/// The sections of a document, in order.
pub type Sections = Seq<(Seq<char>, Pairs)>;

/// How far a document was read: the section that values go to, and the sections so far.
#[verifier::ext_equal]
pub struct Reading {
    pub section: Seq<char>,
    pub sections: Sections,
}

/// The contents of a section, nothing where there is no such section.
pub open spec fn section_of(s: Sections, name: Seq<char>) -> Pairs {
    match value_at(s, name) {
        Some(p) => p,
        None => Seq::empty(),
    }
}

/// The sections after a value was set in the section called `name`.
pub open spec fn with_value(
    s: Sections,
    name: Seq<char>,
    key: Seq<char>,
    value: Seq<char>,
) -> Sections {
    put(s, name, put(section_of(s, name), key, value))
}

/// The row is empty or a comment.
pub open spec fn is_skipped(row: Seq<char>) -> bool {
    row.len() == 0 || row[0] == ';' || row[0] == '#'
}

/// The row is a section header.
pub open spec fn is_header(row: Seq<char>) -> bool {
    row.len() >= 2 && row[0] == '[' && row.last() == ']'
}

/// The section name in a header.
pub open spec fn header_name(row: Seq<char>) -> Seq<char> {
    trim(row.subrange(1, row.len() - 1))
}

/// The key in a row that holds an equals sign.
pub open spec fn row_key(row: Seq<char>) -> Seq<char> {
    trim(row.take(first_index(row, '=')))
}

/// The value in a row that holds an equals sign.
pub open spec fn row_value(row: Seq<char>) -> Seq<char> {
    decoded(trim(row.skip(first_index(row, '=') + 1)))
}

/// What reading one row, without white space at its ends, does.
pub open spec fn read_trimmed(at: Reading, row: Seq<char>) -> Reading {
    if is_skipped(row) {
        at
    } else if is_header(row) {
        let name = header_name(row);
        (Reading { section: name, sections: put(at.sections, name, section_of(at.sections, name)) })
    } else if first_index(row, '=') < row.len() {
        (Reading {
            section: at.section,
            sections: with_value(at.sections, at.section, row_key(row), row_value(row)),
        })
    } else {
        at
    }
}

/// What reading the rows of a text does.
pub open spec fn read_rows(text: Seq<char>, at: Reading) -> Reading
    decreases text.len(),
{
    let end = first_index(text, '\n');
    if 0 <= end < text.len() {
        read_rows(text.skip(end + 1), read_trimmed(at, trim(text.take(end))))
    } else {
        read_trimmed(at, trim(text))
    }
}

/// Nothing read yet; what comes before the first header goes to a nameless section.
pub open spec fn unread() -> Reading {
    Reading { section: Seq::empty(), sections: Seq::empty() }
}

/// The sections that a text holds.
pub open spec fn parsed(text: Seq<char>) -> Sections {
    read_rows(text, unread()).sections
}

/// One row of a section, with its line end.
pub open spec fn pair_text(key: Seq<char>, value: Seq<char>) -> Seq<char> {
    key + seq!['='] + encoded(value) + seq!['\n']
}

/// The rows of a section.
pub open spec fn pairs_text(p: Pairs) -> Seq<char>
    decreases p.len(),
{
    if p.len() == 0 {
        Seq::empty()
    } else {
        pairs_text(p.drop_last()) + pair_text(p.last().0, p.last().1)
    }
}

/// The header of a section, with an empty line before it where other text precedes it. A nameless
/// section has none.
pub open spec fn header_text(before: Seq<char>, name: Seq<char>) -> Seq<char> {
    if name.len() == 0 {
        Seq::empty()
    } else if before.len() == 0 {
        seq!['['] + name + seq![']', '\n']
    } else {
        seq!['\n', '['] + name + seq![']', '\n']
    }
}

/// The text of a document.
pub open spec fn written(s: Sections) -> Seq<char>
    decreases s.len(),
{
    if s.len() == 0 {
        Seq::empty()
    } else {
        let before = written(s.drop_last());
        before + header_text(before, s.last().0) + pairs_text(s.last().1)
    }
}

/// A key that a row can hold.
pub open spec fn is_writable_key(key: Seq<char>) -> bool {
    &&& is_trimmed(key)
    &&& !key.contains('=')
    &&& !key.contains('\n')
    &&& key.len() > 0 ==> key[0] != ';' && key[0] != '#'
}

/// A section name that a header can hold.
pub open spec fn is_writable_name(name: Seq<char>) -> bool {
    is_trimmed(name) && !name.contains('\n')
}

/// Section contents that rows can hold.
pub open spec fn writable_pairs(p: Pairs) -> bool {
    &&& distinct_keys(p)
    &&& forall|i: int| 0 <= i < p.len() ==> is_writable_key((#[trigger] p[i]).0)
}

/// The nameless section, where there is one, comes first and holds something.
pub open spec fn nameless_first(s: Sections) -> bool {
    forall|i: int|
        0 <= i < s.len() && (#[trigger] s[i]).0.len() == 0 ==> i == 0 && s[i].1.len() > 0
}

/// A document that a text can hold.
pub open spec fn writable(s: Sections) -> bool {
    &&& distinct_keys(s)
    &&& nameless_first(s)
    &&& forall|i: int|
        0 <= i < s.len() ==> is_writable_name((#[trigger] s[i]).0) && writable_pairs(s[i].1)
}

/// Names, keys and their uniqueness as in a writable document, wherever the nameless section is.
pub open spec fn well_formed(s: Sections) -> bool {
    &&& distinct_keys(s)
    &&& forall|i: int|
        0 <= i < s.len() ==> is_writable_name((#[trigger] s[i]).0) && writable_pairs(s[i].1)
}

proof fn lemma_read_prefix(a: Seq<char>, b: Seq<char>, at: Reading)
    requires
        a.len() > 0 ==> a.last() == '\n',
    ensures
        read_rows(a + b, at) == read_rows(b, read_rows(a, at)),
    decreases a.len(),
{
    if a.len() == 0 {
        assert(a + b == b);
        assert(trim(a) == a);
    } else {
        let end = first_index(a, '\n');
        lemma_first_index(a, '\n');
        if end == a.len() {
            assert(a[a.len() - 1] != '\n');
        }
        assert((a + b)[end] == a[end]);
        assert forall|j: int| 0 <= j < end implies (a + b)[j] != '\n' by {
            assert((a + b)[j] == a[j]);
        }
        lemma_first_index_is(a + b, '\n', end);
        assert((a + b).take(end) == a.take(end));
        let rest = a.skip(end + 1);
        assert((a + b).skip(end + 1) == rest + b);
        let next = read_trimmed(at, trim(a.take(end)));
        lemma_read_prefix(rest, b, next);
    }
}

/// One line, with its end, is read as one row.
proof fn lemma_read_line(row: Seq<char>, at: Reading)
    requires
        !row.contains('\n'),
    ensures
        read_rows(row + seq!['\n'], at) == read_trimmed(at, trim(row)),
{
    let line = row + seq!['\n'];
    assert forall|j: int| 0 <= j < row.len() implies line[j] != '\n' by {
        assert(line[j] == row[j]);
        assert(row.contains(row[j]));
    }
    lemma_first_index_is(line, '\n', row.len() as int);
    assert(line.take(row.len() as int) == row);
    assert(line.skip(row.len() as int + 1) == Seq::<char>::empty());
    lemma_read_nothing(read_trimmed(at, trim(row)));
}

proof fn lemma_read_nothing(at: Reading)
    ensures
        read_rows(Seq::empty(), at) == at,
{
    assert(trim(Seq::<char>::empty()) == Seq::<char>::empty());
}

proof fn lemma_read_pair(key: Seq<char>, value: Seq<char>, at: Reading)
    requires
        is_writable_key(key),
    ensures
        read_rows(pair_text(key, value), at) == (Reading {
            section: at.section,
            sections: with_value(at.sections, at.section, key, value),
        }),
{
    lemma_encoded_shape(value);
    let e = encoded(value);
    let row = key + seq!['='] + e;
    let n = key.len() as int;
    assert forall|j: int| 0 <= j < row.len() implies row[j] != '\n' by {
        if j < n {
            assert(row[j] == key[j]);
            assert(key.contains(key[j]));
        } else if j > n {
            assert(row[j] == e[j - n - 1]);
            assert(e.contains(e[j - n - 1]));
        }
    }
    lemma_read_line(row, at);
    assert(row.last() == '"');
    assert(row[0] == if n > 0 {
        key[0]
    } else {
        '='
    });
    lemma_trim_trimmed(row);
    assert forall|j: int| 0 <= j < n implies row[j] != '=' by {
        assert(row[j] == key[j]);
        assert(key.contains(key[j]));
    }
    assert(row[n] == '=');
    lemma_first_index_is(row, '=', n);
    assert(row.take(n) == key);
    assert(row.skip(n + 1) == e);
    lemma_trim_trimmed(key);
    lemma_trim_trimmed(e);
    decoding_undoes_encoding(value);
}

proof fn lemma_no_key<V>(s: Seq<(Seq<char>, V)>, key: Seq<char>)
    requires
        forall|i: int| 0 <= i < s.len() ==> (#[trigger] s[i]).0 != key,
    ensures
        !has_key(s, key),
        place(s, key) == s.len(),
{
    lemma_place(s, key);
}

/// Reading the rows of a section puts them into the section that is being read.
proof fn lemma_read_pairs(p: Pairs, at: Reading)
    requires
        writable_pairs(p),
        section_of(at.sections, at.section) == Pairs::empty(),
        p.len() > 0 || has_key(at.sections, at.section),
    ensures
        read_rows(pairs_text(p), at) == (Reading {
            section: at.section,
            sections: put(at.sections, at.section, p),
        }),
    decreases p.len(),
{
    lemma_place(at.sections, at.section);
    if p.len() == 0 {
        assert(p == Pairs::empty());
        assert(put(at.sections, at.section, p) == at.sections);
        lemma_read_nothing(at);
    } else {
        let front = p.drop_last();
        let (key, value) = p.last();
        lemma_no_key(front, key);
        assert(put(front, key, value) == p);
        if front.len() == 0 {
            assert(pairs_text(front) == Seq::<char>::empty());
            assert(pairs_text(p) == pair_text(key, value));
            lemma_read_pair(key, value, at);
            assert(front == Pairs::empty());
        } else {
            lemma_read_pairs(front, at);
            let mid = Reading {
                section: at.section,
                sections: put(at.sections, at.section, front),
            };
            let a = pairs_text(front);
            assert(a.len() > 0 && a.last() == '\n');
            lemma_read_prefix(a, pair_text(key, value), at);
            lemma_read_pair(key, value, mid);
            lemma_put(at.sections, at.section, front);
            assert(section_of(mid.sections, at.section) == front);
            lemma_put_twice(at.sections, at.section, front, p);
        }
    }
}

proof fn lemma_put_twice<V>(s: Seq<(Seq<char>, V)>, key: Seq<char>, first: V, second: V)
    ensures
        put(put(s, key, first), key, second) == put(s, key, second),
{
    lemma_place(s, key);
    let t = put(s, key, first);
    lemma_place(t, key);
    if has_key(s, key) {
        assert(t[place(s, key)].0 == key);
        if place(t, key) < place(s, key) {
            assert(s[place(t, key)].0 == t[place(t, key)].0);
        }
    } else {
        assert(t[s.len() as int].0 == key);
        if place(t, key) < s.len() {
            assert(s[place(t, key)].0 == t[place(t, key)].0);
        }
    }
    assert(put(t, key, second) == put(s, key, second));
}

proof fn lemma_read_header(before: Seq<char>, name: Seq<char>, at: Reading)
    requires
        is_writable_name(name),
        name.len() > 0,
    ensures
        read_rows(header_text(before, name), at) == (Reading {
            section: name,
            sections: put(at.sections, name, section_of(at.sections, name)),
        }),
{
    let row = seq!['['] + name + seq![']'];
    assert forall|j: int| 0 <= j < row.len() implies row[j] != '\n' by {
        if 0 < j <= name.len() {
            assert(row[j] == name[j - 1]);
            assert(name.contains(name[j - 1]));
        }
    }
    lemma_read_line(row, at);
    assert(row[0] == '[' && row.last() == ']');
    lemma_trim_trimmed(row);
    assert(row.subrange(1, row.len() - 1) == name);
    lemma_trim_trimmed(name);
    if before.len() == 0 {
        assert(header_text(before, name) == row + seq!['\n']);
    } else {
        let gap = seq!['\n'];
        assert(header_text(before, name) == gap + (row + seq!['\n']));
        lemma_read_prefix(gap, row + seq!['\n'], at);
        lemma_read_line(Seq::empty(), at);
        assert(Seq::<char>::empty() + seq!['\n'] == gap);
        assert(trim(Seq::<char>::empty()) == Seq::<char>::empty());
    }
}

proof fn lemma_written_ends(s: Sections)
    ensures
        written(s).len() > 0 ==> written(s).last() == '\n',
    decreases s.len(),
{
    if s.len() > 0 {
        lemma_written_ends(s.drop_last());
        let p = s.last().1;
        if p.len() > 0 {
            assert(written(s).last() == '\n');
        } else if s.last().0.len() > 0 {
            let before = written(s.drop_last());
            let h = header_text(before, s.last().0);
            assert(pairs_text(p).len() == 0);
            assert(written(s).last() == h.last());
        } else {
            let before = written(s.drop_last());
            assert(written(s) == before);
        }
    }
}

/// A saved document reads back as it was: every section, key and value, in order.
pub proof fn reading_undoes_writing(s: Sections)
    requires
        writable(s),
    ensures
        parsed(written(s)) == s,
    decreases s.len(),
{
    lemma_read_back(s);
}

proof fn lemma_read_back(s: Sections)
    requires
        writable(s),
    ensures
        read_rows(written(s), unread()) == (Reading {
            section: if s.len() == 0 {
                Seq::empty()
            } else {
                s.last().0
            },
            sections: s,
        }),
    decreases s.len(),
{
    if s.len() == 0 {
        assert(trim(Seq::<char>::empty()) == Seq::<char>::empty());
        assert(s == Sections::empty());
    } else {
        let front = s.drop_last();
        let (name, p) = s.last();
        assert(writable(front)) by {
            assert forall|i: int| 0 <= i < front.len() implies is_writable_name(
                (#[trigger] front[i]).0,
            ) && writable_pairs(front[i].1) by {
                assert(front[i] == s[i]);
            }
        }
        lemma_read_back(front);
        let before = written(front);
        lemma_written_ends(front);
        let at = read_rows(before, unread());
        lemma_no_key(front, name);
        assert(s[s.len() - 1] == (name, p));
        if name.len() == 0 {
            assert(front.len() == 0);
            assert(name == Seq::<char>::empty());
            assert(written(s) == pairs_text(p));
            lemma_read_pairs(p, unread());
            assert(put(front, name, p) == s);
            assert(unread().sections == front);
        } else {
            let h = header_text(before, name);
            assert(written(s) == before + (h + pairs_text(p)));
            lemma_read_prefix(before, h + pairs_text(p), unread());
            assert(h.last() == '\n');
            lemma_read_prefix(h, pairs_text(p), at);
            lemma_read_header(before, name, at);
            let mid = read_rows(h, at);
            assert(mid.sections == front.push((name, Pairs::empty())));
            lemma_put(front, name, Pairs::empty());
            assert(section_of(mid.sections, name) == Pairs::empty());
            assert(mid.sections[front.len() as int].0 == name);
            assert(has_key(mid.sections, name));
            lemma_read_pairs(p, mid);
            lemma_put_twice(front, name, Pairs::empty(), p);
            assert(put(front, name, p) == s);
        }
    }
}

/// Setting a value under a key that a row can hold keeps a document writable.
pub proof fn setting_keeps_writable(
    s: Sections,
    name: Seq<char>,
    key: Seq<char>,
    value: Seq<char>,
)
    requires
        writable(s),
        is_writable_name(name),
        name.len() > 0,
        is_writable_key(key),
    ensures
        writable(with_value(s, name, key, value)),
{
    lemma_setting_well_formed(s, name, key, value);
    let t = with_value(s, name, key, value);
    let p = put(section_of(s, name), key, value);
    lemma_put(s, name, p);
    lemma_place(s, name);
    assert forall|i: int| 0 <= i < t.len() && (#[trigger] t[i]).0.len() == 0 implies i == 0
        && t[i].1.len() > 0 by {
        assert(i < s.len());
        assert(t[i].0 == s[i].0);
        assert(t[i] == s[i]);
    }
}

proof fn lemma_setting_well_formed(
    s: Sections,
    name: Seq<char>,
    key: Seq<char>,
    value: Seq<char>,
)
    requires
        well_formed(s),
        is_writable_name(name),
        is_writable_key(key),
    ensures
        well_formed(with_value(s, name, key, value)),
{
    let q = section_of(s, name);
    lemma_place(s, name);
    lemma_place(q, key);
    let p = put(q, key, value);
    lemma_put(q, key, value);
    assert(writable_pairs(q));
    assert forall|i: int| 0 <= i < p.len() implies is_writable_key((#[trigger] p[i]).0) by {
        if i < q.len() {
            assert(p[i].0 == q[i].0);
        }
    }
    lemma_put_well_formed(s, name, p);
}

proof fn lemma_put_well_formed(s: Sections, name: Seq<char>, p: Pairs)
    requires
        well_formed(s),
        is_writable_name(name),
        writable_pairs(p),
    ensures
        well_formed(put(s, name, p)),
{
    let t = put(s, name, p);
    lemma_put(s, name, p);
    lemma_place(s, name);
    assert forall|i: int| 0 <= i < t.len() implies is_writable_name((#[trigger] t[i]).0)
        && writable_pairs(t[i].1) by {
        if i < s.len() && !(has_key(s, name) && i == place(s, name)) {
            assert(t[i] == s[i]);
        }
    }
}

proof fn lemma_read_row_well_formed(at: Reading, line: Seq<char>)
    requires
        well_formed(at.sections),
        is_writable_name(at.section),
        !line.contains('\n'),
    ensures
        well_formed(read_trimmed(at, trim(line)).sections),
        is_writable_name(read_trimmed(at, trim(line)).section),
{
    let row = trim(line);
    lemma_trim_is_trimmed(line);
    let (from, to) = choose|from: int, to: int|
        0 <= from <= to <= line.len() && row == #[trigger] line.subrange(from, to);
    assert forall|j: int| 0 <= j < row.len() implies row[j] != '\n' by {
        assert(row[j] == line[j + from]);
        assert(line.contains(line[j + from]));
    }
    if is_skipped(row) {
    } else if is_header(row) {
        let inner = row.subrange(1, row.len() - 1);
        let name = header_name(row);
        lemma_trim_is_trimmed(inner);
        let (a, b) = choose|a: int, b: int|
            0 <= a <= b <= inner.len() && name == #[trigger] inner.subrange(a, b);
        assert forall|j: int| 0 <= j < name.len() implies name[j] != '\n' by {
            assert(name[j] == row[j + a + 1]);
        }
        lemma_place(at.sections, name);
        assert(writable_pairs(section_of(at.sections, name)));
        lemma_put_well_formed(at.sections, name, section_of(at.sections, name));
    } else if first_index(row, '=') < row.len() {
        let n = first_index(row, '=');
        lemma_first_index(row, '=');
        let left = row.take(n);
        let key = row_key(row);
        lemma_trim_is_trimmed(left);
        let (a, b) = choose|a: int, b: int|
            0 <= a <= b <= left.len() && key == #[trigger] left.subrange(a, b);
        assert forall|j: int| 0 <= j < key.len() implies key[j] != '\n' && key[j] != '=' by {
            assert(key[j] == row[j + a]);
        }
        if key.len() > 0 {
            assert(left[0] == row[0]);
            assert(crate::text::trim_start(left) == left);
            lemma_trim_end_keeps_start(left);
        }
        lemma_setting_well_formed(at.sections, at.section, key, row_value(row));
    }
}

proof fn lemma_trim_end_keeps_start(s: Seq<char>)
    requires
        crate::text::trim_end(s).len() > 0,
    ensures
        s.len() > 0,
        crate::text::trim_end(s)[0] == s[0],
    decreases s.len(),
{
    if s.len() > 0 && is_white_space(s.last()) {
        lemma_trim_end_keeps_start(s.drop_last());
    }
}

proof fn lemma_read_well_formed(text: Seq<char>, at: Reading)
    requires
        well_formed(at.sections),
        is_writable_name(at.section),
    ensures
        well_formed(read_rows(text, at).sections),
    decreases text.len(),
{
    let end = first_index(text, '\n');
    lemma_first_index(text, '\n');
    if end < text.len() {
        let line = text.take(end);
        assert(!line.contains('\n'));
        lemma_read_row_well_formed(at, line);
        lemma_read_well_formed(text.skip(end + 1), read_trimmed(at, trim(line)));
    } else {
        assert(!text.contains('\n'));
        lemma_read_row_well_formed(at, text);
    }
}

/// Loading a document and saving it keeps every section, key and value that was read, in order,
/// unless an empty header put the nameless section behind another or left it empty.
pub proof fn saving_keeps_what_was_read(text: Seq<char>)
    requires
        nameless_first(parsed(text)),
    ensures
        writable(parsed(text)),
        parsed(written(parsed(text))) == parsed(text),
{
    lemma_read_well_formed(text, unread());
    reading_undoes_writing(parsed(text));
}

/// A value that was set is the value that is read, the other values stay, and the sections and
/// keys that were there keep their order, a new key or section coming last.
pub proof fn setting_changes_one_value(
    s: Sections,
    name: Seq<char>,
    key: Seq<char>,
    value: Seq<char>,
    other_name: Seq<char>,
    other_key: Seq<char>,
)
    ensures
        value_at(section_of(with_value(s, name, key, value), name), key) == Some(value),
        (other_name != name || other_key != key) ==> value_at(
            section_of(with_value(s, name, key, value), other_name),
            other_key,
        ) == value_at(section_of(s, other_name), other_key),
        forall|i: int|
            0 <= i < s.len() ==> (#[trigger] with_value(s, name, key, value)[i]).0 == s[i].0,
        forall|i: int|
            0 <= i < section_of(s, name).len() ==> (#[trigger] section_of(
                with_value(s, name, key, value),
                name,
            )[i]).0 == section_of(s, name)[i].0,
{
    let q = section_of(s, name);
    let p = put(q, key, value);
    lemma_put(q, key, value);
    lemma_put(s, name, p);
}

/// An INI document: `[section]` headers and `key="value"` rows. Sections and keys that the library
/// does not know are kept; comments are not.
pub struct IniFile {
    sections: IndexMap<String, IndexMap<String, String>>,
}

impl View for IniFile {
    type V = Sections;

    closed spec fn view(&self) -> Sections {
        sections(self.sections)
    }
}

impl IniFile {
    /// The document that a text holds. A text that could not be read counts as empty.
    pub fn load(text: Option<&str>) -> (r: IniFile)
        ensures
            r@ == match text {
                Some(t) => parsed(t@),
                None => Sections::empty(),
            },
    {
        let mut all = no_sections();
        let text = match text {
            Some(t) => t,
            None => {
                return IniFile { sections: all };
            },
        };
        let v = chars_of(text);
        let mut section: String = String::new();
        let mut start: usize = 0;
        let mut more = true;
        assert(v@.skip(0) == text@);
        assert(section@ == Seq::<char>::empty());
        while more
            invariant
                v@ == text@,
                start <= v.len(),
                more ==> read_rows(
                    v@.skip(start as int),
                    (Reading { section: section@, sections: sections(all) }),
                ) == read_rows(text@, unread()),
                !more ==> sections(all) == parsed(text@),
            decreases v.len() - start, (if more { 1int } else { 0 }),
        {
            let ghost rest = v@.skip(start as int);
            let ghost at = Reading { section: section@, sections: sections(all) };
            let end = find_char(&v, '\n', start);
            proof {
                lemma_first_index(rest, '\n');
                assert(rest.take(end - start) == v@.subrange(start as int, end as int));
                assert(rest.take(rest.len() as int) == rest);
            }
            let row = trimmed(&cut(&v, start, end));
            assert(row@ == trim(rest.take(end - start)));
            if row.len() == 0 || row[0] == ';' || row[0] == '#' {
            } else if row.len() >= 2 && row[0] == '[' && row[row.len() - 1] == ']' {
                let name = string_of(&trimmed(&cut(&row, 1, row.len() - 1)));
                section = name;
                let _ = section_or_default(&mut all, section.clone());
            } else {
                let equals = find_char(&row, '=', 0);
                assert(row@.skip(0) == row@);
                if equals < row.len() {
                    let key = string_of(&trimmed(&cut(&row, 0, equals)));
                    let raw = string_of(&trimmed(&cut(&row, equals + 1, row.len())));
                    assert(row@.subrange(0, equals as int) == row@.take(equals as int));
                    assert(row@.subrange(equals + 1, row.len() as int) == row@.skip(equals + 1));
                    let value = decode_value(raw.as_str());
                    let values = section_or_default(&mut all, section.clone());
                    insert_pair(values, key, value);
                }
            }
            assert(sections(all) == read_trimmed(at, row@).sections);
            assert(section@ == read_trimmed(at, row@).section);
            if end == v.len() {
                more = false;
            } else {
                start = end + 1;
                assert(rest.skip(first_index(rest, '\n') + 1) == v@.skip(start as int));
            }
        }
        IniFile { sections: all }
    }

    /// The text to save the document as.
    pub fn to_text(&self) -> (r: String)
        ensures
            r@ == written(self@),
    {
        let mut text = String::new();
        let count = section_count(&self.sections);
        let mut i: usize = 0;
        assert(self@.take(0) == Sections::empty());
        while i < count
            invariant
                i <= count,
                count == self@.len(),
                self@ == sections(self.sections),
                text@ == written(self@.take(i as int)),
            decreases count - i,
        {
            let ghost before = text@;
            assert(self@.take(i + 1).drop_last() == self@.take(i as int));
            if let Some((name, values)) = section_at(&self.sections, i) {
                let ghost p = pairs(*values);
                assert(self@.take(i + 1).last() == (name@, p));
                let n = name.as_str().unicode_len();
                if n > 0 {
                    if text.as_str().unicode_len() > 0 {
                        text.push('\n');
                    }
                    text.push('[');
                    text.append(name.as_str());
                    text.push(']');
                    text.push('\n');
                }
                assert(text@ == before + header_text(before, name@));
                let ghost head = text@;
                let values_count = pair_count(values);
                let mut j: usize = 0;
                assert(p.take(0) == Pairs::empty());
                assert(text@ == head + pairs_text(p.take(0)));
                while j < values_count
                    invariant
                        j <= values_count,
                        values_count == p.len(),
                        p == pairs(*values),
                        text@ == head + pairs_text(p.take(j as int)),
                    decreases values_count - j,
                {
                    let ghost rows = text@;
                    if let Some((key, value)) = pair_at(values, j) {
                        text.append(key.as_str());
                        text.push('=');
                        let quoted = encode_value(value.as_str());
                        text.append(quoted.as_str());
                        text.push('\n');
                        assert(text@ == rows + pair_text(key@, value@));
                        assert(p.take(j + 1).drop_last() == p.take(j as int));
                        assert(p.take(j + 1).last() == (key@, value@));
                        assert(text@ == head + pairs_text(p.take(j + 1)));
                    }
                    j = j + 1;
                }
                assert(p.take(p.len() as int) == p);
            }
            i = i + 1;
        }
        assert(self@.take(self@.len() as int) == self@);
        text
    }

    /// The value under a key of Backstitch's section, or the default.
    pub fn get(&self, key: &str, default: &str) -> (r: String)
        ensures
            r@ == match value_at(section_of(self@, SECTION@), key@) {
                Some(v) => v,
                None => default@,
            },
    {
        match get_section(&self.sections, SECTION) {
            Some(values) => match get_text(values, key) {
                Some(value) => value.clone(),
                None => default.to_owned(),
            },
            None => {
                assert(!has_key(Pairs::empty(), key@));
                default.to_owned()
            },
        }
    }

    /// Sets a value under a key of Backstitch's section, and gives the text to save.
    pub fn set(&mut self, key: &str, value: &str) -> (text: String)
        ensures
            final(self)@ == with_value(old(self)@, SECTION@, key@, value@),
            text@ == written(final(self)@),
    {
        let values = section_or_default(&mut self.sections, SECTION.to_owned());
        insert_pair(values, key.to_owned(), value.to_owned());
        self.to_text()
    }
}

/// Backstitch's configuration: the settings of the project, which lie beside it, and those of the
/// user, which lie outside.
pub struct BackstitchConfig {
    project: IniFile,
    user: IniFile,
}

impl BackstitchConfig {
    /// What the project's configuration file holds.
    pub closed spec fn project_sections(self) -> Sections {
        self.project@
    }

    /// What the user's configuration file holds.
    pub closed spec fn user_sections(self) -> Sections {
        self.user@
    }

    /// The configuration in the texts of the project's file, `<project_dir>/backstitch.cfg`, and
    /// of the user's file, `<user_data_dir>/backstitch_plugin/backstitch.cfg`. A file that is not
    /// there, or cannot be read, counts as empty.
    pub fn new(project_text: Option<&str>, user_text: Option<&str>) -> (r: Self)
        ensures
            r.project_sections() == match project_text {
                Some(t) => parsed(t@),
                None => Sections::empty(),
            },
            r.user_sections() == match user_text {
                Some(t) => parsed(t@),
                None => Sections::empty(),
            },
    {
        BackstitchConfig { project: IniFile::load(project_text), user: IniFile::load(user_text) }
    }

    /// A value of the project, or the default.
    pub fn get_project_value(&self, key: &str, default: &str) -> (r: String)
        ensures
            r@ == match value_at(section_of(self.project_sections(), SECTION@), key@) {
                Some(v) => v,
                None => default@,
            },
    {
        self.project.get(key, default)
    }

    /// Sets a value of the project, and gives the text to save as the project's file.
    pub fn set_project_value(&mut self, key: &str, value: &str) -> (text: String)
        ensures
            final(self).project_sections() == with_value(
                old(self).project_sections(),
                SECTION@,
                key@,
                value@,
            ),
            final(self).user_sections() == old(self).user_sections(),
            text@ == written(final(self).project_sections()),
    {
        self.project.set(key, value)
    }

    /// A value of the user, or the default.
    pub fn get_user_value(&self, key: &str, default: &str) -> (r: String)
        ensures
            r@ == match value_at(section_of(self.user_sections(), SECTION@), key@) {
                Some(v) => v,
                None => default@,
            },
    {
        self.user.get(key, default)
    }

    /// Sets a value of the user, and gives the text to save as the user's file.
    pub fn set_user_value(&mut self, key: &str, value: &str) -> (text: String)
        ensures
            final(self).user_sections() == with_value(
                old(self).user_sections(),
                SECTION@,
                key@,
                value@,
            ),
            final(self).project_sections() == old(self).project_sections(),
            text@ == written(final(self).user_sections()),
    {
        self.user.set(key, value)
    }
}

/// How a text is read, row by row. White space around a row does not count. An empty row, and one
/// that begins with a semicolon or a number sign, says nothing. A row in brackets names the section
/// that what follows goes to, and loses nothing of a section that was there. A row with an equals
/// sign sets a value in the section, the first such sign ending the key. Any other row says nothing.
pub proof fn rows_are_read_one_by_one(row: Seq<char>, rest: Seq<char>, at: Reading)
    requires
        !row.contains('\n'),
    ensures
        ({
            let t = trim(row);
            let after = read_rows(row + seq!['\n'] + rest, at);
            let quiet = t.len() == 0 || t[0] == ';' || t[0] == '#';
            let header = t.len() >= 2 && t[0] == '[' && t.last() == ']';
            &&& quiet ==> after == read_rows(rest, at)
            &&& !quiet && header ==> {
                let name = trim(t.subrange(1, t.len() - 1));
                let now = read_rows(row + seq!['\n'], at);
                &&& after == read_rows(rest, now)
                &&& now.section == name
                &&& has_key(now.sections, name)
                &&& forall|other: Seq<char>|
                    section_of(now.sections, other) == #[trigger] section_of(at.sections, other)
            }
            &&& !quiet && !header && t.contains('=') ==> after == read_rows(
                rest,
                Reading {
                    section: at.section,
                    sections: with_value(
                        at.sections,
                        at.section,
                        trim(t.take(first_index(t, '='))),
                        decoded(trim(t.skip(first_index(t, '=') + 1))),
                    ),
                },
            )
            &&& !quiet && !header && !t.contains('=') ==> after == read_rows(rest, at)
        }),
{
    let t = trim(row);
    lemma_read_prefix(row + seq!['\n'], rest, at);
    lemma_read_line(row, at);
    lemma_first_index(t, '=');
    if t.contains('=') {
        let k = choose|k: int| 0 <= k < t.len() && t[k] == '=';
        if first_index(t, '=') == t.len() {
            assert(t[k] != '=');
        }
    } else {
        let k = first_index(t, '=');
        if k < t.len() {
            assert(t[k] == '=');
        }
    }
    let name = trim(t.subrange(1, t.len() - 1));
    let p = section_of(at.sections, name);
    lemma_put(at.sections, name, p);
    let now = put(at.sections, name, p);
    assert forall|other: Seq<char>| section_of(now, other) == #[trigger] section_of(
        at.sections,
        other,
    ) by {
        if other != name {
            assert(value_at(now, other) == value_at(at.sections, other));
        }
    }
    assert(value_at(now, name) is Some);
}

/// The last row of a text counts whether or not a line end follows it.
pub proof fn the_last_row_needs_no_line_end(row: Seq<char>, at: Reading)
    requires
        !row.contains('\n'),
    ensures
        read_rows(row, at) == read_rows(row + seq!['\n'], at),
{
    lemma_read_line(row, at);
    lemma_first_index(row, '\n');
    let k = first_index(row, '\n');
    if k < row.len() {
        assert(row.contains(row[k]));
    }
}

/// How a document is written: each value in a row of its own, the key before an equals sign and the
/// value in quotes after it; each section after its name in brackets, with an empty row before it
/// unless it comes first.
pub proof fn documents_are_written_row_by_row(
    s: Sections,
    name: Seq<char>,
    p: Pairs,
    key: Seq<char>,
    value: Seq<char>,
)
    ensures
        written(Sections::empty()) == Seq::<char>::empty(),
        name.len() > 0 ==> written(seq![(name, p)]) == seq!['['] + name + seq![']', '\n']
            + pairs_text(p),
        name.len() > 0 && written(s).len() > 0 ==> written(s.push((name, p))) == written(s) + seq![
            '\n',
            '[',
        ] + name + seq![']', '\n'] + pairs_text(p),
        written(seq![(Seq::empty(), p)]) == pairs_text(p),
        pairs_text(Pairs::empty()) == Seq::<char>::empty(),
        pairs_text(p.push((key, value))) == pairs_text(p) + key + seq!['='] + encoded(value) + seq![
            '\n',
        ],
{
    reveal_with_fuel(written, 2);
    assert(seq![(name, p)].drop_last() == Sections::empty());
    assert(seq![(Seq::<char>::empty(), p)].drop_last() == Sections::empty());
    assert(s.push((name, p)).drop_last() == s);
    assert(p.push((key, value)).drop_last() == p);
    assert(pairs_text(p.push((key, value))) =~= pairs_text(p) + key + seq!['='] + encoded(value)
        + seq!['\n']);
    assert(written(seq![(name, p)]) =~= header_text(Seq::empty(), name) + pairs_text(p));
    assert(written(seq![(Seq::<char>::empty(), p)]) =~= pairs_text(p));
    if name.len() > 0 && written(s).len() > 0 {
        assert(written(s.push((name, p))) =~= written(s) + seq!['\n', '['] + name + seq![']', '\n']
            + pairs_text(p));
    }
}

/// A value that was set is found again once the document was written and read, under Backstitch's
/// section, and every other value is found as it was.
pub proof fn a_saved_value_is_read_back(
    s: Sections,
    key: Seq<char>,
    value: Seq<char>,
    other_name: Seq<char>,
    other_key: Seq<char>,
)
    requires
        writable(s),
        is_writable_key(key),
    ensures
        ({
            let saved = parsed(written(with_value(s, SECTION@, key, value)));
            &&& value_at(section_of(saved, "backstitch"@), key) == Some(value)
            &&& (other_name != "backstitch"@ || other_key != key) ==> value_at(
                section_of(saved, other_name),
                other_key,
            ) == value_at(section_of(s, other_name), other_key)
        }),
{
    reveal_strlit("backstitch");
    let name = SECTION@;
    assert(name == "backstitch"@);
    assert(name.len() == 10 && name[0] == 'b' && name[9] == 'h');
    assert forall|i: int| 0 <= i < name.len() implies name[i] != '\n' by {
        assert(name[0] == 'b' && name[1] == 'a' && name[2] == 'c' && name[3] == 'k' && name[4]
            == 's' && name[5] == 't' && name[6] == 'i' && name[7] == 't' && name[8] == 'c'
            && name[9] == 'h');
    }
    setting_keeps_writable(s, name, key, value);
    reading_undoes_writing(with_value(s, name, key, value));
    setting_changes_one_value(s, name, key, value, other_name, other_key);
}

/// Where the configuration is kept.
pub proof fn the_configuration_has_its_names()
    ensures
        CONFIG_FILE_NAME@ == "backstitch.cfg"@,
        USER_DIR_NAME@ == "backstitch_plugin"@,
        SECTION@ == "backstitch"@,
{
}

} // verus!
