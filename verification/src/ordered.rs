//! Insertion-ordered string maps: what an `IndexMap` holds, and the operations the library uses.

use indexmap::IndexMap;
use vstd::prelude::*;

verus! {

/// `indexmap::IndexMap`, a hash map that remembers the order in which its keys were inserted.
#[verifier::external_type_specification]
#[verifier::external_body]
#[verifier::reject_recursive_types(K)]
#[verifier::reject_recursive_types(V)]
#[verifier::reject_recursive_types(S)]
pub struct ExIndexMap<K, V, S>(IndexMap<K, V, S>);

/// The keys and values of a map from text to text, in the map's order.
pub uninterp spec fn pairs(m: IndexMap<String, String>) -> Seq<(Seq<char>, Seq<char>)>;

/// The names and contents of a map of sections, in the map's order.
pub uninterp spec fn sections(m: IndexMap<String, IndexMap<String, String>>) -> Seq<
    (Seq<char>, Seq<(Seq<char>, Seq<char>)>),
>;

/// The first place at which the key stands, or the length where it does not occur.
pub open spec fn place<V>(s: Seq<(Seq<char>, V)>, key: Seq<char>) -> int
    decreases s.len(),
{
    if s.len() == 0 || s[0].0 == key {
        0
    } else {
        1 + place(s.skip(1), key)
    }
}

/// Whether the key occurs.
pub open spec fn has_key<V>(s: Seq<(Seq<char>, V)>, key: Seq<char>) -> bool {
    exists|i: int| 0 <= i < s.len() && (#[trigger] s[i]).0 == key
}

/// The value under a key, where the key occurs.
pub open spec fn value_at<V>(s: Seq<(Seq<char>, V)>, key: Seq<char>) -> Option<V> {
    if has_key(s, key) {
        Some(s[place(s, key)].1)
    } else {
        None
    }
}

/// The pairs after `value` was put under `key`: in the key's place, or at the end.
pub open spec fn put<V>(s: Seq<(Seq<char>, V)>, key: Seq<char>, value: V) -> Seq<(Seq<char>, V)> {
    if has_key(s, key) {
        s.update(place(s, key), (key, value))
    } else {
        s.push((key, value))
    }
}

/// The pairs without the key.
pub open spec fn without<V>(s: Seq<(Seq<char>, V)>, key: Seq<char>) -> Seq<(Seq<char>, V)> {
    if has_key(s, key) {
        s.remove(place(s, key))
    } else {
        s
    }
}

/// No key occurs twice.
pub open spec fn distinct_keys<V>(s: Seq<(Seq<char>, V)>) -> bool {
    forall|i: int, j: int| 0 <= i < j < s.len() ==> (#[trigger] s[i]).0 != (#[trigger] s[j]).0
}

pub proof fn lemma_place<V>(s: Seq<(Seq<char>, V)>, key: Seq<char>)
    ensures
        0 <= place(s, key) <= s.len(),
        place(s, key) < s.len() <==> has_key(s, key),
        has_key(s, key) ==> s[place(s, key)].0 == key,
        forall|j: int| 0 <= j < place(s, key) ==> (#[trigger] s[j]).0 != key,
    decreases s.len(),
{
    if s.len() > 0 && s[0].0 != key {
        let t = s.skip(1);
        lemma_place(t, key);
        assert forall|j: int| 0 <= j < place(s, key) implies (#[trigger] s[j]).0 != key by {
            if j > 0 {
                assert(s[j] == t[j - 1]);
            }
        }
        if has_key(s, key) {
            let i = choose|i: int| 0 <= i < s.len() && (#[trigger] s[i]).0 == key;
            assert(t[i - 1].0 == key);
        }
        if has_key(t, key) {
            assert(s[1 + place(t, key)] == t[place(t, key)]);
        }
    }
}

/// A key put into the pairs is found there with its new value; the other keys keep theirs, every
/// key keeps its place, and a new key comes last.
pub proof fn lemma_put<V>(s: Seq<(Seq<char>, V)>, key: Seq<char>, value: V)
    ensures
        value_at(put(s, key, value), key) == Some(value),
        forall|other: Seq<char>|
            other != key ==> #[trigger] value_at(put(s, key, value), other) == value_at(s, other),
        distinct_keys(s) ==> distinct_keys(put(s, key, value)),
        forall|i: int|
            0 <= i < s.len() ==> (#[trigger] put(s, key, value)[i]).0 == s[i].0,
        put(s, key, value).len() == s.len() + if has_key(s, key) {
            0int
        } else {
            1
        },
{
    let t = put(s, key, value);
    lemma_place(s, key);
    lemma_place(t, key);
    if has_key(s, key) {
        assert(t[place(s, key)].0 == key);
        if place(t, key) < place(s, key) {
            assert(t[place(t, key)] == s[place(t, key)]);
        }
    } else {
        assert(t[s.len() as int].0 == key);
        if place(t, key) < s.len() {
            assert(t[place(t, key)] == s[place(t, key)]);
        }
    }
    assert forall|other: Seq<char>| other != key implies #[trigger] value_at(t, other) == value_at(
        s,
        other,
    ) by {
        lemma_place(s, other);
        lemma_place(t, other);
        if has_key(s, other) {
            let p = place(s, other);
            assert(t[p].0 == other);
            assert(t[p] == s[p]);
            let q = place(t, other);
            if q < p {
                assert(s[q].0 == t[q].0);
            }
            assert(q == p);
        } else if has_key(t, other) {
            let q = place(t, other);
            assert(q < s.len());
            assert(s[q].0 == t[q].0);
        }
    }
}

/// Where no key occurs twice, a key that was taken out is gone, and the other keys keep their
/// values.
pub proof fn lemma_without<V>(s: Seq<(Seq<char>, V)>, key: Seq<char>)
    requires
        distinct_keys(s),
    ensures
        !has_key(without(s, key), key),
        distinct_keys(without(s, key)),
        forall|other: Seq<char>|
            other != key ==> #[trigger] value_at(without(s, key), other) == value_at(s, other),
{
    let t = without(s, key);
    lemma_place(s, key);
    let p = place(s, key);
    if has_key(s, key) {
        assert forall|i: int| 0 <= i < t.len() implies (#[trigger] t[i]).0 != key by {
            if i < p {
                assert(t[i] == s[i]);
            } else {
                assert(t[i] == s[i + 1]);
            }
        }
        assert forall|i: int, j: int| 0 <= i < j < t.len() implies (#[trigger] t[i]).0 != (
        #[trigger] t[j]).0 by {
            let a = if i < p { i } else { i + 1 };
            let b = if j < p { j } else { j + 1 };
            assert(t[i] == s[a] && t[j] == s[b]);
        }
        assert forall|other: Seq<char>| other != key implies #[trigger] value_at(t, other)
            == value_at(s, other) by {
            lemma_place(s, other);
            lemma_place(t, other);
            if has_key(s, other) {
                let q = place(s, other);
                let r = if q < p { q } else { q - 1 };
                assert(t[r] == s[q]);
                assert(t[r].0 == other);
                let u = place(t, other);
                if u < r {
                    assert(t[u].0 != t[r].0);
                } else if r < u {
                    assert(t[r].0 != other);
                }
            } else if has_key(t, other) {
                let u = place(t, other);
                if u < p {
                    assert(s[u].0 == other);
                } else {
                    assert(s[u + 1].0 == other);
                }
            }
        }
    }
}

/// `IndexMap::new`: the new map holds nothing.
#[verifier::external_body]
pub(crate) fn no_sections() -> (m: IndexMap<String, IndexMap<String, String>>)
    ensures
        sections(m) == Seq::<(Seq<char>, Seq<(Seq<char>, Seq<char>)>)>::empty(),
{
    IndexMap::new()
}

/// `IndexMap::entry` and `Entry::or_default`: the value under the key is handed out for change; a
/// key that was not there is added at the end first, with an empty map.
#[verifier::external_body]
pub(crate) fn section_or_default(
    m: &mut IndexMap<String, IndexMap<String, String>>,
    key: String,
) -> (r: &mut IndexMap<String, String>)
    ensures
        pairs(*r) == match value_at(sections(*old(m)), key@) {
            Some(p) => p,
            None => Seq::<(Seq<char>, Seq<char>)>::empty(),
        },
        sections(*final(m)) == put(sections(*old(m)), key@, pairs(*final(r))),
{
    m.entry(key).or_default()
}

/// `IndexMap::insert`: a key that is there keeps its place and gets the new value, another is
/// added at the end.
#[verifier::external_body]
pub(crate) fn insert_pair(m: &mut IndexMap<String, String>, key: String, value: String)
    ensures
        pairs(*final(m)) == put(pairs(*old(m)), key@, value@),
{
    m.insert(key, value);
}

/// `IndexMap::get` on a map of sections: the section under the name, if there is one.
#[verifier::external_body]
pub(crate) fn get_section<'a>(
    m: &'a IndexMap<String, IndexMap<String, String>>,
    key: &str,
) -> (r: Option<&'a IndexMap<String, String>>)
    ensures
        (match r {
            Some(p) => Some(pairs(*p)),
            None => None,
        }) == value_at(sections(*m), key@),
{
    m.get(key)
}

/// `IndexMap::get` on a map from text to text: the text under the key, if there is one.
#[verifier::external_body]
pub(crate) fn get_text<'a>(m: &'a IndexMap<String, String>, key: &str) -> (r: Option<&'a String>)
    ensures
        (match r {
            Some(v) => Some(v@),
            None => None,
        }) == value_at(pairs(*m), key@),
{
    m.get(key)
}

/// `IndexMap::len` on a map of sections: how many sections it holds.
#[verifier::external_body]
pub(crate) fn section_count(m: &IndexMap<String, IndexMap<String, String>>) -> (n: usize)
    ensures
        n == sections(*m).len(),
{
    m.len()
}

/// `IndexMap::len` on a map from text to text: how many pairs it holds.
#[verifier::external_body]
pub(crate) fn pair_count(m: &IndexMap<String, String>) -> (n: usize)
    ensures
        n == pairs(*m).len(),
{
    m.len()
}

/// `IndexMap::get_index` on a map of sections: the name and the contents at a place in the map's
/// order, and nothing from the map's length on.
#[verifier::external_body]
pub(crate) fn section_at(m: &IndexMap<String, IndexMap<String, String>>, index: usize) -> (r: Option<
    (&String, &IndexMap<String, String>),
>)
    ensures
        match r {
            Some(p) => index < sections(*m).len() && sections(*m)[index as int] == (
                p.0@,
                pairs(*p.1),
            ),
            None => index >= sections(*m).len(),
        },
{
    m.get_index(index)
}

/// `IndexMap::get_index` on a map from text to text: the key and the value at a place in the
/// map's order, and nothing from the map's length on.
#[verifier::external_body]
pub(crate) fn pair_at(m: &IndexMap<String, String>, index: usize) -> (r: Option<
    (&String, &String),
>)
    ensures
        match r {
            Some(p) => index < pairs(*m).len() && pairs(*m)[index as int] == (p.0@, p.1@),
            None => index >= pairs(*m).len(),
        },
{
    m.get_index(index)
}


/// Taking a key out leaves the other pairs in their order.
pub proof fn taking_out_keeps_the_order<V>(s: Seq<(Seq<char>, V)>, key: Seq<char>)
    requires
        distinct_keys(s),
    ensures
        without(s, key) == s.filter(|p: (Seq<char>, V)| p.0 != key),
    decreases s.len(),
{
    reveal(Seq::filter);
    let others = |p: (Seq<char>, V)| p.0 != key;
    lemma_place(s, key);
    if s.len() > 0 {
        let front = s.drop_last();
        assert forall|i: int, j: int| 0 <= i < j < front.len() implies (#[trigger] front[i]).0 != (
        #[trigger] front[j]).0 by {
            assert(s[i].0 != s[j].0);
        }
        taking_out_keeps_the_order(front, key);
        lemma_place(front, key);
        let n = s.len() - 1;
        if has_key(front, key) {
            let p = place(front, key);
            assert(s[p].0 == key);
            assert(s[p].0 != s[n].0);
            let q = place(s, key);
            if q < p {
                assert(front[q].0 == key);
            } else if p < q {
                assert(s[p].0 != key);
            }
            assert(s.remove(p) == front.remove(p).push(s.last()));
        } else if s.last().0 == key {
            let q = place(s, key);
            if q < n {
                assert(front[q].0 == key);
            }
            assert(s[n].0 == key);
            assert(s.remove(n) == front);
        } else if has_key(s, key) {
            let q = place(s, key);
            assert(front[q].0 == key);
        }
    }
}

} // verus!
