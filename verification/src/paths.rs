//! Parts of paths whose components are separated by slashes.

use crate::text::{
    after_last, chars_of, last_index, lemma_last_index, lemma_last_index_is, string_between,
};
use vstd::prelude::*;

verus! {

/// The last component of a path. Empty components and those that stand for the directory itself
/// do not count, and a path that ends in its parent directory has none.
pub open spec fn file_name(path: Seq<char>) -> Option<Seq<char>>
    decreases path.len(),
{
    let slash = last_index(path, '/');
    let last = path.skip(slash + 1);
    if last.len() == 0 || last == seq!['.'] {
        if 0 <= slash < path.len() {
            file_name(path.take(slash))
        } else {
            None
        }
    } else if last == seq!['.', '.'] {
        None
    } else {
        Some(last)
    }
}

/// The part of a file name behind its last dot, unless there is no dot but at the start.
pub open spec fn extension_of_name(name: Seq<char>) -> Option<Seq<char>> {
    let dot = last_index(name, '.');
    if dot <= 0 {
        None
    } else {
        Some(name.skip(dot + 1))
    }
}

/// The part of a file name before its last dot, or the whole name where there is no dot but at the
/// start.
pub open spec fn stem_of_name(name: Seq<char>) -> Seq<char> {
    let dot = last_index(name, '.');
    if dot <= 0 {
        name
    } else {
        name.take(dot)
    }
}

/// The extension of the file that a path names.
pub open spec fn extension(path: Seq<char>) -> Option<Seq<char>> {
    match file_name(path) {
        Some(name) => extension_of_name(name),
        None => None,
    }
}

/// The name, without its extension, of the file that a path names.
pub open spec fn file_stem(path: Seq<char>) -> Option<Seq<char>> {
    match file_name(path) {
        Some(name) => Some(stem_of_name(name)),
        None => None,
    }
}

/// The characters of the last component of a path.
fn name_chars(path: &str) -> (r: Option<Vec<char>>)
    ensures
        (match r {
            Some(n) => Some(n@),
            None => None,
        }) == file_name(path@),
{
    let mut v = chars_of(path);
    loop
        invariant
            file_name(v@) == file_name(path@),
        decreases v.len(),
    {
        let start = after_last(&v, '/');
        let n = v.len() - start;
        let last = crate::text::cut(&v, start, v.len());
        proof {
            lemma_last_index(v@, '/');
            assert(last@ == v@.skip(start as int));
        }
        let here = n == 1 && last[0] == '.';
        let parent = n == 2 && last[0] == '.' && last[1] == '.';
        proof {
            if here {
                assert(last@ =~= seq!['.']);
            }
            if last@ == seq!['.'] {
                assert(last@.len() == 1 && last@[0] == '.');
            }
            if parent {
                assert(last@ =~= seq!['.', '.']);
            }
            if last@ == seq!['.', '.'] {
                assert(last@.len() == 2 && last@[0] == '.' && last@[1] == '.');
            }
        }
        if n == 0 || here {
            if start == 0 {
                return None;
            }
            v.truncate(start - 1);
        } else if parent {
            return None;
        } else {
            return Some(last);
        }
    }
}

/// The last component of a path.
pub fn get_file_name(path: &str) -> (r: Option<String>)
    ensures
        (match r {
            Some(n) => Some(n@),
            None => None,
        }) == file_name(path@),
{
    match name_chars(path) {
        Some(name) => Some(crate::text::string_of(&name)),
        None => None,
    }
}

/// The extension of the file that a path names.
pub fn get_extension(path: &str) -> (r: Option<String>)
    ensures
        (match r {
            Some(n) => Some(n@),
            None => None,
        }) == extension(path@),
{
    match name_chars(path) {
        Some(name) => {
            let after = after_last(&name, '.');
            if after <= 1 {
                return None;
            }
            proof {
                lemma_last_index(name@, '.');
                assert(name@.subrange(after as int, name@.len() as int) == name@.skip(
                    after as int,
                ));
            }
            Some(string_between(&name, after, name.len()))
        },
        None => None,
    }
}

/// The name, without its extension, of the file that a path names.
pub fn get_file_stem(path: &str) -> (r: Option<String>)
    ensures
        (match r {
            Some(n) => Some(n@),
            None => None,
        }) == file_stem(path@),
{
    match name_chars(path) {
        Some(name) => {
            let after = after_last(&name, '.');
            if after <= 1 {
                return Some(crate::text::string_of(&name));
            }
            assert(name@.subrange(0, after - 1) == name@.take(after - 1));
            Some(string_between(&name, 0, after - 1))
        },
        None => None,
    }
}

/// A path that ends in a name has that file name, whatever stands before the last slash.
pub proof fn the_last_component_is_the_name(dir: Seq<char>, name: Seq<char>)
    requires
        name.len() > 0,
        !name.contains('/'),
        name != seq!['.'],
        name != seq!['.', '.'],
    ensures
        file_name(name) == Some(name),
        file_name(dir.push('/') + name) == Some(name),
{
    lemma_last_index(name, '/');
    assert(name.skip(0) == name);
    let path = dir.push('/') + name;
    lemma_last_index_is(path, '/', dir.len() as int);
    assert(path.skip(dir.len() as int + 1) == name);
}

/// Slashes at the end, and components that stand for the directory itself, do not count. A path that
/// ends in its parent directory names no file.
pub proof fn what_adds_nothing_does_not_count(path: Seq<char>)
    ensures
        file_name(path.push('/')) == file_name(path),
        file_name(path.push('/').push('.')) == file_name(path),
        file_name(path.push('/') + seq!['.', '.']) is None,
        file_name(Seq::empty()) is None,
{
    let slash = path.push('/');
    lemma_last_index_is(slash, '/', path.len() as int);
    assert(slash.skip(path.len() as int + 1) == Seq::<char>::empty());
    assert(slash.take(path.len() as int) == path);
    let here = path.push('/').push('.');
    lemma_last_index_is(here, '/', path.len() as int);
    assert(here.skip(path.len() as int + 1) == seq!['.']);
    assert(here.take(path.len() as int) == path);
    let parent = path.push('/') + seq!['.', '.'];
    lemma_last_index_is(parent, '/', path.len() as int);
    assert(parent.skip(path.len() as int + 1) == seq!['.', '.']);
    let none = Seq::<char>::empty();
    lemma_last_index(none, '/');
    assert(none.skip(0) == none);
}

/// A file name splits at its last dot into a stem and an extension. A dot at the start splits
/// nothing, nor is a name split that has no dot.
pub proof fn names_split_at_the_last_dot(stem: Seq<char>, ext: Seq<char>)
    requires
        !ext.contains('.'),
    ensures
        stem.len() > 0 ==> extension_of_name(stem.push('.') + ext) == Some(ext) && stem_of_name(
            stem.push('.') + ext,
        ) == stem,
        extension_of_name(ext) is None,
        stem_of_name(ext) == ext,
        extension_of_name(seq!['.'] + ext) is None,
        stem_of_name(seq!['.'] + ext) == seq!['.'] + ext,
{
    let name = stem.push('.') + ext;
    lemma_last_index_is(name, '.', stem.len() as int);
    assert(name.skip(stem.len() as int + 1) == ext);
    assert(name.take(stem.len() as int) == stem);
    lemma_last_index(ext, '.');
    let hidden = seq!['.'] + ext;
    lemma_last_index_is(hidden, '.', 0);
}

/// The extension and the stem of a path are those of the file that it names.
pub proof fn a_path_has_the_extension_of_its_file(path: Seq<char>, name: Seq<char>)
    ensures
        file_name(path) == Some(name) ==> extension(path) == extension_of_name(name) && file_stem(
            path,
        ) == Some(stem_of_name(name)),
        file_name(path) is None ==> extension(path) is None && file_stem(path) is None,
{
}

} // verus!
