//! What changed between two states of a project's files.

use crate::digest::FileHash;
use crate::ordered::{distinct_keys, has_key, lemma_place, lemma_put, place, put, value_at};
use crate::table::Table;
use crate::text::texts;
use vstd::prelude::*;
use vstd::string::*;

verus! {

/// How a file changed.
#[derive(Debug, Clone, Copy, PartialEq, Eq, Structural)]
pub enum ChangeType {
    Created,
    Modified,
    Deleted,
}

/// How a path changed, from its hash before and after.
pub open spec fn change_of(before: Option<FileHash>, after: Option<FileHash>) -> Option<
    ChangeType,
> {
    match (before, after) {
        (None, Some(_)) => Some(ChangeType::Created),
        (Some(_), None) => Some(ChangeType::Deleted),
        (Some(b), Some(a)) => if b@ == a@ {
            None
        } else {
            Some(ChangeType::Modified)
        },
        (None, None) => None,
    }
}

/// The changes between two states: each path that changed, and how.
pub open spec fn are_changes(
    before: Seq<(Seq<char>, FileHash)>,
    after: Seq<(Seq<char>, FileHash)>,
    changes: Seq<(Seq<char>, ChangeType)>,
) -> bool {
    forall|path: Seq<char>| #[trigger]
        value_at(changes, path) == change_of(value_at(before, path), value_at(after, path))
}

/// Something that was come across in the project's directory.
#[derive(Debug)]
pub struct WalkedEntry {
    pub path: String,
    pub is_file: bool,
    /// The project leaves the path out.
    pub ignored: bool,
}

/// The paths of the files among what was come across, but for those that are left out.
pub open spec fn walked_files(entries: Seq<WalkedEntry>) -> Seq<Seq<char>>
    decreases entries.len(),
{
    if entries.len() == 0 {
        Seq::empty()
    } else {
        let before = walked_files(entries.drop_last());
        if entries.last().is_file && !entries.last().ignored {
            before.push(entries.last().path@)
        } else {
            before
        }
    }
}

/// The hashes of files, by their paths: files that could not be hashed are left out.
pub open spec fn hashed_files(files: Seq<(String, Option<FileHash>)>) -> Seq<
    (Seq<char>, FileHash),
>
    decreases files.len(),
{
    if files.len() == 0 {
        Seq::empty()
    } else {
        let before = hashed_files(files.drop_last());
        match files.last().1 {
            Some(hash) => put(before, files.last().0@, hash),
            None => before,
        }
    }
}

/// Compares states of a project's files.
#[derive(Debug, Clone, Copy)]
pub struct FileSystemTraversal;

impl FileSystemTraversal {
    /// Whether a walk through the project's directory goes on into what was found in it: not where
    /// it could not be read, or is left out.
    pub fn goes_into(readable: bool, ignored: bool) -> (r: bool)
        ensures
            r == (readable && !ignored),
    {
        readable && !ignored
    }

    /// The files to hash, out of all that was come across.
    pub fn files_to_hash(entries: Vec<WalkedEntry>) -> (r: Vec<String>)
        ensures
            texts(r@) == walked_files(entries@),
    {
        let mut out: Vec<String> = Vec::new();
        let mut i: usize = 0;
        assert(entries@.take(0) == Seq::<WalkedEntry>::empty());
        assert(texts(out@) == Seq::<Seq<char>>::empty());
        while i < entries.len()
            invariant
                i <= entries.len(),
                texts(out@) == walked_files(entries@.take(i as int)),
            decreases entries.len() - i,
        {
            assert(entries@.take(i + 1).drop_last() == entries@.take(i as int));
            assert(entries@.take(i + 1).last() == entries@[i as int]);
            if entries[i].is_file && !entries[i].ignored {
                let ghost before = out@;
                out.push(entries[i].path.clone());
                assert(texts(out@) == texts(before).push(entries@[i as int].path@));
            }
            i = i + 1;
        }
        assert(entries@.take(entries@.len() as int) == entries@);
        out
    }

    /// The hashes of all files, out of what came of hashing each.
    pub fn get_all_files(files: Vec<(String, Option<FileHash>)>) -> (r: Table<FileHash>)
        ensures
            r@ == hashed_files(files@),
    {
        let mut all: Table<FileHash> = Table::new();
        let mut i: usize = 0;
        assert(files@.take(0) == Seq::<(String, Option<FileHash>)>::empty());
        while i < files.len()
            invariant
                i <= files.len(),
                all@ == hashed_files(files@.take(i as int)),
            decreases files.len() - i,
        {
            assert(files@.take(i + 1).drop_last() == files@.take(i as int));
            assert(files@.take(i + 1).last() == files@[i as int]);
            if let Some(hash) = files[i].1 {
                all.insert(files[i].0.clone(), hash);
            }
            i = i + 1;
        }
        assert(files@.take(files@.len() as int) == files@);
        all
    }

    /// The paths that changed between two states, and how each changed.
    pub fn get_file_changes(before: &Table<FileHash>, after: &Table<FileHash>) -> (r: Table<
        ChangeType,
    >)
        ensures
            are_changes(before@, after@, r@),
    {
        let mut changes: Table<ChangeType> = Table::new();
        let n = after.len();
        let mut i: usize = 0;
        while i < n
            invariant
                i <= n,
                n == after@.len(),
                distinct_keys(after@),
                forall|path: Seq<char>| #[trigger]
                    value_at(changes@, path) == (if has_key(after@.take(i as int), path) {
                        change_of(value_at(before@, path), value_at(after@, path))
                    } else {
                        None
                    }),
            decreases n - i,
        {
            let path = after.key_at(i);
            let hash = after.value_at(i);
            let ghost old_changes = changes@;
            let change = match before.get(path.as_str()) {
                None => Some(ChangeType::Created),
                Some(old) => if old.same(hash) {
                    None
                } else {
                    Some(ChangeType::Modified)
                },
            };
            proof {
                lemma_key_of_entry(after@, i as int);
                lemma_take_one_more(after@, i as int);
                assert(change == change_of(value_at(before@, path@), value_at(after@, path@)));
            }
            match change {
                Some(c) => {
                    proof {
                        lemma_put(changes@, path@, c);
                    }
                    changes.insert(path.clone(), c);
                },
                None => {},
            }
            i = i + 1;
        }
        assert(after@.take(n as int) == after@);
        let ghost first = changes@;
        let m = before.len();
        let mut j: usize = 0;
        assert(before@.take(0) == Seq::<(Seq<char>, FileHash)>::empty());
        while j < m
            invariant
                j <= m,
                m == before@.len(),
                distinct_keys(before@),
                forall|path: Seq<char>| #[trigger]
                    value_at(changes@, path) == (if has_key(after@, path) || has_key(
                        before@.take(j as int),
                        path,
                    ) {
                        change_of(value_at(before@, path), value_at(after@, path))
                    } else {
                        None
                    }),
            decreases m - j,
        {
            let path = before.key_at(j);
            proof {
                lemma_key_of_entry(before@, j as int);
                lemma_take_one_more(before@, j as int);
                lemma_put(changes@, path@, ChangeType::Deleted);
            }
            if !after.contains_key(path.as_str()) {
                changes.insert(path.clone(), ChangeType::Deleted);
            }
            j = j + 1;
        }
        assert(before@.take(m as int) == before@);
        changes
    }
}

/// Where no key occurs twice, an entry's key finds the entry.
pub proof fn lemma_key_of_entry<V>(s: Seq<(Seq<char>, V)>, i: int)
    requires
        distinct_keys(s),
        0 <= i < s.len(),
    ensures
        has_key(s, s[i].0),
        value_at(s, s[i].0) == Some(s[i].1),
{
    let key = s[i].0;
    lemma_place(s, key);
    let p = place(s, key);
    if p < i {
        assert(s[p].0 != s[i].0);
    } else if i < p {
        assert(s[i].0 != key);
    }
}

/// The keys of the first entries and one more.
pub proof fn lemma_take_one_more<V>(s: Seq<(Seq<char>, V)>, i: int)
    requires
        0 <= i < s.len(),
    ensures
        forall|key: Seq<char>| #[trigger]
            has_key(s.take(i + 1), key) <==> has_key(s.take(i), key) || key == s[i].0,
{
    assert forall|key: Seq<char>| #[trigger] has_key(s.take(i + 1), key) <==> has_key(
        s.take(i),
        key,
    ) || key == s[i].0 by {
        let a = s.take(i);
        let b = s.take(i + 1);
        if has_key(a, key) {
            let k = choose|k: int| 0 <= k < a.len() && (#[trigger] a[k]).0 == key;
            assert(b[k].0 == key);
        }
        if key == s[i].0 {
            assert(b[i].0 == key);
        }
        if has_key(b, key) {
            let k = choose|k: int| 0 <= k < b.len() && (#[trigger] b[k]).0 == key;
            if k < i {
                assert(a[k].0 == key);
            }
        }
    }
}

/// Nothing changed exactly where both states have the same paths with the same hashes.
pub proof fn no_changes_means_same_files(
    before: Seq<(Seq<char>, FileHash)>,
    after: Seq<(Seq<char>, FileHash)>,
    changes: Seq<(Seq<char>, ChangeType)>,
)
    requires
        are_changes(before, after, changes),
    ensures
        changes.len() == 0 <==> forall|path: Seq<char>|
            (match (#[trigger] value_at(before, path), value_at(after, path)) {
                (Some(b), Some(a)) => b@ == a@,
                (None, None) => true,
                _ => false,
            }),
{
    if changes.len() == 0 {
        assert forall|path: Seq<char>|
            (match (#[trigger] value_at(before, path), value_at(after, path)) {
                (Some(b), Some(a)) => b@ == a@,
                (None, None) => true,
                _ => false,
            }) by {
            assert(!has_key(changes, path));
            assert(value_at(changes, path) is None);
        }
    } else {
        let path = changes[0].0;
        assert(has_key(changes, path));
        assert(value_at(changes, path) is Some);
        let b = value_at(before, path);
        assert(change_of(value_at(before, path), value_at(after, path)) is Some);
    }
}

/// Read backwards, what was created was deleted, and what was modified was modified.
pub proof fn changes_read_backwards(
    before: Seq<(Seq<char>, FileHash)>,
    after: Seq<(Seq<char>, FileHash)>,
    forth: Seq<(Seq<char>, ChangeType)>,
    back: Seq<(Seq<char>, ChangeType)>,
    path: Seq<char>,
)
    requires
        are_changes(before, after, forth),
        are_changes(after, before, back),
    ensures
        value_at(forth, path) == Some(ChangeType::Created) <==> value_at(back, path) == Some(
            ChangeType::Deleted,
        ),
        value_at(forth, path) == Some(ChangeType::Modified) <==> value_at(back, path) == Some(
            ChangeType::Modified,
        ),
{
    assert(value_at(forth, path) == change_of(value_at(before, path), value_at(after, path)));
    assert(value_at(back, path) == change_of(value_at(after, path), value_at(before, path)));
}

/// What is said of a path: it was created where only the later state has it, deleted where only the
/// earlier state has it, and modified where both have it with different hashes. Nothing is said of
/// a path that both states have with the same hash, or that neither has.
pub proof fn changes_tell_states_apart(
    before: Seq<(Seq<char>, FileHash)>,
    after: Seq<(Seq<char>, FileHash)>,
    changes: Seq<(Seq<char>, ChangeType)>,
    path: Seq<char>,
)
    requires
        are_changes(before, after, changes),
    ensures
        value_at(changes, path) == Some(ChangeType::Created) <==> !has_key(before, path) && has_key(
            after,
            path,
        ),
        value_at(changes, path) == Some(ChangeType::Deleted) <==> has_key(before, path) && !has_key(
            after,
            path,
        ),
        value_at(changes, path) == Some(ChangeType::Modified) <==> has_key(before, path) && has_key(
            after,
            path,
        ) && value_at(before, path)->0@ != value_at(after, path)->0@,
        has_key(changes, path) <==> (has_key(before, path) != has_key(after, path) || (has_key(
            before,
            path,
        ) && value_at(before, path)->0@ != value_at(after, path)->0@)),
{
    assert(value_at(changes, path) == change_of(value_at(before, path), value_at(after, path)));
}

/// A path is hashed exactly where the walk came across a file there that is not left out.
pub proof fn files_that_count_are_hashed(entries: Seq<WalkedEntry>, path: Seq<char>)
    ensures
        walked_files(entries).contains(path) <==> exists|i: int|
            0 <= i < entries.len() && (#[trigger] entries[i]).is_file && !entries[i].ignored
                && entries[i].path@ == path,
    decreases entries.len(),
{
    if entries.len() > 0 {
        let rest = entries.drop_last();
        let n = rest.len() as int;
        files_that_count_are_hashed(rest, path);
        let before = walked_files(rest);
        let now = walked_files(entries);
        if before.contains(path) {
            let k = choose|k: int| 0 <= k < before.len() && before[k] == path;
            assert(now[k] == path);
        }
        if entries[n].is_file && !entries[n].ignored && entries[n].path@ == path {
            assert(now[before.len() as int] == path);
        }
        if now.contains(path) {
            let k = choose|k: int| 0 <= k < now.len() && now[k] == path;
            if k < before.len() {
                assert(before[k] == path);
                let i = choose|i: int|
                    0 <= i < rest.len() && (#[trigger] rest[i]).is_file && !rest[i].ignored
                        && rest[i].path@ == path;
                assert(entries[i] == rest[i]);
            } else {
                assert(entries[n].path@ == path);
            }
        }
        if exists|i: int|
            0 <= i < entries.len() && (#[trigger] entries[i]).is_file && !entries[i].ignored
                && entries[i].path@ == path {
            let i = choose|i: int|
                0 <= i < entries.len() && (#[trigger] entries[i]).is_file && !entries[i].ignored
                    && entries[i].path@ == path;
            if i < n {
                assert(rest[i] == entries[i]);
            }
        }
    }
}

/// A path is found with the hash that its file had, where the file could be hashed, and is not found
/// where it could not.
pub proof fn hashed_files_are_found(files: Seq<(String, Option<FileHash>)>, path: Seq<char>)
    requires
        forall|i: int, j: int|
            0 <= i < j < files.len() ==> (#[trigger] files[i]).0@ != (#[trigger] files[j]).0@,
    ensures
        forall|i: int|
            0 <= i < files.len() && (#[trigger] files[i]).0@ == path ==> value_at(
                hashed_files(files),
                path,
            ) == files[i].1,
        (forall|i: int| 0 <= i < files.len() ==> (#[trigger] files[i]).0@ != path) ==> value_at(
            hashed_files(files),
            path,
        ) is None,
    decreases files.len(),
{
    if files.len() > 0 {
        let rest = files.drop_last();
        let n = rest.len() as int;
        hashed_files_are_found(rest, path);
        let before = hashed_files(rest);
        if files[n].1 is Some {
            lemma_put(before, files[n].0@, files[n].1->0);
        }
        assert forall|i: int| 0 <= i < files.len() && (#[trigger] files[i]).0@ == path implies value_at(
            hashed_files(files),
            path,
        ) == files[i].1 by {
            if i < n {
                assert(rest[i] == files[i]);
                assert(files[i].0@ != files[n].0@);
            } else {
                assert forall|j: int| 0 <= j < rest.len() implies (#[trigger] rest[j]).0@ != path by {
                    assert(files[j].0@ != files[n].0@);
                }
            }
        }
        if forall|i: int| 0 <= i < files.len() ==> (#[trigger] files[i]).0@ != path {
            assert forall|j: int| 0 <= j < rest.len() implies (#[trigger] rest[j]).0@ != path by {
                assert(files[j] == rest[j]);
            }
            assert(files[n].0@ != path);
        }
    }
}

} // verus!
