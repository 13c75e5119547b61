//! Files and their hashes in branch documents.

use crate::branch_db::BranchDb;
use crate::content::{
    content_hash, source_at, BrokenEntry, FileContent, Hydrated, Source,
};
use crate::digest::{blake3_hash, FileHash};
use crate::document::{
    entries_at, get_all_bytes_at, get_at, get_now, get_obj_id_at, held, held_entries, held_keys,
    held_now, keys_at, object_under, root_id, winner, DocValue, Held, ObjectId,
};
use crate::fs_traversal::{are_changes, ChangeType, FileSystemTraversal};
use crate::history::{hash_views, ChangeHash, DocumentId, HistoryRef};
use crate::lists::reversed;
use crate::ordered::{distinct_keys, has_key, lemma_place, lemma_put, place, put, value_at};
use crate::table::Table;
use crate::text::{list_has, texts};
use vstd::prelude::*;
use vstd::utf8::*;

verus! {

/// The hash of a file, or what it has to be computed from.
#[derive(Debug)]
pub enum PendingHash {
    Hash(FileHash),
    /// The contents are in another document.
    Linked(DocumentId),
    /// The contents are a scene, whose parts have to be read out.
    Scene,
}

/// The hash of a file, or what it has to be computed from.
pub enum Pending {
    Hash(Seq<u8>),
    Linked(Seq<u8>),
    Scene,
}

impl View for PendingHash {
    type V = Pending;

    open spec fn view(&self) -> Pending {
        match *self {
            PendingHash::Hash(h) => Pending::Hash(h@),
            PendingHash::Linked(id) => Pending::Linked(id@),
            PendingHash::Scene => Pending::Scene,
        }
    }
}

/// The hash that is stored in a file's entry. Several stored hashes come from a conflict and are
/// all wrong, and so count for nothing.
pub open spec fn stored_hash(
    doc: automerge::Automerge,
    entry: Seq<u8>,
    heads: Seq<Seq<u8>>,
) -> Option<Seq<u8>> {
    match held(doc)[(entry, "hash"@, heads)] {
        Some(all) => if all.len() == 1 && all[0].0 is Bytes && all[0].0->Bytes_0.len() == 32 {
            Some(all[0].0->Bytes_0)
        } else {
            None
        },
        None => None,
    }
}

/// The hash of a file by its entry: the stored hash, or else the hash of the contents. Nothing
/// for contents that cannot be read.
pub open spec fn entry_pending(
    doc: automerge::Automerge,
    entry: Seq<u8>,
    heads: Seq<Seq<u8>>,
) -> Result<Option<Pending>, BrokenEntry> {
    match stored_hash(doc, entry, heads) {
        Some(hash) => Ok(Some(Pending::Hash(hash))),
        None => match source_at(doc, entry, heads) {
            Some(Source::Text(text)) => Ok(Some(Pending::Hash(blake3_hash(encode_utf8(text))))),
            Some(Source::Deleted) => Ok(Some(Pending::Hash(blake3_hash(Seq::empty())))),
            Some(Source::Scene) => Ok(Some(Pending::Scene)),
            Some(Source::Linked(id)) => Ok(Some(Pending::Linked(id))),
            Some(Source::Unreadable) => Ok(None),
            None => Err(BrokenEntry),
        },
    }
}

/// The hashes of the files with the given entries. An entry that is no object is passed over.
pub open spec fn pending_from(
    doc: automerge::Automerge,
    entries: Seq<(Seq<char>, bool, Seq<u8>)>,
    heads: Seq<Seq<u8>>,
) -> Result<Seq<(Seq<char>, Pending)>, BrokenEntry>
    decreases entries.len(),
{
    if entries.len() == 0 {
        Ok(Seq::empty())
    } else {
        match pending_from(doc, entries.drop_last(), heads) {
            Err(e) => Err(e),
            Ok(before) => if !entries.last().1 {
                Ok(before)
            } else {
                match entry_pending(doc, entries.last().2, heads) {
                    Err(e) => Err(e),
                    Ok(None) => Ok(before),
                    Ok(Some(p)) => Ok(before.push((entries.last().0, p))),
                }
            },
        }
    }
}

/// The hashes of a branch's files, nothing where the document has no files.
pub open spec fn pending_at(doc: automerge::Automerge, heads: Seq<Seq<u8>>) -> Result<
    Option<Seq<(Seq<char>, Pending)>>,
    BrokenEntry,
> {
    match object_under(doc, root_id(), "files"@, heads) {
        None => Ok(None),
        Some(files) => match pending_from(doc, held_entries(doc)[(files, heads)], heads) {
            Ok(p) => Ok(Some(p)),
            Err(e) => Err(e),
        },
    }
}

proof fn lemma_broken_stays(
    doc: automerge::Automerge,
    entries: Seq<(Seq<char>, bool, Seq<u8>)>,
    heads: Seq<Seq<u8>>,
    i: int,
)
    requires
        0 <= i <= entries.len(),
        pending_from(doc, entries.take(i), heads) is Err,
    ensures
        pending_from(doc, entries, heads) is Err,
    decreases entries.len() - i,
{
    if i < entries.len() {
        assert(entries.take(i + 1).drop_last() == entries.take(i));
        lemma_broken_stays(doc, entries, heads, i + 1);
    } else {
        assert(entries.take(i) == entries);
    }
}

/// The paths and hashes in a list.
pub open spec fn pending_views(list: Seq<(String, PendingHash)>) -> Seq<(Seq<char>, Pending)> {
    list.map_values(|p: (String, PendingHash)| (p.0@, p.1@))
}

/// The hash of a file by its entry in a branch document.
pub fn pending_hash(doc: &automerge::Automerge, entry: &ObjectId, heads: &Vec<ChangeHash>) -> (r:
    Result<Option<PendingHash>, BrokenEntry>)
    ensures
        (match r {
            Ok(Some(p)) => Ok(Some(p@)),
            Ok(None) => Ok(None),
            Err(e) => Err(e),
        }) == entry_pending(*doc, entry@, hash_views(heads@)),
{
    if let Ok(found) = get_all_bytes_at(doc, entry, "hash", heads) {
        // Several hashes come from a conflict: none of them can be trusted.
        if found.len() == 1 {
            let ghost first = found@[0];
            if let Some(bytes) = &found[0] {
                if let Some(hash) = FileHash::from_slice(bytes) {
                    return Ok(Some(PendingHash::Hash(hash)));
                }
            }
        }
    }
    match FileContent::hydrate_content_at(entry, doc, heads) {
        Err(e) => Err(e),
        Ok(Hydrated::Content(content)) => Ok(Some(PendingHash::Hash(content.to_hash()))),
        Ok(Hydrated::Scene) => Ok(Some(PendingHash::Scene)),
        Ok(Hydrated::Linked(id)) => Ok(Some(PendingHash::Linked(id))),
        Ok(Hydrated::Unreadable) => Ok(None),
    }
}

/// The hashes of a branch's files at the given heads, or what they have to be computed from.
pub fn pending_hashes(doc: &automerge::Automerge, heads: &Vec<ChangeHash>) -> (r: Result<
    Option<Vec<(String, PendingHash)>>,
    BrokenEntry,
>)
    ensures
        (match r {
            Ok(Some(p)) => Ok(Some(pending_views(p@))),
            Ok(None) => Ok(None),
            Err(e) => Err(e),
        }) == pending_at(*doc, hash_views(heads@)),
{
    let files = match get_obj_id_at(doc, &ObjectId::root(), "files", heads) {
        Some(id) => id,
        None => {
            return Ok(None);
        },
    };
    let entries = entries_at(doc, &files, heads);
    let ghost all = held_entries(*doc)[(files@, hash_views(heads@))];
    let mut out: Vec<(String, PendingHash)> = Vec::new();
    let mut i: usize = 0;
    assert(all.take(0) == Seq::<(Seq<char>, bool, Seq<u8>)>::empty());
    assert(pending_views(out@) == Seq::<(Seq<char>, Pending)>::empty());
    while i < entries.len()
        invariant
            i <= entries.len(),
            entries@.map_values(|e: (String, bool, ObjectId)| (e.0@, e.1, e.2@)) == all,
            pending_from(*doc, all.take(i as int), hash_views(heads@)) == Ok::<_, BrokenEntry>(
                pending_views(out@),
            ),
            object_under(*doc, root_id(), "files"@, hash_views(heads@)) == Some(files@),
            all == held_entries(*doc)[(files@, hash_views(heads@))],
        decreases entries.len() - i,
    {
        let entry = &entries[i];
        assert(all[i as int] == (entry.0@, entry.1, entry.2@));
        assert(all.take(i + 1).drop_last() == all.take(i as int));
        assert(all.take(i + 1).last() == all[i as int]);
        if entry.1 {
            match pending_hash(doc, &entry.2, heads) {
                Err(e) => {
                    proof {
                        lemma_broken_stays(*doc, all, hash_views(heads@), i + 1);
                    }
                    return Err(e);
                },
                Ok(None) => {},
                Ok(Some(p)) => {
                    let ghost before = out@;
                    let ghost view = p@;
                    out.push((entry.0.clone(), p));
                    assert(pending_views(out@) == pending_views(before).push((entry.0@, view)));
                },
            }
        }
        i = i + 1;
    }
    assert(all.take(all.len() as int) == all);
    Ok(Some(out))
}

/// The hashes in a table, by their bytes.
pub open spec fn hash_bytes(t: Seq<(Seq<char>, FileHash)>) -> Seq<(Seq<char>, Seq<u8>)> {
    t.map_values(|e: (Seq<char>, FileHash)| (e.0, e.1@))
}

/// The hash that a file ends up with, given the contents that were fetched for it; none where the
/// contents could not be fetched.
pub open spec fn resolved_hash(pending: Pending, content: Option<FileContent>) -> Option<Seq<u8>> {
    match pending {
        Pending::Hash(hash) => Some(hash),
        _ => match content {
            Some(c) => Some(content_hash(c)),
            None => None,
        },
    }
}

/// The hash index made of the files' hashes, without the ignored files.
pub open spec fn index_from(
    pending: Seq<(Seq<char>, Pending)>,
    ignored: Seq<bool>,
    contents: Seq<Option<FileContent>>,
) -> Seq<(Seq<char>, Seq<u8>)>
    decreases pending.len(),
{
    if pending.len() == 0 {
        Seq::empty()
    } else {
        let n = pending.len() - 1;
        let before = index_from(pending.drop_last(), ignored, contents);
        if ignored[n] {
            before
        } else {
            match resolved_hash(pending[n].1, contents[n]) {
                Some(hash) => put(before, pending[n].0, hash),
                None => before,
            }
        }
    }
}

proof fn lemma_put_bytes(t: Seq<(Seq<char>, FileHash)>, key: Seq<char>, hash: FileHash)
    ensures
        hash_bytes(put(t, key, hash)) == put(hash_bytes(t), key, hash@),
{
    let b = hash_bytes(t);
    lemma_place(t, key);
    lemma_place(b, key);
    if has_key(t, key) {
        assert(b[place(t, key)].0 == key);
        if place(b, key) < place(t, key) {
            assert(t[place(b, key)].0 == b[place(b, key)].0);
        }
    } else if has_key(b, key) {
        assert(t[place(b, key)].0 == b[place(b, key)].0);
    }
    assert(hash_bytes(put(t, key, hash)) == put(b, key, hash@));
}

impl BranchDb {
    /// The hash index of a branch, from the files' hashes, whether each file is ignored, and the
    /// contents that were fetched for the files whose hash is not known yet.
    pub fn get_hash_index(
        pending: &Vec<(String, PendingHash)>,
        ignored: &Vec<bool>,
        contents: &Vec<Option<FileContent>>,
    ) -> (r: Table<FileHash>)
        requires
            ignored.len() == pending.len(),
            contents.len() == pending.len(),
        ensures
            hash_bytes(r@) == index_from(pending_views(pending@), ignored@, contents@),
    {
        let mut index: Table<FileHash> = Table::new();
        let ghost views = pending_views(pending@);
        let mut i: usize = 0;
        assert(views.take(0) == Seq::<(Seq<char>, Pending)>::empty());
        assert(hash_bytes(index@) == Seq::<(Seq<char>, Seq<u8>)>::empty());
        while i < pending.len()
            invariant
                i <= pending.len(),
                ignored.len() == pending.len(),
                contents.len() == pending.len(),
                views == pending_views(pending@),
                hash_bytes(index@) == index_from(views.take(i as int), ignored@, contents@),
            decreases pending.len() - i,
        {
            assert(views.take(i + 1).drop_last() == views.take(i as int));
            assert(views.take(i + 1)[i as int] == views[i as int]);
            if !ignored[i] {
                let hash = match &pending[i].1 {
                    PendingHash::Hash(hash) => Some(*hash),
                    _ => match &contents[i] {
                        Some(content) => Some(content.to_hash()),
                        None => None,
                    },
                };
                match hash {
                    Some(hash) => {
                        proof {
                            lemma_put_bytes(index@, pending@[i as int].0@, hash);
                        }
                        index.insert(pending[i].0.clone(), hash);
                    },
                    None => {},
                }
            }
            i = i + 1;
        }
        assert(views.take(views.len() as int) == views);
        index
    }
}

impl BranchDb {
    /// The changes between two points in a branch's history, from the hash index at each. Nothing
    /// where the new reference names no change or an index is missing; without a valid old reference
    /// every file counts as created.
    pub fn get_changed_files_between_refs(
        old_ref: Option<&HistoryRef>,
        new_ref: &HistoryRef,
        new_index: Option<&Table<FileHash>>,
        old_index: Option<&Table<FileHash>>,
    ) -> (r: Option<Table<ChangeType>>)
        ensures
            (old_ref matches Some(o) && o.valid()) ==> (r is Some <==> new_ref.valid()
                && new_index is Some && old_index is Some),
            !(old_ref matches Some(o) && o.valid()) ==> (r is Some <==> new_ref.valid()
                && new_index is Some),
            r matches Some(changes) ==> are_changes(
                (if old_ref matches Some(o) && o.valid() {
                    old_index->0@
                } else {
                    Seq::empty()
                }),
                new_index->0@,
                changes@,
            ),
    {
        if !new_ref.is_valid() {
            return None;
        }
        let new_index = match new_index {
            Some(index) => index,
            None => {
                return None;
            },
        };
        let no_old = match old_ref {
            Some(old_ref) => !old_ref.is_valid(),
            None => true,
        };
        if no_old {
            let nothing: Table<FileHash> = Table::new();
            return Some(FileSystemTraversal::get_file_changes(&nothing, new_index));
        }
        match old_index {
            Some(old_index) => Some(FileSystemTraversal::get_file_changes(old_index, new_index)),
            None => None,
        }
    }

    /// The contents of a file that has a document of its own: bytes or a string.
    pub fn get_linked_file(doc: &automerge::Automerge) -> (r: Option<FileContent>)
        ensures
            match held_now(*doc)["content"@] {
                Some(Held::Bytes(b)) => r matches Some(FileContent::Binary(data)) && data@ == b,
                Some(Held::Str(s)) => r matches Some(FileContent::String(text)) && text@ == s,
                _ => r is None,
            },
    {
        match get_now(doc, "content") {
            Some(DocValue::Bytes(data)) => Some(FileContent::Binary(data)),
            Some(DocValue::Str(text)) => Some(FileContent::String(text)),
            _ => None,
        }
    }
}

/// The path passes the filters; no filters let every path pass.
pub open spec fn passes(filters: Seq<Seq<char>>, path: Seq<char>) -> bool {
    filters.len() == 0 || filters.contains(path)
}

/// The files with the given paths, and how the contents of each are found. A path that does not
/// pass the filters, whose entry is no map, or whose contents cannot be read is passed over.
pub open spec fn sources_from(
    doc: automerge::Automerge,
    files: Seq<u8>,
    paths: Seq<Seq<char>>,
    heads: Seq<Seq<u8>>,
    filters: Seq<Seq<char>>,
) -> Result<Seq<(Seq<char>, Source)>, BrokenEntry>
    decreases paths.len(),
{
    if paths.len() == 0 {
        Ok(Seq::empty())
    } else {
        match sources_from(doc, files, paths.drop_last(), heads, filters) {
            Err(e) => Err(e),
            Ok(before) => match winner(doc, files, paths.last(), heads) {
                Some((Held::Keyed, entry)) => if !passes(filters, paths.last()) {
                    Ok(before)
                } else {
                    match source_at(doc, entry, heads) {
                        None => Err(BrokenEntry),
                        Some(Source::Unreadable) => Ok(before),
                        Some(source) => Ok(before.push((paths.last(), source))),
                    }
                },
                _ => Ok(before),
            },
        }
    }
}

/// The files of a branch, and how the contents of each are found; nothing where the document has
/// no files.
pub open spec fn sources_at(
    doc: automerge::Automerge,
    heads: Seq<Seq<u8>>,
    filters: Seq<Seq<char>>,
) -> Result<Option<Seq<(Seq<char>, Source)>>, BrokenEntry> {
    match winner(doc, root_id(), "files"@, heads) {
        None => Ok(None),
        Some(files) => match sources_from(
            doc,
            files.1,
            held_keys(doc)[(files.1, heads)],
            heads,
            filters,
        ) {
            Ok(s) => Ok(Some(s)),
            Err(e) => Err(e),
        },
    }
}

/// The paths and sources in a list.
pub open spec fn source_views(list: Seq<(String, Hydrated)>) -> Seq<(Seq<char>, Source)> {
    list.map_values(|p: (String, Hydrated)| (p.0@, p.1@))
}

proof fn lemma_broken_source_stays(
    doc: automerge::Automerge,
    files: Seq<u8>,
    paths: Seq<Seq<char>>,
    heads: Seq<Seq<u8>>,
    filters: Seq<Seq<char>>,
    i: int,
)
    requires
        0 <= i <= paths.len(),
        sources_from(doc, files, paths.take(i), heads, filters) is Err,
    ensures
        sources_from(doc, files, paths, heads, filters) is Err,
    decreases paths.len() - i,
{
    if i < paths.len() {
        assert(paths.take(i + 1).drop_last() == paths.take(i));
        lemma_broken_source_stays(doc, files, paths, heads, filters, i + 1);
    } else {
        assert(paths.take(i) == paths);
    }
}

/// The files of a branch at the given heads, and how the contents of each are found. With
/// filters, only the files that they name.
pub fn file_sources(
    doc: &automerge::Automerge,
    heads: &Vec<ChangeHash>,
    filters: &Vec<String>,
) -> (r: Result<Option<Vec<(String, Hydrated)>>, BrokenEntry>)
    ensures
        (match r {
            Ok(Some(s)) => Ok(Some(source_views(s@))),
            Ok(None) => Ok(None),
            Err(e) => Err(e),
        }) == sources_at(*doc, hash_views(heads@), texts(filters@)),
        r matches Ok(Some(s)) ==> forall|i: int|
            0 <= i < s.len() ==> ((#[trigger] s@[i]).1 matches Hydrated::Content(c) ==> c is String
                || c is Deleted),
{
    let files = match get_at(doc, &ObjectId::root(), "files", heads) {
        Ok(Some((_, id))) => id,
        _ => {
            return Ok(None);
        },
    };
    let paths = keys_at(doc, &files, heads);
    let ghost hs = hash_views(heads@);
    let ghost fs = texts(filters@);
    let ghost all = held_keys(*doc)[(files@, hs)];
    let mut out: Vec<(String, Hydrated)> = Vec::new();
    let mut i: usize = 0;
    assert(all.take(0) == Seq::<Seq<char>>::empty());
    assert(source_views(out@) == Seq::<(Seq<char>, Source)>::empty());
    while i < paths.len()
        invariant
            i <= paths.len(),
            hs == hash_views(heads@),
            fs == texts(filters@),
            paths@.map_values(|s: String| s@) == all,
            all == held_keys(*doc)[(files@, hs)],
            winner(*doc, root_id(), "files"@, hs) matches Some(w) && w.1 == files@,
            sources_from(*doc, files@, all.take(i as int), hs, fs) == Ok::<_, BrokenEntry>(
                source_views(out@),
            ),
            forall|j: int|
                0 <= j < out.len() ==> ((#[trigger] out@[j]).1 matches Hydrated::Content(c)
                    ==> c is String || c is Deleted),
        decreases paths.len() - i,
    {
        let path = &paths[i];
        assert(all[i as int] == path@);
        assert(all.take(i + 1).drop_last() == all.take(i as int));
        assert(all.take(i + 1).last() == path@);
        if filters.len() == 0 || list_has(filters, path.as_str()) {
            if let Ok(Some((DocValue::Keyed, entry))) = get_at(doc, &files, path.as_str(), heads) {
                match FileContent::hydrate_content_at(&entry, doc, heads) {
                    Err(e) => {
                        proof {
                            lemma_broken_source_stays(*doc, files@, all, hs, fs, i + 1);
                        }
                        return Err(e);
                    },
                    Ok(Hydrated::Unreadable) => {},
                    Ok(source) => {
                        let ghost before = out@;
                        let ghost view = source@;
                        out.push((path.clone(), source));
                        assert(source_views(out@) == source_views(before).push((path@, view)));
                    },
                }
            }
        }
        i = i + 1;
    }
    assert(all.take(all.len() as int) == all);
    Ok(Some(out))
}

/// The contents that a source gives, with those that were fetched for it.
pub open spec fn resolved_content(source: Hydrated, fetched: Option<FileContent>) -> Option<
    FileContent,
> {
    match source {
        Hydrated::Content(content) => Some(content),
        Hydrated::Unreadable => None,
        _ => fetched,
    }
}

/// The files with their contents.
pub open spec fn files_from(
    sources: Seq<(String, Hydrated)>,
    fetched: Seq<Option<FileContent>>,
) -> Seq<(Seq<char>, FileContent)>
    decreases sources.len(),
{
    if sources.len() == 0 {
        Seq::empty()
    } else {
        let n = sources.len() - 1;
        let before = files_from(sources.drop_last(), fetched);
        match resolved_content(sources[n].1, fetched[n]) {
            Some(content) => put(before, sources[n].0@, content),
            None => before,
        }
    }
}

impl BranchDb {
    /// The contents of a branch's files, from how they are found and from the contents that were
    /// fetched for scenes and linked files. A file whose contents could not be fetched is left out.
    pub fn get_files_at_ref(
        sources: Vec<(String, Hydrated)>,
        fetched: Vec<Option<FileContent>>,
    ) -> (r: Table<FileContent>)
        requires
            fetched.len() == sources.len(),
        ensures
            r@ == files_from(sources@, fetched@),
    {
        let mut files: Table<FileContent> = Table::new();
        let ghost all_sources = sources@;
        let ghost all_fetched = fetched@;
        let n = sources.len();
        let mut sources = reversed(sources);
        let mut fetched = reversed(fetched);
        let mut i: usize = 0;
        assert(all_sources.take(0) == Seq::<(String, Hydrated)>::empty());
        while sources.len() > 0
            invariant
                n == all_sources.len(),
                n == all_fetched.len(),
                i + sources.len() == n,
                sources@ == all_sources.reverse().take(sources.len() as int),
                fetched@ == all_fetched.reverse().take(sources.len() as int),
                files@ == files_from(all_sources.take(i as int), all_fetched),
            decreases sources.len(),
        {
            assert(all_sources.take(i + 1).drop_last() == all_sources.take(i as int));
            if let (Some((path, how)), Some(content)) = (sources.pop(), fetched.pop()) {
                assert((path, how) == all_sources[i as int]);
                assert(content == all_fetched[i as int]);
                let part = match how {
                    Hydrated::Content(c) => Some(c),
                    Hydrated::Unreadable => None,
                    _ => content,
                };
                if let Some(content) = part {
                    files.insert(path, content);
                }
            }
            i = i + 1;
        }
        assert(all_sources.take(n as int) == all_sources);
        files
    }
}

/// A file with a readable entry is among those that are read exactly where there are no filters or
/// one of them, at whatever place, is its path; with the filters no file that they do not name is
/// read, and no file is made up.
pub proof fn filters_name_the_files(
    doc: automerge::Automerge,
    files: Seq<u8>,
    paths: Seq<Seq<char>>,
    heads: Seq<Seq<u8>>,
    filters: Seq<Seq<char>>,
    path: Seq<char>,
    source: Source,
)
    requires
        sources_from(doc, files, paths, heads, filters) is Ok,
    ensures
        sources_from(doc, files, paths, heads, filters)->Ok_0.contains((path, source))
            <==> paths.contains(path) && (filters.len() == 0 || filters.contains(path)) && source
            != Source::Unreadable && (winner(doc, files, path, heads) matches Some(
            (Held::Keyed, entry),
        ) && source_at(doc, entry, heads) == Some(source)),
    decreases paths.len(),
{
    if paths.len() > 0 {
        let rest = paths.drop_last();
        filters_name_the_files(doc, files, rest, heads, filters, path, source);
        assert(paths == rest.push(paths.last()));
        lemma_one_more(rest, paths.last(), path);
        let before = sources_from(doc, files, rest, heads, filters)->Ok_0;
        let now = sources_from(doc, files, paths, heads, filters)->Ok_0;
        if now.len() > before.len() {
            lemma_one_more(before, now.last(), (path, source));
            assert(now == before.push(now.last()));
        }
    }
}

proof fn lemma_one_more<T>(s: Seq<T>, last: T, x: T)
    ensures
        s.push(last).contains(x) <==> s.contains(x) || last == x,
{
    let t = s.push(last);
    if s.contains(x) {
        let i = choose|i: int| 0 <= i < s.len() && s[i] == x;
        assert(t[i] == x);
    }
    if last == x {
        assert(t[s.len() as int] == x);
    }
    if t.contains(x) {
        let i = choose|i: int| 0 <= i < t.len() && t[i] == x;
        if i < s.len() {
            assert(s[i] == x);
        }
    }
}

/// With filters the same files are read as without, in the same order, but for those that no filter
/// names. Where all files can be read without filters, they can be read with any.
pub proof fn filters_leave_out_other_files(
    doc: automerge::Automerge,
    files: Seq<u8>,
    paths: Seq<Seq<char>>,
    heads: Seq<Seq<u8>>,
    filters: Seq<Seq<char>>,
)
    requires
        filters.len() > 0,
        sources_from(doc, files, paths, heads, Seq::empty()) is Ok,
    ensures
        sources_from(doc, files, paths, heads, filters) == Ok::<_, BrokenEntry>(
            sources_from(doc, files, paths, heads, Seq::empty())->Ok_0.filter(
                |f: (Seq<char>, Source)| filters.contains(f.0),
            ),
        ),
    decreases paths.len(),
{
    reveal(Seq::filter);
    let none = Seq::<Seq<char>>::empty();
    let named = |f: (Seq<char>, Source)| filters.contains(f.0);
    if paths.len() > 0 {
        let rest = paths.drop_last();
        filters_leave_out_other_files(doc, files, rest, heads, filters);
        let before = sources_from(doc, files, rest, heads, none)->Ok_0;
        let now = sources_from(doc, files, paths, heads, none)->Ok_0;
        if now.len() > before.len() {
            assert(now.drop_last() == before);
        }
    }
}

/// Filters that name the same files give the same result, whatever their order and however often
/// each stands among them.
pub proof fn the_order_of_filters_makes_no_difference(
    doc: automerge::Automerge,
    heads: Seq<Seq<u8>>,
    one: Seq<Seq<char>>,
    other: Seq<Seq<char>>,
)
    requires
        one.len() > 0 <==> other.len() > 0,
        forall|path: Seq<char>| #[trigger] one.contains(path) <==> other.contains(path),
    ensures
        sources_at(doc, heads, one) == sources_at(doc, heads, other),
{
    if let Some(files) = winner(doc, root_id(), "files"@, heads) {
        lemma_same_filters(doc, files.1, held_keys(doc)[(files.1, heads)], heads, one, other);
    }
}

proof fn lemma_same_filters(
    doc: automerge::Automerge,
    files: Seq<u8>,
    paths: Seq<Seq<char>>,
    heads: Seq<Seq<u8>>,
    one: Seq<Seq<char>>,
    other: Seq<Seq<char>>,
)
    requires
        one.len() > 0 <==> other.len() > 0,
        forall|path: Seq<char>| #[trigger] one.contains(path) <==> other.contains(path),
    ensures
        sources_from(doc, files, paths, heads, one) == sources_from(
            doc,
            files,
            paths,
            heads,
            other,
        ),
    decreases paths.len(),
{
    if paths.len() > 0 {
        lemma_same_filters(doc, files, paths.drop_last(), heads, one, other);
        assert(one.contains(paths.last()) <==> other.contains(paths.last()));
    }
}

/// Filters that name every file give all files, as no filters do.
pub proof fn naming_every_file_is_naming_none(
    doc: automerge::Automerge,
    heads: Seq<Seq<u8>>,
    kind: Held,
    files: Seq<u8>,
)
    requires
        winner(doc, root_id(), "files"@, heads) == Some((kind, files)),
    ensures
        sources_at(doc, heads, held_keys(doc)[(files, heads)]) == sources_at(
            doc,
            heads,
            Seq::empty(),
        ),
{
    let paths = held_keys(doc)[(files, heads)];
    lemma_all_named(doc, files, paths, heads, paths.len() as int);
    assert(paths.take(paths.len() as int) == paths);
}

proof fn lemma_all_named(
    doc: automerge::Automerge,
    files: Seq<u8>,
    paths: Seq<Seq<char>>,
    heads: Seq<Seq<u8>>,
    n: int,
)
    requires
        0 <= n <= paths.len(),
    ensures
        sources_from(doc, files, paths.take(n), heads, paths) == sources_from(
            doc,
            files,
            paths.take(n),
            heads,
            Seq::empty(),
        ),
    decreases n,
{
    if n > 0 {
        lemma_all_named(doc, files, paths, heads, n - 1);
        assert(paths.take(n).drop_last() == paths.take(n - 1));
        assert(paths.take(n).last() == paths[n - 1]);
        assert(paths.contains(paths[n - 1]));
    }
}

/// Reading the files fails exactly where the entry of one that is asked for is broken.
pub proof fn a_broken_entry_fails_the_read(
    doc: automerge::Automerge,
    files: Seq<u8>,
    paths: Seq<Seq<char>>,
    heads: Seq<Seq<u8>>,
    filters: Seq<Seq<char>>,
)
    ensures
        sources_from(doc, files, paths, heads, filters) is Err <==> exists|i: int|
            0 <= i < paths.len() && (filters.len() == 0 || filters.contains(#[trigger] paths[i]))
                && (winner(doc, files, paths[i], heads) matches Some((Held::Keyed, entry))
                && source_at(doc, entry, heads) is None),
    decreases paths.len(),
{
    if paths.len() > 0 {
        let rest = paths.drop_last();
        let n = rest.len() as int;
        a_broken_entry_fails_the_read(doc, files, rest, heads, filters);
        assert forall|i: int| 0 <= i < n implies paths[i] == #[trigger] rest[i] by {}
        if sources_from(doc, files, rest, heads, filters) is Err {
            let i = choose|i: int|
                0 <= i < rest.len() && (filters.len() == 0 || filters.contains(#[trigger] rest[i]))
                    && (winner(doc, files, rest[i], heads) matches Some((Held::Keyed, entry))
                    && source_at(doc, entry, heads) is None);
            assert(paths[i] == rest[i]);
        } else if exists|i: int|
            0 <= i < paths.len() && (filters.len() == 0 || filters.contains(#[trigger] paths[i]))
                && (winner(doc, files, paths[i], heads) matches Some((Held::Keyed, entry))
                && source_at(doc, entry, heads) is None) {
            let i = choose|i: int|
                0 <= i < paths.len() && (filters.len() == 0 || filters.contains(
                    #[trigger] paths[i],
                )) && (winner(doc, files, paths[i], heads) matches Some((Held::Keyed, entry))
                    && source_at(doc, entry, heads) is None);
            if i < n {
                assert(rest[i] == paths[i]);
            }
        } else {
            assert(paths[n] == paths.last());
        }
    }
}

/// The hash of a file comes from its entry: a single stored hash of the right length counts as it
/// stands. Without one, or where several were stored at once, the hash is that of what the entry
/// holds.
pub proof fn one_stored_hash_is_trusted(
    doc: automerge::Automerge,
    entry: Seq<u8>,
    heads: Seq<Seq<u8>>,
)
    ensures
        match held(doc)[(entry, "hash"@, heads)] {
            Some(all) => {
                &&& all.len() == 1 ==> (match all[0].0 {
                    Held::Bytes(hash) => hash.len() == 32 ==> entry_pending(doc, entry, heads)
                        == Ok::<_, BrokenEntry>(Some(Pending::Hash(hash))),
                    _ => true,
                })
                &&& (all.len() != 1 || !(all[0].0 is Bytes) || all[0].0->Bytes_0.len() != 32)
                    ==> is_pending_of(source_at(doc, entry, heads), entry_pending(doc, entry, heads))
            },
            None => is_pending_of(source_at(doc, entry, heads), entry_pending(doc, entry, heads)),
        },
{
}

/// The hash of a file is computed from what its entry holds: its text, nothing for a deleted file,
/// or what has to be fetched first.
pub open spec fn is_pending_of(
    source: Option<Source>,
    pending: Result<Option<Pending>, BrokenEntry>,
) -> bool {
    match source {
        Some(Source::Text(text)) => pending == Ok::<_, BrokenEntry>(
            Some(Pending::Hash(blake3_hash(encode_utf8(text)))),
        ),
        Some(Source::Deleted) => pending == Ok::<_, BrokenEntry>(
            Some(Pending::Hash(blake3_hash(Seq::empty()))),
        ),
        Some(Source::Scene) => pending == Ok::<_, BrokenEntry>(Some(Pending::Scene)),
        Some(Source::Linked(id)) => pending == Ok::<_, BrokenEntry>(Some(Pending::Linked(id))),
        Some(Source::Unreadable) => pending == Ok::<_, BrokenEntry>(None::<Pending>),
        None => pending is Err,
    }
}

/// A branch's files are what its document holds under `files`; a document without that has none.
pub proof fn the_files_are_under_one_key(
    doc: automerge::Automerge,
    heads: Seq<Seq<u8>>,
    filters: Seq<Seq<char>>,
    files: Seq<u8>,
)
    ensures
        winner(doc, seq![0u8], "files"@, heads) is None ==> sources_at(doc, heads, filters)
            == Ok::<_, BrokenEntry>(None::<Seq<(Seq<char>, Source)>>) && pending_at(doc, heads)
            == Ok::<_, BrokenEntry>(None::<Seq<(Seq<char>, Pending)>>),
        winner(doc, seq![0u8], "files"@, heads) == Some((Held::Keyed, files)) ==> {
            &&& sources_at(doc, heads, filters) is Err <==> sources_from(
                doc,
                files,
                held_keys(doc)[(files, heads)],
                heads,
                filters,
            ) is Err
            &&& sources_at(doc, heads, filters) is Ok ==> sources_at(doc, heads, filters)->Ok_0
                == Some(
                sources_from(
                    doc,
                    files,
                    held_keys(doc)[(files, heads)],
                    heads,
                    filters,
                )->Ok_0,
            )
            &&& pending_at(doc, heads) is Err <==> pending_from(
                doc,
                held_entries(doc)[(files, heads)],
                heads,
            ) is Err
            &&& pending_at(doc, heads) is Ok ==> pending_at(doc, heads)->Ok_0 == Some(
                pending_from(doc, held_entries(doc)[(files, heads)], heads)->Ok_0,
            )
        },
{
}

/// Every file whose entry is an object that says something of its hash is in the list, and no other.
pub proof fn every_entry_is_hashed(
    doc: automerge::Automerge,
    entries: Seq<(Seq<char>, bool, Seq<u8>)>,
    heads: Seq<Seq<u8>>,
    path: Seq<char>,
    pending: Pending,
)
    requires
        pending_from(doc, entries, heads) is Ok,
    ensures
        pending_from(doc, entries, heads)->Ok_0.contains((path, pending)) <==> exists|
            entry: Seq<u8>,
        |
            #[trigger] entries.contains((path, true, entry)) && entry_pending(doc, entry, heads)
                == Ok::<_, BrokenEntry>(Some(pending)),
    decreases entries.len(),
{
    if entries.len() > 0 {
        let rest = entries.drop_last();
        let last = entries.last();
        every_entry_is_hashed(doc, rest, heads, path, pending);
        assert(entries == rest.push(last));
        assert forall|entry: Seq<u8>| #[trigger]
            entries.contains((path, true, entry)) <==> rest.contains((path, true, entry)) || last
            == (path, true, entry) by {
            lemma_one_more(rest, last, (path, true, entry));
        }
        let before = pending_from(doc, rest, heads)->Ok_0;
        let now = pending_from(doc, entries, heads)->Ok_0;
        if now.len() > before.len() {
            lemma_one_more(before, now.last(), (path, pending));
            assert(now == before.push(now.last()));
        }
        if last.0 == path && last.1 {
            assert(entries.contains((path, true, last.2)));
        }
        if before.contains((path, pending)) {
            let entry = choose|entry: Seq<u8>|
                #[trigger] rest.contains((path, true, entry)) && entry_pending(doc, entry, heads)
                    == Ok::<_, BrokenEntry>(Some(pending));
            assert(entries.contains((path, true, entry)));
        }
    }
}

/// The hash index has the hash of each file that is not ignored: the known one, or else that of the
/// contents that were fetched. A file that is ignored, or whose contents could not be fetched, is
/// not in it.
pub proof fn the_index_has_every_file(
    pending: Seq<(Seq<char>, Pending)>,
    ignored: Seq<bool>,
    contents: Seq<Option<FileContent>>,
    i: int,
)
    requires
        ignored.len() == pending.len(),
        contents.len() == pending.len(),
        distinct_keys(pending),
        0 <= i < pending.len(),
    ensures
        value_at(index_from(pending, ignored, contents), pending[i].0) == (if ignored[i] {
            None
        } else {
            match pending[i].1 {
                Pending::Hash(hash) => Some(hash),
                Pending::Linked(_) => match contents[i] {
                    Some(content) => Some(content_hash(content)),
                    None => None,
                },
                Pending::Scene => match contents[i] {
                    Some(content) => Some(content_hash(content)),
                    None => None,
                },
            }
        }),
{
    lemma_index(pending, ignored, contents, i, pending.len() as int);
    assert(pending.take(pending.len() as int) == pending);
}

proof fn lemma_index(
    pending: Seq<(Seq<char>, Pending)>,
    ignored: Seq<bool>,
    contents: Seq<Option<FileContent>>,
    i: int,
    n: int,
)
    requires
        ignored.len() == pending.len(),
        contents.len() == pending.len(),
        distinct_keys(pending),
        0 <= i < pending.len(),
        0 <= n <= pending.len(),
    ensures
        value_at(index_from(pending.take(n), ignored, contents), pending[i].0) == (if i >= n
            || ignored[i] {
            None
        } else {
            resolved_hash(pending[i].1, contents[i])
        }),
    decreases n,
{
    if n > 0 {
        lemma_index(pending, ignored, contents, i, n - 1);
        assert(pending.take(n).drop_last() == pending.take(n - 1));
        assert(pending.take(n)[n - 1] == pending[n - 1]);
        let before = index_from(pending.take(n - 1), ignored, contents);
        match resolved_hash(pending[n - 1].1, contents[n - 1]) {
            Some(hash) => {
                lemma_put(before, pending[n - 1].0, hash);
            },
            None => {},
        }
        if i < n - 1 {
            assert(pending[i].0 != pending[n - 1].0);
        } else if i > n - 1 {
            assert(pending[n - 1].0 != pending[i].0);
        }
    }
}

/// The files that are read have their contents: those in the entry, or else those that were fetched.
/// A file whose contents could not be fetched is left out, and no other.
pub proof fn every_file_has_its_contents(
    sources: Seq<(String, Hydrated)>,
    fetched: Seq<Option<FileContent>>,
    i: int,
)
    requires
        fetched.len() == sources.len(),
        forall|a: int, b: int|
            0 <= a < b < sources.len() ==> (#[trigger] sources[a]).0@ != (#[trigger] sources[b]).0@,
        0 <= i < sources.len(),
    ensures
        value_at(files_from(sources, fetched), sources[i].0@) == (match sources[i].1 {
            Hydrated::Content(content) => Some(content),
            Hydrated::Scene => fetched[i],
            Hydrated::Linked(_) => fetched[i],
            Hydrated::Unreadable => None,
        }),
{
    lemma_files(sources, fetched, i, sources.len() as int);
    assert(sources.take(sources.len() as int) == sources);
}

proof fn lemma_files(
    sources: Seq<(String, Hydrated)>,
    fetched: Seq<Option<FileContent>>,
    i: int,
    n: int,
)
    requires
        fetched.len() == sources.len(),
        forall|a: int, b: int|
            0 <= a < b < sources.len() ==> (#[trigger] sources[a]).0@ != (#[trigger] sources[b]).0@,
        0 <= i < sources.len(),
        0 <= n <= sources.len(),
    ensures
        value_at(files_from(sources.take(n), fetched), sources[i].0@) == (if i >= n {
            None
        } else {
            resolved_content(sources[i].1, fetched[i])
        }),
    decreases n,
{
    if n > 0 {
        lemma_files(sources, fetched, i, n - 1);
        assert(sources.take(n).drop_last() == sources.take(n - 1));
        assert(sources.take(n)[n - 1] == sources[n - 1]);
        let before = files_from(sources.take(n - 1), fetched);
        match resolved_content(sources[n - 1].1, fetched[n - 1]) {
            Some(content) => {
                lemma_put(before, sources[n - 1].0@, content);
            },
            None => {},
        }
        if i < n - 1 {
            assert(sources[i].0@ != sources[n - 1].0@);
        } else if i > n - 1 {
            assert(sources[n - 1].0@ != sources[i].0@);
        }
    }
}

} // verus!
