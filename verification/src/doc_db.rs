//! The documents that are in memory, by their ids.

use crate::clockument::SedimentreeId;
use crate::document::{contents_of, current_heads, DocContents};
use crate::history::{hash_text, hash_views, ChangeHash};
use crate::text::joined;
use vstd::prelude::*;

verus! {

/// What can be read in a document once given bytes are loaded into it; nothing where the bytes cannot
/// be loaded.
pub uninterp spec fn loaded(doc: automerge::Automerge) -> Map<Seq<u8>, Option<DocContents>>;

/// The document has no history, and no changes that wait for others.
pub uninterp spec fn is_blank(doc: automerge::Automerge) -> bool;

/// The parts into which the history of a document is cut, oldest first: the head of each, the
/// changes before it that it rests on, and its checkpoints.
pub uninterp spec fn fragments_in(doc: automerge::Automerge) -> Seq<
    (Seq<u8>, Seq<Seq<u8>>, Seq<Seq<u8>>),
>;

/// The encoded parts of the history of a document. A part that cannot be encoded is left out.
pub uninterp spec fn bundles_in(doc: automerge::Automerge) -> Seq<Seq<u8>>;

/// `automerge::Automerge::new`: a document without history.
#[verifier::external_body]
fn new_document() -> (r: automerge::Automerge)
    ensures
        is_blank(r),
        current_heads(r).len() == 0,
{
    automerge::Automerge::new()
}

/// `automerge::Automerge::load_incremental`: takes up the changes that the bytes encode. What can be
/// read in the document then depends on the document and the bytes alone, also where the bytes, or
/// some of them, make no sense, of which nothing is told. Changes that contradict themselves, such as
/// one that writes to an object that nobody made, make it panic; the bytes can be loaded where it
/// does not.
#[verifier::external_body]
fn load_incremental(doc: &mut automerge::Automerge, bytes: &Vec<u8>)
    requires
        loaded(*old(doc))[bytes@] is Some,
    ensures
        loaded(*old(doc))[bytes@] == Some(contents_of(*final(doc))),
{
    let _ = doc.load_incremental(bytes);
}

/// `automerge::Automerge::fragments` over all levels: the parts into which the history is cut.
#[verifier::external_body]
fn fragments(doc: &automerge::Automerge) -> (r: Vec<DocFragment>)
    ensures
        fragment_views(r@) == fragments_in(*doc),
{
    let hashes = |all: Vec<automerge::ChangeHash>| all.into_iter().map(
        |h| ChangeHash { bytes: h.0 },
    ).collect();
    doc.fragments(..).into_iter().map(|f| DocFragment {
        head: ChangeHash { bytes: f.head.0 },
        boundary: hashes(f.boundary),
        checkpoints: hashes(f.checkpoints),
    }).collect()
}

/// `automerge::Automerge::bundle_fragments` of all fragments: the encoded parts of the history.
#[verifier::external_body]
fn bundle_fragments(doc: &automerge::Automerge) -> (r: Vec<Vec<u8>>)
    ensures
        r@.map_values(|b: Vec<u8>| b@) == bundles_in(*doc),
{
    doc.bundle_fragments(doc.fragments(..))
}

/// A part of the history of a document.
#[derive(Debug)]
pub struct DocFragment {
    pub head: ChangeHash,
    pub boundary: Vec<ChangeHash>,
    pub checkpoints: Vec<ChangeHash>,
}

impl View for DocFragment {
    type V = (Seq<u8>, Seq<Seq<u8>>, Seq<Seq<u8>>);

    open spec fn view(&self) -> (Seq<u8>, Seq<Seq<u8>>, Seq<Seq<u8>>) {
        (self.head.bytes@, hash_views(self.boundary@), hash_views(self.checkpoints@))
    }
}

/// What the fragments in a list are.
pub open spec fn fragment_views(list: Seq<DocFragment>) -> Seq<
    (Seq<u8>, Seq<Seq<u8>>, Seq<Seq<u8>>),
> {
    list.map_values(|f: DocFragment| f@)
}

/// What the blobs in a list hold.
pub open spec fn blob_views(list: Seq<Vec<u8>>) -> Seq<Seq<u8>> {
    list.map_values(|b: Vec<u8>| b@)
}

/// A list in which the longer blobs come first, with one more blob: it comes after all that are no
/// shorter.
pub open spec fn with_blob(list: Seq<Seq<u8>>, blob: Seq<u8>) -> Seq<Seq<u8>>
    decreases list.len(),
{
    if list.len() == 0 || list.last().len() >= blob.len() {
        list.push(blob)
    } else {
        with_blob(list.drop_last(), blob).push(list.last())
    }
}

/// The blobs, longer ones first, and those of the same length in the order in which they came.
pub open spec fn longest_first(list: Seq<Seq<u8>>) -> Seq<Seq<u8>>
    decreases list.len(),
{
    if list.len() == 0 {
        Seq::empty()
    } else {
        with_blob(longest_first(list.drop_last()), list.last())
    }
}

/// The blobs one after the other.
pub open spec fn concatenated(list: Seq<Seq<u8>>) -> Seq<u8>
    decreases list.len(),
{
    if list.len() == 0 {
        Seq::empty()
    } else {
        concatenated(list.drop_last()) + list.last()
    }
}

proof fn lemma_with_blob(list: Seq<Seq<u8>>, blob: Seq<u8>, at: int)
    requires
        0 <= at <= list.len(),
        forall|j: int| at <= j < list.len() ==> (#[trigger] list[j]).len() < blob.len(),
        at > 0 ==> list[at - 1].len() >= blob.len(),
    ensures
        with_blob(list, blob) == list.insert(at, blob),
    decreases list.len(),
{
    if at == list.len() {
        assert(list.insert(at, blob) =~= list.push(blob));
    } else {
        assert(list[list.len() - 1].len() < blob.len());
        lemma_with_blob(list.drop_last(), blob, at);
        assert(list.drop_last().insert(at, blob).push(list.last()) =~= list.insert(at, blob));
    }
}

/// The blobs, longer ones first.
fn sort_blobs(blobs: Vec<Vec<u8>>) -> (r: Vec<Vec<u8>>)
    ensures
        blob_views(r@) == longest_first(blob_views(blobs@)),
{
    let ghost all = blob_views(blobs@);
    let mut rest = crate::lists::reversed(blobs);
    let mut out: Vec<Vec<u8>> = Vec::new();
    let ghost mut done: int = 0;
    assert(blob_views(out@) == Seq::<Seq<u8>>::empty());
    assert(all.take(0) == Seq::<Seq<u8>>::empty());
    while rest.len() > 0
        invariant
            all == blob_views(blobs@),
            0 <= done <= all.len(),
            rest.len() == all.len() - done,
            rest@ == blobs@.reverse().take(rest.len() as int),
            blob_views(out@) == longest_first(all.take(done)),
        decreases rest.len(),
    {
        if let Some(blob) = rest.pop() {
            assert(blob@ == all[done]);
            let ghost before = blob_views(out@);
            let mut at: usize = out.len();
            while at > 0 && out[at - 1].len() < blob.len()
                invariant
                    at <= out.len(),
                    before == blob_views(out@),
                    forall|j: int| at <= j < out.len() ==> (#[trigger] before[j]).len() < blob.len(),
                decreases at,
            {
                assert(before[at - 1] == out@[at - 1]@);
                at = at - 1;
            }
            proof {
                if at > 0 {
                    assert(before[at - 1] == out@[at - 1]@);
                }
                lemma_with_blob(before, blob@, at as int);
                assert(all.take(done + 1).drop_last() == all.take(done));
            }
            let ghost view = blob@;
            out.insert(at, blob);
            assert(blob_views(out@) =~= before.insert(at as int, view));
            proof {
                done = done + 1;
            }
        }
    }
    assert(all.take(done) == all);
    out
}

/// The bytes that are loaded for a list of blobs: the blobs one after the other, longer ones
/// first.
pub fn blob_bytes(blobs: Vec<Vec<u8>>) -> (r: Vec<u8>)
    ensures
        r@ == concatenated(longest_first(blob_views(blobs@))),
{
    let sorted = sort_blobs(blobs);
    let ghost all = blob_views(sorted@);
    let mut out: Vec<u8> = Vec::new();
    let mut i: usize = 0;
    assert(all.take(0) == Seq::<Seq<u8>>::empty());
    while i < sorted.len()
        invariant
            i <= sorted.len(),
            all == blob_views(sorted@),
            out@ == concatenated(all.take(i as int)),
        decreases sorted.len() - i,
    {
        let mut part = sorted[i].clone();
        assert(part@ == all[i as int]);
        assert(all.take(i + 1).drop_last() == all.take(i as int));
        out.append(&mut part);
        i = i + 1;
    }
    assert(all.take(all.len() as int) == all);
    out
}

/// Every blob is loaded once, and none before a longer one.
pub proof fn longer_blobs_come_first(list: Seq<Seq<u8>>)
    ensures
        longest_first(list).to_multiset() == list.to_multiset(),
        longest_first(list).len() == list.len(),
        forall|i: int, j: int|
            0 <= i <= j < longest_first(list).len() ==> (#[trigger] longest_first(list)[i]).len()
                >= (#[trigger] longest_first(list)[j]).len(),
    decreases list.len(),
{
    if list.len() > 0 {
        longer_blobs_come_first(list.drop_last());
        lemma_blob_goes_in(longest_first(list.drop_last()), list.last());
        assert(list.drop_last().push(list.last()) == list);
        list.drop_last().to_multiset_ensures();
    } else {
        assert(longest_first(list) == list);
    }
}

proof fn lemma_blob_goes_in(list: Seq<Seq<u8>>, blob: Seq<u8>)
    requires
        forall|i: int, j: int|
            0 <= i <= j < list.len() ==> (#[trigger] list[i]).len() >= (#[trigger] list[j]).len(),
    ensures
        with_blob(list, blob).len() == list.len() + 1,
        with_blob(list, blob).to_multiset() == list.to_multiset().insert(blob),
        forall|i: int, j: int|
            0 <= i <= j < with_blob(list, blob).len() ==> (#[trigger] with_blob(list, blob)[i]).len()
                >= (#[trigger] with_blob(list, blob)[j]).len(),
        forall|i: int|
            0 <= i < with_blob(list, blob).len() ==> (#[trigger] with_blob(list, blob)[i]) == blob
                || list.contains(with_blob(list, blob)[i]),
    decreases list.len(),
{
    list.to_multiset_ensures();
    if list.len() == 0 || list.last().len() >= blob.len() {
        let whole = list.push(blob);
        assert forall|i: int| 0 <= i < whole.len() implies (#[trigger] whole[i]) == blob
            || list.contains(whole[i]) by {
            if i < list.len() {
                assert(whole[i] == list[i]);
            }
        }
    } else {
        let front = list.drop_last();
        lemma_blob_goes_in(front, blob);
        front.to_multiset_ensures();
        assert(front.push(list.last()) == list);
        let whole = with_blob(front, blob);
        whole.to_multiset_ensures();
        assert forall|i: int| 0 <= i < whole.len() implies (#[trigger] whole[i]).len()
            >= list.last().len() by {
            if whole[i] != blob {
                let k = front.index_of(whole[i]);
                assert(front[k] == list[k]);
            }
        }
        assert(whole.push(list.last()).to_multiset() =~= list.to_multiset().insert(blob));
        assert forall|i: int| 0 <= i < whole.len() + 1 implies (#[trigger] with_blob(
            list,
            blob,
        )[i]) == blob || list.contains(with_blob(list, blob)[i]) by {
            if i < whole.len() {
                assert(with_blob(list, blob)[i] == whole[i]);
                if whole[i] != blob {
                    let k = front.index_of(whole[i]);
                    assert(front[k] == list[k]);
                }
            } else {
                assert(list[list.len() - 1] == list.last());
            }
        }
    }
}

/// A document that was changed elsewhere, and the heads at which it stands now.
#[derive(Debug)]
pub struct DocumentChanged {
    pub new_heads: Vec<ChangeHash>,
}

/// Asking the repository for something failed.
#[derive(Debug)]
pub enum RepoError {
    NoSuchDocument(SedimentreeId),
    Storage(String),
    Write(String),
    Stopped,
    Io,
}

impl RepoError {
    /// The error as the user reads it.
    pub fn to_text(&self) -> (r: String)
        ensures
            r@ == match *self {
                RepoError::NoSuchDocument(id) => "No such document "@ + hash_text(id@),
                RepoError::Storage(e) => e@,
                RepoError::Write(e) => e@,
                RepoError::Stopped => "the repo has been stopped"@,
                RepoError::Io => "there was an IO error"@,
            },
    {
        match self {
            RepoError::NoSuchDocument(id) => {
                let text = id.to_text();
                joined("No such document ", text.as_str())
            },
            RepoError::Storage(e) => e.clone(),
            RepoError::Write(e) => e.clone(),
            RepoError::Stopped => "the repo has been stopped".to_owned(),
            RepoError::Io => "there was an IO error".to_owned(),
        }
    }
}

/// The documents, each with its id.
pub open spec fn doc_views(list: Seq<(SedimentreeId, automerge::Automerge)>) -> Seq<
    (Seq<u8>, automerge::Automerge),
> {
    list.map_values(|e: (SedimentreeId, automerge::Automerge)| (e.0@, e.1))
}

/// The place of a document; the length where there is no such document.
pub open spec fn doc_place(docs: Seq<(Seq<u8>, automerge::Automerge)>, id: Seq<u8>) -> int
    decreases docs.len(),
{
    if docs.len() == 0 || docs[0].0 == id {
        0
    } else {
        1 + doc_place(docs.skip(1), id)
    }
}

/// There is a document with this id.
pub open spec fn has_doc(docs: Seq<(Seq<u8>, automerge::Automerge)>, id: Seq<u8>) -> bool {
    0 <= doc_place(docs, id) < docs.len()
}

/// The documents that are in memory.
pub struct DocumentDb {
    docs: Vec<(SedimentreeId, automerge::Automerge)>,
}

impl View for DocumentDb {
    type V = Seq<(Seq<u8>, automerge::Automerge)>;

    closed spec fn view(&self) -> Seq<(Seq<u8>, automerge::Automerge)> {
        doc_views(self.docs@)
    }
}

/// The documents after `doc` took the place of the document with the given id, or came last where
/// there was none.
pub open spec fn with_doc(
    docs: Seq<(Seq<u8>, automerge::Automerge)>,
    id: Seq<u8>,
    doc: automerge::Automerge,
) -> Seq<(Seq<u8>, automerge::Automerge)> {
    if has_doc(docs, id) {
        docs.update(doc_place(docs, id), (id, doc))
    } else {
        docs.push((id, doc))
    }
}

/// The document that blobs for an id are loaded into: the one with that id, or a new one.
pub open spec fn loads_into(
    docs: Seq<(Seq<u8>, automerge::Automerge)>,
    id: Seq<u8>,
    doc: automerge::Automerge,
) -> bool {
    if has_doc(docs, id) {
        doc == docs[doc_place(docs, id)].1
    } else {
        is_blank(doc) && current_heads(doc).len() == 0
    }
}

/// The bytes can be loaded into the document with the given id, or into a new one where there is no
/// such document.
pub open spec fn can_load(
    docs: Seq<(Seq<u8>, automerge::Automerge)>,
    id: Seq<u8>,
    bytes: Seq<u8>,
) -> bool {
    forall|doc: automerge::Automerge|
        #[trigger] loads_into(docs, id, doc) ==> loaded(doc)[bytes] is Some
}

proof fn lemma_doc_place(docs: Seq<(Seq<u8>, automerge::Automerge)>, id: Seq<u8>)
    ensures
        0 <= doc_place(docs, id) <= docs.len(),
        forall|j: int| 0 <= j < doc_place(docs, id) ==> (#[trigger] docs[j]).0 != id,
        doc_place(docs, id) < docs.len() ==> docs[doc_place(docs, id)].0 == id,
    decreases docs.len(),
{
    if docs.len() > 0 && docs[0].0 != id {
        lemma_doc_place(docs.skip(1), id);
        assert forall|j: int| 0 <= j < doc_place(docs, id) implies (#[trigger] docs[j]).0 != id by {
            if j > 0 {
                assert(docs[j] == docs.skip(1)[j - 1]);
            }
        }
    }
}

/// Loading blobs, or a change, concerns one document alone: it is found under its id afterwards, and
/// every other document stays as it was.
pub proof fn other_documents_stay(
    docs: Seq<(Seq<u8>, automerge::Automerge)>,
    id: Seq<u8>,
    doc: automerge::Automerge,
    other: Seq<u8>,
)
    ensures
        has_doc(with_doc(docs, id, doc), id),
        with_doc(docs, id, doc)[doc_place(with_doc(docs, id, doc), id)].1 == doc,
        other != id ==> has_doc(with_doc(docs, id, doc), other) == has_doc(docs, other),
        other != id && has_doc(docs, other) ==> with_doc(docs, id, doc)[doc_place(
            with_doc(docs, id, doc),
            other,
        )] == docs[doc_place(docs, other)],
{
    let now = with_doc(docs, id, doc);
    lemma_doc_place(docs, id);
    lemma_doc_place(now, id);
    lemma_doc_place(docs, other);
    lemma_doc_place(now, other);
    let at = doc_place(docs, id);
    assert(now[at].0 == id);
    assert forall|j: int| 0 <= j < docs.len() implies (#[trigger] now[j]).0 == docs[j].0 by {}
    let p = doc_place(now, id);
    if p < at {
        assert(now[p].0 == docs[p].0);
    }
    if other != id {
        let q = doc_place(docs, other);
        let r = doc_place(now, other);
        if q < docs.len() {
            assert(now[q].0 == other);
            if r < q {
                assert(now[r].0 == docs[r].0);
            }
        }
        if r < docs.len() {
            assert(docs[r].0 == now[r].0);
        }
    }
}

impl DocumentDb {
    pub fn new() -> (r: DocumentDb)
        ensures
            r@.len() == 0,
    {
        DocumentDb { docs: Vec::new() }
    }

    /// The place of a document.
    fn find(&self, id: &SedimentreeId) -> (r: usize)
        ensures
            r == doc_place(self@, id@),
            r <= self@.len(),
            r < self@.len() ==> self@[r as int].0 == id@,
    {
        let mut i: usize = 0;
        while i < self.docs.len() && !self.docs[i].0.same(id)
            invariant
                i <= self.docs.len(),
                forall|j: int| 0 <= j < i ==> (#[trigger] self@[j]).0 != id@,
            decreases self.docs.len() - i,
        {
            assert(self@[i as int].0 == self.docs@[i as int].0@);
            i = i + 1;
        }
        proof {
            lemma_doc_place(self@, id@);
            if i < self.docs.len() {
                assert(self@[i as int].0 == id@);
            }
            let p = doc_place(self@, id@);
            if p < i {
                assert(self@[p].0 != id@);
            }
        }
        i
    }

    /// Loads blobs into the document with the given id, longer blobs first; where there is no such
    /// document it starts as a new one. The blobs are known to be such that can be loaded; for others
    /// a copy of the document is loaded first, and `insert_loaded` takes it.
    pub fn insert_blobs(&mut self, id: SedimentreeId, blobs: Vec<Vec<u8>>)
        requires
            can_load(old(self)@, id@, concatenated(longest_first(blob_views(blobs@)))),
        ensures
            exists|before: automerge::Automerge, after: automerge::Automerge|
                {
                    let bytes = concatenated(longest_first(blob_views(blobs@)));
                    &&& #[trigger] loads_into(old(self)@, id@, before)
                    &&& loaded(before)[bytes] == Some(contents_of(after))
                    &&& final(self)@ == #[trigger] with_doc(old(self)@, id@, after)
                },
    {
        let bytes = blob_bytes(blobs);
        let place = self.find(&id);
        let ghost start = self@;
        if place < self.docs.len() {
            let ghost before = self.docs@[place as int].1;
            assert(loads_into(start, id@, before));
            load_incremental(&mut self.docs[place].1, &bytes);
            proof {
                let after = self.docs@[place as int].1;
                assert(self@ =~= with_doc(start, id@, after));
            }
        } else {
            let mut doc = new_document();
            let ghost before = doc;
            assert(loads_into(start, id@, before));
            load_incremental(&mut doc, &bytes);
            let ghost after = doc;
            self.docs.push((id, doc));
            proof {
                assert(self@ =~= with_doc(start, id@, after));
            }
        }
    }

    /// Puts a copy of the document with the given id, or a new document, in its place once blobs were
    /// loaded into that copy; where they could not be loaded, nothing changes. Whether they were.
    pub fn insert_loaded(&mut self, id: SedimentreeId, doc: Option<automerge::Automerge>) -> (r: bool)
        ensures
            r == (doc is Some),
            final(self)@ == match doc {
                Some(d) => with_doc(old(self)@, id@, d),
                None => old(self)@,
            },
    {
        let place = self.find(&id);
        let ghost start = self@;
        match doc {
            Some(d) => {
                if place < self.docs.len() {
                    self.docs[place].1 = d;
                } else {
                    self.docs.push((id, d));
                }
                assert(self@ =~= with_doc(start, id@, d));
                true
            },
            None => false,
        }
    }

    /// The document with the given id.
    pub fn document(&self, id: &SedimentreeId) -> (r: Result<&automerge::Automerge, RepoError>)
        ensures
            if has_doc(self@, id@) {
                r == Ok::<&automerge::Automerge, RepoError>(&self@[doc_place(self@, id@)].1)
            } else {
                r matches Err(RepoError::NoSuchDocument(i)) && i@ == id@
            },
    {
        let place = self.find(id);
        if place < self.docs.len() {
            Ok(&self.docs[place].1)
        } else {
            Err(RepoError::NoSuchDocument(*id))
        }
    }

    /// The document with the given id, to be changed.
    pub fn with_document(&mut self, id: &SedimentreeId) -> (r: Result<
        &mut automerge::Automerge,
        RepoError,
    >)
        ensures
            match r {
                Ok(doc) => has_doc(old(self)@, id@) && *doc == old(self)@[doc_place(
                    old(self)@,
                    id@,
                )].1 && final(self)@ == with_doc(old(self)@, id@, *final(doc)),
                Err(e) => !has_doc(old(self)@, id@) && final(self)@ == old(self)@ && (
                e matches RepoError::NoSuchDocument(i) && i@ == id@),
            },
    {
        let place = self.find(id);
        if place < self.docs.len() {
            Ok(&mut self.docs[place].1)
        } else {
            Err(RepoError::NoSuchDocument(*id))
        }
    }

    /// The parts of the history of a document, each with its encoding: the parts and the encodings
    /// are put together one by one, as far as both go.
    pub fn get_fragments(&self, id: &SedimentreeId) -> (r: Result<
        Vec<(DocFragment, Vec<u8>)>,
        RepoError,
    >)
        ensures
            if has_doc(self@, id@) {
                r matches Ok(parts) && ({
                    let doc = self@[doc_place(self@, id@)].1;
                    parts@.map_values(|p: (DocFragment, Vec<u8>)| (p.0@, p.1@)) == paired(
                        fragments_in(doc),
                        bundles_in(doc),
                    )
                })
            } else {
                r matches Err(RepoError::NoSuchDocument(i)) && i@ == id@
            },
    {
        let doc = self.document(id)?;
        let frags = fragments(doc);
        let bundle = bundle_fragments(doc);
        Ok(pair_fragments(frags, bundle))
    }
}

/// The parts of a history with their encodings, as far as both go.
pub open spec fn paired(
    fragments: Seq<(Seq<u8>, Seq<Seq<u8>>, Seq<Seq<u8>>)>,
    bundles: Seq<Seq<u8>>,
) -> Seq<((Seq<u8>, Seq<Seq<u8>>, Seq<Seq<u8>>), Seq<u8>)> {
    Seq::new(
        if fragments.len() <= bundles.len() {
            fragments.len()
        } else {
            bundles.len()
        },
        |i: int| (fragments[i], bundles[i]),
    )
}

/// The parts of a history with their encodings, as far as both go.
pub fn pair_fragments(frags: Vec<DocFragment>, bundle: Vec<Vec<u8>>) -> (r: Vec<
    (DocFragment, Vec<u8>),
>)
    ensures
        r@.map_values(|p: (DocFragment, Vec<u8>)| (p.0@, p.1@)) == paired(
            fragment_views(frags@),
            blob_views(bundle@),
        ),
{
    let ghost all_frags = frags@;
    let ghost all_bundles = bundle@;
    let mut frags = crate::lists::reversed(frags);
    let mut bundle = crate::lists::reversed(bundle);
    let mut out: Vec<(DocFragment, Vec<u8>)> = Vec::new();
    while frags.len() > 0 && bundle.len() > 0
        invariant
            out.len() + frags.len() == all_frags.len(),
            out.len() + bundle.len() == all_bundles.len(),
            frags@ == all_frags.reverse().take(frags.len() as int),
            bundle@ == all_bundles.reverse().take(bundle.len() as int),
            forall|j: int|
                0 <= j < out.len() ==> (#[trigger] out@[j]) == (all_frags[j], all_bundles[j]),
        decreases frags.len(),
    {
        if let (Some(f), Some(b)) = (frags.pop(), bundle.pop()) {
            out.push((f, b));
        }
    }
    assert(out@.map_values(|p: (DocFragment, Vec<u8>)| (p.0@, p.1@)) =~= paired(
        fragment_views(all_frags),
        blob_views(all_bundles),
    ));
    out
}


/// Blobs of the same length are loaded in the order in which they came.
pub proof fn blobs_of_one_length_keep_their_order(list: Seq<Seq<u8>>, n: nat)
    ensures
        longest_first(list).filter(|b: Seq<u8>| b.len() == n) == list.filter(
            |b: Seq<u8>| b.len() == n,
        ),
    decreases list.len(),
{
    reveal(Seq::filter);
    if list.len() > 0 {
        blobs_of_one_length_keep_their_order(list.drop_last(), n);
        longer_blobs_come_first(list.drop_last());
        lemma_blob_in_order(longest_first(list.drop_last()), list.last(), n);
    }
}

proof fn lemma_blob_in_order(list: Seq<Seq<u8>>, blob: Seq<u8>, n: nat)
    requires
        forall|i: int, j: int|
            0 <= i <= j < list.len() ==> (#[trigger] list[i]).len() >= (#[trigger] list[j]).len(),
    ensures
        with_blob(list, blob).filter(|b: Seq<u8>| b.len() == n) == list.filter(
            |b: Seq<u8>| b.len() == n,
        ) + if blob.len() == n {
            seq![blob]
        } else {
            Seq::empty()
        },
    decreases list.len(),
{
    reveal(Seq::filter);
    let same = |b: Seq<u8>| b.len() == n;
    if list.len() == 0 || list.last().len() >= blob.len() {
        assert(list.push(blob).drop_last() == list);
        assert(list.filter(same) + Seq::<Seq<u8>>::empty() == list.filter(same));
    } else {
        let front = list.drop_last();
        lemma_blob_in_order(front, blob, n);
        let whole = with_blob(front, blob).push(list.last());
        assert(whole.drop_last() == with_blob(front, blob));
        if list.last().len() == n {
            assert(blob.len() != n);
            assert(front.filter(same) + Seq::<Seq<u8>>::empty() == front.filter(same));
            assert(list.filter(same) + Seq::<Seq<u8>>::empty() == list.filter(same));
        }
    }
}

/// The bytes of several blobs are those of the first and then those of the rest.
pub proof fn blobs_follow_each_other(a: Seq<Seq<u8>>, b: Seq<Seq<u8>>, blob: Seq<u8>)
    ensures
        concatenated(Seq::empty()) == Seq::<u8>::empty(),
        concatenated(seq![blob]) == blob,
        concatenated(a + b) == concatenated(a) + concatenated(b),
    decreases b.len(),
{
    reveal_with_fuel(concatenated, 2);
    assert(seq![blob].drop_last() == Seq::<Seq<u8>>::empty());
    if b.len() > 0 {
        blobs_follow_each_other(a, b.drop_last(), blob);
        assert((a + b).drop_last() == a + b.drop_last());
        assert(concatenated(a) + (concatenated(b.drop_last()) + b.last()) == concatenated(a)
            + concatenated(b.drop_last()) + b.last());
    } else {
        assert(a + b == a);
        assert(concatenated(a) + Seq::<u8>::empty() == concatenated(a));
    }
}

/// A document is found exactly where there is one with the id, and then it is the first such.
pub proof fn documents_are_found_by_id(
    docs: Seq<(Seq<u8>, automerge::Automerge)>,
    id: Seq<u8>,
    doc: automerge::Automerge,
)
    ensures
        has_doc(docs, id) <==> exists|i: int| 0 <= i < docs.len() && (#[trigger] docs[i]).0 == id,
        has_doc(docs, id) ==> docs[doc_place(docs, id)].0 == id && forall|j: int|
            0 <= j < doc_place(docs, id) ==> (#[trigger] docs[j]).0 != id,
        has_doc(docs, id) ==> (loads_into(docs, id, doc) <==> doc == docs[doc_place(docs, id)].1),
        !has_doc(docs, id) && loads_into(docs, id, doc) ==> is_blank(doc),
{
    lemma_doc_place(docs, id);
}

/// Each part of a history goes with the encoding in the same place, and what has no counterpart is
/// left out.
pub proof fn parts_go_with_their_encodings(
    fragments: Seq<(Seq<u8>, Seq<Seq<u8>>, Seq<Seq<u8>>)>,
    bundles: Seq<Seq<u8>>,
    more_fragments: Seq<(Seq<u8>, Seq<Seq<u8>>, Seq<Seq<u8>>)>,
    more_bundles: Seq<Seq<u8>>,
    fragment: (Seq<u8>, Seq<Seq<u8>>, Seq<Seq<u8>>),
    bundle: Seq<u8>,
)
    requires
        fragments.len() == bundles.len(),
    ensures
        paired(fragments, bundles).len() == fragments.len(),
        paired(fragments.push(fragment), bundles.push(bundle)) == paired(fragments, bundles).push(
            (fragment, bundle),
        ),
        paired(fragments + more_fragments, bundles) == paired(fragments, bundles),
        paired(fragments, bundles + more_bundles) == paired(fragments, bundles),
{
}

} // verus!
