//! Watching documents and files for changes.

use crate::content::{automerge_url, parse_automerge_url};
use crate::document::{
    current_heads, get_heads, get_obj_id_at, get_string_at, held_keys, keys_at, object_under,
    root_id, string_under, ObjectId,
};
use crate::history::{hash_views, ChangeHash, DocumentId};
use crate::text::texts;
use vstd::prelude::*;

verus! {

/// How far the ingest of a branch got.
#[derive(Clone, Copy, Debug, PartialEq, Eq, Structural)]
pub enum BranchIngestState {
    Pending,
    Ingested,
    Failed,
}

/// Why waiting for the ingest of a branch failed.
#[derive(Clone, Copy, Debug, PartialEq, Eq, Structural)]
pub enum IngestWaitError {
    NotTracked,
    TimedOut,
    Unknown,
}

impl IngestWaitError {
    /// The error as it is logged.
    pub fn to_text(&self) -> (r: String)
        ensures
            r@ == match *self {
                IngestWaitError::NotTracked =>
                    "this branch hasn't been tracked by the document watcher yet, so we can't wait on it."@,
                IngestWaitError::TimedOut =>
                    "this branch timed out when waiting for the ingest."@,
                IngestWaitError::Unknown =>
                    "this branch can't be tracked by the document watcher for unknown reasons."@,
            },
    {
        match self {
            IngestWaitError::NotTracked =>
                "this branch hasn't been tracked by the document watcher yet, so we can't wait on it.".to_owned(),
            IngestWaitError::TimedOut =>
                "this branch timed out when waiting for the ingest.".to_owned(),
            IngestWaitError::Unknown =>
                "this branch can't be tracked by the document watcher for unknown reasons.".to_owned(),
        }
    }
}

/// The state of the branch with the given id.
pub open spec fn state_of(
    branches: Seq<(DocumentId, BranchIngestState)>,
    id: Seq<u8>,
) -> Option<BranchIngestState>
    decreases branches.len(),
{
    if branches.len() == 0 {
        None
    } else if branches.last().0@ == id {
        Some(branches.last().1)
    } else {
        state_of(branches.drop_last(), id)
    }
}

/// The branches with those that were not known yet, as pending.
pub open spec fn with_new(
    branches: Seq<(DocumentId, BranchIngestState)>,
    ids: Seq<DocumentId>,
) -> Seq<(DocumentId, BranchIngestState)>
    decreases ids.len(),
{
    if ids.len() == 0 {
        branches
    } else {
        let before = with_new(branches, ids.drop_last());
        if state_of(before, ids.last()@) is Some {
            before
        } else {
            before.push((ids.last(), BranchIngestState::Pending))
        }
    }
}

/// The state of a branch that was looked for.
pub open spec fn state_after(found: bool) -> BranchIngestState {
    if found {
        BranchIngestState::Ingested
    } else {
        BranchIngestState::Failed
    }
}

/// What waiting for the ingest of a branch comes to, by the state of the branch.
pub open spec fn wait_outcome(state: Option<BranchIngestState>) -> Option<
    Result<(), IngestWaitError>,
> {
    match state {
        None => Some(Err(IngestWaitError::NotTracked)),
        Some(BranchIngestState::Pending) => None,
        Some(BranchIngestState::Ingested) => Some(Ok(())),
        Some(BranchIngestState::Failed) => Some(Err(IngestWaitError::TimedOut)),
    }
}

/// Keeps track of the branches of a project.
pub struct DocumentWatcher {
    tracked_branches: Vec<(DocumentId, BranchIngestState)>,
}

impl View for DocumentWatcher {
    type V = Seq<(DocumentId, BranchIngestState)>;

    closed spec fn view(&self) -> Seq<(DocumentId, BranchIngestState)> {
        self.tracked_branches@
    }
}

impl DocumentWatcher {
    pub fn new() -> (r: DocumentWatcher)
        ensures
            r@ == Seq::<(DocumentId, BranchIngestState)>::empty(),
    {
        DocumentWatcher { tracked_branches: Vec::new() }
    }

    /// The state of a branch.
    pub fn state(&self, branch: &DocumentId) -> (r: Option<BranchIngestState>)
        ensures
            r == state_of(self@, branch@),
    {
        let n = self.tracked_branches.len();
        let mut i: usize = n;
        assert(self@.take(n as int) == self@);
        while i > 0
            invariant
                i <= n,
                n == self@.len(),
                self@ == self.tracked_branches@,
                state_of(self@, branch@) == state_of(self@.take(i as int), branch@),
            decreases i,
        {
            assert(self@.take(i as int).last() == self@[i - 1]);
            assert(self@.take(i as int).drop_last() == self@.take(i - 1));
            if self.tracked_branches[i - 1].0.same(branch) {
                return Some(self.tracked_branches[i - 1].1);
            }
            i = i - 1;
        }
        None
    }

    /// Takes over the branches that the metadata document lists, and gives those that were not
    /// known yet: they are tracked from now on.
    pub fn ingest_metadata_document(&mut self, branches: &Vec<DocumentId>) -> (r: Vec<DocumentId>)
        ensures
            final(self)@ == with_new(old(self)@, branches@),
            final(self)@ == old(self)@ + r@.map_values(
                |id: DocumentId| (id, BranchIngestState::Pending),
            ),
    {
        let ghost before = self@;
        let mut added: Vec<DocumentId> = Vec::new();
        let mut i: usize = 0;
        assert(branches@.take(0) == Seq::<DocumentId>::empty());
        assert(self@ == before + added@.map_values(
            |id: DocumentId| (id, BranchIngestState::Pending),
        ));
        while i < branches.len()
            invariant
                i <= branches.len(),
                self@ == with_new(before, branches@.take(i as int)),
                self@ == before + added@.map_values(
                    |id: DocumentId| (id, BranchIngestState::Pending),
                ),
            decreases branches.len() - i,
        {
            assert(branches@.take(i + 1).drop_last() == branches@.take(i as int));
            assert(branches@.take(i + 1).last() == branches@[i as int]);
            if self.state(&branches[i]).is_none() {
                let id = branches[i];
                let ghost had = added@;
                self.tracked_branches.push((id, BranchIngestState::Pending));
                added.push(id);
                assert(added@.map_values(|id: DocumentId| (id, BranchIngestState::Pending))
                    == had.map_values(|id: DocumentId| (id, BranchIngestState::Pending)).push(
                    (id, BranchIngestState::Pending),
                ));
            }
            i = i + 1;
        }
        assert(branches@.take(branches@.len() as int) == branches@);
        added
    }

    /// The ingest of a branch that is tracked is done, or has failed.
    pub fn track_branch_document(&mut self, branch: &DocumentId, found: bool)
        requires
            state_of(old(self)@, branch@) is Some,
        ensures
            state_of(final(self)@, branch@) == Some(state_after(found)),
            forall|other: Seq<u8>|
                other != branch@ ==> #[trigger] state_of(final(self)@, other) == state_of(
                    old(self)@,
                    other,
                ),
    {
        let state = if found {
            BranchIngestState::Ingested
        } else {
            BranchIngestState::Failed
        };
        let ghost before = self@;
        let n = self.tracked_branches.len();
        let mut i: usize = n;
        assert(before.take(n as int) == before);
        while i > 0 && !self.tracked_branches[i - 1].0.same(branch)
            invariant
                i <= n,
                n == before.len(),
                self@ == before,
                self.tracked_branches@ == before,
                state_of(before, branch@) == state_of(before.take(i as int), branch@),
                forall|j: int| i <= j < n ==> (#[trigger] before[j]).0@ != branch@,
            decreases i,
        {
            assert(before.take(i as int).last() == before[i - 1]);
            assert(before.take(i as int).drop_last() == before.take(i - 1));
            i = i - 1;
        }
        if i > 0 {
            let id = self.tracked_branches[i - 1].0;
            self.tracked_branches[i - 1] = (id, state);
            proof {
                assert(self@ == before.update(i - 1, (id, state)));
                lemma_state_updated(before, i - 1, state, branch@);
            }
        }
    }

    /// What waiting for the ingest of a branch comes to, by its state: nothing while it is
    /// pending.
    pub fn wait_for_branch_ingest(&self, branch: &DocumentId) -> (r: Option<
        Result<(), IngestWaitError>,
    >)
        ensures
            r == wait_outcome(state_of(self@, branch@)),
    {
        match self.state(branch) {
            None => Some(Err(IngestWaitError::NotTracked)),
            Some(BranchIngestState::Pending) => None,
            Some(BranchIngestState::Ingested) => Some(Ok(())),
            Some(BranchIngestState::Failed) => Some(Err(IngestWaitError::TimedOut)),
        }
    }
}

proof fn lemma_state_updated(
    branches: Seq<(DocumentId, BranchIngestState)>,
    i: int,
    state: BranchIngestState,
    id: Seq<u8>,
)
    requires
        0 <= i < branches.len(),
        branches[i].0@ == id,
        forall|j: int| i < j < branches.len() ==> (#[trigger] branches[j]).0@ != id,
    ensures
        state_of(branches.update(i, (branches[i].0, state)), id) == Some(state),
        forall|other: Seq<u8>|
            other != id ==> #[trigger] state_of(
                branches.update(i, (branches[i].0, state)),
                other,
            ) == state_of(branches, other),
    decreases branches.len(),
{
    let now = branches.update(i, (branches[i].0, state));
    if i == branches.len() - 1 {
        assert(now.drop_last() == branches.drop_last());
    } else {
        let n = branches.len() - 1;
        assert(branches[n].0@ != id);
        let front = branches.drop_last();
        lemma_state_updated(front, i, state, id);
        assert(front[i] == branches[i]);
        assert(now.drop_last() == front.update(i, (front[i].0, state)));
        assert(now.last() == branches.last());
        assert forall|other: Seq<u8>| other != id implies #[trigger] state_of(now, other)
            == state_of(branches, other) by {
            assert(state_of(front.update(i, (front[i].0, state)), other) == state_of(front, other));
        }
    }
}

/// A branch that is known stays known, and a branch is tracked once.
pub proof fn branches_are_tracked_once(
    branches: Seq<(DocumentId, BranchIngestState)>,
    ids: Seq<DocumentId>,
    id: Seq<u8>,
)
    ensures
        state_of(branches, id) is Some ==> state_of(with_new(branches, ids), id) == state_of(
            branches,
            id,
        ),
        forall|i: int|
            0 <= i < ids.len() ==> state_of(with_new(branches, ids), (#[trigger] ids[i])@) is Some,
        with_new(with_new(branches, ids), ids) == with_new(branches, ids),
    decreases ids.len(),
{
    lemma_known_stay(branches, ids, id);
    lemma_all_known(branches, ids);
    lemma_nothing_new(with_new(branches, ids), ids, ids.len() as int);
    assert(ids.take(ids.len() as int) == ids);
}

proof fn lemma_known_stay(
    branches: Seq<(DocumentId, BranchIngestState)>,
    ids: Seq<DocumentId>,
    id: Seq<u8>,
)
    ensures
        state_of(branches, id) is Some ==> state_of(with_new(branches, ids), id) == state_of(
            branches,
            id,
        ),
    decreases ids.len(),
{
    if ids.len() > 0 {
        lemma_known_stay(branches, ids.drop_last(), id);
        let before = with_new(branches, ids.drop_last());
        let now = before.push((ids.last(), BranchIngestState::Pending));
        assert(now.drop_last() == before);
    }
}

proof fn lemma_all_known(branches: Seq<(DocumentId, BranchIngestState)>, ids: Seq<DocumentId>)
    ensures
        forall|i: int|
            0 <= i < ids.len() ==> state_of(with_new(branches, ids), (#[trigger] ids[i])@) is Some,
    decreases ids.len(),
{
    if ids.len() > 0 {
        let front = ids.drop_last();
        lemma_all_known(branches, front);
        let before = with_new(branches, front);
        let now = before.push((ids.last(), BranchIngestState::Pending));
        assert(now.drop_last() == before);
        assert forall|i: int| 0 <= i < ids.len() implies state_of(
            with_new(branches, ids),
            (#[trigger] ids[i])@,
        ) is Some by {
            if i < front.len() {
                assert(front[i] == ids[i]);
            }
        }
    }
}

proof fn lemma_nothing_new(
    branches: Seq<(DocumentId, BranchIngestState)>,
    ids: Seq<DocumentId>,
    n: int,
)
    requires
        0 <= n <= ids.len(),
        forall|i: int| 0 <= i < ids.len() ==> state_of(branches, (#[trigger] ids[i])@) is Some,
    ensures
        with_new(branches, ids.take(n)) == branches,
    decreases n,
{
    if n > 0 {
        lemma_nothing_new(branches, ids, n - 1);
        assert(ids.take(n).drop_last() == ids.take(n - 1));
        assert(ids.take(n).last() == ids[n - 1]);
    }
}

/// What to do next while a document is polled for.
#[derive(Clone, Copy, Debug, PartialEq, Eq, Structural)]
pub enum PollStep {
    /// Ask for the document now.
    Ask,
    /// The time is up.
    GiveUp,
}

/// How long to wait between two polls, in milliseconds.
pub const POLL_INTERVAL: u32 = 500;

/// How long a document is looked for, in milliseconds.
pub const FIND_TIMEOUT: u32 = 30000;

/// Polls for a document until the time is up.
#[derive(Clone, Copy, Debug, PartialEq, Eq, Structural)]
pub struct Poll {
    pub time: u32,
    pub timeout: u32,
}

impl Poll {
    /// How many polls are left.
    pub open spec fn polls_left(self) -> nat {
        if self.time > self.timeout {
            0
        } else {
            ((self.timeout - self.time) / 500 + 1) as nat
        }
    }

    pub fn new(timeout: u32) -> (r: Poll)
        ensures
            r.time == 0,
            r.timeout == timeout,
            r.polls_left() == timeout / 500 + 1,
    {
        Poll { time: 0, timeout }
    }

    /// Whether to ask for the document once more.
    pub fn poll_document(&self) -> (r: PollStep)
        ensures
            r == if self.polls_left() > 0 {
                PollStep::Ask
            } else {
                PollStep::GiveUp
            },
    {
        if self.time > self.timeout {
            PollStep::GiveUp
        } else {
            PollStep::Ask
        }
    }

    /// The document was not there: one poll less is left.
    pub fn not_found(&mut self)
        requires
            old(self).polls_left() > 0,
            old(self).timeout <= u32::MAX - 500,
        ensures
            final(self).timeout == old(self).timeout,
            final(self).time == old(self).time + 500,
            final(self).polls_left() == old(self).polls_left() - 1,
    {
        self.time = self.time + POLL_INTERVAL;
    }
}

/// The file and the document of each file of a branch that has a document of its own.
pub open spec fn links_from(
    doc: automerge::Automerge,
    files: Seq<u8>,
    paths: Seq<Seq<char>>,
    heads: Seq<Seq<u8>>,
) -> Seq<(Seq<char>, Seq<u8>)>
    decreases paths.len(),
{
    if paths.len() == 0 {
        Seq::empty()
    } else {
        let before = links_from(doc, files, paths.drop_last(), heads);
        match object_under(doc, files, paths.last(), heads) {
            Some(file) => match string_under(doc, file, "url"@, heads) {
                Some(url) => match automerge_url(url) {
                    Some(id) => before.push((paths.last(), id)),
                    None => before,
                },
                None => before,
            },
            None => before,
        }
    }
}

/// The paths and ids of links.
pub open spec fn link_views(links: Seq<(String, DocumentId)>) -> Seq<(Seq<char>, Seq<u8>)> {
    links.map_values(|l: (String, DocumentId)| (l.0@, l.1@))
}

/// The current heads of a branch document, and its files that have a document of their own.
pub fn ingest_branch_document(doc: &automerge::Automerge) -> (r: (
    Vec<ChangeHash>,
    Vec<(String, DocumentId)>,
))
    ensures
        hash_views(r.0@) == current_heads(*doc),
        link_views(r.1@) == match object_under(
            *doc,
            root_id(),
            "files"@,
            current_heads(*doc),
        ) {
            Some(files) => links_from(
                *doc,
                files,
                held_keys(*doc)[(files, current_heads(*doc))],
                current_heads(*doc),
            ),
            None => Seq::empty(),
        },
{
    let heads = get_heads(doc);
    let mut links: Vec<(String, DocumentId)> = Vec::new();
    assert(link_views(links@) == Seq::<(Seq<char>, Seq<u8>)>::empty());
    let files = match get_obj_id_at(doc, &ObjectId::root(), "files", &heads) {
        Some(files) => files,
        None => {
            return (heads, links);
        },
    };
    let paths = keys_at(doc, &files, &heads);
    let ghost hs = hash_views(heads@);
    let ghost all = held_keys(*doc)[(files@, hs)];
    let mut i: usize = 0;
    assert(all.take(0) == Seq::<Seq<char>>::empty());
    while i < paths.len()
        invariant
            i <= paths.len(),
            hs == hash_views(heads@),
            all == held_keys(*doc)[(files@, hs)],
            texts(paths@) == all,
            link_views(links@) == links_from(*doc, files@, all.take(i as int), hs),
        decreases paths.len() - i,
    {
        assert(all.take(i + 1).drop_last() == all.take(i as int));
        assert(all.take(i + 1).last() == paths@[i as int]@);
        if let Some(file) = get_obj_id_at(doc, &files, paths[i].as_str(), &heads) {
            if let Some(url) = get_string_at(doc, &file, "url", &heads) {
                if let Some(id) = parse_automerge_url(url.as_str()) {
                    let ghost before = links@;
                    links.push((paths[i].clone(), id));
                    assert(link_views(links@) == link_views(before).push(
                        (paths@[i as int]@, id@),
                    ));
                }
            }
        }
        i = i + 1;
    }
    assert(all.take(all.len() as int) == all);
    (heads, links)
}

/// What was seen in the file system.
#[derive(Clone, Copy, Debug, PartialEq, Eq, Structural)]
pub enum EventKind {
    Any,
    Access,
    Create,
    Modify,
    Remove,
    Other,
}

/// A file was created, modified or deleted.
#[derive(Debug)]
pub enum WatcherEvent {
    FileTouched(String),
}

/// A change at a path is one to a file of the project.
pub open spec fn is_told(ignored: bool, present: bool, is_file: bool) -> bool {
    !ignored && (!present || is_file)
}

/// Watches a project's files.
#[derive(Clone, Copy, Debug)]
pub struct FileSystemWatcher;

impl FileSystemWatcher {
    /// Whether what was seen may have changed a file.
    pub fn is_change(kind: EventKind) -> (r: bool)
        ensures
            r == (kind == EventKind::Create || kind == EventKind::Modify || kind
                == EventKind::Remove),
    {
        match kind {
            EventKind::Create | EventKind::Modify | EventKind::Remove => true,
            _ => false,
        }
    }

    /// What a change at a path means: the file there was touched, also where it is gone. Ignored
    /// paths and directories do not count.
    pub fn handle_file_event(path: String, ignored: bool, present: bool, is_file: bool) -> (r:
        Option<WatcherEvent>)
        ensures
            r == if is_told(ignored, present, is_file) {
                Some(WatcherEvent::FileTouched(path))
            } else {
                None
            },
    {
        if ignored {
            return None;
        }
        if !present {
            return Some(WatcherEvent::FileTouched(path));
        }
        if is_file {
            return Some(WatcherEvent::FileTouched(path));
        }
        None
    }
}


/// The state of a branch is the one that was noted last, and a branch that was never noted has
/// none.
pub proof fn the_last_state_counts(
    branches: Seq<(DocumentId, BranchIngestState)>,
    branch: DocumentId,
    state: BranchIngestState,
    id: Seq<u8>,
)
    ensures
        state_of(branches.push((branch, state)), branch@) == Some(state),
        id != branch@ ==> state_of(branches.push((branch, state)), id) == state_of(branches, id),
        state_of(Seq::empty(), id) is None,
        state_of(branches, id) is Some <==> exists|i: int|
            0 <= i < branches.len() && (#[trigger] branches[i]).0@ == id,
{
    assert(branches.push((branch, state)).drop_last() == branches);
    lemma_noted(branches, id);
}

proof fn lemma_noted(branches: Seq<(DocumentId, BranchIngestState)>, id: Seq<u8>)
    ensures
        state_of(branches, id) is Some <==> exists|i: int|
            0 <= i < branches.len() && (#[trigger] branches[i]).0@ == id,
    decreases branches.len(),
{
    if branches.len() > 0 {
        let front = branches.drop_last();
        lemma_noted(front, id);
        if state_of(front, id) is Some {
            let i = choose|i: int| 0 <= i < front.len() && (#[trigger] front[i]).0@ == id;
            assert(branches[i] == front[i]);
        }
        if branches.last().0@ == id {
            assert(branches[branches.len() - 1].0@ == id);
        } else if exists|i: int| 0 <= i < branches.len() && (#[trigger] branches[i]).0@ == id {
            let i = choose|i: int| 0 <= i < branches.len() && (#[trigger] branches[i]).0@ == id;
            assert(front[i] == branches[i]);
        }
    }
}

/// A branch that the metadata document lists for the first time waits to be ingested, and no
/// branch is tracked that was neither known nor listed.
pub proof fn new_branches_wait_to_be_ingested(
    branches: Seq<(DocumentId, BranchIngestState)>,
    ids: Seq<DocumentId>,
    id: Seq<u8>,
)
    ensures
        state_of(with_new(branches, ids), id) == (if state_of(branches, id) is Some {
            state_of(branches, id)
        } else if exists|i: int| 0 <= i < ids.len() && (#[trigger] ids[i])@ == id {
            Some(BranchIngestState::Pending)
        } else {
            None
        }),
    decreases ids.len(),
{
    if ids.len() > 0 {
        let front = ids.drop_last();
        new_branches_wait_to_be_ingested(branches, front, id);
        let before = with_new(branches, front);
        let now = before.push((ids.last(), BranchIngestState::Pending));
        assert(now.drop_last() == before);
        if exists|i: int| 0 <= i < front.len() && (#[trigger] front[i])@ == id {
            let i = choose|i: int| 0 <= i < front.len() && (#[trigger] front[i])@ == id;
            assert(ids[i]@ == id);
        }
        if ids.last()@ == id {
            assert(ids[ids.len() - 1]@ == id);
        } else if exists|i: int| 0 <= i < ids.len() && (#[trigger] ids[i])@ == id {
            let i = choose|i: int| 0 <= i < ids.len() && (#[trigger] ids[i])@ == id;
            assert(front[i]@ == id);
        }
    }
}

/// A branch can be waited for from the moment at which it is listed: the wait is over once the
/// branch was found, and fails where it was not.
pub proof fn waiting_ends_with_the_ingest()
    ensures
        wait_outcome(None) == Some(Err::<(), _>(IngestWaitError::NotTracked)),
        wait_outcome(Some(BranchIngestState::Pending)) is None,
        wait_outcome(Some(state_after(true))) == Some(Ok::<(), IngestWaitError>(())),
        wait_outcome(Some(state_after(false))) == Some(Err::<(), _>(IngestWaitError::TimedOut)),
        forall|s: BranchIngestState|
            #[trigger] wait_outcome(Some(s)) is None <==> s == BranchIngestState::Pending,
{
}

/// A document is asked for twice a second, from the start up to the end of the time, and then no
/// more: thirty seconds are sixty-one polls.
pub proof fn documents_are_polled_twice_a_second(poll: Poll)
    ensures
        POLL_INTERVAL == 500,
        FIND_TIMEOUT == 30000,
        poll.time == 0 && poll.timeout == FIND_TIMEOUT ==> poll.polls_left() == 61,
        poll.polls_left() > 0 <==> poll.time <= poll.timeout,
        poll.polls_left() > 0 ==> poll.time + 500 * (poll.polls_left() - 1) <= poll.timeout
            < poll.time + 500 * poll.polls_left(),
{
}

/// A file of a branch has a document of its own exactly where it is a map with a URL that names
/// one.
pub proof fn files_with_a_url_are_linked(
    doc: automerge::Automerge,
    files: Seq<u8>,
    paths: Seq<Seq<char>>,
    heads: Seq<Seq<u8>>,
    path: Seq<char>,
    id: Seq<u8>,
)
    ensures
        links_from(doc, files, paths, heads).contains((path, id)) <==> paths.contains(path)
            && exists|file: Seq<u8>, url: Seq<char>|
            object_under(doc, files, path, heads) == Some(file) && #[trigger] string_under(
                doc,
                file,
                "url"@,
                heads,
            ) == Some(url) && #[trigger] automerge_url(url) == Some(id),
    decreases paths.len(),
{
    let links = links_from(doc, files, paths, heads);
    if paths.len() > 0 {
        let front = paths.drop_last();
        let before = links_from(doc, files, front, heads);
        files_with_a_url_are_linked(doc, files, front, heads, path, id);
        assert(paths == front.push(paths.last()));
        if front.contains(path) {
            let i = choose|i: int| 0 <= i < front.len() && front[i] == path;
            assert(paths[i] == path);
        }
        if paths.contains(path) && !front.contains(path) {
            let i = choose|i: int| 0 <= i < paths.len() && paths[i] == path;
            if i < front.len() {
                assert(front[i] == path);
            }
            assert(path == paths.last());
        }
        assert(paths[paths.len() - 1] == paths.last());
        if before.contains((path, id)) {
            let i = choose|i: int| 0 <= i < before.len() && before[i] == (path, id);
            assert(links[i] == (path, id));
        }
        if links.contains((path, id)) && !before.contains((path, id)) {
            let i = choose|i: int| 0 <= i < links.len() && links[i] == (path, id);
            if i < before.len() {
                assert(before[i] == (path, id));
            }
            let file = object_under(doc, files, path, heads)->0;
            let url = string_under(doc, file, "url"@, heads)->0;
            assert(string_under(doc, file, "url"@, heads) == Some(url));
            assert(automerge_url(url) == Some(id));
        }
        if path == paths.last() && links.len() > before.len() {
            assert(links[before.len() as int].0 == path);
            assert(links.contains(links[before.len() as int]));
        }
    }
}

/// Links come in the order of the paths.
pub proof fn links_keep_the_order_of_the_paths(
    doc: automerge::Automerge,
    files: Seq<u8>,
    a: Seq<Seq<char>>,
    b: Seq<Seq<char>>,
    heads: Seq<Seq<u8>>,
)
    ensures
        links_from(doc, files, a + b, heads) == links_from(doc, files, a, heads) + links_from(
            doc,
            files,
            b,
            heads,
        ),
    decreases b.len(),
{
    if b.len() > 0 {
        links_keep_the_order_of_the_paths(doc, files, a, b.drop_last(), heads);
        assert((a + b).drop_last() == a + b.drop_last());
        assert((a + b).last() == b.last());
    } else {
        assert(a + b == a);
    }
}

/// What was removed is told of, whatever it was; of what is there only files are; nothing ignored
/// is.
pub proof fn touched_files_are_told(ignored: bool, present: bool, is_file: bool)
    ensures
        ignored ==> !is_told(ignored, present, is_file),
        !ignored && !present ==> is_told(ignored, present, is_file),
        !ignored && present ==> (is_told(ignored, present, is_file) <==> is_file),
{
}

} // verus!
