//! Moving changes between the history and the file system.

use crate::content::{
    bytes_of, content_hash, reads_as_text, FileContent, FileSystemEvent, SceneParse,
};
use crate::digest::{blake3_hash, FileHash};
use crate::fs_traversal::{
    are_changes, changes_tell_states_apart, lemma_key_of_entry, lemma_take_one_more, ChangeType,
    FileSystemTraversal,
};
use crate::history::HistoryRef;
use crate::lists::reversed;
use crate::ordered::{distinct_keys, has_key, lemma_place, lemma_without, place, value_at};
use crate::table::Table;
use crate::text::texts;
use vstd::prelude::*;
use vstd::utf8::*;

verus! {

/// A file that a checkout changes: its path, how it changed, and its contents at the goal, which
/// are those of a deleted file where the goal has none.
#[derive(Debug)]
pub struct Planned {
    pub path: String,
    pub change: ChangeType,
    pub content: FileContent,
}

/// What a checkout does to one file.
#[derive(Debug)]
pub enum FileAction {
    /// The file stays as it is.
    Leave,
    /// The file is written with these bytes.
    Write(Vec<u8>),
    Delete,
}

/// The goal is checked out already.
pub open spec fn at_goal(checked_out: Option<HistoryRef>, goal: HistoryRef) -> bool {
    checked_out matches Some(r) && r.is_same(goal)
}

/// The changes that a checkout makes, by path and change: every deletion, and the other changes as
/// far as their contents at the goal are known.
pub open spec fn known_changes(
    changes: Seq<(Seq<char>, ChangeType)>,
    contents: Seq<(Seq<char>, FileContent)>,
) -> Seq<(Seq<char>, ChangeType)>
    decreases changes.len(),
{
    if changes.len() == 0 {
        Seq::empty()
    } else {
        let before = known_changes(changes.drop_last(), contents);
        if changes.last().1 == ChangeType::Deleted || has_key(contents, changes.last().0) {
            before.push(changes.last())
        } else {
            before
        }
    }
}

/// The path and change of each planned file.
pub open spec fn planned_changes(plan: Seq<Planned>) -> Seq<(Seq<char>, ChangeType)> {
    plan.map_values(|p: Planned| (p.path@, p.change))
}

/// The contents that a path has at the goal, those of a deleted file where it has none there.
pub open spec fn content_at_goal(
    contents: Seq<(Seq<char>, FileContent)>,
    path: Seq<char>,
) -> FileContent {
    match value_at(contents, path) {
        Some(content) => content,
        None => FileContent::Deleted,
    }
}

/// Each planned file has the contents that its path has at the goal.
pub open spec fn contents_match(
    plan: Seq<Planned>,
    contents: Seq<(Seq<char>, FileContent)>,
) -> bool {
    forall|i: int|
        0 <= i < plan.len() ==> (#[trigger] plan[i]).content == content_at_goal(
            contents,
            plan[i].path@,
        )
}

/// Brings the files on disk to a point in history.
#[derive(Clone, Copy, Debug)]
pub struct SyncAutomergeToFileSystem;

impl SyncAutomergeToFileSystem {
    /// What a checkout changes: the files that are gone at the goal, and the other changed files whose
    /// contents at the goal are known. Nothing where the goal is checked out already, or the changes
    /// or the contents could not be found.
    pub fn plan_checkout(
        checked_out: &Option<HistoryRef>,
        goal: &HistoryRef,
        changes: Option<Table<ChangeType>>,
        contents: Option<Table<FileContent>>,
    ) -> (r: Option<Vec<Planned>>)
        ensures
            r is Some <==> !at_goal(*checked_out, *goal) && changes is Some && contents is Some,
            r matches Some(plan) ==> planned_changes(plan@) == known_changes(
                changes->0@,
                contents->0@,
            ) && contents_match(plan@, contents->0@),
    {
        let there = match checked_out {
            Some(r) => r.same(goal),
            None => false,
        };
        if there {
            return None;
        }
        let changes = match changes {
            Some(changes) => changes,
            None => {
                return None;
            },
        };
        let mut contents = match contents {
            Some(contents) => contents,
            None => {
                return None;
            },
        };
        let ghost all = changes@;
        let ghost known = contents@;
        let n = changes.len();
        let _ = contents.len();
        let mut plan: Vec<Planned> = Vec::new();
        let mut i: usize = 0;
        assert(all.take(0) == Seq::<(Seq<char>, ChangeType)>::empty());
        assert(planned_changes(plan@) == Seq::<(Seq<char>, ChangeType)>::empty());
        while i < n
            invariant
                i <= n,
                n == all.len(),
                all == changes@,
                distinct_keys(all),
                distinct_keys(contents@),
                forall|path: Seq<char>|
                    !has_key(all.take(i as int), path) ==> #[trigger] value_at(contents@, path)
                        == value_at(known, path),
                planned_changes(plan@) == known_changes(all.take(i as int), known),
                contents_match(plan@, known),
            decreases n - i,
        {
            let path = changes.key_at(i).clone();
            let change = *changes.value_at(i);
            proof {
                lemma_take_one_more(all, i as int);
                assert(all.take(i + 1).drop_last() == all.take(i as int));
                assert(all.take(i + 1).last() == (path@, change));
                lemma_without(contents@, path@);
                assert(!has_key(all.take(i as int), path@)) by {
                    let a = all.take(i as int);
                    if has_key(a, path@) {
                        let k = choose|k: int| 0 <= k < a.len() && (#[trigger] a[k]).0 == path@;
                        assert(all[k].0 != all[i as int].0);
                    }
                }
                assert(value_at(contents@, path@) == value_at(known, path@));
            }
            let found = contents.remove(path.as_str());
            let ghost key = path@;
            assert(found is Some <==> has_key(known, key));
            let content = match (found, change) {
                (Some(content), _) => Some(content),
                (None, ChangeType::Deleted) => Some(FileContent::Deleted),
                (None, _) => None,
            };
            if let Some(content) = content {
                let ghost before = plan@;
                plan.push(Planned { path, change, content });
                assert(planned_changes(plan@) == planned_changes(before).push((key, change)));
                assert forall|j: int| 0 <= j < plan.len() implies (
                #[trigger] plan@[j]).content == content_at_goal(known, plan@[j].path@) by {
                    if j < before.len() {
                        assert(plan@[j] == before[j]);
                    }
                }
            }
            i = i + 1;
        }
        assert(all.take(n as int) == all);
        Some(plan)
    }

    /// Whether the file on disk has the contents already, by the hash of the file, where it could be
    /// found.
    pub fn compare_hashes(existing: Option<FileHash>, content: &FileContent) -> (r: bool)
        ensures
            r == same_on_disk(existing, *content),
    {
        match existing {
            Some(hash) => {
                let wanted = content.to_hash();
                wanted.same(&hash)
            },
            None => false,
        }
    }

    /// What a checkout does to a file that was created or modified: it writes the contents, unless the
    /// file is ignored, has them already, or they are those of a deleted file, which cannot be written.
    pub fn handle_file_update(
        ignored: bool,
        existing: Option<FileHash>,
        content: &FileContent,
    ) -> (r: FileAction)
        ensures
            is_update(ignored, existing, *content, r),
    {
        if ignored {
            return FileAction::Leave;
        }
        if Self::compare_hashes(existing, content) {
            return FileAction::Leave;
        }
        match content.as_bytes() {
            Some(bytes) => FileAction::Write(bytes),
            None => FileAction::Leave,
        }
    }

    /// What a checkout does to a file that was deleted: it deletes the file, unless it is ignored or
    /// gone already.
    pub fn handle_file_delete(ignored: bool, present: bool) -> (r: FileAction)
        ensures
            r == if ignored || !present {
                FileAction::Leave
            } else {
                FileAction::Delete
            },
    {
        if ignored || !present {
            FileAction::Leave
        } else {
            FileAction::Delete
        }
    }

    /// What a checkout does to a planned file. `existing` is the hash of the file on disk, where it
    /// could be found, and `present` whether there is such a file.
    pub fn planned_action(
        planned: &Planned,
        ignored: bool,
        existing: Option<FileHash>,
        present: bool,
    ) -> (r: FileAction)
        ensures
            is_planned_action(*planned, ignored, existing, present, r),
    {
        match planned.change {
            ChangeType::Created | ChangeType::Modified => Self::handle_file_update(
                ignored,
                existing,
                &planned.content,
            ),
            ChangeType::Deleted => Self::handle_file_delete(ignored, present),
        }
    }

    /// Ends a checkout: the goal is checked out, and an event stands for each planned file that was
    /// changed on disk. `done` has the path on disk of each file that was changed there.
    pub fn checkout_ref(
        checked_out: &mut Option<HistoryRef>,
        goal: HistoryRef,
        plan: Vec<Planned>,
        done: &Vec<Option<String>>,
    ) -> (r: Vec<FileSystemEvent>)
        requires
            done.len() == plan.len(),
        ensures
            *final(checked_out) == Some(goal),
            r@ == events_of(plan@, done@),
    {
        let ghost all = plan@;
        let n = plan.len();
        let mut rest = reversed(plan);
        let mut events: Vec<FileSystemEvent> = Vec::new();
        let mut i: usize = 0;
        assert(all.take(0) == Seq::<Planned>::empty());
        while rest.len() > 0
            invariant
                n == all.len(),
                n == done.len(),
                i + rest.len() == n,
                rest@ == all.reverse().take(rest.len() as int),
                events@ == events_of(all.take(i as int), done@),
            decreases rest.len(),
        {
            assert(all.take(i + 1).drop_last() == all.take(i as int));
            assert(all.take(i + 1)[i as int] == all[i as int]);
            if let Some(p) = rest.pop() {
                assert(p == all[i as int]);
                if let Some(disk_path) = &done[i] {
                    let disk_path = disk_path.clone();
                    events.push(
                        match p.change {
                            ChangeType::Created => FileSystemEvent::FileCreated(disk_path, p.content),
                            ChangeType::Modified => FileSystemEvent::FileModified(disk_path, p.content),
                            ChangeType::Deleted => FileSystemEvent::FileDeleted(disk_path),
                        },
                    );
                }
            }
            i = i + 1;
        }
        assert(all.take(n as int) == all);
        *checked_out = Some(goal);
        events
    }
}

/// The file on disk has the given contents already.
pub open spec fn same_on_disk(existing: Option<FileHash>, content: FileContent) -> bool {
    existing matches Some(hash) && hash@ == content_hash(content)
}

/// The action writes the contents of a file, or leaves the file where it is ignored, has the
/// contents already, or the contents are those of a deleted file.
pub open spec fn is_update(
    ignored: bool,
    existing: Option<FileHash>,
    content: FileContent,
    action: FileAction,
) -> bool {
    match bytes_of(content) {
        Some(wanted) => if ignored || same_on_disk(existing, content) {
            action is Leave
        } else {
            (action matches FileAction::Write(bytes) && bytes@ == wanted)
        },
        None => action is Leave,
    }
}

/// The action is what a checkout does to a planned file: a file that is gone at the goal is deleted,
/// unless it is ignored or gone already, and any other file is updated.
pub open spec fn is_planned_action(
    planned: Planned,
    ignored: bool,
    existing: Option<FileHash>,
    present: bool,
    action: FileAction,
) -> bool {
    if planned.change == ChangeType::Deleted {
        action == if ignored || !present {
            FileAction::Leave
        } else {
            FileAction::Delete
        }
    } else {
        is_update(ignored, existing, planned.content, action)
    }
}

/// The event for a planned file that was changed on disk, where it has this path.
pub open spec fn event_of(planned: Planned, disk_path: String) -> FileSystemEvent {
    match planned.change {
        ChangeType::Created => FileSystemEvent::FileCreated(disk_path, planned.content),
        ChangeType::Modified => FileSystemEvent::FileModified(disk_path, planned.content),
        ChangeType::Deleted => FileSystemEvent::FileDeleted(disk_path),
    }
}

/// The events for the planned files that were changed on disk, in order.
pub open spec fn events_of(plan: Seq<Planned>, done: Seq<Option<String>>) -> Seq<FileSystemEvent>
    decreases plan.len(),
{
    if plan.len() == 0 {
        Seq::empty()
    } else {
        let n = plan.len() - 1;
        let before = events_of(plan.drop_last(), done);
        match done[n] {
            Some(disk_path) => before.push(event_of(plan[n], disk_path)),
            None => before,
        }
    }
}

/// A checkout brings a planned file that is not ignored to what it is at the goal: a file that is
/// gone there is deleted or gone already, and any other is written with bytes of the hash of its
/// contents there, or has that hash already.
pub proof fn checkout_brings_contents(
    planned: Planned,
    existing: Option<FileHash>,
    present: bool,
    action: FileAction,
)
    requires
        is_planned_action(planned, false, existing, present, action),
        planned.change == ChangeType::Deleted || !(planned.content is Deleted),
    ensures
        planned.change == ChangeType::Deleted ==> (match action {
            FileAction::Delete => present,
            FileAction::Leave => !present,
            FileAction::Write(_) => false,
        }),
        planned.change != ChangeType::Deleted ==> (match action {
            FileAction::Write(bytes) => blake3_hash(bytes@) == content_hash(planned.content)
                && Some(bytes@) == bytes_of(planned.content),
            FileAction::Leave => existing matches Some(hash) && hash@ == content_hash(
                planned.content,
            ),
            FileAction::Delete => false,
        }),
{
}

/// A checkout plans to delete each file that is gone at the goal, and nothing else.
pub proof fn checkout_plans_every_deletion(
    changes: Seq<(Seq<char>, ChangeType)>,
    contents: Seq<(Seq<char>, FileContent)>,
    path: Seq<char>,
)
    ensures
        known_changes(changes, contents).contains((path, ChangeType::Deleted))
            <==> changes.contains((path, ChangeType::Deleted)),
    decreases changes.len(),
{
    let gone = (path, ChangeType::Deleted);
    if changes.len() > 0 {
        let before = changes.drop_last();
        let last = changes.last();
        checkout_plans_every_deletion(before, contents, path);
        assert(changes == before.push(last));
        lemma_push_contains(before, last, gone);
        lemma_push_contains(known_changes(before, contents), last, gone);
    }
}

/// A checkout plans each changed file that is there at the goal, whether it was created or modified,
/// exactly where its contents at the goal are known.
pub proof fn checkout_plans_every_known_file(
    changes: Seq<(Seq<char>, ChangeType)>,
    contents: Seq<(Seq<char>, FileContent)>,
    path: Seq<char>,
    change: ChangeType,
)
    requires
        change != ChangeType::Deleted,
    ensures
        known_changes(changes, contents).contains((path, change)) <==> changes.contains(
            (path, change),
        ) && has_key(contents, path),
    decreases changes.len(),
{
    if changes.len() > 0 {
        let before = changes.drop_last();
        let last = changes.last();
        checkout_plans_every_known_file(before, contents, path, change);
        assert(changes == before.push(last));
        lemma_push_contains(before, last, (path, change));
        lemma_push_contains(known_changes(before, contents), last, (path, change));
    }
}

/// A checkout plans no file twice, in the order of the changes.
pub proof fn plan_keeps_the_order_of_changes(
    changes: Seq<(Seq<char>, ChangeType)>,
    contents: Seq<(Seq<char>, FileContent)>,
)
    ensures
        known_changes(changes, contents) == changes.filter(
            |c: (Seq<char>, ChangeType)| c.1 == ChangeType::Deleted || has_key(contents, c.0),
        ),
    decreases changes.len(),
{
    reveal(Seq::filter);
    if changes.len() > 0 {
        plan_keeps_the_order_of_changes(changes.drop_last(), contents);
    }
}

/// The hash of what is on disk after an action, from the hash of what was there before; none where
/// there is no file.
pub open spec fn disk_after(before: Option<Seq<u8>>, action: FileAction) -> Option<Seq<u8>> {
    match action {
        FileAction::Leave => before,
        FileAction::Write(bytes) => Some(blake3_hash(bytes@)),
        FileAction::Delete => None,
    }
}

/// The bytes of the hash that a path has in an index.
pub open spec fn hash_in(index: Seq<(Seq<char>, FileHash)>, path: Seq<char>) -> Option<Seq<u8>> {
    match value_at(index, path) {
        Some(hash) => Some(hash@),
        None => None,
    }
}

/// A checkout brings a directory from one point in history to another. Where the directory was at
/// the one, and the contents at the other are known, each path that is planned is at the other after
/// what is done to it, and each path that is not planned is the same at both.
pub proof fn checkout_goes_from_one_point_to_the_other(
    old_index: Seq<(Seq<char>, FileHash)>,
    new_index: Seq<(Seq<char>, FileHash)>,
    changes: Seq<(Seq<char>, ChangeType)>,
    contents: Seq<(Seq<char>, FileContent)>,
    plan: Seq<Planned>,
    path: Seq<char>,
    existing: Option<FileHash>,
)
    requires
        are_changes(old_index, new_index, changes),
        distinct_keys(changes),
        forall|p: Seq<char>| #[trigger]
            has_key(new_index, p) ==> (value_at(contents, p) matches Some(c) && !(c is Deleted)
                && content_hash(c) == value_at(new_index, p)->0@),
        planned_changes(plan) == known_changes(changes, contents),
        contents_match(plan, contents),
        (match existing {
            Some(hash) => Some(hash@),
            None => None,
        }) == hash_in(old_index, path),
    ensures
        forall|i: int, action: FileAction|
            0 <= i < plan.len() && (#[trigger] plan[i]).path@ == path && #[trigger] is_planned_action(
                plan[i],
                false,
                existing,
                existing is Some,
                action,
            ) ==> disk_after(hash_in(old_index, path), action) == hash_in(new_index, path),
        (forall|i: int| 0 <= i < plan.len() ==> (#[trigger] plan[i]).path@ != path) ==> hash_in(
            old_index,
            path,
        ) == hash_in(new_index, path),
{
    let known = known_changes(changes, contents);
    changes_tell_states_apart(old_index, new_index, changes, path);
    assert forall|i: int, action: FileAction|
        0 <= i < plan.len() && (#[trigger] plan[i]).path@ == path && #[trigger] is_planned_action(
            plan[i],
            false,
            existing,
            existing is Some,
            action,
        ) implies disk_after(hash_in(old_index, path), action) == hash_in(new_index, path) by {
        let change = plan[i].change;
        assert(planned_changes(plan)[i] == (path, change));
        assert(known[i] == (path, change));
        if change == ChangeType::Deleted {
            checkout_plans_every_deletion(changes, contents, path);
        } else {
            checkout_plans_every_known_file(changes, contents, path, change);
        }
        let k = choose|k: int| 0 <= k < changes.len() && changes[k] == (path, change);
        lemma_key_of_entry(changes, k);
        assert(value_at(changes, path) == Some(change));
    }
    if forall|i: int| 0 <= i < plan.len() ==> (#[trigger] plan[i]).path@ != path {
        if has_key(changes, path) {
            lemma_place(changes, path);
            let change = value_at(changes, path)->0;
            let k = place(changes, path);
            assert(changes[k] == (path, change));
            assert(changes.contains((path, change)));
            if change == ChangeType::Deleted {
                checkout_plans_every_deletion(changes, contents, path);
            } else {
                assert(has_key(new_index, path));
                checkout_plans_every_known_file(changes, contents, path, change);
            }
            let i = choose|i: int| 0 <= i < known.len() && known[i] == (path, change);
            assert(planned_changes(plan)[i].0 == plan[i].path@);
        }
    }
}

/// An ignored file is never touched by a checkout.
pub proof fn checkout_leaves_ignored_files(
    planned: Planned,
    existing: Option<FileHash>,
    present: bool,
    action: FileAction,
)
    requires
        is_planned_action(planned, true, existing, present, action),
    ensures
        action is Leave,
{
}

/// Exactly the planned files that were changed on disk are told of, each with its path on disk: a
/// created or modified file with its contents, and a deleted file as gone.
pub proof fn every_file_on_disk_is_told(
    plan: Seq<Planned>,
    done: Seq<Option<String>>,
    event: FileSystemEvent,
)
    requires
        done.len() == plan.len(),
    ensures
        events_of(plan, done).contains(event) <==> exists|i: int|
            0 <= i < plan.len() && (#[trigger] done[i]) is Some && match plan[i].change {
                ChangeType::Created => event == FileSystemEvent::FileCreated(
                    done[i]->0,
                    plan[i].content,
                ),
                ChangeType::Modified => event == FileSystemEvent::FileModified(
                    done[i]->0,
                    plan[i].content,
                ),
                ChangeType::Deleted => event == FileSystemEvent::FileDeleted(done[i]->0),
            },
{
    lemma_told(plan, done, event, plan.len() as int);
    assert(plan.take(plan.len() as int) == plan);
    assert forall|i: int| 0 <= i < plan.len() implies #[trigger] tells_of(plan, done, event, i) == (
    done[i] is Some && match plan[i].change {
        ChangeType::Created => event == FileSystemEvent::FileCreated(done[i]->0, plan[i].content),
        ChangeType::Modified => event == FileSystemEvent::FileModified(done[i]->0, plan[i].content),
        ChangeType::Deleted => event == FileSystemEvent::FileDeleted(done[i]->0),
    }) by {}
    if events_of(plan, done).contains(event) {
        let i = choose|i: int| 0 <= i < plan.len() && #[trigger] tells_of(plan, done, event, i);
        assert(done[i] is Some);
    }
    if exists|i: int|
        0 <= i < plan.len() && (#[trigger] done[i]) is Some && match plan[i].change {
            ChangeType::Created => event == FileSystemEvent::FileCreated(
                done[i]->0,
                plan[i].content,
            ),
            ChangeType::Modified => event == FileSystemEvent::FileModified(
                done[i]->0,
                plan[i].content,
            ),
            ChangeType::Deleted => event == FileSystemEvent::FileDeleted(done[i]->0),
        } {
        let i = choose|i: int|
            0 <= i < plan.len() && (#[trigger] done[i]) is Some && match plan[i].change {
                ChangeType::Created => event == FileSystemEvent::FileCreated(
                    done[i]->0,
                    plan[i].content,
                ),
                ChangeType::Modified => event == FileSystemEvent::FileModified(
                    done[i]->0,
                    plan[i].content,
                ),
                ChangeType::Deleted => event == FileSystemEvent::FileDeleted(done[i]->0),
            };
        assert(tells_of(plan, done, event, i));
    }
}

/// The event tells of the planned file at place `i`.
spec fn tells_of(
    plan: Seq<Planned>,
    done: Seq<Option<String>>,
    event: FileSystemEvent,
    i: int,
) -> bool {
    done[i] is Some && match plan[i].change {
        ChangeType::Created => event == FileSystemEvent::FileCreated(done[i]->0, plan[i].content),
        ChangeType::Modified => event == FileSystemEvent::FileModified(done[i]->0, plan[i].content),
        ChangeType::Deleted => event == FileSystemEvent::FileDeleted(done[i]->0),
    }
}

proof fn lemma_told(
    plan: Seq<Planned>,
    done: Seq<Option<String>>,
    event: FileSystemEvent,
    n: int,
)
    requires
        0 <= n <= plan.len(),
        done.len() == plan.len(),
    ensures
        events_of(plan.take(n), done).contains(event) <==> exists|i: int|
            0 <= i < n && #[trigger] tells_of(plan, done, event, i),
    decreases n,
{
    if n > 0 {
        lemma_told(plan, done, event, n - 1);
        assert(plan.take(n).drop_last() == plan.take(n - 1));
        let before = events_of(plan.take(n - 1), done);
        if done[n - 1] is Some {
            lemma_push_contains(before, event_of(plan[n - 1], done[n - 1]->0), event);
        }
        assert(tells_of(plan, done, event, n - 1) <==> done[n - 1] is Some && event == event_of(
            plan[n - 1],
            done[n - 1]->0,
        ));
    }
}

/// A commit takes exactly the paths at which the branch and the disk differ: a file that is in one
/// of them only, or in both with different hashes.
pub proof fn commit_takes_what_differs(
    old_files: Seq<(Seq<char>, FileHash)>,
    current_files: Seq<(Seq<char>, FileHash)>,
    changes: Seq<(Seq<char>, ChangeType)>,
    path: Seq<char>,
)
    requires
        are_changes(old_files, current_files, changes),
    ensures
        changed_paths(changes).contains(path) <==> hash_in(old_files, path) != hash_in(
            current_files,
            path,
        ),
{
    changes_tell_states_apart(old_files, current_files, changes, path);
    let paths = changed_paths(changes);
    if has_key(changes, path) {
        let k = choose|k: int| 0 <= k < changes.len() && (#[trigger] changes[k]).0 == path;
        assert(paths[k] == path);
    }
    if paths.contains(path) {
        let k = choose|k: int| 0 <= k < paths.len() && paths[k] == path;
        assert(changes[k].0 == path);
    }
}

proof fn lemma_push_contains<T>(s: Seq<T>, last: T, x: T)
    ensures
        s.push(last).contains(x) <==> s.contains(x) || last == x,
{
    let t = s.push(last);
    if s.contains(x) {
        let i = choose|i: int| 0 <= i < s.len() && s[i] == x;
        assert(t[i] == x);
    }
    if last == x {
        assert(t[s.len() as int] == x);
    }
    if t.contains(x) {
        let i = choose|i: int| 0 <= i < t.len() && t[i] == x;
        if i < s.len() {
            assert(s[i] == x);
        }
    }
}

/// After a checkout its goal is checked out: checking it out again changes nothing.
pub proof fn checkout_reaches_goal(goal: HistoryRef)
    ensures
        at_goal(Some(goal), goal),
{
}

/// What a commit does next.
#[derive(Debug)]
pub enum CommitStep {
    /// The files of the branch could not be found: nothing is committed, and the watched changes
    /// stay pending.
    Cancelled,
    /// Nothing changed on disk.
    Nothing,
    /// These paths are committed.
    Commit(Vec<String>),
}

/// Collects the changes that were seen in the file system until they are committed.
#[derive(Debug)]
pub struct SyncFileSystemToAutomerge {
    pending_changes: Vec<String>,
}

/// The paths that changed.
pub open spec fn changed_paths(changes: Seq<(Seq<char>, ChangeType)>) -> Seq<Seq<char>> {
    changes.map_values(|c: (Seq<char>, ChangeType)| c.0)
}

impl SyncFileSystemToAutomerge {
    /// The paths of the pending changes.
    pub closed spec fn pending(self) -> Seq<String> {
        self.pending_changes@
    }

    pub fn new() -> (r: Self)
        ensures
            r.pending() == Seq::<String>::empty(),
    {
        SyncFileSystemToAutomerge { pending_changes: Vec::new() }
    }

    /// Notes that a file was touched.
    pub fn file_touched(&mut self, path: String)
        ensures
            final(self).pending() == old(self).pending().push(path),
    {
        self.pending_changes.push(path);
    }

    /// Whether a commit looks at the file system at all: when it is forced or changes are pending.
    pub fn wants_commit(&self, force: bool) -> (r: bool)
        ensures
            r == (force || self.pending().len() > 0),
    {
        force || self.pending_changes.len() > 0
    }

    /// Decides on a commit from the hashes of the branch's files, where they could be found, and
    /// of the files on disk. Once it is decided whether there is something to commit, nothing is
    /// pending any more.
    pub fn commit(
        &mut self,
        old_files: Option<&Table<FileHash>>,
        current_files: &Table<FileHash>,
    ) -> (r: CommitStep)
        ensures
            old_files is None <==> r is Cancelled,
            old_files is None ==> final(self).pending() == old(self).pending(),
            old_files is Some ==> final(self).pending() == Seq::<String>::empty(),
            old_files matches Some(o) ==> exists|changes: Seq<(Seq<char>, ChangeType)>| #[trigger]
                are_changes(o@, current_files@, changes) && distinct_keys(changes) && match r {
                    CommitStep::Commit(paths) => changes.len() > 0 && texts(paths@)
                        == changed_paths(changes),
                    _ => changes.len() == 0,
                },
    {
        let old_files = match old_files {
            Some(files) => files,
            None => {
                return CommitStep::Cancelled;
            },
        };
        let diff = FileSystemTraversal::get_file_changes(old_files, current_files);
        self.pending_changes.clear();
        assert(self.pending_changes@ == Seq::<String>::empty());
        let n = diff.len();
        if n == 0 {
            return CommitStep::Nothing;
        }
        let mut paths: Vec<String> = Vec::new();
        let mut i: usize = 0;
        while i < n
            invariant
                i <= n,
                n == diff@.len(),
                paths.len() == i,
                forall|j: int| 0 <= j < i ==> (#[trigger] paths@[j])@ == diff@[j].0,
            decreases n - i,
        {
            paths.push(diff.key_at(i).clone());
            i = i + 1;
        }
        assert(texts(paths@) == changed_paths(diff@));
        CommitStep::Commit(paths)
    }

    /// The paths that a commit reports: those it committed, where there is a new reference.
    pub fn committed(paths: Vec<String>, new_ref: &Option<HistoryRef>) -> (r: Vec<String>)
        ensures
            r@ == if new_ref is Some {
                paths@
            } else {
                Seq::<String>::empty()
            },
    {
        if new_ref.is_some() {
            paths
        } else {
            Vec::new()
        }
    }

    /// Ends a first commit of all files: the new reference is checked out, where there is one.
    pub fn checkin(checked_out: &mut Option<HistoryRef>, new_ref: Option<HistoryRef>)
        ensures
            *final(checked_out) == if new_ref is Some {
                new_ref
            } else {
                *old(checked_out)
            },
    {
        if new_ref.is_some() {
            *checked_out = new_ref;
        }
    }
}

/// What was found on disk for a path.
#[derive(Debug)]
pub enum DiskRead {
    /// There is no such file.
    Missing,
    /// The file could not be read.
    Failed,
    /// The file has these bytes, and the scene parser made this of its text.
    Data(Vec<u8>, SceneParse),
}

/// The contents to commit for a path: none for a file that is gone. A file that could not be read
/// is left out of the commit.
pub fn get_file_contents(path: String, read: DiskRead) -> (r: Option<(String, Option<FileContent>)>)
    ensures
        match read {
            DiskRead::Missing => r == Some((path, None::<FileContent>)),
            DiskRead::Failed => r is None,
            DiskRead::Data(data, parse) => (r matches Some((p, Some(content))) && p == path
                && is_content_of(data, parse, content)),
        },
{
    match read {
        DiskRead::Missing => Some((path, None)),
        DiskRead::Failed => None,
        DiskRead::Data(data, parse) => Some((path, Some(FileContent::from_buf(data, parse)))),
    }
}

/// The contents are those of a file with the given bytes.
pub open spec fn is_content_of(data: Vec<u8>, parse: SceneParse, content: FileContent) -> bool {
    if !reads_as_text(data@) {
        content == FileContent::Binary(data)
    } else if parse is Parsed {
        content == FileContent::Scene(parse->Parsed_0)
    } else {
        content matches FileContent::String(t) && encode_utf8(t@) == data@
    }
}

/// A file that was read from disk and is no scene is written back byte for byte, and has the hash of
/// the file on disk.
pub proof fn committed_files_come_back(data: Vec<u8>, parse: SceneParse, content: FileContent)
    requires
        is_content_of(data, parse, content),
        !(content is Scene),
    ensures
        bytes_of(content) == Some(data@),
        content_hash(content) == blake3_hash(data@),
{
}

} // verus!
