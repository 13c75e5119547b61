//! Summaries of changes, readable times, and other small helpers.

use crate::diff::ProjectDiff;
use crate::history::{ChangeHash, DocumentId};
use crate::paths::{file_name, get_file_name};
use crate::text::{
    chars_of, decimal, decimal_text, find_char, first_index, joined, joined3, lemma_first_index,
    lemma_first_index_is, list_has, replace_char, same_text, signed_decimal, signed_decimal_text,
    string_between, text_in, texts, with_replaced,
};
use chrono::TimeZone;
use std::fmt::Write;
use std::str::FromStr;
use vstd::prelude::*;
use vstd::string::*;

verus! {

/// One step on the way to a changed value in a document.
#[derive(Debug)]
pub enum PatchStep {
    /// The key of a map.
    Key(String),
    /// A place in a list.
    Index,
}

/// The file that a change in a branch document is about.
pub open spec fn patched_file(path: Seq<PatchStep>) -> Option<Seq<char>> {
    if path.len() >= 2 && path[0] is Key && path[1] is Key && path[0]->Key_0@ == "files"@ {
        Some(path[1]->Key_0@)
    } else {
        None
    }
}

/// The files that changes in a branch document are about. No file occurs twice.
pub fn get_changed_files(patches: &Vec<Vec<PatchStep>>) -> (r: Vec<String>)
    ensures
        forall|file: Seq<char>| #[trigger]
            texts(r@).contains(file) <==> exists|i: int|
                0 <= i < patches.len() && patched_file((#[trigger] patches@[i])@) == Some(file),
        texts(r@).no_duplicates(),
{
    let mut files: Vec<String> = Vec::new();
    let mut i: usize = 0;
    while i < patches.len()
        invariant
            i <= patches.len(),
            forall|file: Seq<char>| #[trigger]
                texts(files@).contains(file) <==> exists|j: int|
                    0 <= j < i && patched_file((#[trigger] patches@[j])@) == Some(file),
            texts(files@).no_duplicates(),
        decreases patches.len() - i,
    {
        let path = &patches[i];
        if path.len() >= 2 {
            if let PatchStep::Key(first) = &path[0] {
                if let PatchStep::Key(second) = &path[1] {
                    if same_text(first.as_str(), "files") && !list_has(&files, second.as_str()) {
                        let ghost before = texts(files@);
                        let ghost key = second@;
                        files.push(second.clone());
                        proof {
                            let after = texts(files@);
                            assert(after == before.push(key));
                            assert forall|file: Seq<char>| #[trigger] after.contains(file) <==> (
                            before.contains(file) || file == key) by {
                                if before.contains(file) {
                                    let k = choose|k: int|
                                        0 <= k < before.len() && before[k] == file;
                                    assert(after[k] == file);
                                }
                                if file == key {
                                    assert(after[before.len() as int] == file);
                                }
                            }
                        }
                    }
                }
            }
        }
        i = i + 1;
    }
    files
}

/// How a commit changed a file.
#[derive(Clone, Copy, Debug, PartialEq, Eq, Structural)]
pub enum ChangeType {
    Added,
    Removed,
    Modified,
}

/// The word for a change.
pub open spec fn change_name(change: ChangeType) -> Seq<char> {
    match change {
        ChangeType::Added => "added"@,
        ChangeType::Removed => "removed"@,
        ChangeType::Modified => "modified"@,
    }
}

impl ChangeType {
    /// The word for the change.
    pub fn to_text(&self) -> (r: String)
        ensures
            r@ == change_name(*self),
    {
        match self {
            ChangeType::Added => "added".to_owned(),
            ChangeType::Removed => "removed".to_owned(),
            ChangeType::Modified => "modified".to_owned(),
        }
    }
}

/// A file that a commit changed.
#[derive(Debug)]
pub struct ChangedFile {
    pub change_type: ChangeType,
    pub path: String,
}

/// The branch that a commit merged, and where it had been forked off.
#[derive(Debug)]
pub struct MergeMetadata {
    pub merged_branch_id: DocumentId,
    pub forked_at_heads: Vec<ChangeHash>,
}

/// What is kept with a commit.
#[derive(Debug)]
pub struct CommitMetadata {
    pub username: Option<String>,
    pub branch_id: Option<DocumentId>,
    pub merge_metadata: Option<MergeMetadata>,
    pub reverted_to: Option<Vec<ChangeHash>>,
    /// The files that the commit changed, where it is one to a branch.
    pub changed_files: Option<Vec<ChangedFile>>,
    /// Whether the commit was made to set the repository up.
    pub is_setup: Option<bool>,
}

/// A commit, as the editor lists it.
#[derive(Debug)]
pub struct CommitInfo {
    pub hash: ChangeHash,
    pub timestamp: i64,
    pub metadata: Option<CommitMetadata>,
    pub synced: bool,
    pub summary: String,
}

/// A branch with the branches that were forked off it.
#[derive(Debug)]
pub struct BranchWrapper<B> {
    pub state: B,
    pub children: Vec<DocumentId>,
}

/// A project diff with its title.
#[derive(Debug)]
pub struct DiffWrapper {
    pub diff: ProjectDiff,
    pub title: String,
}

/// The paths of the files that were changed in the given way, in order.
pub open spec fn paths_of_type(changes: Seq<ChangedFile>, change: ChangeType) -> Seq<Seq<char>>
    decreases changes.len(),
{
    if changes.len() == 0 {
        Seq::empty()
    } else {
        let before = paths_of_type(changes.drop_last(), change);
        if changes.last().change_type == change {
            before.push(changes.last().path@)
        } else {
            before
        }
    }
}

/// The name that a file is shown by: its file name, or else its path.
pub open spec fn shown_name(path: Seq<char>) -> Seq<char> {
    match file_name(path) {
        Some(name) => name,
        None => path,
    }
}

/// A few words on the files at the given paths: nothing for none, the name of a single one, else
/// their number.
pub open spec fn summary_text(paths: Seq<Seq<char>>, word: Seq<char>) -> Seq<char> {
    if paths.len() == 0 {
        Seq::empty()
    } else if paths.len() == 1 {
        word + " "@ + shown_name(paths[0])
    } else {
        word + " "@ + decimal(paths.len()) + " files"@
    }
}

/// A few words on the files that were changed in the given way.
pub fn get_summary_text(
    changes: &Vec<ChangedFile>,
    operation: ChangeType,
    display_operation: Option<&str>,
) -> (r: String)
    ensures
        r@ == summary_text(
            paths_of_type(changes@, operation),
            (match display_operation {
                Some(word) => word@,
                None => change_name(operation),
            }),
        ),
{
    let display = match display_operation {
        Some(word) => word.to_owned(),
        None => operation.to_text(),
    };
    let mut count: usize = 0;
    let mut first: usize = 0;
    let mut i: usize = 0;
    assert(changes@.take(0) == Seq::<ChangedFile>::empty());
    while i < changes.len()
        invariant
            i <= changes.len(),
            count <= i,
            count == paths_of_type(changes@.take(i as int), operation).len(),
            count > 0 ==> first < i && paths_of_type(changes@.take(i as int), operation)[0]
                == changes@[first as int].path@,
        decreases changes.len() - i,
    {
        assert(changes@.take(i + 1).drop_last() == changes@.take(i as int));
        assert(changes@.take(i + 1).last() == changes@[i as int]);
        if changes[i].change_type == operation {
            if count == 0 {
                first = i;
            }
            count = count + 1;
        }
        i = i + 1;
    }
    assert(changes@.take(changes@.len() as int) == changes@);
    if count == 0 {
        return String::new();
    }
    if count == 1 {
        let path = &changes[first].path;
        let name = match get_file_name(path.as_str()) {
            Some(name) => name,
            None => path.clone(),
        };
        return joined3(display.as_str(), " ", name.as_str());
    }
    let number = decimal_text(count as u64);
    let head = joined3(display.as_str(), " ", number.as_str());
    joined(head.as_str(), " files")
}

/// The parts of a summary that say something.
pub open spec fn said(parts: Seq<Seq<char>>) -> Seq<Seq<char>>
    decreases parts.len(),
{
    if parts.len() == 0 {
        Seq::empty()
    } else if parts.last().len() == 0 {
        said(parts.drop_last())
    } else {
        said(parts.drop_last()).push(parts.last())
    }
}

/// The summary of a commit by its author: what was added, removed and edited, where that is one
/// or two of the three.
pub open spec fn summary(author: Seq<char>, changes: Seq<ChangedFile>) -> Seq<char> {
    let parts = said(
        seq![
            summary_text(paths_of_type(changes, ChangeType::Added), "added"@),
            summary_text(paths_of_type(changes, ChangeType::Removed), "removed"@),
            summary_text(paths_of_type(changes, ChangeType::Modified), "edited"@),
        ],
    );
    if parts.len() == 2 {
        author + " "@ + parts[0] + (" and "@ + parts[1])
    } else if parts.len() == 1 {
        author + " "@ + parts[0]
    } else {
        author + " made some changes"@
    }
}

/// The summary of a commit by its author.
pub fn summarize_changes(author: &str, changes: &Vec<ChangedFile>) -> (r: String)
    ensures
        r@ == summary(author@, changes@),
{
    let added = get_summary_text(changes, ChangeType::Added, None);
    let removed = get_summary_text(changes, ChangeType::Removed, None);
    let modified = get_summary_text(changes, ChangeType::Modified, Some("edited"));
    let mut strings: Vec<String> = Vec::new();
    let ghost all = seq![added@, removed@, modified@];
    proof {
        reveal_with_fuel(said, 4);
        assert(all.drop_last() == seq![added@, removed@]);
        assert(all.drop_last().drop_last() == seq![added@]);
        assert(all.drop_last().drop_last().drop_last() == Seq::<Seq<char>>::empty());
    }
    if added.as_str().unicode_len() > 0 {
        strings.push(added);
    }
    if removed.as_str().unicode_len() > 0 {
        strings.push(removed);
    }
    if modified.as_str().unicode_len() > 0 {
        strings.push(modified);
    }
    assert(texts(strings@) == said(all));
    if strings.len() == 2 {
        assert(texts(strings@)[0] == strings@[0]@);
        assert(texts(strings@)[1] == strings@[1]@);
        let head = joined3(author, " ", strings[0].as_str());
        let tail = joined(" and ", strings[1].as_str());
        joined(head.as_str(), tail.as_str())
    } else if strings.len() == 1 {
        assert(texts(strings@)[0] == strings@[0]@);
        joined3(author, " ", strings[0].as_str())
    } else {
        joined(author, " made some changes")
    }
}

/// A summary always begins with the author, and says more than that.
pub proof fn summary_names_author(author: Seq<char>, changes: Seq<ChangedFile>)
    ensures
        author.is_prefix_of(summary(author, changes)),
        summary(author, changes).len() > author.len(),
{
    reveal_strlit(" ");
    reveal_strlit(" made some changes");
    let s = summary(author, changes);
    assert(s.take(author.len() as int) == author);
}

/// The first second that chrono can hold: the start of the year 262144 before the common era, in
/// seconds since the Unix epoch.
pub const FIRST_SECOND: i64 = -8334601228800;

/// The last second that chrono can hold: the end of the year 262142.
pub const LAST_SECOND: i64 = 8210266876799;

/// The format of a date, as a locale writes it.
pub const DATE_FORMAT: &'static str = "%x";

/// The format of a date and a time of day, to the second.
pub const TIME_FORMAT: &'static str = "%Y-%m-%d %H:%M:%S";

/// Chrono knows a locale by this name.
pub uninterp spec fn known_locale(name: Seq<char>) -> bool;

/// A time, in seconds since the Unix epoch, where clocks are this many seconds ahead of universal
/// time, in a format and as a locale writes it; nothing for a time, a number of seconds or a
/// locale that chrono does not know, or where the locale has no such format.
pub uninterp spec fn localized_date(
    time: i64,
    offset: i32,
    locale: Seq<char>,
    format: Seq<char>,
) -> Option<Seq<char>>;

/// A time, in seconds since the Unix epoch, where clocks are this many seconds ahead of universal
/// time, in a format; nothing for a time or a number of seconds that chrono does not know, or a
/// format that is none.
pub uninterp spec fn formatted_time(time: i64, offset: i32, format: Seq<char>) -> Option<Seq<char>>;

/// `sys_locale::get_locale`: the language tag that the system prefers, if any. Nothing is stated of
/// the tag, which rests on the machine.
#[verifier::external_body]
fn system_locale() -> (r: Option<String>) {
    sys_locale::get_locale()
}

/// `chrono::Local::now` and `chrono::DateTime::signed_duration_since`: how many seconds have passed
/// since the given time, for any time that chrono can hold. Chrono takes no clock that stands before
/// the Unix epoch, nor one beyond the last time that it can hold. No more is stated of the number,
/// which rests on the clock.
#[verifier::external_body]
fn seconds_since(time: i64) -> (r: Option<i64>)
    ensures
        r is Some <==> FIRST_SECOND <= time <= LAST_SECOND,
        r matches Some(secs) ==> -time <= secs <= LAST_SECOND - time,
{
    let then = chrono::Local.timestamp_opt(time, 0).single()?;
    Some(chrono::Local::now().signed_duration_since(then).num_seconds())
}

/// `chrono::Local::timestamp_opt` and `chrono::FixedOffset::local_minus_utc`: how many seconds the
/// machine's clocks are ahead of universal time at the given time, which is less than a day either
/// way. No more is stated of the number, which rests on the machine's time zone.
#[verifier::external_body]
fn local_offset(time: i64) -> (r: Option<i32>)
    ensures
        r is Some <==> FIRST_SECOND <= time <= LAST_SECOND,
        r matches Some(offset) ==> -86400 < offset < 86400,
{
    let then = chrono::Local.timestamp_opt(time, 0).single()?;
    Some(then.fixed_offset().offset().local_minus_utc())
}

/// `chrono::Locale::from_str`: whether chrono knows a locale by this name.
#[verifier::external_body]
fn is_known_locale(name: &str) -> (r: bool)
    ensures
        r == known_locale(name@),
{
    chrono::Locale::from_str(name).is_ok()
}

/// `chrono::DateTime::format_localized`: a time in a format, as a locale writes it.
#[verifier::external_body]
fn format_localized(time: i64, offset: i32, locale: &str, format: &str) -> (r: Option<String>)
    ensures
        optional_text(r) == localized_date(time, offset, locale@, format@),
{
    let zone = chrono::FixedOffset::east_opt(offset)?;
    let locale = chrono::Locale::from_str(locale).ok()?;
    let then = zone.timestamp_opt(time, 0).single()?;
    let mut out = String::new();
    write!(out, "{}", then.format_localized(format, locale)).ok()?;
    Some(out)
}

/// `chrono::DateTime::format`: a time in a format. A date and a time of day can always be written.
#[verifier::external_body]
fn format_time(time: i64, offset: i32, format: &str) -> (r: Option<String>)
    ensures
        optional_text(r) == formatted_time(time, offset, format@),
        FIRST_SECOND <= time <= LAST_SECOND && -86400 < offset < 86400 && format@ == TIME_FORMAT@
            ==> r is Some,
{
    let zone = chrono::FixedOffset::east_opt(offset)?;
    let then = zone.timestamp_opt(time, 0).single()?;
    let mut out = String::new();
    write!(out, "{}", then.format(format)).ok()?;
    Some(out)
}

/// The characters of a text that may be absent.
pub open spec fn optional_text(text: Option<String>) -> Option<Seq<char>> {
    match text {
        Some(t) => Some(t@),
        None => None,
    }
}

/// How long ago something was, while that is less than nine days.
pub open spec fn age(secs: int) -> Seq<char> {
    if secs < 60 {
        signed_decimal(secs) + "s ago"@
    } else if secs < 3600 {
        signed_decimal(secs / 60) + "m ago"@
    } else if secs < 86400 {
        signed_decimal(secs / 3600) + "h ago"@
    } else {
        signed_decimal(secs / 86400) + "d ago"@
    }
}

/// Nine days, in seconds.
pub const AGE_LIMIT: i64 = 777600;

/// How long ago something was, while that is less than nine days.
pub fn age_text(secs: i64) -> (r: Option<String>)
    ensures
        r is Some <==> secs < AGE_LIMIT,
        r matches Some(t) ==> t@ == age(secs as int),
{
    if secs >= AGE_LIMIT {
        return None;
    }
    if secs < 60 {
        let number = signed_decimal_text(secs);
        Some(joined(number.as_str(), "s ago"))
    } else if secs < 3600 {
        let number = signed_decimal_text(secs / 60);
        Some(joined(number.as_str(), "m ago"))
    } else if secs < 86400 {
        let number = signed_decimal_text(secs / 3600);
        Some(joined(number.as_str(), "h ago"))
    } else {
        let number = signed_decimal_text(secs / 86400);
        Some(joined(number.as_str(), "d ago"))
    }
}

/// What a language tag is in chrono's way of writing: what stands before a dot, with underscores
/// for hyphens.
pub open spec fn locale_name(tag: Seq<char>) -> Seq<char> {
    replace_char(tag.take(first_index(tag, '.')), '-', "_"@)
}

/// The name of the locale for a language tag: American English where there is no tag, or chrono
/// knows no such locale.
pub open spec fn chosen_locale(tag: Option<Seq<char>>) -> Seq<char> {
    match tag {
        Some(t) => if known_locale(locale_name(t)) {
            locale_name(t)
        } else {
            "en_US"@
        },
        None => "en_US"@,
    }
}

/// The name of the locale for a language tag.
pub fn locale_of(tag: Option<&str>) -> (r: String)
    ensures
        r@ == chosen_locale(text_in(tag)),
{
    match tag {
        Some(tag) => {
            let v = chars_of(tag);
            let dot = find_char(&v, '.', 0);
            assert(v@.skip(0) == v@);
            assert(v@.subrange(0, dot as int) == v@.take(dot as int));
            let head = string_between(&v, 0, dot);
            let name = with_replaced(head.as_str(), '-', "_");
            if is_known_locale(name.as_str()) {
                name
            } else {
                "en_US".to_owned()
            }
        },
        None => "en_US".to_owned(),
    }
}

/// The name of the locale that the system prefers.
pub fn locale_from_system() -> (r: String)
    ensures
        exists|tag: Option<Seq<char>>| r@ == #[trigger] chosen_locale(tag),
{
    match system_locale() {
        Some(tag) => {
            let r = locale_of(Some(tag.as_str()));
            assert(r@ == chosen_locale(Some(tag@)));
            r
        },
        None => {
            let r = locale_of(None);
            assert(r@ == chosen_locale(None));
            r
        },
    }
}

/// The text for a time that was so many seconds ago: how long ago that is or, once that is nine
/// days or more, the date. Nothing where the locale cannot write it.
pub open spec fn shown_time(time: i64, secs: i64, offset: i32, locale: Seq<char>) -> Option<
    Seq<char>,
> {
    if secs < AGE_LIMIT {
        Some(age(secs as int))
    } else {
        localized_date(time, offset, locale, DATE_FORMAT@)
    }
}

/// The text for a time that was so many seconds ago, where clocks are `offset` seconds ahead of
/// universal time.
pub fn time_text(time: i64, secs: i64, offset: i32, locale: &str) -> (r: Option<String>)
    ensures
        optional_text(r) == shown_time(time, secs, offset, locale@),
{
    match age_text(secs) {
        Some(text) => Some(text),
        None => format_localized(time, offset, locale, DATE_FORMAT),
    }
}

/// Milliseconds in whole seconds, rounded towards zero.
pub open spec fn whole_seconds(timestamp: i64) -> i64 {
    if timestamp >= 0 {
        (timestamp as int / 1000) as i64
    } else {
        (-((-timestamp) / 1000)) as i64
    }
}

/// The text is that of a time, for some time that has passed since on a clock that stands between the
/// Unix epoch and the last time that chrono can hold, in some time zone, and in the locale for some
/// language tag.
pub open spec fn reads_as(
    time: i64,
    text: Option<Seq<char>>,
    secs: i64,
    offset: i32,
    tag: Option<Seq<char>>,
) -> bool {
    &&& -time <= secs <= LAST_SECOND - time
    &&& -86400 < offset < 86400
    &&& text == shown_time(time, secs, offset, chosen_locale(tag))
}

/// A time, given in milliseconds since the Unix epoch, as a reader likes it: how long ago it was,
/// or its date once that is nine days or more. Nothing for a time that chrono cannot hold, or
/// where the locale cannot write it. How much time has passed, the time zone and the language tag
/// are the machine's.
pub fn human_readable_timestamp(timestamp: i64) -> (r: Option<String>)
    ensures
        if FIRST_SECOND <= whole_seconds(timestamp) <= LAST_SECOND {
            exists|secs: i64, offset: i32, tag: Option<Seq<char>>| #[trigger]
                reads_as(whole_seconds(timestamp), optional_text(r), secs, offset, tag)
        } else {
            r is None
        },
{
    let time = seconds_of(timestamp);
    match (seconds_since(time), local_offset(time)) {
        (Some(secs), Some(offset)) => {
            let locale = locale_from_system();
            let text = time_text(time, secs, offset, locale.as_str());
            proof {
                let tag = choose|tag: Option<Seq<char>>| locale@ == #[trigger] chosen_locale(tag);
                assert(reads_as(time, optional_text(text), secs, offset, tag));
            }
            text
        },
        _ => None,
    }
}

/// A time, given in milliseconds since the Unix epoch, to the second. Nothing for a time that
/// chrono cannot hold. The time zone is the machine's.
pub fn exact_human_readable_timestamp(timestamp: i64) -> (r: Option<String>)
    ensures
        r is Some <==> FIRST_SECOND <= whole_seconds(timestamp) <= LAST_SECOND,
        r is Some ==> exists|offset: i32|
                -86400 < offset < 86400 && optional_text(r) == #[trigger] formatted_time(
                    whole_seconds(timestamp),
                    offset,
                    TIME_FORMAT@,
                ),
{
    let time = seconds_of(timestamp);
    match local_offset(time) {
        Some(offset) => {
            let text = format_time(time, offset, TIME_FORMAT);
            assert(optional_text(text) == formatted_time(time, offset, TIME_FORMAT@));
            text
        },
        None => None,
    }
}

/// Milliseconds in whole seconds, rounded towards zero.
fn seconds_of(timestamp: i64) -> (r: i64)
    ensures
        r == whole_seconds(timestamp),
{
    if timestamp >= 0 {
        timestamp / 1000
    } else if timestamp == i64::MIN {
        -9_223_372_036_854_775
    } else {
        -((-timestamp) / 1000)
    }
}


/// A change below a key of the files of a branch document is one of the file by that name, however
/// deep it lies; a change elsewhere is one of no file.
pub proof fn changes_of_a_file_lie_below_its_name(
    first: String,
    second: String,
    rest: Seq<PatchStep>,
)
    ensures
        first@ == "files"@ ==> patched_file(
            seq![PatchStep::Key(first), PatchStep::Key(second)] + rest,
        ) == Some(second@),
        first@ != "files"@ ==> patched_file(
            seq![PatchStep::Key(first), PatchStep::Key(second)] + rest,
        ) is None,
        patched_file(seq![PatchStep::Key(first)]) is None,
        patched_file(seq![PatchStep::Key(first), PatchStep::Index] + rest) is None,
        patched_file(seq![PatchStep::Index] + rest) is None,
        patched_file(Seq::<PatchStep>::empty()) is None,
{
    let path = seq![PatchStep::Key(first), PatchStep::Key(second)] + rest;
    assert(path[0] == PatchStep::Key(first));
    assert(path[1] == PatchStep::Key(second));
    assert((seq![PatchStep::Key(first), PatchStep::Index] + rest)[1] == PatchStep::Index);
    assert((seq![PatchStep::Index] + rest)[0] == PatchStep::Index);
}

/// The words for the ways in which a file is changed.
pub proof fn changes_have_words()
    ensures
        forall|c: ChangeType|
            (#[trigger] change_name(c) == "added"@ <==> c == ChangeType::Added) && (change_name(c)
                == "removed"@ <==> c == ChangeType::Removed) && (change_name(c) == "modified"@
                <==> c == ChangeType::Modified),
{
    reveal_strlit("added");
    reveal_strlit("removed");
    reveal_strlit("modified");
    assert("added"@.len() == 5);
    assert("removed"@.len() == 7);
    assert("modified"@.len() == 8);
}

/// The paths of one kind of change are those of the changes of that kind, in their order.
pub proof fn paths_are_picked_by_change(changes: Seq<ChangedFile>, change: ChangeType)
    ensures
        paths_of_type(changes, change) == changes.filter(
            |f: ChangedFile| f.change_type == change,
        ).map_values(|f: ChangedFile| f.path@),
    decreases changes.len(),
{
    reveal(Seq::filter);
    if changes.len() > 0 {
        paths_are_picked_by_change(changes.drop_last(), change);
        let kept = changes.drop_last().filter(|f: ChangedFile| f.change_type == change);
        let path = |f: ChangedFile| f.path@;
        assert(kept.push(changes.last()).map_values(path) == kept.map_values(path).push(
            changes.last().path@,
        ));
    }
}

/// A file is shown by the last part of its path, and by the whole path where that has none.
pub proof fn files_are_shown_by_name(path: Seq<char>)
    ensures
        file_name(path) matches Some(name) ==> shown_name(path) == name,
        file_name(path) is None ==> shown_name(path) == path,
{
}

/// One file is summarised by its name, several by their number alone, and none not at all.
pub proof fn files_are_counted_or_named(path: Seq<char>, paths: Seq<Seq<char>>, word: Seq<char>)
    ensures
        summary_text(Seq::empty(), word) == Seq::<char>::empty(),
        summary_text(seq![path], word) == word + " "@ + shown_name(path),
        paths.len() >= 2 ==> summary_text(paths, word) == word + " "@ + decimal(paths.len())
            + " files"@,
        summary_text(paths, word).len() == 0 <==> paths.len() == 0,
{
    reveal_strlit(" ");
}

/// The parts that are said are those that are not empty, in their order.
pub proof fn what_is_empty_is_not_said(parts: Seq<Seq<char>>)
    ensures
        said(parts) == parts.filter(|p: Seq<char>| p.len() > 0),
    decreases parts.len(),
{
    reveal(Seq::filter);
    if parts.len() > 0 {
        what_is_empty_is_not_said(parts.drop_last());
    }
}

/// A commit with changes of one kind is summarised by these; one with two kinds by both, additions
/// before removals before edits; any other only by its author.
pub proof fn commits_are_summarised_by_kind(
    author: Seq<char>,
    changes: Seq<ChangedFile>,
    added: Seq<Seq<char>>,
    removed: Seq<Seq<char>>,
    edited: Seq<Seq<char>>,
)
    requires
        added == paths_of_type(changes, ChangeType::Added),
        removed == paths_of_type(changes, ChangeType::Removed),
        edited == paths_of_type(changes, ChangeType::Modified),
    ensures
        added.len() > 0 && removed.len() == 0 && edited.len() == 0 ==> summary(author, changes)
            == author + " "@ + summary_text(added, "added"@),
        added.len() == 0 && removed.len() > 0 && edited.len() == 0 ==> summary(author, changes)
            == author + " "@ + summary_text(removed, "removed"@),
        added.len() == 0 && removed.len() == 0 && edited.len() > 0 ==> summary(author, changes)
            == author + " "@ + summary_text(edited, "edited"@),
        added.len() > 0 && removed.len() > 0 && edited.len() == 0 ==> summary(author, changes)
            == author + " "@ + summary_text(added, "added"@) + " and "@ + summary_text(
            removed,
            "removed"@,
        ),
        added.len() > 0 && removed.len() == 0 && edited.len() > 0 ==> summary(author, changes)
            == author + " "@ + summary_text(added, "added"@) + " and "@ + summary_text(
            edited,
            "edited"@,
        ),
        added.len() == 0 && removed.len() > 0 && edited.len() > 0 ==> summary(author, changes)
            == author + " "@ + summary_text(removed, "removed"@) + " and "@ + summary_text(
            edited,
            "edited"@,
        ),
        added.len() > 0 && removed.len() > 0 && edited.len() > 0 ==> summary(author, changes)
            == author + " made some changes"@,
        added.len() == 0 && removed.len() == 0 && edited.len() == 0 ==> summary(author, changes)
            == author + " made some changes"@,
{
    let a = summary_text(added, "added"@);
    let r = summary_text(removed, "removed"@);
    let m = summary_text(edited, "edited"@);
    files_are_counted_or_named(Seq::empty(), added, "added"@);
    files_are_counted_or_named(Seq::empty(), removed, "removed"@);
    files_are_counted_or_named(Seq::empty(), edited, "edited"@);
    let all = seq![a, r, m];
    reveal_with_fuel(said, 4);
    assert(all.drop_last() == seq![a, r]);
    assert(all.drop_last().drop_last() == seq![a]);
    assert(all.drop_last().drop_last().drop_last() == Seq::<Seq<char>>::empty());
    assert(author + " "@ + a + (" and "@ + r) == author + " "@ + a + " and "@ + r);
    assert(author + " "@ + a + (" and "@ + m) == author + " "@ + a + " and "@ + m);
    assert(author + " "@ + r + (" and "@ + m) == author + " "@ + r + " and "@ + m);
}

/// Times are told in the largest unit that fits, rounded down: seconds below a minute, minutes
/// below an hour, hours below a day, and days up to nine.
pub proof fn ages_are_told_in_the_largest_unit(n: int, rest: int)
    ensures
        0 <= n < 60 ==> age(n) == decimal(n as nat) + "s ago"@,
        1 <= n < 60 && 0 <= rest < 60 ==> age(60 * n + rest) == decimal(n as nat) + "m ago"@,
        1 <= n < 24 && 0 <= rest < 3600 ==> age(3600 * n + rest) == decimal(n as nat) + "h ago"@,
        1 <= n < 9 && 0 <= rest < 86400 ==> age(86400 * n + rest) == decimal(n as nat) + "d ago"@,
        AGE_LIMIT == 9 * 24 * 60 * 60,
{
    if 1 <= n && 0 <= rest < 60 {
        assert((60 * n + rest) / 60 == n);
    }
    if 1 <= n && 0 <= rest < 3600 {
        assert((3600 * n + rest) / 3600 == n);
    }
    if 1 <= n && 0 <= rest < 86400 {
        assert((86400 * n + rest) / 86400 == n);
    }
}

/// A time is told as an age below nine days, and from then on as its date in the locale.
pub proof fn old_times_are_dates(time: i64, secs: i64, offset: i32, locale: Seq<char>)
    ensures
        secs < 777600 ==> shown_time(time, secs, offset, locale) == Some(age(secs as int)),
        secs >= 777600 ==> shown_time(time, secs, offset, locale) == localized_date(
            time,
            offset,
            locale,
            "%x"@,
        ),
        TIME_FORMAT@ == "%Y-%m-%d %H:%M:%S"@,
{
}

/// A thousand milliseconds are a second; what is left over does not count, before the epoch as
/// after it.
pub proof fn seconds_are_whole(secs: i64, rest: int, timestamp: i64)
    ensures
        secs >= 0 && 0 <= rest < 1000 && timestamp == 1000 * secs + rest ==> whole_seconds(
            timestamp,
        ) == secs,
        secs <= 0 && 0 <= rest < 1000 && timestamp == 1000 * secs - rest ==> whole_seconds(
            timestamp,
        ) == secs,
{
}

/// Each hyphen becomes one underscore, and every other character stays in its place.
proof fn lemma_hyphens(s: Seq<char>)
    ensures
        replace_char(s, '-', "_"@).len() == s.len(),
        forall|i: int|
            0 <= i < s.len() ==> #[trigger] replace_char(s, '-', "_"@)[i] == if s[i] == '-' {
                '_'
            } else {
                s[i]
            },
    decreases s.len(),
{
    reveal_strlit("_");
    if s.len() > 0 {
        lemma_hyphens(s.drop_last());
    }
}

/// A language tag names the locale that is written with an underscore for each hyphen, without
/// what follows a dot; a tag that names no locale stands for American English, as no tag does.
pub proof fn tags_name_locales(
    tag: Seq<char>,
    head: Seq<char>,
    encoding: Seq<char>,
)
    requires
        !head.contains('.'),
        tag == head || tag == head + seq!['.'] + encoding,
    ensures
        chosen_locale(None) == "en_US"@,
        !known_locale(locale_name(tag)) ==> chosen_locale(Some(tag)) == "en_US"@,
        known_locale(locale_name(tag)) ==> chosen_locale(Some(tag)) == locale_name(tag),
        locale_name(tag).len() == head.len(),
        forall|i: int|
            0 <= i < head.len() ==> #[trigger] locale_name(tag)[i] == if head[i] == '-' {
                '_'
            } else {
                head[i]
            },
{
    if tag == head {
        lemma_first_index(tag, '.');
    } else {
        assert(tag[head.len() as int] == '.');
        assert forall|j: int| 0 <= j < head.len() implies tag[j] != '.' by {
            assert(tag[j] == head[j]);
        }
        lemma_first_index_is(tag, '.', head.len() as int);
    }
    assert(tag.take(head.len() as int) == head);
    if first_index(tag, '.') < tag.len() && tag == head {
        assert(head.contains(tag[first_index(tag, '.')]));
    }
    lemma_hyphens(head);
}

} // verus!
