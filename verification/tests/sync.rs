use backstitch::content::{FileContent, FileSystemEvent, GodotScene, SceneParse};
use backstitch::digest::FileHash;
use backstitch::fs_traversal::ChangeType;
use backstitch::history::{ChangeHash, DocumentId, Heads, HistoryRef};
use backstitch::sync::{
    get_file_contents, CommitStep, DiskRead, FileAction, Planned, SyncAutomergeToFileSystem,
    SyncFileSystemToAutomerge,
};
use backstitch::table::Table;

fn at(n: u8) -> HistoryRef {
    HistoryRef {
        branch: DocumentId { bytes: [1; 16] },
        heads: Heads::from_vec(vec![ChangeHash { bytes: [n; 32] }]),
    }
}

fn text(t: &str) -> FileContent {
    FileContent::String(t.to_string())
}

fn changes(list: &[(&str, ChangeType)]) -> Table<ChangeType> {
    let mut table = Table::new();
    for (path, change) in list {
        table.insert(path.to_string(), *change);
    }
    table
}

fn hashes(files: &[(&str, &[u8])]) -> Table<FileHash> {
    let mut table = Table::new();
    for (path, bytes) in files {
        table.insert(path.to_string(), FileHash::of(bytes));
    }
    table
}

#[test]
fn a_checkout_plans_deletions_and_the_files_whose_contents_are_known() {
    let mut contents = Table::new();
    contents.insert("a".to_string(), text("1"));
    contents.insert("c".to_string(), FileContent::Deleted);
    let plan = SyncAutomergeToFileSystem::plan_checkout(
        &Some(at(1)),
        &at(2),
        Some(changes(&[
            ("a", ChangeType::Created),
            ("b", ChangeType::Deleted),
            ("c", ChangeType::Deleted),
            ("d", ChangeType::Modified),
        ])),
        Some(contents),
    )
    .unwrap();
    let paths: Vec<&str> = plan.iter().map(|p| p.path.as_str()).collect();
    assert_eq!(paths, vec!["a", "b", "c"]);
    assert!(matches!(&plan[0].content, FileContent::String(t) if t == "1"));
    assert!(matches!(&plan[1].content, FileContent::Deleted));
}

#[test]
fn a_file_that_is_gone_at_the_goal_is_deleted() {
    let plan = SyncAutomergeToFileSystem::plan_checkout(
        &Some(at(1)),
        &at(2),
        Some(changes(&[("res://gone", ChangeType::Deleted)])),
        Some(Table::new()),
    )
    .unwrap();
    let action = SyncAutomergeToFileSystem::planned_action(&plan[0], false, None, true);
    assert!(matches!(action, FileAction::Delete));
    let mut checked_out = Some(at(1));
    let done = vec![Some("/p/gone".to_string())];
    let events = SyncAutomergeToFileSystem::checkout_ref(&mut checked_out, at(2), plan, &done);
    assert_eq!(events.len(), 1);
    assert!(matches!(&events[0], FileSystemEvent::FileDeleted(p) if p == "/p/gone"));
}

#[test]
fn nothing_is_planned_at_the_goal() {
    let plan = |from: Option<HistoryRef>, known: bool| {
        SyncAutomergeToFileSystem::plan_checkout(
            &from,
            &at(2),
            if known { Some(Table::new()) } else { None },
            Some(Table::new()),
        )
    };
    assert!(plan(Some(at(2)), true).is_none());
    assert!(plan(Some(at(1)), false).is_none());
    assert!(plan(None, true).unwrap().is_empty());
    assert!(SyncAutomergeToFileSystem::plan_checkout(&None, &at(2), Some(Table::new()), None).is_none());
}

#[test]
fn files_are_written_unless_they_are_the_same() {
    let same = Some(FileHash::of(b"hello"));
    let other = Some(FileHash::of(b"bye"));
    let update = |ignored: bool, existing: Option<FileHash>, content: &FileContent| {
        SyncAutomergeToFileSystem::handle_file_update(ignored, existing, content)
    };
    assert!(matches!(update(false, other, &text("hello")), FileAction::Write(b) if b == b"hello"));
    assert!(matches!(update(false, None, &text("hello")), FileAction::Write(_)));
    assert!(matches!(update(false, same, &text("hello")), FileAction::Leave));
    assert!(matches!(update(true, other, &text("hello")), FileAction::Leave));
    assert!(matches!(update(false, other, &FileContent::Deleted), FileAction::Leave));
    assert!(SyncAutomergeToFileSystem::compare_hashes(same, &text("hello")));
    assert!(!SyncAutomergeToFileSystem::compare_hashes(None, &text("hello")));
}

#[test]
fn files_are_deleted_where_they_are() {
    assert!(matches!(SyncAutomergeToFileSystem::handle_file_delete(false, true), FileAction::Delete));
    assert!(matches!(SyncAutomergeToFileSystem::handle_file_delete(true, true), FileAction::Leave));
    assert!(matches!(SyncAutomergeToFileSystem::handle_file_delete(false, false), FileAction::Leave));
    let planned = Planned { path: "a".to_string(), change: ChangeType::Deleted, content: FileContent::Deleted };
    assert!(matches!(
        SyncAutomergeToFileSystem::planned_action(&planned, false, None, true),
        FileAction::Delete
    ));
    let planned = Planned { path: "a".to_string(), change: ChangeType::Modified, content: text("x") };
    assert!(matches!(
        SyncAutomergeToFileSystem::planned_action(&planned, false, None, false),
        FileAction::Write(b) if b == b"x"
    ));
}

#[test]
fn a_checkout_reaches_its_goal() {
    let plan = vec![
        Planned { path: "res://a".to_string(), change: ChangeType::Created, content: text("1") },
        Planned { path: "res://b".to_string(), change: ChangeType::Modified, content: text("2") },
        Planned { path: "res://c".to_string(), change: ChangeType::Deleted, content: FileContent::Deleted },
    ];
    let done = vec![Some("/p/a".to_string()), None, Some("/p/c".to_string())];
    let mut checked_out = Some(at(1));
    let events = SyncAutomergeToFileSystem::checkout_ref(&mut checked_out, at(2), plan, &done);
    assert!(checked_out.as_ref().unwrap().same(&at(2)));
    assert_eq!(events.len(), 2);
    assert!(matches!(&events[0], FileSystemEvent::FileCreated(p, FileContent::String(t)) if p == "/p/a" && t == "1"));
    assert!(matches!(&events[1], FileSystemEvent::FileDeleted(p) if p == "/p/c"));
    assert!(SyncAutomergeToFileSystem::plan_checkout(&checked_out, &at(2), Some(Table::new()), Some(Table::new())).is_none());
}

#[test]
fn commits_take_all_that_changed() {
    let mut sync = SyncFileSystemToAutomerge::new();
    assert!(!sync.wants_commit(false));
    assert!(sync.wants_commit(true));
    sync.file_touched("a".to_string());
    assert!(sync.wants_commit(false));

    let old = hashes(&[("a", b"1"), ("b", b"2")]);
    let now = hashes(&[("a", b"1"), ("b", b"3"), ("c", b"4")]);
    assert!(matches!(sync.commit(None, &now), CommitStep::Cancelled));
    assert!(sync.wants_commit(false));
    match sync.commit(Some(&old), &now) {
        CommitStep::Commit(mut paths) => {
            paths.sort();
            assert_eq!(paths, vec!["b", "c"]);
        }
        _ => panic!("there is something to commit"),
    }
    assert!(!sync.wants_commit(false));
    assert!(matches!(sync.commit(Some(&old), &old), CommitStep::Nothing));
}

#[test]
fn commits_report_what_they_made() {
    let paths = vec!["a".to_string()];
    assert_eq!(SyncFileSystemToAutomerge::committed(paths.clone(), &Some(at(1))), paths);
    assert!(SyncFileSystemToAutomerge::committed(paths, &None).is_empty());
    let mut checked_out = Some(at(1));
    SyncFileSystemToAutomerge::checkin(&mut checked_out, None);
    assert!(checked_out.as_ref().unwrap().same(&at(1)));
    SyncFileSystemToAutomerge::checkin(&mut checked_out, Some(at(2)));
    assert!(checked_out.unwrap().same(&at(2)));
}

#[test]
fn files_on_disk_become_contents() {
    assert!(matches!(get_file_contents("a".to_string(), DiskRead::Missing), Some((p, None)) if p == "a"));
    assert!(get_file_contents("a".to_string(), DiskRead::Failed).is_none());
    let read = DiskRead::Data(b"hi".to_vec(), SceneParse::NotAScene);
    assert!(matches!(
        get_file_contents("a".to_string(), read),
        Some((_, Some(FileContent::String(t)))) if t == "hi"
    ));
    let parsed = GodotScene {
        resource_type: "Theme".to_string(),
        script_class: None,
        uid: String::new(),
        ext_resources: Vec::new(),
        root_node_type: None,
        serialized: "s".to_string(),
    };
    let read = DiskRead::Data(b"[gd_resource]".to_vec(), SceneParse::Parsed(parsed));
    assert!(matches!(get_file_contents("a".to_string(), read), Some((_, Some(FileContent::Scene(_))))));
}

#[test]
fn committed_files_come_back() {
    for data in [b"text \xc3\xa4".to_vec(), vec![0, 1, 2], vec![0xff, 0xfe], Vec::new()] {
        let read = DiskRead::Data(data.clone(), SceneParse::NotAScene);
        let (path, content) = get_file_contents("a".to_string(), read).unwrap();
        let content = content.unwrap();
        assert_eq!(path, "a");
        assert_eq!(content.as_bytes(), Some(data.clone()));
        assert!(content.to_hash().same(&FileHash::of(&data)));
    }
}
