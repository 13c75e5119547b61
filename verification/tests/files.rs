use automerge::transaction::Transactable;
use automerge::{Automerge, ObjType, ReadDoc, ScalarValue, ROOT};
use backstitch::branch_db::BranchDb;
use backstitch::branch_files::{file_sources, pending_hashes, PendingHash};
use backstitch::content::{
    get_buffer_and_hash, is_buf_binary, parse_automerge_url, FileContent, GodotScene, Hydrated,
    SceneParse,
};
use backstitch::digest::{compute_hash, FileHash};
use backstitch::document::{get_obj_id_at, get_string_at, ObjectId};
use backstitch::fs_index::{
    current_version, is_stale, FileEntry, FileMetadata, FileSystemIndex, IndexStart, InvalidIndex,
    Modified, UnstorableTime,
};
use backstitch::fs_traversal::{ChangeType, FileSystemTraversal, WalkedEntry};
use backstitch::history::{ChangeHash, DocumentId, Heads, HistoryRef};
use backstitch::table::Table;
use backstitch::utils::{get_changed_files, PatchStep};

fn scene(text: &str) -> GodotScene {
    GodotScene {
        resource_type: "PackedScene".to_string(),
        script_class: None,
        uid: "uid://abc".to_string(),
        ext_resources: vec![
            ("1".to_string(), "res://a.tscn".to_string()),
            ("2".to_string(), "res://b.tscn".to_string()),
        ],
        root_node_type: None,
        serialized: text.to_string(),
    }
}

fn hashes(files: &[(&str, &[u8])]) -> Table<FileHash> {
    let mut table = Table::new();
    for (path, bytes) in files {
        table.insert(path.to_string(), FileHash::of(bytes));
    }
    table
}

fn heads_of(doc: &Automerge) -> Vec<ChangeHash> {
    doc.get_heads().into_iter().map(|h| ChangeHash { bytes: h.0 }).collect()
}

fn metadata(secs: i64, size: u64) -> FileMetadata {
    FileMetadata { modified: Modified { secs, nanos: 0 }, size }
}

/// A branch document with one file of each kind.
fn branch(linked: &DocumentId) -> Automerge {
    let mut doc = Automerge::new();
    let mut tx = doc.transaction();
    let files = tx.put_object(ROOT, "files", ObjType::Map).unwrap();
    let text = tx.put_object(&files, "res://text.txt", ObjType::Map).unwrap();
    let content = tx.put_object(&text, "content", ObjType::Text).unwrap();
    tx.splice_text(&content, 0, 0, "hello").unwrap();
    let plain = tx.put_object(&files, "res://plain.txt", ObjType::Map).unwrap();
    tx.put(&plain, "content", "plain").unwrap();
    let gone = tx.put_object(&files, "res://gone.txt", ObjType::Map).unwrap();
    tx.put(&gone, "deleted", true).unwrap();
    let link = tx.put_object(&files, "res://image.png", ObjType::Map).unwrap();
    tx.put(&link, "url", format!("automerge:{}", linked.to_text())).unwrap();
    let scene = tx.put_object(&files, "res://main.tscn", ObjType::Map).unwrap();
    tx.put_object(&scene, "structured_content", ObjType::Map).unwrap();
    let broken = tx.put_object(&files, "res://broken.bin", ObjType::Map).unwrap();
    tx.put(&broken, "url", "nowhere").unwrap();
    let hashed = tx.put_object(&files, "res://hashed.bin", ObjType::Map).unwrap();
    tx.put(&hashed, "url", "nowhere").unwrap();
    tx.put(&hashed, "hash", ScalarValue::Bytes(blake3::hash(b"data").as_bytes().to_vec())).unwrap();
    tx.commit();
    doc
}

#[test]
fn null_bytes_make_binary_data() {
    assert!(!is_buf_binary(&Vec::new()));
    assert!(!is_buf_binary(&b"text".to_vec()));
    assert!(is_buf_binary(&vec![1, 0, 2]));
    let mut late = vec![1u8; 8000];
    late.push(0);
    assert!(!is_buf_binary(&late));
    late[7999] = 0;
    assert!(is_buf_binary(&late));
}

#[test]
fn bytes_become_contents() {
    assert!(matches!(
        FileContent::from_buf(b"hello".to_vec(), SceneParse::NotAScene),
        FileContent::String(t) if t == "hello"
    ));
    assert!(matches!(
        FileContent::from_buf(b"[gd_scene]".to_vec(), SceneParse::Broken),
        FileContent::String(t) if t == "[gd_scene]"
    ));
    assert!(matches!(
        FileContent::from_buf(b"[gd_scene]".to_vec(), SceneParse::Parsed(scene("x"))),
        FileContent::Scene(s) if s.serialized == "x"
    ));
    assert!(matches!(
        FileContent::from_buf(vec![0xff, 0xfe], SceneParse::NotAScene),
        FileContent::Binary(b) if b == vec![0xff, 0xfe]
    ));
    assert!(matches!(
        FileContent::from_buf(vec![65, 0], SceneParse::Parsed(scene("x"))),
        FileContent::Binary(_)
    ));
    assert_eq!(FileContent::text_in_buf(&b"abc".to_vec()), Some("abc".to_string()));
    assert_eq!(FileContent::text_in_buf(&vec![0]), None);
}

#[test]
fn contents_are_hashed_by_their_bytes() {
    let text = FileContent::from_string("hello".to_string(), SceneParse::NotAScene);
    assert!(text.to_hash().same(&FileHash::of(b"hello")));
    let (bytes, hash) = text.write_file_content().unwrap();
    assert_eq!(bytes, b"hello");
    assert!(hash.same(&FileHash::of(b"hello")));
    let s = FileContent::Scene(scene("text"));
    assert_eq!(s.as_bytes().unwrap(), b"text");
    assert!(FileContent::default().as_bytes().is_none());
    assert!(FileContent::Deleted.write_file_content().is_none());
    assert!(FileContent::Deleted.to_hash().same(&FileHash::of(b"")));
}

#[test]
fn scenes_know_their_resources() {
    let s = scene("");
    assert_eq!(s.get_ext_resource_path("2"), Some("res://b.tscn".to_string()));
    assert_eq!(s.get_ext_resource_path("3"), None);
    assert!(s.get_root_node_type().is_none());
    assert_eq!(s.serialize(), "");
}

#[test]
fn document_urls() {
    let id = DocumentId { bytes: [9; 16] };
    let url = format!("automerge:{}", id.to_text());
    assert!(parse_automerge_url(&url).unwrap().same(&id));
    assert!(parse_automerge_url(&id.to_text()).is_none());
    assert!(parse_automerge_url("automerge:").is_none());
}

#[test]
fn files_of_a_branch_are_found() {
    let linked = DocumentId { bytes: [3; 16] };
    let doc = branch(&linked);
    let heads = heads_of(&doc);
    let sources = file_sources(&doc, &heads, &Vec::new()).unwrap().unwrap();
    let kind = |path: &str| sources.iter().find(|s| s.0 == path).map(|s| &s.1);
    assert!(matches!(kind("res://text.txt"), Some(Hydrated::Content(FileContent::String(t))) if t == "hello"));
    assert!(matches!(kind("res://plain.txt"), Some(Hydrated::Content(FileContent::String(t))) if t == "plain"));
    assert!(matches!(kind("res://gone.txt"), Some(Hydrated::Content(FileContent::Deleted))));
    assert!(matches!(kind("res://image.png"), Some(Hydrated::Linked(id)) if id.same(&linked)));
    assert!(matches!(kind("res://main.tscn"), Some(Hydrated::Scene)));
    assert!(kind("res://broken.bin").is_none());

    let wanted = vec!["res://plain.txt".to_string()];
    let some = file_sources(&doc, &heads, &wanted).unwrap().unwrap();
    assert_eq!(some.len(), 1);
    assert_eq!(some[0].0, "res://plain.txt");
    assert!(file_sources(&Automerge::new(), &Vec::new(), &Vec::new()).unwrap().is_none());
}

#[test]
fn objects_and_strings_in_documents_are_read() {
    let doc = branch(&DocumentId { bytes: [3; 16] });
    let heads = heads_of(&doc);
    let root = ObjectId::root();
    let files = get_obj_id_at(&doc, &root, "files", &heads).unwrap();
    assert!(get_obj_id_at(&doc, &root, "other", &heads).is_none());
    let entry = get_obj_id_at(&doc, &files, "res://plain.txt", &heads).unwrap();
    assert_eq!(get_string_at(&doc, &entry, "content", &heads), Some("plain".to_string()));
    assert_eq!(get_string_at(&doc, &entry, "missing", &heads), None);
}

#[test]
fn fetched_contents_fill_the_gaps() {
    let sources = vec![
        ("a".to_string(), Hydrated::Content(FileContent::String("x".to_string()))),
        ("b".to_string(), Hydrated::Linked(DocumentId { bytes: [1; 16] })),
        ("c".to_string(), Hydrated::Linked(DocumentId { bytes: [2; 16] })),
        ("d".to_string(), Hydrated::Scene),
    ];
    let fetched = vec![
        None,
        Some(FileContent::Binary(vec![1])),
        None,
        Some(FileContent::Scene(scene("s"))),
    ];
    let files = BranchDb::get_files_at_ref(sources, fetched);
    assert_eq!(files.len(), 3);
    assert!(matches!(files.get("a"), Some(FileContent::String(t)) if t == "x"));
    assert!(matches!(files.get("b"), Some(FileContent::Binary(b)) if *b == vec![1]));
    assert!(files.get("c").is_none());
    assert!(matches!(files.get("d"), Some(FileContent::Scene(_))));
}

#[test]
fn hashes_of_a_branch_are_found() {
    let linked = DocumentId { bytes: [3; 16] };
    let doc = branch(&linked);
    let heads = heads_of(&doc);
    let pending = pending_hashes(&doc, &heads).unwrap().unwrap();
    let of = |path: &str| pending.iter().find(|p| p.0 == path).map(|p| &p.1);
    assert!(matches!(of("res://text.txt"), Some(PendingHash::Hash(h)) if h.same(&FileHash::of(b"hello"))));
    assert!(matches!(of("res://hashed.bin"), Some(PendingHash::Hash(h)) if h.same(&FileHash::of(b"data"))));
    assert!(matches!(of("res://image.png"), Some(PendingHash::Linked(id)) if id.same(&linked)));
    assert!(matches!(of("res://main.tscn"), Some(PendingHash::Scene)));
    assert!(pending_hashes(&Automerge::new(), &Vec::new()).unwrap().is_none());

    let mut ignored = vec![false; pending.len()];
    let mut contents: Vec<Option<FileContent>> = Vec::new();
    for (i, (path, kind)) in pending.iter().enumerate() {
        if path == "res://text.txt" {
            ignored[i] = true;
        }
        contents.push(match kind {
            PendingHash::Linked(_) => Some(FileContent::Binary(b"png".to_vec())),
            _ => None,
        });
    }
    let index = BranchDb::get_hash_index(&pending, &ignored, &contents);
    assert!(index.get("res://text.txt").is_none());
    assert!(index.get("res://image.png").unwrap().same(&FileHash::of(b"png")));
    assert!(index.get("res://main.tscn").is_none());
    assert!(index.get("res://plain.txt").unwrap().same(&FileHash::of(b"plain")));
}

#[test]
fn linked_files_hold_their_bytes() {
    let mut doc = Automerge::new();
    let mut tx = doc.transaction();
    tx.put(ROOT, "content", ScalarValue::Bytes(vec![1, 2, 3])).unwrap();
    tx.commit();
    assert!(matches!(BranchDb::get_linked_file(&doc), Some(FileContent::Binary(b)) if b == vec![1, 2, 3]));
    assert!(BranchDb::get_linked_file(&Automerge::new()).is_none());
}

#[test]
fn changed_files_are_told_apart() {
    let before = hashes(&[("a", b"1"), ("b", b"2"), ("c", b"3")]);
    let after = hashes(&[("b", b"2"), ("c", b"4"), ("d", b"5")]);
    let changes = FileSystemTraversal::get_file_changes(&before, &after);
    assert_eq!(changes.len(), 3);
    assert!(matches!(changes.get("a"), Some(ChangeType::Deleted)));
    assert!(changes.get("b").is_none());
    assert!(matches!(changes.get("c"), Some(ChangeType::Modified)));
    assert!(matches!(changes.get("d"), Some(ChangeType::Created)));

    let back = FileSystemTraversal::get_file_changes(&after, &before);
    assert!(matches!(back.get("a"), Some(ChangeType::Created)));
    assert!(matches!(back.get("c"), Some(ChangeType::Modified)));
    assert!(matches!(back.get("d"), Some(ChangeType::Deleted)));
    assert_eq!(FileSystemTraversal::get_file_changes(&before, &before).len(), 0);
}

#[test]
fn changes_between_points_in_history() {
    let at = |n: u8| HistoryRef {
        branch: DocumentId { bytes: [1; 16] },
        heads: Heads::from_vec(vec![ChangeHash { bytes: [n; 32] }]),
    };
    let old = hashes(&[("a", b"1")]);
    let new = hashes(&[("a", b"2"), ("b", b"3")]);
    let changes =
        BranchDb::get_changed_files_between_refs(Some(&at(1)), &at(2), Some(&new), Some(&old)).unwrap();
    assert!(matches!(changes.get("a"), Some(ChangeType::Modified)));
    assert!(matches!(changes.get("b"), Some(ChangeType::Created)));
    let all = BranchDb::get_changed_files_between_refs(None, &at(2), Some(&new), None).unwrap();
    assert_eq!(all.len(), 2);
    assert!(matches!(all.get("a"), Some(ChangeType::Created)));
    assert!(BranchDb::get_changed_files_between_refs(Some(&at(1)), &at(2), None, Some(&old)).is_none());
}

#[test]
fn test_new_creates_file_if_missing() {
    assert_eq!(FileSystemIndex::new(None), Ok(IndexStart::Open));
}

#[test]
fn test_empty_index_file_is_handled() {
    assert_eq!(FileSystemIndex::new(Some(0)), Ok(IndexStart::Replace));
}

#[test]
fn test_invalid_data_in_index_file_returns_error() {
    let garbage = b"not valid wincode";
    assert_eq!(FileSystemIndex::new(Some(garbage.len() as u64)), Err(InvalidIndex));
}

/// What is stored for a file in the given state with the given contents.
fn stored(meta: &FileMetadata, content: &[u8]) -> Vec<u8> {
    FileSystemIndex::entry_to_store(meta, compute_hash(&vec![content.to_vec()])).unwrap()
}

#[test]
fn test_get_hash_computes_and_returns_hash() {
    let meta = metadata(1, 11);
    assert_eq!(FileSystemIndex::get_hash(None, &meta), Ok(None));
    let hash = FileSystemIndex::get_hash(Some(&stored(&meta, b"hello world")), &meta).unwrap().unwrap();
    assert_eq!(&hash.bytes, blake3::hash(b"hello world").as_bytes());
}

#[test]
fn test_get_hash_uses_cached_value_if_unchanged() {
    let meta = metadata(1, 5);
    let bytes = stored(&meta, b"hello");
    let first = FileSystemIndex::get_hash(Some(&bytes), &meta).unwrap().unwrap();
    let second = FileSystemIndex::get_hash(Some(&bytes), &meta).unwrap().unwrap();
    assert!(first.same(&second));
    assert!(first.same(&FileHash::of(b"hello")));
    let entry = FileEntry::from_metadata(&meta, FileHash::of(b"hello"));
    assert!(entry.matches(&meta));
    assert_eq!(FileSystemIndex::cached_hash(Some(&entry), &meta), Some(FileHash::of(b"hello")));
}

#[test]
fn test_get_hash_recomputes_if_file_changes() {
    let bytes = stored(&metadata(1, 5), b"hello");
    assert_eq!(FileSystemIndex::get_hash(Some(&bytes), &metadata(1, 7)), Ok(None));
    assert_eq!(FileSystemIndex::get_hash(Some(&bytes), &metadata(2, 5)), Ok(None));
    let bytes = stored(&metadata(2, 7), b"goodbye");
    let second = FileSystemIndex::get_hash(Some(&bytes), &metadata(2, 7)).unwrap().unwrap();
    assert_eq!(&second.bytes, blake3::hash(b"goodbye").as_bytes());
    assert!(!second.same(&FileHash::of(b"hello")));
}

#[test]
fn entries_are_stored_in_fixed_places() {
    let meta = FileMetadata { modified: Modified { secs: 0x0102, nanos: 0x03 }, size: 0x0405 };
    let bytes = FileSystemIndex::entry_to_store(&meta, FileHash { bytes: [7; 32] }).unwrap();
    let mut expected = vec![2, 1, 0, 0, 0, 0, 0, 0, 3, 0, 0, 0, 5, 4, 0, 0, 0, 0, 0, 0];
    expected.extend([7; 32]);
    assert_eq!(bytes, expected);
    // A time that no file can have, bytes that end too early, and a time before the Unix epoch.
    let mut late = expected.clone();
    late[7] = 0x80;
    assert_eq!(FileSystemIndex::hash_in_store(&late, &meta), Err(InvalidIndex));
    assert_eq!(FileSystemIndex::hash_in_store(&expected[..51].to_vec(), &meta), Err(InvalidIndex));
    assert_eq!(FileSystemIndex::get_hash(Some(&Vec::new()), &meta), Err(InvalidIndex));
    let early = FileMetadata { modified: Modified { secs: -1, nanos: 0 }, size: 1 };
    assert_eq!(FileSystemIndex::entry_to_store(&early, FileHash { bytes: [7; 32] }), Err(UnstorableTime));
}

#[test]
fn old_indexes_are_stale() {
    assert!(!is_stale(None));
    assert!(!is_stale(Some(&current_version())));
    assert!(is_stale(Some(&vec![1, 2])));
    assert!(is_stale(Some(&Vec::new())));
}

#[test]
fn patches_name_the_files_they_change() {
    let key = |k: &str| PatchStep::Key(k.to_string());
    let patches = vec![
        vec![key("files"), key("res://a.txt"), key("content")],
        vec![key("files"), key("res://a.txt")],
        vec![key("files"), PatchStep::Index],
        vec![key("other"), key("res://b.txt")],
        vec![PatchStep::Index, key("res://c.txt")],
        vec![key("files")],
        vec![key("files"), key("res://d.txt")],
    ];
    let mut changed = get_changed_files(&patches);
    changed.sort();
    assert_eq!(changed, vec!["res://a.txt", "res://d.txt"]);
}

#[test]
fn tables_keep_one_value_for_each_key() {
    let mut table: Table<u32> = Table::new();
    assert!(table.is_empty());
    table.insert("a".to_string(), 1);
    table.insert("b".to_string(), 2);
    table.insert("a".to_string(), 3);
    assert_eq!(table.len(), 2);
    assert_eq!(table.key_at(0), "a");
    assert_eq!(*table.value_at(0), 3);
    assert!(table.contains_key("b"));
    assert_eq!(table.remove("a"), Some(3));
    assert_eq!(table.remove("a"), None);
    assert_eq!(table.get("b"), Some(&2));
}

#[test]
fn files_of_a_directory_are_hashed() {
    let entry = |path: &str, is_file: bool, ignored: bool| WalkedEntry { path: path.to_string(), is_file, ignored };
    let files = FileSystemTraversal::files_to_hash(vec![
        entry("a", true, false),
        entry("d", false, false),
        entry("d/b", true, true),
        entry("d/c", true, false),
    ]);
    assert_eq!(files, vec!["a".to_string(), "d/c".to_string()]);
    let hash = FileHash::of(b"a");
    let table = FileSystemTraversal::get_all_files(vec![("a".to_string(), Some(hash)), ("d/c".to_string(), None)]);
    assert_eq!(table.len(), 1);
    assert!(table.get("a").unwrap().same(&hash));
    assert!(FileSystemTraversal::goes_into(true, false));
    assert!(!FileSystemTraversal::goes_into(false, false));
    assert!(!FileSystemTraversal::goes_into(true, true));
}

#[test]
fn files_are_read_with_their_hash() {
    let (bytes, hash) = get_buffer_and_hash(true, Some(vec![1, 2])).unwrap();
    assert_eq!(bytes, vec![1, 2]);
    assert_eq!(hash.bytes, *blake3::hash(&[1, 2]).as_bytes());
    assert_eq!(get_buffer_and_hash(false, None).unwrap_err(), "Not a file");
    assert_eq!(get_buffer_and_hash(true, None).unwrap_err(), "Failed to read file");
}

#[test]
fn test_persistence_across_reloads() {
    let meta = metadata(1, 10);
    let hash1 = compute_hash(&vec![b"persistent".to_vec()]);
    let on_disk = FileSystemIndex::entry_to_store(&meta, hash1).unwrap();
    let reloaded = on_disk.clone();
    let hash2 = FileSystemIndex::get_hash(Some(&reloaded), &meta).unwrap().unwrap();
    assert_eq!(hash1, hash2);
}

#[test]
fn test_multiple_files_are_tracked_independently() {
    let meta = metadata(1, 1);
    let a = stored(&meta, b"a");
    let b = stored(&meta, b"b");
    let h1 = FileSystemIndex::get_hash(Some(&a), &meta).unwrap().unwrap();
    let h2 = FileSystemIndex::get_hash(Some(&b), &meta).unwrap().unwrap();
    assert_eq!(h1.bytes, *blake3::hash(b"a").as_bytes());
    assert_eq!(h2.bytes, *blake3::hash(b"b").as_bytes());
    assert_ne!(h1, h2);
}
