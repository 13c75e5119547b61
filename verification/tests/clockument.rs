use automerge::transaction::Transactable;
use automerge::{Automerge, ReadDoc, ROOT};
use backstitch::branch_db::{BranchDb, DbError, ShadowDocWaitError};
use backstitch::clockument::{
    retain_pending_deps, Clockument, ClockumentCoordinator, ClockumentError, DocumentRef,
    InsertStep, Insertion, PersistenceId, PersistenceWorker, PutResult, ReadyEvent, ResolveEvent, ResolveStep, SedimentreeId,
};
use backstitch::doc_db::{blob_bytes, pair_fragments, DocFragment, DocumentDb, RepoError};
use backstitch::extension::{
    initialize_android_cert_dir, on_stage_deinit, on_stage_init, InitStage, StageAction,
    SYSTEM_CERT_DIR, UPDATABLE_CERT_DIR,
};
use backstitch::history::{ChangeHash, Heads};

fn id(n: u8) -> SedimentreeId {
    SedimentreeId { bytes: [n; 32] }
}

fn hash(n: u8) -> ChangeHash {
    ChangeHash { bytes: [n; 32] }
}

fn at(n: u8, heads: &[u8]) -> DocumentRef {
    DocumentRef { id: id(n), heads: Heads::from_vec(heads.iter().map(|h| hash(*h)).collect()) }
}

fn doc_with(key: &str, value: &str) -> Automerge {
    let mut doc = Automerge::new();
    let mut tx = doc.transaction();
    tx.put(ROOT, key, value).unwrap();
    tx.commit();
    doc
}

#[test]
fn references_mean_the_same_in_any_order_of_heads() {
    assert!(at(1, &[1, 2]).same(&at(1, &[2, 1])));
    assert!(!at(1, &[1, 2]).same(&at(2, &[1, 2])));
    assert!(!at(1, &[1, 2]).same(&at(1, &[1])));
}

#[test]
fn dependencies_that_are_there_are_struck_off() {
    let deps = vec![at(1, &[1]), at(2, &[2]), at(1, &[3])];
    let left = retain_pending_deps(&deps, None, &vec![true, false, false]);
    assert_eq!(left.len(), 2);
    assert!(left[0].same(&deps[1]) && left[1].same(&deps[2]));
    let left = retain_pending_deps(&deps, Some(id(1)), &vec![true, true, false]);
    assert_eq!(left.len(), 2);
    assert!(left[0].same(&deps[1]) && left[1].same(&deps[2]));
    assert!(retain_pending_deps(&deps, None, &vec![true, true, true]).is_empty());
}

#[test]
fn the_root_waits_for_what_it_depends_on() {
    let root = id(9);
    let mut worker: PersistenceWorker<u32> = PersistenceWorker::new(root);
    assert!(matches!(worker.try_insert(Insertion { id: id(1), doc: 1 }), InsertStep::Put(i) if i.doc == 1));
    assert!(matches!(worker.try_insert(Insertion { id: root, doc: 2 }), InsertStep::CheckDeps(i) if i.doc == 2));
    let deps = vec![at(1, &[1]), at(2, &[2])];
    assert!(worker.try_insert_root(Insertion { id: root, doc: 2 }, &deps, &vec![false, false]).is_none());
    assert_eq!(worker.pending_count(), 1);
    assert_eq!(worker.pending_at(0).remaining_deps.len(), 2);
    // The second dependency was put: the first is still waited for, whatever is said of it.
    assert!(!worker.settle(0, id(2), &vec![true, true]));
    assert_eq!(worker.pending_at(0).remaining_deps.len(), 1);
    assert!(worker.settle(0, id(1), &vec![true]));
    // What came with it brought a new dependency.
    let deps = vec![at(1, &[1]), at(3, &[3])];
    assert!(worker.recheck(0, &deps, &vec![true, false]).is_none());
    assert!(worker.settle(0, id(3), &vec![true]));
    assert_eq!(worker.recheck(0, &deps, &vec![true, true]).unwrap().doc, 2);
    assert_eq!(worker.pending_count(), 0);
}

#[test]
fn a_root_without_open_dependencies_is_kept_at_once() {
    let mut worker: PersistenceWorker<u32> = PersistenceWorker::new(id(9));
    let insertion = Insertion { id: id(9), doc: 3 };
    assert_eq!(worker.try_insert_root(insertion, &vec![at(1, &[1])], &vec![true]).unwrap().doc, 3);
    let insertion = Insertion { id: id(9), doc: 4 };
    assert_eq!(worker.try_insert_root(insertion, &Vec::new(), &Vec::new()).unwrap().doc, 4);
    assert_eq!(worker.pending_count(), 0);
}

#[test]
fn a_waiting_root_is_given_up_with_its_place() {
    let mut worker: PersistenceWorker<u32> = PersistenceWorker::new(id(9));
    let deps = vec![at(1, &[1])];
    worker.try_insert_root(Insertion { id: id(9), doc: 5 }, &deps, &vec![false]);
    worker.try_insert_root(Insertion { id: id(9), doc: 6 }, &deps, &vec![false]);
    assert!(!worker.give_up(0, false));
    assert_eq!(worker.pending_count(), 2);
    assert!(worker.give_up(0, true));
    assert_eq!(worker.pending_at(0).insertion.doc, 6);
}

#[test]
fn places_are_numbered_and_removed() {
    let mut coordinator = ClockumentCoordinator::new(Clockument::new(id(9)));
    let a = coordinator.add_persistence();
    let b = coordinator.add_persistence();
    let c = coordinator.add_persistence();
    assert_eq!((a, b, c), (PersistenceId(0), PersistenceId(1), PersistenceId(2)));
    assert_eq!(coordinator.insert(), vec![a, b, c]);
    let put = |source: PersistenceId| PutResult { doc_ref: at(9, &[1]), source };
    assert_eq!(coordinator.driver_loop(&put(b)), Some(vec![a, c]));
    assert!(coordinator.is_root(&put(b)));
    assert!(!coordinator.is_root(&PutResult { doc_ref: at(1, &[1]), source: b }));
    assert!(coordinator.remove_persistence(b).is_ok());
    assert!(matches!(coordinator.remove_persistence(b), Err(ClockumentError::NoSuchTarget(p)) if p == b));
    assert!(matches!(coordinator.target(b), Err(ClockumentError::NoSuchTarget(p)) if p == b));
    assert!(coordinator.target(c).is_ok());
    assert_eq!(coordinator.driver_loop(&put(b)), None);
    // A number is never given twice.
    assert_eq!(coordinator.add_persistence(), PersistenceId(3));
}

#[test]
fn a_place_tells_of_the_root_last() {
    let coordinator = ClockumentCoordinator::new(Clockument::new(id(9)));
    let told = coordinator.notify_rebroadcast(
        PersistenceId(4),
        Some((vec![at(1, &[1]), at(2, &[2])], Heads::from_vec(vec![hash(7)]))),
    );
    assert_eq!(told.len(), 3);
    assert!(told[0].doc_ref.same(&at(1, &[1])));
    assert!(told[1].doc_ref.same(&at(2, &[2])));
    assert!(told[2].doc_ref.same(&at(9, &[7])));
    assert!(told.iter().all(|p| p.source == PersistenceId(4)));
    assert!(coordinator.notify_rebroadcast(PersistenceId(4), None).is_empty());
}

#[test]
fn waiting_for_heads_comes_to_an_end() {
    assert!(ClockumentCoordinator::heads_ready(ReadyEvent::Asked(Ok(false))).is_none());
    assert!(matches!(ClockumentCoordinator::heads_ready(ReadyEvent::Asked(Ok(true))), Some(Ok(()))));
    assert!(matches!(
        ClockumentCoordinator::heads_ready(ReadyEvent::Asked(Err("x".to_string()))),
        Some(Err(ClockumentError::Persist(e))) if e == "x"
    ));
    assert!(matches!(
        ClockumentCoordinator::heads_ready(ReadyEvent::Removed),
        Some(Err(ClockumentError::TargetRemoved))
    ));
}

#[test]
fn a_transaction_changes_a_document_when_its_heads_move() {
    assert!(!ClockumentCoordinator::transact(&vec![hash(1)], &vec![hash(1)]));
    assert!(ClockumentCoordinator::transact(&vec![hash(1)], &vec![hash(2)]));
    assert!(ClockumentCoordinator::transact(&vec![hash(1)], &vec![hash(1), hash(2)]));
}

#[test]
fn longer_blobs_come_first() {
    assert_eq!(blob_bytes(vec![vec![1], vec![2, 2], vec![3], vec![4, 4, 4]]), vec![4, 4, 4, 2, 2, 1, 3]);
    assert!(blob_bytes(Vec::new()).is_empty());
}

#[test]
fn blobs_are_loaded_into_documents() {
    let mut db = DocumentDb::new();
    assert!(matches!(db.document(&id(1)), Err(RepoError::NoSuchDocument(i)) if i == id(1)));
    assert!(matches!(db.with_document(&id(1)), Err(RepoError::NoSuchDocument(_))));
    assert!(matches!(db.get_fragments(&id(1)), Err(RepoError::NoSuchDocument(_))));

    let one = doc_with("a", "one");
    db.insert_blobs(id(1), vec![one.save()]);
    assert_eq!(db.document(&id(1)).unwrap().get_heads(), one.get_heads());
    let two = doc_with("b", "two");
    db.insert_blobs(id(1), vec![two.save()]);
    let doc = db.document(&id(1)).unwrap();
    assert_eq!(doc.get_heads().len(), 2);
    assert_eq!(doc.get(ROOT, "a").unwrap().unwrap().0.to_str(), Some("one"));
    assert_eq!(doc.get(ROOT, "b").unwrap().unwrap().0.to_str(), Some("two"));
    // Bytes that cannot be read leave the document as it was.
    db.insert_blobs(id(1), vec![vec![1, 2, 3]]);
    assert_eq!(db.document(&id(1)).unwrap().get_heads().len(), 2);

    let doc = db.with_document(&id(1)).unwrap();
    let mut tx = doc.transaction();
    tx.put(ROOT, "c", "three").unwrap();
    tx.commit();
    assert_eq!(db.document(&id(1)).unwrap().get_heads().len(), 1);
    assert!(matches!(db.document(&id(2)), Err(RepoError::NoSuchDocument(_))));
}

#[test]
fn documents_are_cut_into_parts() {
    let mut doc = Automerge::new();
    for i in 0..2000 {
        let mut tx = doc.transaction();
        tx.put(ROOT, "k", i as i64).unwrap();
        tx.commit();
    }
    let mut db = DocumentDb::new();
    db.insert_blobs(id(1), vec![doc.save()]);
    let parts = db.get_fragments(&id(1)).unwrap();
    let expected = doc.fragments(..);
    assert_eq!(parts.len(), expected.len());
    assert!(!parts.is_empty());
    for (part, fragment) in parts.iter().zip(expected) {
        assert_eq!(part.0.head.bytes, fragment.head.0);
        assert_eq!(part.0.boundary.len(), fragment.boundary.len());
        assert!(!part.1.is_empty());
    }
}

#[test]
fn parts_and_encodings_are_paired() {
    let part = |n: u8| DocFragment { head: hash(n), boundary: Vec::new(), checkpoints: Vec::new() };
    let pairs = pair_fragments(vec![part(1), part(2), part(3)], vec![vec![1], vec![2]]);
    assert_eq!(pairs.len(), 2);
    assert_eq!(pairs[1].0.head.bytes, [2; 32]);
    assert_eq!(pairs[1].1, vec![2]);
}

#[test]
fn what_is_wrong_with_a_project_is_told() {
    let s = |t: &str| t.to_string();
    assert_eq!(ShadowDocWaitError::BranchNotIngested.to_text(), "the branch wasn't ingested");
    assert_eq!(ShadowDocWaitError::Watch(s("x")).to_text(), "tokio error: x");
    assert_eq!(DbError::NoMetadataState.to_text(), "there was no loaded metadata state");
    assert_eq!(DbError::NoBranch(s("b")).to_text(), "there was no branch matching the id b");
    assert_eq!(DbError::BadBranchState(s("b"), s("y")).to_text(), "the branch state of id b is wrong (y)");
    assert_eq!(DbError::BadBranchDocument(s("b"), s("y")).to_text(), "bad branch document at ref b (y)");
    assert_eq!(DbError::ShadowDocNotInitialized.to_text(), "shadow doc isn't initialized");
    assert_eq!(DbError::Thread(s("t")).to_text(), "there was an issue with threading: t");
    assert_eq!(DbError::Automerge(s("a")).to_text(), "a");
    assert_eq!(DbError::RepoStopped(s("r")).to_text(), "r");
    assert_eq!(DbError::InvalidRef(s("r")).to_text(), "the provided ref was invalid: r");
    assert_eq!(DbError::NoFilters.to_text(), "there were no provided file filters");
}

#[test]
fn the_project_directory_and_the_user_are_kept() {
    let mut db = BranchDb::new("/home/p".to_string());
    assert!(db.username().is_none());
    db.set_username(Some("Ada".to_string()));
    assert_eq!(db.username().unwrap(), "Ada");
    assert_eq!(db.get_project_dir(), "/home/p");
}

#[test]
fn the_plugin_registers_with_the_scene_stage() {
    assert_eq!(on_stage_init(InitStage::Scene), StageAction::Register);
    assert_eq!(on_stage_deinit(InitStage::Scene), StageAction::Unregister);
    for stage in [InitStage::Core, InitStage::Servers, InitStage::Editor] {
        assert_eq!(on_stage_init(stage), StageAction::Nothing);
        assert_eq!(on_stage_deinit(stage), StageAction::Nothing);
    }
}

#[test]
fn certificates_are_looked_for_on_android() {
    assert_eq!(initialize_android_cert_dir(false, false, true, true), Some(UPDATABLE_CERT_DIR));
    assert_eq!(initialize_android_cert_dir(false, false, false, true), Some(SYSTEM_CERT_DIR));
    assert_eq!(initialize_android_cert_dir(false, false, false, false), None);
    assert_eq!(initialize_android_cert_dir(true, false, true, true), None);
    assert_eq!(initialize_android_cert_dir(false, true, true, true), None);
}

#[test]
fn waiting_documents_are_looked_at_one_after_the_other() {
    let root = id(9);
    let mut worker: PersistenceWorker<u32> = PersistenceWorker::new(root);
    let one = vec![at(1, &[1])];
    let two = vec![at(1, &[1]), at(2, &[2])];
    worker.try_insert_root(Insertion { id: root, doc: 1 }, &one, &vec![false]);
    worker.try_insert_root(Insertion { id: root, doc: 2 }, &two, &vec![false, false]);
    worker.try_insert_root(Insertion { id: root, doc: 3 }, &two, &vec![false, false]);
    let mut step = |i: usize, event: ResolveEvent| worker.try_resolve_pending(id(1), i, event);
    assert!(matches!(step(0, ResolveEvent::GoOn), ResolveStep::AskWaits(0)));
    assert!(matches!(step(0, ResolveEvent::Waits(vec![true])), ResolveStep::AskDepends(0)));
    assert!(matches!(
        step(0, ResolveEvent::Depends(vec![at(1, &[1])], vec![true])),
        ResolveStep::Put(0, kept) if kept.doc == 1
    ));
    assert!(matches!(step(0, ResolveEvent::GoOn), ResolveStep::AskWaits(0)));
    assert!(matches!(step(0, ResolveEvent::Waits(vec![true, true])), ResolveStep::AskCancelled(0)));
    assert!(matches!(step(0, ResolveEvent::Cancelled(true)), ResolveStep::AskWaits(0)));
    assert!(matches!(step(0, ResolveEvent::Waits(vec![false, true])), ResolveStep::AskCancelled(0)));
    assert!(matches!(step(0, ResolveEvent::Cancelled(false)), ResolveStep::Done));
    assert_eq!(worker.pending_count(), 1);
    assert_eq!(worker.pending_at(0).insertion.doc, 3);
}

#[test]
fn other_documents_stay() {
    let mut db = DocumentDb::new();
    let one = doc_with("a", "one");
    let two = doc_with("b", "two");
    db.insert_blobs(id(1), vec![one.save()]);
    db.insert_blobs(id(2), vec![two.save()]);
    assert_eq!(db.document(&id(1)).unwrap().get_heads(), one.get_heads());
    assert_eq!(db.document(&id(2)).unwrap().get_heads(), two.get_heads());
    db.insert_blobs(id(1), vec![two.save()]);
    assert_eq!(db.document(&id(2)).unwrap().get_heads(), two.get_heads());
}

#[test]
fn loaded_documents_take_their_place() {
    let mut db = DocumentDb::new();
    assert!(!db.insert_loaded(id(1), None));
    assert!(db.document(&id(1)).is_err());
    let one = doc_with("a", "one");
    assert!(db.insert_loaded(id(1), Some(one.clone())));
    assert_eq!(db.document(&id(1)).unwrap().get_heads(), one.get_heads());
    let two = doc_with("b", "two");
    assert!(db.insert_loaded(id(1), Some(two.clone())));
    assert_eq!(db.document(&id(1)).unwrap().get_heads(), two.get_heads());
    assert!(!db.insert_loaded(id(1), None));
    assert_eq!(db.document(&id(1)).unwrap().get_heads(), two.get_heads());
}

#[test]
fn errors_of_documents_are_told() {
    let hex = "01".repeat(32);
    assert_eq!(RepoError::NoSuchDocument(id(1)).to_text(), format!("No such document {hex}"));
    assert_eq!(RepoError::Storage("disk".to_string()).to_text(), "disk");
    assert_eq!(RepoError::Write("full".to_string()).to_text(), "full");
    assert_eq!(RepoError::Stopped.to_text(), "the repo has been stopped");
    assert_eq!(RepoError::Io.to_text(), "there was an IO error");
    let told = |e: ClockumentError| e.to_text();
    assert_eq!(
        told(ClockumentError::NoSuchTarget(PersistenceId(7))),
        "the clockument didn't have an added persistence of ID PersistenceId(7)"
    );
    assert_eq!(
        told(ClockumentError::NoSuchDocument(id(1))),
        format!("no document was found matching the ID {hex}")
    );
    let heads = Heads::from_vec(vec![hash(1), hash(2)]);
    let two = "02".repeat(32);
    assert_eq!(
        told(ClockumentError::NoSuchHeads(heads)),
        format!("no heads Heads([ChangeHash(\"{hex}\"), ChangeHash(\"{two}\")]) were found on the document")
    );
    assert_eq!(told(ClockumentError::NoHeadsReady), "the document did not have any heads ready");
    assert_eq!(told(ClockumentError::TargetRemoved), "the target was removed");
    assert_eq!(
        told(ClockumentError::Persist("x".to_string())),
        "there was an error in persistence: x"
    );
}

/// Walks over the waiting documents of a place after a document was persisted there, and gives
/// what was put.
fn walk(
    worker: &mut PersistenceWorker<u32>,
    persisted: SedimentreeId,
    held: &[DocumentRef],
    deps_of: impl Fn(u32) -> Vec<DocumentRef>,
) -> Vec<u32> {
    let holds = |deps: &Vec<DocumentRef>| -> Vec<bool> {
        deps.iter().map(|d| held.iter().any(|h| h.same(d))).collect()
    };
    let mut put = Vec::new();
    let mut step = worker.try_resolve_pending(persisted, 0, ResolveEvent::GoOn);
    loop {
        let (i, event) = match step {
            ResolveStep::Done => return put,
            ResolveStep::AskWaits(i) => {
                (i, ResolveEvent::Waits(holds(&worker.pending_at(i).remaining_deps)))
            }
            ResolveStep::AskDepends(i) => {
                let deps = deps_of(worker.pending_at(i).insertion.doc);
                let there = holds(&deps);
                (i, ResolveEvent::Depends(deps, there))
            }
            ResolveStep::AskCancelled(i) => (i, ResolveEvent::Cancelled(false)),
            ResolveStep::Put(i, insertion) => {
                put.push(insertion.doc);
                (i, ResolveEvent::GoOn)
            }
        };
        step = worker.try_resolve_pending(persisted, i, event);
    }
}

#[test]
fn a_root_is_put_with_the_last_missing_document() {
    let root = id(9);
    let deps_of = |doc: u32| match doc {
        10 => vec![at(1, &[1]), at(2, &[2]), at(1, &[3])],
        _ => vec![at(2, &[2]), at(3, &[4])],
    };
    let mut worker: PersistenceWorker<u32> = PersistenceWorker::new(root);
    let mut held = vec![at(1, &[1])];
    let came = worker.try_insert_root(
        Insertion { id: root, doc: 10 },
        &deps_of(10),
        &vec![true, false, false],
    );
    assert!(came.is_none());
    assert!(worker.try_insert_root(Insertion { id: root, doc: 11 }, &deps_of(11), &vec![false, false]).is_none());
    held.push(at(2, &[2]));
    assert!(walk(&mut worker, id(2), &held, deps_of).is_empty());
    assert_eq!(worker.pending_count(), 2);
    held.push(at(1, &[3]));
    assert_eq!(walk(&mut worker, id(1), &held, deps_of), vec![10]);
    // A document that nothing waits for brings nothing about.
    held.push(at(4, &[1]));
    assert!(walk(&mut worker, id(4), &held, deps_of).is_empty());
    held.push(at(3, &[4]));
    assert_eq!(walk(&mut worker, id(3), &held, deps_of), vec![11]);
    assert_eq!(worker.pending_count(), 0);
}
