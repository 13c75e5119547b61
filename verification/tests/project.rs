use backstitch::config::BackstitchConfig;
use backstitch::history::{ChangeHash, DocumentId, Heads, HistoryRef};
use backstitch::project::{
    base_mode, CreateMode, LoadEvent, LoadFailure, LoadStep as SimpleStep,
    Project as SimpleProject, ProjectLoadError as SimpleError,
};
use backstitch::project_base::{
    DiffCache, GodotProjectSignal, LoadAttempt, LoadStep, LoadSuccess, Project, ProjectCreateMode,
    ProjectLoadError, ProjectStartError, StartNext, StartPlan,
};
use backstitch::utils::{ChangeType, CommitInfo};

const UUID: &str = "aa3ecb4c-1ee5-4a67-be9e-6ecf1a5c3f2b";

fn config(pairs: &[(&str, &str)]) -> BackstitchConfig {
    let mut config = BackstitchConfig::new(None, None);
    for (key, value) in pairs {
        config.set_project_value(key, value);
    }
    config
}

fn commit(n: u8) -> CommitInfo {
    CommitInfo {
        hash: ChangeHash { bytes: [n; 32] },
        timestamp: n as i64,
        metadata: None,
        synced: false,
        summary: format!("commit {n}"),
    }
}

fn at(n: u8) -> HistoryRef {
    HistoryRef {
        branch: DocumentId { bytes: [1; 16] },
        heads: Heads::from_vec(vec![ChangeHash { bytes: [n; 32] }]),
    }
}

fn plan() -> StartPlan {
    StartPlan {
        server_url: Some("ws://s.example/".to_string()),
        metadata_id: Some(DocumentId { bytes: [1; 16] }),
        saved_branch: Some(DocumentId { bytes: [2; 16] }),
        username: String::new(),
    }
}

/// Runs a load against given answers, and gives how it came out and how many loads it took.
fn run_load(
    has_server: bool,
    answers: &[(LoadAttempt, Result<(), ProjectLoadError>)],
    connects: bool,
) -> (Result<LoadSuccess, ProjectStartError>, usize) {
    let mut loads = 0;
    let mut step = LoadStep::Load(LoadAttempt::Local);
    loop {
        step = match step {
            LoadStep::Load(attempt) => {
                loads += 1;
                let result = answers.iter().find(|a| a.0 == attempt).map(|a| a.1).unwrap();
                Project::try_and_retry_load(attempt, has_server, result)
            }
            LoadStep::Connect => Project::after_connect(connects),
            LoadStep::Finish(result) => return (result, loads),
        };
    }
}

#[test]
fn projects_found_locally_are_loaded_at_once() {
    let (result, loads) = run_load(true, &[(LoadAttempt::Local, Ok(()))], true);
    assert!(matches!(result, Ok(LoadSuccess { found_locally: true, found_on_provided_branch: true })));
    assert_eq!(loads, 1);
}

#[test]
fn without_a_server_the_main_branch_is_tried() {
    let missing = Err(ProjectLoadError::BranchDocNotFound);
    let (result, _) = run_load(false, &[(LoadAttempt::Local, missing), (LoadAttempt::LocalMain, Ok(()))], true);
    assert!(matches!(result, Ok(LoadSuccess { found_locally: true, found_on_provided_branch: false })));
    let (result, _) = run_load(
        false,
        &[(LoadAttempt::Local, missing), (LoadAttempt::LocalMain, Err(ProjectLoadError::BinaryDocNotFound))],
        true,
    );
    assert!(matches!(result, Ok(LoadSuccess { found_locally: true, found_on_provided_branch: false })));
    let (result, _) = run_load(false, &[(LoadAttempt::Local, missing), (LoadAttempt::LocalMain, missing)], true);
    assert!(matches!(result, Err(ProjectStartError::MainBranchNotFound)));
    let (result, loads) =
        run_load(false, &[(LoadAttempt::Local, Err(ProjectLoadError::MetadataIdNotFound))], true);
    assert!(matches!(result, Err(ProjectStartError::DocumentIdNotFound)));
    assert_eq!(loads, 1);
    let (result, _) = run_load(true, &[(LoadAttempt::Local, Err(ProjectLoadError::Unknown))], true);
    assert!(matches!(result, Err(ProjectStartError::Unknown)));
}

#[test]
fn with_a_server_the_project_is_looked_for_there() {
    let missing = Err(ProjectLoadError::BranchDocNotFound);
    let none = Err(ProjectLoadError::MetadataIdNotFound);
    let (result, _) = run_load(true, &[(LoadAttempt::Local, none), (LoadAttempt::Remote, Ok(()))], true);
    assert!(matches!(result, Ok(LoadSuccess { found_locally: false, found_on_provided_branch: true })));
    let (result, _) = run_load(
        true,
        &[(LoadAttempt::Local, none), (LoadAttempt::Remote, missing), (LoadAttempt::RemoteMain, Ok(()))],
        true,
    );
    assert!(matches!(result, Ok(LoadSuccess { found_locally: false, found_on_provided_branch: false })));
    let (result, _) = run_load(true, &[(LoadAttempt::Local, none), (LoadAttempt::Remote, none)], true);
    assert!(matches!(result, Err(ProjectStartError::DocumentIdNotFound)));
    let (result, _) = run_load(
        true,
        &[(LoadAttempt::Local, none), (LoadAttempt::Remote, Err(ProjectLoadError::BinaryDocNotFound))],
        true,
    );
    assert!(matches!(result, Ok(LoadSuccess { found_locally: false, found_on_provided_branch: true })));
    let (result, loads) = run_load(true, &[(LoadAttempt::Local, none)], false);
    assert!(matches!(result, Err(ProjectStartError::Unknown)));
    assert_eq!(loads, 1);
    assert!(LoadAttempt::Remote.on_provided_branch());
    assert!(!LoadAttempt::RemoteMain.on_provided_branch());
}

#[test]
fn server_urls_get_a_scheme() {
    assert!(matches!(
        Project::acquire_server_url(String::new()),
        Ok(Some(u)) if u == "tcp://alpha.backstitch.dev:8085"
    ));
    let url = |text: &str| Project::acquire_server_url(text.to_string());
    assert!(matches!(url("alpha.backstitch.dev:8085"), Ok(Some(u)) if u == "tcp://alpha.backstitch.dev:8085"));
    assert!(matches!(url("ws://s.example"), Ok(Some(u)) if u == "ws://s.example/"));
    assert!(matches!(url("wss://s.example/x"), Ok(Some(u)) if u == "wss://s.example/x"));
    assert!(matches!(url("http://s.example"), Err(ProjectStartError::ServerUrlInvalid(u)) if u == "http://s.example"));
    assert!(matches!(url("a b"), Err(ProjectStartError::ServerUrlInvalid(u)) if u == "tcp://a b"));
}

#[test]
fn a_start_is_planned_from_the_configuration() {
    let c = config(&[("project_doc_id", UUID), ("checked_out_branch_doc_id", "nonsense")]);
    let plan = Project::plan_start(ProjectCreateMode::AutoLoaded, &c).unwrap();
    assert_eq!(plan.server_url.as_deref(), Some("tcp://alpha.backstitch.dev:8085"));
    assert!(plan.metadata_id.unwrap().same(&DocumentId::from_text(UUID).unwrap()));
    assert!(plan.saved_branch.is_none());
    assert_eq!(plan.username, "");
    let c = config(&[("project_doc_id", UUID), ("checked_out_branch_doc_id", UUID)]);
    let plan = Project::plan_start(ProjectCreateMode::ManuallyLoaded, &c).unwrap();
    assert!(plan.saved_branch.is_some());
    assert!(matches!(
        Project::plan_start(ProjectCreateMode::ManuallyLoaded, &config(&[])),
        Err(ProjectStartError::DocumentIdInvalid(i)) if i.is_empty()
    ));
    let plan = Project::plan_start(ProjectCreateMode::New, &config(&[])).unwrap();
    assert!(plan.metadata_id.is_none());
    assert!(matches!(
        Project::plan_start(ProjectCreateMode::New, &config(&[("server_url", "http://x")])),
        Err(ProjectStartError::ServerUrlInvalid(_))
    ));
}

#[test]
fn local_changes_are_checked_in_without_asking_only_after_a_restart() {
    let start = |mode: ProjectCreateMode, found_locally: bool, n: usize| {
        let mut project = Project::new();
        let changes = (0..n).map(|i| (format!("res://{i}"), ChangeType::Added)).collect();
        let load = LoadSuccess { found_locally, found_on_provided_branch: true };
        let next = project.start(mode, plan(), load, changes);
        assert!(project.running);
        assert_eq!(project.local_changes.len(), n);
        next
    };
    assert_eq!(start(ProjectCreateMode::AutoLoaded, true, 0), StartNext::Finalize);
    assert_eq!(start(ProjectCreateMode::AutoLoaded, true, 2), StartNext::CheckIn);
    assert_eq!(start(ProjectCreateMode::AutoLoaded, false, 2), StartNext::AskUser);
    assert_eq!(start(ProjectCreateMode::ManuallyLoaded, true, 2), StartNext::AskUser);
}

#[test]
fn a_start_is_finished_and_stopped() {
    let mut project = Project::new();
    let mut c = config(&[("project_doc_id", UUID)]);
    assert!(matches!(project.begin_start(ProjectCreateMode::AutoLoaded, &c), Ok(Some(_))));
    assert!(matches!(project.finalize_start(&mut c, Some(DocumentId { bytes: [1; 16] })), Err(ProjectStartError::Unknown)));
    let load = LoadSuccess { found_locally: true, found_on_provided_branch: false };
    project.start(ProjectCreateMode::AutoLoaded, plan(), load, Vec::new());
    assert!(project.initial_branch.is_none());
    assert!(matches!(project.begin_start(ProjectCreateMode::AutoLoaded, &c), Ok(None)));
    assert!(matches!(project.finalize_start(&mut c, None), Err(ProjectStartError::Unknown)));
    let id = DocumentId { bytes: [1; 16] };
    let text = project.finalize_start(&mut c, Some(id)).unwrap();
    assert!(text.contains(&id.to_text()));
    assert_eq!(c.get_project_value("project_doc_id", ""), id.to_text());
    project.stop();
    assert!(!project.running);
    assert!(project.server_url.is_none());

    let load = LoadSuccess { found_locally: true, found_on_provided_branch: true };
    project.start(ProjectCreateMode::AutoLoaded, plan(), load, Vec::new());
    assert!(project.take_initial_branch().is_some());
    assert!(project.take_initial_branch().is_none());
}

#[test]
fn the_editor_is_told_what_is_new() {
    let mut project = Project::new();
    assert!(project.process(vec![commit(1)], true, true).is_empty());
    let load = LoadSuccess { found_locally: true, found_on_provided_branch: true };
    project.start(ProjectCreateMode::AutoLoaded, plan(), load, Vec::new());
    assert_eq!(
        project.process(vec![commit(1), commit(2)], false, false),
        vec![GodotProjectSignal::ChangesIngested]
    );
    assert_eq!(project.process(Vec::new(), false, true), vec![GodotProjectSignal::ServerStatusChanged]);
    assert_eq!(project.get_change(&ChangeHash { bytes: [2; 32] }).unwrap().summary, "commit 2");
    assert!(project.get_change(&ChangeHash { bytes: [3; 32] }).is_none());
    assert_eq!(
        project.process(vec![commit(3)], true, true),
        vec![GodotProjectSignal::ChangesIngested, GodotProjectSignal::ServerStatusChanged]
    );
    assert_eq!(project.history.as_ref().unwrap().len(), 1);
}

#[test]
fn the_checked_out_branch_is_noted() {
    let mut c = config(&[]);
    Project::note_checked_out(&mut c, Some(&at(1)), false);
    assert_eq!(c.get_project_value("checked_out_branch_doc_id", ""), at(1).branch.to_text());
    Project::note_checked_out(&mut c, Some(&at(1)), true);
    assert_eq!(c.get_project_value("checked_out_branch_doc_id", "?"), "");
    let mut started = config(&[("project_doc_id", UUID), ("server_url", "ws://s.example")]);
    Project::note_checked_out(&mut started, Some(&at(1)), false);
    let plan = Project::plan_start(ProjectCreateMode::AutoLoaded, &started).unwrap();
    assert!(plan.saved_branch.unwrap().same(&at(1).branch));
    assert_eq!(plan.server_url.as_deref(), Some("ws://s.example/"));
    Project::note_checked_out(&mut started, Some(&at(1)), true);
    let plan = Project::plan_start(ProjectCreateMode::AutoLoaded, &started).unwrap();
    assert!(plan.saved_branch.is_none());
    let text = Project::note_checked_out(&mut c, None, false);
    assert_eq!(text, "[backstitch]\nchecked_out_branch_doc_id=\"\"\n");
}

#[test]
fn the_editor_is_left_alone_while_it_is_busy() {
    assert!(Project::safe_to_update_godot(false, false, false));
    assert!(!Project::safe_to_update_godot(true, false, false));
    assert!(!Project::safe_to_update_godot(false, true, false));
    assert!(!Project::safe_to_update_godot(false, false, true));
    assert!(SimpleProject::safe_to_update_godot(false, false, false, false));
    assert!(!SimpleProject::safe_to_update_godot(false, false, true, false));
}

#[test]
fn diffs_are_kept() {
    let mut cache: DiffCache<u32> = DiffCache::new();
    assert!(cache.get_cached_diff(&at(1), &at(2)).is_none());
    cache.insert(at(1), at(2), 12);
    cache.insert(at(2), at(3), 23);
    assert_eq!(cache.get_cached_diff(&at(1), &at(2)), Some(&12));
    assert_eq!(cache.get_cached_diff(&at(2), &at(3)), Some(&23));
    assert!(cache.get_cached_diff(&at(2), &at(1)).is_none());
    cache.clear_diff_cache();
    assert!(cache.get_cached_diff(&at(1), &at(2)).is_none());
}

#[test]
fn a_simple_load_tries_twice() {
    let step = |has_server: bool, event: LoadEvent| SimpleProject::try_and_retry_load(has_server, event);
    let gone = Err(SimpleError::DocumentIdNotFoundLocally);
    assert_eq!(step(true, LoadEvent::TriedLocally(Ok(()))), SimpleStep::Finish(Ok(true)));
    assert_eq!(step(true, LoadEvent::TriedLocally(gone)), SimpleStep::Connect);
    assert_eq!(
        step(false, LoadEvent::TriedLocally(gone)),
        SimpleStep::Finish(Err(LoadFailure::DocumentIdNotFoundLocally))
    );
    assert_eq!(
        step(true, LoadEvent::TriedLocally(Err(SimpleError::Unknown))),
        SimpleStep::Finish(Err(LoadFailure::Unknown))
    );
    assert_eq!(step(true, LoadEvent::TriedConnecting(true)), SimpleStep::LoadAgain);
    assert_eq!(step(true, LoadEvent::TriedConnecting(false)), SimpleStep::Finish(Err(LoadFailure::Unknown)));
    assert_eq!(step(true, LoadEvent::TriedRemotely(Ok(()))), SimpleStep::Finish(Ok(false)));
    assert_eq!(
        step(true, LoadEvent::TriedRemotely(Err(SimpleError::DocumentIdNotFoundLocallyOrRemotely))),
        SimpleStep::Finish(Err(LoadFailure::DocumentIdNotFoundLocallyOrRemotely))
    );
    assert_eq!(
        step(true, LoadEvent::TriedRemotely(Err(SimpleError::DocumentIdNotFoundLocallyAndServerDidNotConnect))),
        SimpleStep::Finish(Err(LoadFailure::DocumentIdNotFoundLocallyAndServerDidNotConnect))
    );
}

#[test]
fn a_simple_project_starts_and_runs() {
    let mut project = SimpleProject::new();
    assert!(project.process(Vec::new(), true, true).is_empty());
    let changes = vec![("res://a".to_string(), ChangeType::Modified)];
    let next = project.start(CreateMode::AutoLoadedProject, plan(), true, changes);
    assert_eq!(next, StartNext::CheckIn);
    assert!(project.base.initial_branch.is_some());
    assert_eq!(project.process(Vec::new(), false, true).len(), 2);
    assert_eq!(project.process(Vec::new(), false, false).len(), 0);
    assert_eq!(base_mode(CreateMode::NewProject), ProjectCreateMode::New);
    assert_eq!(base_mode(CreateMode::ManuallyLoadedProject), ProjectCreateMode::ManuallyLoaded);
}
