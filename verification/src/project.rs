//! A project in the editor, as long as branches are not told apart when it is loaded.

use crate::project_base::{
    changed_views, LoadSuccess, ProjectCreateMode, StartNext, StartPlan,
};
use crate::utils::{ChangeType, CommitInfo};
use vstd::prelude::*;

verus! {

/// How a project comes to be opened.
#[derive(Clone, Copy, Debug, PartialEq, Eq, Structural)]
pub enum CreateMode {
    NewProject,
    ManuallyLoadedProject,
    AutoLoadedProject,
}

/// Why documents could not be loaded.
#[derive(Clone, Copy, Debug, PartialEq, Eq, Structural)]
pub enum ProjectLoadError {
    Unknown,
    DocumentIdNotFoundLocally,
    DocumentIdNotFoundLocallyOrRemotely,
    DocumentIdNotFoundLocallyAndServerDidNotConnect,
}

/// Why a project could not be loaded.
#[derive(Clone, Copy, Debug, PartialEq, Eq, Structural)]
pub enum LoadFailure {
    Unknown,
    DocumentIdNotFoundLocally,
    DocumentIdNotFoundLocallyOrRemotely,
    DocumentIdNotFoundLocallyAndServerDidNotConnect,
}

/// What to do next to load a project.
#[derive(Clone, Copy, Debug, PartialEq, Eq)]
pub enum LoadStep {
    /// Connect to the server, and load again.
    Connect,
    LoadAgain,
    /// The load is over, with whether the project was found locally.
    Finish(Result<bool, LoadFailure>),
}

/// What follows on the first try to load: a project that is not found locally is looked for on the
/// server, where there is one.
pub open spec fn after_local(has_server: bool, result: Result<(), ProjectLoadError>) -> LoadStep {
    match result {
        Ok(_) => LoadStep::Finish(Ok(true)),
        Err(ProjectLoadError::DocumentIdNotFoundLocally) => if has_server {
            LoadStep::Connect
        } else {
            LoadStep::Finish(Err(LoadFailure::DocumentIdNotFoundLocally))
        },
        Err(_) => LoadStep::Finish(Err(LoadFailure::Unknown)),
    }
}

/// What follows on the second try to load.
pub open spec fn after_remote(result: Result<(), ProjectLoadError>) -> LoadStep {
    match result {
        Ok(_) => LoadStep::Finish(Ok(false)),
        Err(ProjectLoadError::Unknown) => LoadStep::Finish(Err(LoadFailure::Unknown)),
        Err(ProjectLoadError::DocumentIdNotFoundLocally) => LoadStep::Finish(
            Err(LoadFailure::DocumentIdNotFoundLocally),
        ),
        Err(ProjectLoadError::DocumentIdNotFoundLocallyOrRemotely) => LoadStep::Finish(
            Err(LoadFailure::DocumentIdNotFoundLocallyOrRemotely),
        ),
        Err(ProjectLoadError::DocumentIdNotFoundLocallyAndServerDidNotConnect) => LoadStep::Finish(
            Err(LoadFailure::DocumentIdNotFoundLocallyAndServerDidNotConnect),
        ),
    }
}

/// What happened on the way to load a project.
#[derive(Clone, Copy, Debug, PartialEq, Eq)]
pub enum LoadEvent {
    /// The first try to load was made.
    TriedLocally(Result<(), ProjectLoadError>),
    /// It was tried to connect to the server.
    TriedConnecting(bool),
    /// The second try to load was made.
    TriedRemotely(Result<(), ProjectLoadError>),
}

/// What follows on what happened.
pub open spec fn next_step(has_server: bool, event: LoadEvent) -> LoadStep {
    match event {
        LoadEvent::TriedLocally(result) => after_local(has_server, result),
        LoadEvent::TriedConnecting(true) => LoadStep::LoadAgain,
        LoadEvent::TriedConnecting(false) => LoadStep::Finish(Err(LoadFailure::Unknown)),
        LoadEvent::TriedRemotely(result) => after_remote(result),
    }
}

/// A project in the editor.
pub struct Project {
    pub base: crate::project_base::Project,
}

impl Project {
    pub fn new() -> (r: Project)
        ensures
            !r.base.running,
            r.base.local_changes.len() == 0,
            r.base.server_url is None,
            r.base.initial_branch is None,
            r.base.history is None,
            r.base.changes.len() == 0,
    {
        Project { base: crate::project_base::Project::new() }
    }

    /// What follows on what happened on the way to load a project.
    pub fn try_and_retry_load(has_server: bool, event: LoadEvent) -> (r: LoadStep)
        ensures
            r == next_step(has_server, event),
    {
        match event {
            LoadEvent::TriedLocally(Ok(_)) => LoadStep::Finish(Ok(true)),
            LoadEvent::TriedLocally(Err(ProjectLoadError::DocumentIdNotFoundLocally)) => {
                if has_server {
                    LoadStep::Connect
                } else {
                    LoadStep::Finish(Err(LoadFailure::DocumentIdNotFoundLocally))
                }
            },
            LoadEvent::TriedLocally(Err(_)) => LoadStep::Finish(Err(LoadFailure::Unknown)),
            LoadEvent::TriedConnecting(connected) => if connected {
                LoadStep::LoadAgain
            } else {
                LoadStep::Finish(Err(LoadFailure::Unknown))
            },
            LoadEvent::TriedRemotely(Ok(_)) => LoadStep::Finish(Ok(false)),
            LoadEvent::TriedRemotely(Err(error)) => LoadStep::Finish(
                Err(
                    match error {
                        ProjectLoadError::Unknown => LoadFailure::Unknown,
                        ProjectLoadError::DocumentIdNotFoundLocally =>
                            LoadFailure::DocumentIdNotFoundLocally,
                        ProjectLoadError::DocumentIdNotFoundLocallyOrRemotely =>
                            LoadFailure::DocumentIdNotFoundLocallyOrRemotely,
                        ProjectLoadError::DocumentIdNotFoundLocallyAndServerDidNotConnect =>
                            LoadFailure::DocumentIdNotFoundLocallyAndServerDidNotConnect,
                    },
                ),
            ),
        }
    }
}

/// A project is said to be found locally only where the first try found it.
pub proof fn found_locally_means_first_try(has_server: bool, event: LoadEvent)
    ensures
        next_step(has_server, event) == LoadStep::Finish(Ok(true)) <==> (event is TriedLocally
            && event->TriedLocally_0 is Ok),
        next_step(has_server, event) == LoadStep::Finish(Ok(false)) <==> (event is TriedRemotely
            && event->TriedRemotely_0 is Ok),
{
}

/// What the editor is told of a project.
#[derive(Clone, Copy, Debug, PartialEq, Eq, Structural)]
pub enum GodotProjectSignal {
    CheckedOutBranch,
    ChangesIngested,
}

/// What follows once a project has been loaded, by whether files on disk have changed.
pub open spec fn after_start(mode: CreateMode, found_locally: bool, changed: bool) -> StartNext {
    if !changed {
        StartNext::Finalize
    } else if mode == CreateMode::AutoLoadedProject && found_locally {
        StartNext::CheckIn
    } else {
        StartNext::AskUser
    }
}

impl Project {
    /// What follows once a project has been loaded: changes on disk are checked in without asking only
    /// where the project was opened by itself and found locally.
    pub fn start(
        &mut self,
        mode: CreateMode,
        plan: StartPlan,
        found_locally: bool,
        local_changes: Vec<(String, ChangeType)>,
    ) -> (r: StartNext)
        ensures
            r == after_start(mode, found_locally, local_changes.len() != 0),
            final(self).base.running,
            final(self).base.server_url == plan.server_url,
            final(self).base.initial_branch == plan.saved_branch,
            changed_views(final(self).base.local_changes@) == local_changes@.map_values(
                |c: (String, ChangeType)| (c.0@, c.1),
            ),
            final(self).base.history == old(self).base.history,
            final(self).base.changes == old(self).base.changes,
    {
        let load = LoadSuccess { found_locally, found_on_provided_branch: true };
        self.base.start(base_mode(mode), plan, load, local_changes)
    }
}

/// The mode by which the configuration is read.
pub fn base_mode(mode: CreateMode) -> (r: ProjectCreateMode)
    ensures
        r == match mode {
            CreateMode::NewProject => ProjectCreateMode::New,
            CreateMode::ManuallyLoadedProject => ProjectCreateMode::ManuallyLoaded,
            CreateMode::AutoLoadedProject => ProjectCreateMode::AutoLoaded,
        },
{
    match mode {
        CreateMode::NewProject => ProjectCreateMode::New,
        CreateMode::ManuallyLoadedProject => ProjectCreateMode::ManuallyLoaded,
        CreateMode::AutoLoadedProject => ProjectCreateMode::AutoLoaded,
    }
}

/// What the editor is told.
pub open spec fn signals_of(fresh: bool, checked_out: bool) -> Seq<GodotProjectSignal> {
    let first = if fresh {
        seq![GodotProjectSignal::ChangesIngested]
    } else {
        Seq::empty()
    };
    let second = if checked_out {
        seq![GodotProjectSignal::CheckedOutBranch]
    } else {
        Seq::empty()
    };
    first + second
}

impl Project {
    /// One turn of the editor: takes over the commits where there are new ones or none were read yet,
    /// and says what the editor has to be told. A project that is not running says nothing.
    pub fn process(
        &mut self,
        changes: Vec<CommitInfo>,
        changes_changed: bool,
        checked_out_changed: bool,
    ) -> (r: Vec<GodotProjectSignal>)
        ensures
            !old(self).base.running ==> r.len() == 0 && final(self).base == old(self).base,
            old(self).base.running ==> r@ == signals_of(
                old(self).base.history is None || changes_changed,
                checked_out_changed,
            ),
            old(self).base.running && (old(self).base.history is None || changes_changed) ==> final(self).base.history is Some && final(self).base.history->0@ == changes@.map_values(
                |c: CommitInfo| c.hash,
            ) && final(self).base.changes == changes,
            old(self).base.running && !(old(self).base.history is None || changes_changed)
                ==> final(self).base == old(self).base,
            final(self).base.running == old(self).base.running,
            final(self).base.server_url == old(self).base.server_url,
            final(self).base.local_changes == old(self).base.local_changes,
            final(self).base.initial_branch == old(self).base.initial_branch,
    {
        let mut signals: Vec<GodotProjectSignal> = Vec::new();
        if !self.base.running {
            return signals;
        }
        if self.base.history.is_none() || changes_changed {
            signals.push(GodotProjectSignal::ChangesIngested);
            self.base.ingest_changes(changes);
        }
        if checked_out_changed {
            signals.push(GodotProjectSignal::CheckedOutBranch);
        }
        proof {
            let fresh = old(self).base.history is None || changes_changed;
            assert(signals@ =~= signals_of(fresh, checked_out_changed));
        }
        signals
    }

    /// Whether the editor may be changed now.
    pub fn safe_to_update_godot(
        scanning: bool,
        importing: bool,
        changing_scene: bool,
        unsaved_files: bool,
    ) -> (r: bool)
        ensures
            r == (!scanning && !importing && !changing_scene && !unsaved_files),
    {
        !(scanning || importing || changing_scene || unsaved_files)
    }
}


/// A project that is not found locally is looked for on the server, where there is one, and only
/// then; a project is loaded again only where the server could be reached. Errors of the last try
/// are told as they are.
pub proof fn the_server_is_asked_second(
    has_server: bool,
    result: Result<(), ProjectLoadError>,
    event: LoadEvent,
)
    ensures
        next_step(has_server, event) == LoadStep::Connect <==> has_server && event
            == LoadEvent::TriedLocally(Err(ProjectLoadError::DocumentIdNotFoundLocally)),
        next_step(has_server, event) == LoadStep::LoadAgain <==> event
            == LoadEvent::TriedConnecting(true),
        next_step(has_server, LoadEvent::TriedConnecting(false)) == LoadStep::Finish(
            Err(LoadFailure::Unknown),
        ),
        next_step(
            false,
            LoadEvent::TriedLocally(Err(ProjectLoadError::DocumentIdNotFoundLocally)),
        ) == LoadStep::Finish(Err(LoadFailure::DocumentIdNotFoundLocally)),
        result is Err && result->Err_0 != ProjectLoadError::DocumentIdNotFoundLocally
            ==> next_step(has_server, LoadEvent::TriedLocally(result)) == LoadStep::Finish(
            Err(LoadFailure::Unknown),
        ),
        result == Err::<(), _>(ProjectLoadError::Unknown) ==> next_step(
            has_server,
            LoadEvent::TriedRemotely(result),
        ) == LoadStep::Finish(Err(LoadFailure::Unknown)),
        result == Err::<(), _>(ProjectLoadError::DocumentIdNotFoundLocally) ==> next_step(
            has_server,
            LoadEvent::TriedRemotely(result),
        ) == LoadStep::Finish(Err(LoadFailure::DocumentIdNotFoundLocally)),
        result == Err::<(), _>(ProjectLoadError::DocumentIdNotFoundLocallyOrRemotely) ==> next_step(
            has_server,
            LoadEvent::TriedRemotely(result),
        ) == LoadStep::Finish(Err(LoadFailure::DocumentIdNotFoundLocallyOrRemotely)),
        result == Err::<(), _>(ProjectLoadError::DocumentIdNotFoundLocallyAndServerDidNotConnect)
            ==> next_step(has_server, LoadEvent::TriedRemotely(result)) == LoadStep::Finish(
            Err(LoadFailure::DocumentIdNotFoundLocallyAndServerDidNotConnect),
        ),
{
}

/// Each signal is given once, where there is reason for it, and new commits come first.
pub proof fn new_commits_are_told_first(fresh: bool, checked_out: bool)
    ensures
        signals_of(fresh, checked_out).contains(GodotProjectSignal::ChangesIngested) <==> fresh,
        signals_of(fresh, checked_out).contains(GodotProjectSignal::CheckedOutBranch)
            <==> checked_out,
        signals_of(fresh, checked_out).no_duplicates(),
        fresh ==> signals_of(fresh, checked_out)[0] == GodotProjectSignal::ChangesIngested,
{
    let s = signals_of(fresh, checked_out);
    if fresh {
        assert(s[0] == GodotProjectSignal::ChangesIngested);
    }
    if checked_out {
        assert(s[s.len() - 1] == GodotProjectSignal::CheckedOutBranch);
    }
}

/// Changes on disk are checked in without asking only in a project that was opened by itself and
/// found locally; without changes there is nothing to do.
pub proof fn strange_changes_are_asked_about(mode: CreateMode, found_locally: bool, changed: bool)
    ensures
        after_start(mode, found_locally, changed) == StartNext::Finalize <==> !changed,
        after_start(mode, found_locally, changed) == StartNext::CheckIn <==> changed
            && found_locally && mode == CreateMode::AutoLoadedProject,
{
}

} // verus!
