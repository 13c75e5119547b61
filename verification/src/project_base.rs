//! A project in the editor: how it is started and loaded, and what it tells the editor.

use crate::auth::handshake::{is_plain_name, parse_url, tcp_address, url_parts};
use crate::config::{
    section_of, setting_changes_one_value, with_value, written, BackstitchConfig, Sections, SECTION,
};
use crate::history::{document_id, document_id_text, ChangeHash, DocumentId, HistoryRef};
use crate::ordered::value_at;
use crate::text::{contains_text, decimal, has_text, joined, occurs_at, same_text};
use crate::utils::{ChangeType, ChangedFile, CommitInfo};
use vstd::prelude::*;
use vstd::string::*;

verus! {

/// How a project comes to be opened.
#[derive(Clone, Copy, Debug, PartialEq, Eq, Structural)]
pub enum ProjectCreateMode {
    New,
    ManuallyLoaded,
    AutoLoaded,
}

/// Why documents could not be loaded.
#[derive(Clone, Copy, Debug, PartialEq, Eq, Structural)]
pub enum ProjectLoadError {
    Unknown,
    MetadataIdNotFound,
    BranchDocNotFound,
    BinaryDocNotFound,
}

/// Why a project could not be started.
#[derive(Debug)]
pub enum ProjectStartError {
    Unknown,
    DocumentIdNotFound,
    MainBranchNotFound,
    ServerUrlInvalid(String),
    DocumentIdInvalid(String),
}

/// How a project was found.
#[derive(Clone, Copy, Debug, PartialEq, Eq, Structural)]
pub struct LoadSuccess {
    pub found_locally: bool,
    pub found_on_provided_branch: bool,
}

/// What a try to load goes for.
#[derive(Clone, Copy, Debug, PartialEq, Eq, Structural)]
pub enum LoadAttempt {
    /// The given branch, without a connection.
    Local,
    /// The main branch, without a connection.
    LocalMain,
    /// The given branch, with a connection.
    Remote,
    /// The main branch, with a connection.
    RemoteMain,
}

/// What to do next to load a project.
#[derive(Debug)]
pub enum LoadStep {
    Load(LoadAttempt),
    /// Connect to the server, and try again.
    Connect,
    Finish(Result<LoadSuccess, ProjectStartError>),
}

impl LoadAttempt {
    /// Whether the given branch is tried, and not the main branch.
    pub fn on_provided_branch(&self) -> (r: bool)
        ensures
            r == (*self == LoadAttempt::Local || *self == LoadAttempt::Remote),
    {
        match self {
            LoadAttempt::Local | LoadAttempt::Remote => true,
            _ => false,
        }
    }
}

/// How a project was found by an attempt.
pub open spec fn found_by(attempt: LoadAttempt) -> LoadSuccess {
    LoadSuccess {
        found_locally: attempt == LoadAttempt::Local || attempt == LoadAttempt::LocalMain,
        found_on_provided_branch: attempt == LoadAttempt::Local || attempt == LoadAttempt::Remote,
    }
}

/// What follows on an attempt to load. Missing documents send the first attempt to the server,
/// where there is one; without a server a missing branch or missing binaries send it to the main
/// branch. With the server a missing branch sends it to the main branch, and missing binaries are
/// no obstacle. On the main branch missing binaries are no obstacle either.
pub open spec fn next_step(
    attempt: LoadAttempt,
    has_server: bool,
    result: Result<(), ProjectLoadError>,
) -> LoadStep {
    match result {
        Ok(_) => LoadStep::Finish(Ok(found_by(attempt))),
        Err(ProjectLoadError::Unknown) => LoadStep::Finish(Err(ProjectStartError::Unknown)),
        Err(ProjectLoadError::MetadataIdNotFound) => if attempt == LoadAttempt::Local
            && has_server {
            LoadStep::Connect
        } else {
            LoadStep::Finish(Err(ProjectStartError::DocumentIdNotFound))
        },
        Err(ProjectLoadError::BranchDocNotFound) => match attempt {
            LoadAttempt::Local => if has_server {
                LoadStep::Connect
            } else {
                LoadStep::Load(LoadAttempt::LocalMain)
            },
            LoadAttempt::Remote => LoadStep::Load(LoadAttempt::RemoteMain),
            _ => LoadStep::Finish(Err(ProjectStartError::MainBranchNotFound)),
        },
        Err(ProjectLoadError::BinaryDocNotFound) => match attempt {
            LoadAttempt::Local => if has_server {
                LoadStep::Connect
            } else {
                LoadStep::Load(LoadAttempt::LocalMain)
            },
            _ => LoadStep::Finish(Ok(found_by(attempt))),
        },
    }
}

fn success(attempt: LoadAttempt) -> (r: LoadSuccess)
    ensures
        r == found_by(attempt),
{
    LoadSuccess {
        found_locally: attempt == LoadAttempt::Local || attempt == LoadAttempt::LocalMain,
        found_on_provided_branch: attempt == LoadAttempt::Local || attempt == LoadAttempt::Remote,
    }
}

impl Project {
    /// What follows on an attempt to load a project. The first attempt is [`LoadAttempt::Local`].
    pub fn try_and_retry_load(
        attempt: LoadAttempt,
        has_server: bool,
        result: Result<(), ProjectLoadError>,
    ) -> (r: LoadStep)
        ensures
            r == next_step(attempt, has_server, result),
    {
        let error = match result {
            Ok(_) => {
                return LoadStep::Finish(Ok(success(attempt)));
            },
            Err(error) => error,
        };
        match attempt {
            LoadAttempt::Local => match error {
                ProjectLoadError::Unknown => LoadStep::Finish(Err(ProjectStartError::Unknown)),
                ProjectLoadError::MetadataIdNotFound => if has_server {
                    LoadStep::Connect
                } else {
                    LoadStep::Finish(Err(ProjectStartError::DocumentIdNotFound))
                },
                ProjectLoadError::BranchDocNotFound | ProjectLoadError::BinaryDocNotFound => {
                    if has_server {
                        LoadStep::Connect
                    } else {
                        LoadStep::Load(LoadAttempt::LocalMain)
                    }
                },
            },
            LoadAttempt::Remote => match error {
                ProjectLoadError::Unknown => LoadStep::Finish(Err(ProjectStartError::Unknown)),
                ProjectLoadError::MetadataIdNotFound => LoadStep::Finish(
                    Err(ProjectStartError::DocumentIdNotFound),
                ),
                ProjectLoadError::BranchDocNotFound => LoadStep::Load(LoadAttempt::RemoteMain),
                ProjectLoadError::BinaryDocNotFound => LoadStep::Finish(Ok(success(attempt))),
            },
            LoadAttempt::LocalMain | LoadAttempt::RemoteMain => match error {
                ProjectLoadError::Unknown => LoadStep::Finish(Err(ProjectStartError::Unknown)),
                ProjectLoadError::MetadataIdNotFound => LoadStep::Finish(
                    Err(ProjectStartError::DocumentIdNotFound),
                ),
                ProjectLoadError::BranchDocNotFound => LoadStep::Finish(
                    Err(ProjectStartError::MainBranchNotFound),
                ),
                ProjectLoadError::BinaryDocNotFound => LoadStep::Finish(Ok(success(attempt))),
            },
        }
    }

    /// What follows on a try to connect.
    pub fn after_connect(connected: bool) -> (r: LoadStep)
        ensures
            r == step_after_connect(connected),
    {
        if connected {
            LoadStep::Load(LoadAttempt::Remote)
        } else {
            LoadStep::Finish(Err(ProjectStartError::Unknown))
        }
    }
}

/// What follows on a try to connect.
pub open spec fn step_after_connect(connected: bool) -> LoadStep {
    if connected {
        LoadStep::Load(LoadAttempt::Remote)
    } else {
        LoadStep::Finish(Err(ProjectStartError::Unknown))
    }
}

/// What the driver would answer to each attempt to load, and to a try to connect.
pub struct LoadAnswers {
    pub local: Result<(), ProjectLoadError>,
    pub local_main: Result<(), ProjectLoadError>,
    pub connected: bool,
    pub remote: Result<(), ProjectLoadError>,
    pub remote_main: Result<(), ProjectLoadError>,
}

/// What the driver answers to an attempt.
pub open spec fn answer_to(answers: LoadAnswers, attempt: LoadAttempt) -> Result<
    (),
    ProjectLoadError,
> {
    match attempt {
        LoadAttempt::Local => answers.local,
        LoadAttempt::LocalMain => answers.local_main,
        LoadAttempt::Remote => answers.remote,
        LoadAttempt::RemoteMain => answers.remote_main,
    }
}

/// How many steps a load can still take.
pub open spec fn steps_left(step: LoadStep) -> nat {
    match step {
        LoadStep::Finish(_) => 0,
        LoadStep::Load(LoadAttempt::LocalMain) => 1,
        LoadStep::Load(LoadAttempt::RemoteMain) => 1,
        LoadStep::Load(LoadAttempt::Remote) => 2,
        LoadStep::Connect => 3,
        LoadStep::Load(LoadAttempt::Local) => 4,
    }
}

/// What a load comes to in the end.
pub open spec fn outcome(step: LoadStep, has_server: bool, answers: LoadAnswers) -> Result<
    LoadSuccess,
    ProjectStartError,
>
    decreases steps_left(step),
{
    match step {
        LoadStep::Finish(result) => result,
        LoadStep::Connect => outcome(step_after_connect(answers.connected), has_server, answers),
        LoadStep::Load(attempt) => {
            let next = next_step(attempt, has_server, answer_to(answers, attempt));
            if steps_left(next) < steps_left(step) {
                outcome(next, has_server, answers)
            } else {
                Err(ProjectStartError::Unknown)
            }
        },
    }
}

/// A load always comes to an end: every step leaves fewer to go.
pub proof fn load_ends(
    attempt: LoadAttempt,
    has_server: bool,
    result: Result<(), ProjectLoadError>,
    connected: bool,
)
    ensures
        steps_left(next_step(attempt, has_server, result)) < steps_left(LoadStep::Load(attempt)),
        steps_left(step_after_connect(connected)) < steps_left(LoadStep::Connect),
{
}

/// Without a server nothing is ever connected to, and the remote attempts are never made.
pub proof fn no_server_no_connection(attempt: LoadAttempt, result: Result<(), ProjectLoadError>)
    requires
        attempt == LoadAttempt::Local || attempt == LoadAttempt::LocalMain,
    ensures
        !(next_step(attempt, false, result) is Connect),
        next_step(attempt, false, result) matches LoadStep::Load(a) ==> a == LoadAttempt::LocalMain,
{
}

/// How a load comes out: found locally it is done. Without a server a missing metadata document
/// ends it, and else the main branch is tried, where missing binaries are no obstacle. With a
/// server it is tried again there, and then on the main branch if the branch is missing there too.
pub proof fn load_outcome(has_server: bool, answers: LoadAnswers)
    ensures
        answers.local is Ok ==> outcome(
            LoadStep::Load(LoadAttempt::Local),
            has_server,
            answers,
        ) == Ok::<_, ProjectStartError>(found_by(LoadAttempt::Local)),
        !has_server && answers.local == Err::<(), _>(ProjectLoadError::MetadataIdNotFound)
            ==> outcome(LoadStep::Load(LoadAttempt::Local), has_server, answers) == Err::<
            LoadSuccess,
            _,
        >(ProjectStartError::DocumentIdNotFound),
        !has_server && (answers.local == Err::<(), _>(ProjectLoadError::BranchDocNotFound)
            || answers.local == Err::<(), _>(ProjectLoadError::BinaryDocNotFound)) && (
        answers.local_main is Ok || answers.local_main == Err::<(), _>(
            ProjectLoadError::BinaryDocNotFound,
        )) ==> outcome(LoadStep::Load(LoadAttempt::Local), has_server, answers) == Ok::<
            _,
            ProjectStartError,
        >(found_by(LoadAttempt::LocalMain)),
        has_server && answers.local is Err && answers.local != Err::<(), _>(
            ProjectLoadError::Unknown,
        ) && answers.connected && (answers.remote is Ok || answers.remote == Err::<(), _>(
            ProjectLoadError::BinaryDocNotFound,
        )) ==> outcome(LoadStep::Load(LoadAttempt::Local), has_server, answers) == Ok::<
            _,
            ProjectStartError,
        >(found_by(LoadAttempt::Remote)),
        has_server && answers.local is Err && answers.local != Err::<(), _>(
            ProjectLoadError::Unknown,
        ) && answers.connected && answers.remote == Err::<(), _>(
            ProjectLoadError::BranchDocNotFound,
        ) && answers.remote_main is Ok ==> outcome(
            LoadStep::Load(LoadAttempt::Local),
            has_server,
            answers,
        ) == Ok::<_, ProjectStartError>(found_by(LoadAttempt::RemoteMain)),
{
    reveal_with_fuel(outcome, 6);
}

/// The text under a key of a configuration, empty where there is none.
pub open spec fn config_text(s: Sections, key: Seq<char>) -> Seq<char> {
    match value_at(section_of(s, SECTION@), key) {
        Some(v) => v,
        None => ""@,
    }
}

/// The server's URL as it is tried: with a scheme.
pub open spec fn with_scheme(configured: Seq<char>) -> Seq<char> {
    if contains_text(configured, "://"@) {
        configured
    } else {
        "tcp://"@ + configured
    }
}

/// The text is the URL of a server, with one of the schemes that servers have.
pub open spec fn is_server_url(url: Seq<char>) -> bool {
    url_parts(url) matches Some(parts) && (parts.scheme == "tcp"@ || parts.scheme == "ws"@
        || parts.scheme == "wss"@)
}

/// The server that is used where none is configured: the one for testing.
pub const DEFAULT_SERVER: &'static str = "alpha.backstitch.dev:8085";

/// The server that is used: the one that is configured, else the one for testing.
pub open spec fn server_or_default(configured: Seq<char>) -> Seq<char> {
    if configured.len() == 0 {
        DEFAULT_SERVER@
    } else {
        configured
    }
}

/// The URL of the server for testing is made of a plain host name and a port.
proof fn lemma_default_server()
    ensures
        with_scheme(DEFAULT_SERVER@) == tcp_address("alpha.backstitch.dev"@, 8085),
        is_plain_name("alpha.backstitch.dev"@),
{
    reveal_strlit("alpha.backstitch.dev:8085");
    reveal_strlit("alpha.backstitch.dev");
    reveal_strlit("tcp://");
    reveal_strlit("://");
    reveal_strlit(":");
    reveal_with_fuel(decimal, 5);
    assert(decimal(8085) =~= seq!['8', '0', '8', '5']);
    assert forall|i: int| !occurs_at(DEFAULT_SERVER@, "://"@, i) by {
        if occurs_at(DEFAULT_SERVER@, "://"@, i) {
            assert(DEFAULT_SERVER@.subrange(i, i + 3)[1] == '/');
        }
    }
    assert("tcp://"@ + DEFAULT_SERVER@ =~= tcp_address("alpha.backstitch.dev"@, 8085));
}

impl Project {
    /// The URL of the server that is configured, or of the server for testing where none is.
    pub fn acquire_server_url(server_url: String) -> (r: Result<Option<String>, ProjectStartError>)
        ensures
            server_url@.len() == 0 ==> (r matches Ok(Some(u)) && u@ == url_parts(
                with_scheme(DEFAULT_SERVER@),
            )->0.text && u@ == tcp_address("alpha.backstitch.dev"@, 8085)),
            server_url@.len() > 0 && is_server_url(with_scheme(server_url@)) ==> (r matches Ok(Some(u))
                && u@ == url_parts(with_scheme(server_url@))->0.text),
            server_url@.len() > 0 && !is_server_url(with_scheme(server_url@)) ==> (r matches Err(
                ProjectStartError::ServerUrlInvalid(u),
            ) && u@ == with_scheme(server_url@)),
            r is Ok <==> is_server_url(with_scheme(server_or_default(server_url@))),
    {
        let server_url = if server_url.as_str().unicode_len() == 0 {
            DEFAULT_SERVER.to_owned()
        } else {
            server_url
        };
        proof {
            lemma_default_server();
        }
        let url = if has_text(server_url.as_str(), "://") {
            server_url
        } else {
            joined("tcp://", server_url.as_str())
        };
        if let Some(parsed) = parse_url(url.as_str()) {
            let known = same_text(parsed.scheme.as_str(), "tcp") || same_text(
                parsed.scheme.as_str(),
                "ws",
            ) || same_text(parsed.scheme.as_str(), "wss");
            if known {
                return Ok(Some(parsed.text));
            }
        }
        Err(ProjectStartError::ServerUrlInvalid(url))
    }
}

/// How a project is to be started.
#[derive(Debug)]
pub struct StartPlan {
    pub server_url: Option<String>,
    /// The document of the project; none for a new project.
    pub metadata_id: Option<DocumentId>,
    /// The branch that was checked out last.
    pub saved_branch: Option<DocumentId>,
    pub username: String,
}

/// The id that a text writes out.
pub open spec fn id_view(id: Option<DocumentId>) -> Option<Seq<u8>> {
    match id {
        Some(i) => Some(i@),
        None => None,
    }
}

/// The result says how a project is to be started, from the configuration. A server URL that makes
/// no sense ends it, and so does, unless the project is new, the id of a document that is none. The
/// id of a branch that is none is passed over.
pub open spec fn is_start(
    mode: ProjectCreateMode,
    config: BackstitchConfig,
    r: Result<StartPlan, ProjectStartError>,
) -> bool {
    let s = config.project_sections();
    let url = server_or_default(config_text(s, "server_url"@));
    let id = config_text(s, "project_doc_id"@);
    let branch = config_text(s, "checked_out_branch_doc_id"@);
    let is_new = mode == ProjectCreateMode::New;
    if !is_server_url(with_scheme(url)) {
        (r matches Err(ProjectStartError::ServerUrlInvalid(u)) && u@ == with_scheme(url))
    } else if !is_new && document_id(id) is None {
        (r matches Err(ProjectStartError::DocumentIdInvalid(i)) && i@ == id)
    } else {
        match r {
            Err(_) => false,
            Ok(plan) => {
                &&& plan.username@ == config_text(config.user_sections(), "user_name"@)
                &&& plan.server_url is Some && plan.server_url->0@ == url_parts(
                    with_scheme(url),
                )->0.text
                &&& id_view(plan.metadata_id) == if is_new {
                    None
                } else {
                    document_id(id)
                }
                &&& id_view(plan.saved_branch) == if is_new || branch.len() == 0 {
                    None
                } else {
                    document_id(branch)
                }
            },
        }
    }
}

impl Project {
    /// How a project is to be started, from the configuration.
    pub fn plan_start(mode: ProjectCreateMode, config: &BackstitchConfig) -> (r: Result<
        StartPlan,
        ProjectStartError,
    >)
        ensures
            is_start(mode, *config, r),
    {
        let configured = config.get_project_value("server_url", "");
        let server_url = match Self::acquire_server_url(configured) {
            Ok(url) => url,
            Err(e) => {
                return Err(e);
            },
        };
        let metadata_id = match mode {
            ProjectCreateMode::New => None,
            _ => {
                let id = config.get_project_value("project_doc_id", "");
                match DocumentId::from_text(id.as_str()) {
                    Some(id) => Some(id),
                    None => {
                        return Err(ProjectStartError::DocumentIdInvalid(id));
                    },
                }
            },
        };
        let saved_branch = match mode {
            ProjectCreateMode::New => None,
            _ => {
                let branch = config.get_project_value("checked_out_branch_doc_id", "");
                if branch.as_str().unicode_len() == 0 {
                    None
                } else {
                    DocumentId::from_text(branch.as_str())
                }
            },
        };
        let username = config.get_user_value("user_name", "");
        Ok(StartPlan { server_url, metadata_id, saved_branch, username })
    }
}

/// What follows once a project has been loaded.
#[derive(Clone, Copy, Debug, PartialEq, Eq, Structural)]
pub enum StartNext {
    /// Nothing changed on disk: go on.
    Finalize,
    /// The changes on disk are checked in without asking.
    CheckIn,
    /// The user says what becomes of the changes on disk.
    AskUser,
}

/// What follows once a project has been loaded: changes on disk are checked in without asking only
/// where the project was opened by itself and found locally.
pub open spec fn next_of(mode: ProjectCreateMode, found_locally: bool, has_changes: bool) -> StartNext {
    if !has_changes {
        StartNext::Finalize
    } else if mode == ProjectCreateMode::AutoLoaded && found_locally {
        StartNext::CheckIn
    } else {
        StartNext::AskUser
    }
}

/// What the editor is told of a project.
#[derive(Clone, Copy, Debug, PartialEq, Eq, Structural)]
pub enum GodotProjectSignal {
    ServerStatusChanged,
    ChangesIngested,
}

/// The last commit with the given hash.
pub open spec fn last_commit(changes: Seq<CommitInfo>, hash: ChangeHash) -> Option<CommitInfo>
    decreases changes.len(),
{
    if changes.len() == 0 {
        None
    } else if changes.last().hash == hash {
        Some(changes.last())
    } else {
        last_commit(changes.drop_last(), hash)
    }
}

/// Where the driver of a project stands.
pub struct Project {
    pub running: bool,
    pub local_changes: Vec<ChangedFile>,
    pub server_url: Option<String>,
    /// The branch to check out first, before the start is finished.
    pub initial_branch: Option<DocumentId>,
    /// The hashes of the commits, once they were read.
    pub history: Option<Vec<ChangeHash>>,
    pub changes: Vec<CommitInfo>,
}

/// The paths and changes of changed files.
pub open spec fn changed_views(files: Seq<ChangedFile>) -> Seq<(Seq<char>, ChangeType)> {
    files.map_values(|f: ChangedFile| (f.path@, f.change_type))
}

impl Project {
    pub fn new() -> (r: Project)
        ensures
            !r.running,
            r.local_changes.len() == 0,
            r.server_url is None,
            r.initial_branch is None,
            r.history is None,
            r.changes.len() == 0,
    {
        Project {
            running: false,
            local_changes: Vec::new(),
            server_url: None,
            initial_branch: None,
            history: None,
            changes: Vec::new(),
        }
    }

    /// How the project is to be started; nothing where it is running already.
    pub fn begin_start(&self, mode: ProjectCreateMode, config: &BackstitchConfig) -> (r: Result<
        Option<StartPlan>,
        ProjectStartError,
    >)
        ensures
            self.running ==> r == Ok::<_, ProjectStartError>(None::<StartPlan>),
            !self.running ==> (match r {
                Ok(Some(plan)) => is_start(mode, *config, Ok(plan)),
                Ok(None) => false,
                Err(e) => is_start(mode, *config, Err(e)),
            }),
    {
        if self.running {
            return Ok(None);
        }
        match Self::plan_start(mode, config) {
            Ok(plan) => Ok(Some(plan)),
            Err(e) => Err(e),
        }
    }

    /// Takes note of a project that was created or loaded, and says what follows. The branch that
    /// was checked out last is kept only where the project was found on it.
    pub fn start(
        &mut self,
        mode: ProjectCreateMode,
        plan: StartPlan,
        load: LoadSuccess,
        local_changes: Vec<(String, ChangeType)>,
    ) -> (r: StartNext)
        ensures
            final(self).running,
            final(self).server_url == plan.server_url,
            final(self).initial_branch == if load.found_on_provided_branch {
                plan.saved_branch
            } else {
                None
            },
            changed_views(final(self).local_changes@) == local_changes@.map_values(
                |c: (String, ChangeType)| (c.0@, c.1),
            ),
            final(self).history == old(self).history,
            final(self).changes == old(self).changes,
            r == next_of(mode, load.found_locally, local_changes.len() > 0),
    {
        self.server_url = plan.server_url;
        self.initial_branch = if load.found_on_provided_branch {
            plan.saved_branch
        } else {
            None
        };
        let mut files: Vec<ChangedFile> = Vec::new();
        let mut i: usize = 0;
        while i < local_changes.len()
            invariant
                i <= local_changes.len(),
                files.len() == i,
                forall|j: int|
                    0 <= j < i ==> (#[trigger] files@[j]).path@ == local_changes@[j].0@
                        && files@[j].change_type == local_changes@[j].1,
            decreases local_changes.len() - i,
        {
            files.push(
                ChangedFile {
                    change_type: local_changes[i].1,
                    path: local_changes[i].0.clone(),
                },
            );
            i = i + 1;
        }
        assert(changed_views(files@) == local_changes@.map_values(
            |c: (String, ChangeType)| (c.0@, c.1),
        ));
        let has_changes = files.len() > 0;
        self.local_changes = files;
        self.running = true;
        if has_changes {
            if mode == ProjectCreateMode::AutoLoaded && load.found_locally {
                StartNext::CheckIn
            } else {
                StartNext::AskUser
            }
        } else {
            StartNext::Finalize
        }
    }

    /// The branch to check out first, which is then forgotten.
    pub fn take_initial_branch(&mut self) -> (r: Option<DocumentId>)
        ensures
            r == old(self).initial_branch,
            final(self).initial_branch is None,
            final(self).running == old(self).running,
            final(self).server_url == old(self).server_url,
            final(self).local_changes == old(self).local_changes,
            final(self).history == old(self).history,
            final(self).changes == old(self).changes,
    {
        let branch = self.initial_branch;
        self.initial_branch = None;
        branch
    }

    /// Finishes the start with the document of the project: the changes on disk are dealt with,
    /// and the document's id is noted in the configuration, whose text is given to be saved.
    pub fn finalize_start(&mut self, config: &mut BackstitchConfig, metadata: Option<DocumentId>) -> (r:
        Result<String, ProjectStartError>)
        ensures
            !old(self).running || metadata is None ==> r == Err::<String, _>(
                ProjectStartError::Unknown,
            ) && *final(self) == *old(self) && final(config).project_sections() == old(config).project_sections(),
            old(self).running && metadata is Some ==> r is Ok && r->Ok_0@ == written(
                final(config).project_sections(),
            ) && final(config).project_sections() == with_value(
                old(config).project_sections(),
                SECTION@,
                "project_doc_id"@,
                document_id_text(metadata->0@),
            ) && final(self).local_changes.len() == 0,
            final(self).running == old(self).running,
            final(self).server_url == old(self).server_url,
            final(self).initial_branch == old(self).initial_branch,
            final(self).history == old(self).history,
            final(self).changes == old(self).changes,
            final(config).user_sections() == old(config).user_sections(),
    {
        let metadata = match metadata {
            Some(id) => id,
            None => {
                return Err(ProjectStartError::Unknown);
            },
        };
        if !self.running {
            return Err(ProjectStartError::Unknown);
        }
        self.local_changes = Vec::new();
        let id = metadata.to_text();
        Ok(config.set_project_value("project_doc_id", id.as_str()))
    }

    /// Stops the project.
    pub fn stop(&mut self)
        ensures
            !final(self).running,
            final(self).server_url is None,
            final(self).local_changes.len() == 0,
            final(self).history is None,
            final(self).initial_branch == old(self).initial_branch,
            final(self).changes == old(self).changes,
    {
        self.running = false;
        self.server_url = None;
        self.local_changes = Vec::new();
        self.history = None;
    }

    /// Takes over the commits.
    pub fn ingest_changes(&mut self, changes: Vec<CommitInfo>)
        ensures
            final(self).history is Some,
            final(self).history->0@ == changes@.map_values(|c: CommitInfo| c.hash),
            final(self).changes == changes,
            final(self).running == old(self).running,
            final(self).server_url == old(self).server_url,
            final(self).local_changes == old(self).local_changes,
            final(self).initial_branch == old(self).initial_branch,
    {
        let mut history: Vec<ChangeHash> = Vec::new();
        let mut i: usize = 0;
        while i < changes.len()
            invariant
                i <= changes.len(),
                history.len() == i,
                forall|j: int| 0 <= j < i ==> #[trigger] history@[j] == changes@[j].hash,
            decreases changes.len() - i,
        {
            history.push(changes[i].hash);
            i = i + 1;
        }
        assert(history@ == changes@.map_values(|c: CommitInfo| c.hash));
        self.history = Some(history);
        self.changes = changes;
    }

    /// The commit with a hash.
    pub fn get_change(&self, hash: &ChangeHash) -> (r: Option<&CommitInfo>)
        ensures
            r == match last_commit(self.changes@, *hash) {
                Some(c) => Some(&c),
                None => None::<&CommitInfo>,
            },
    {
        let n = self.changes.len();
        let mut i: usize = n;
        assert(self.changes@.take(n as int) == self.changes@);
        while i > 0
            invariant
                i <= n,
                n == self.changes.len(),
                last_commit(self.changes@, *hash) == last_commit(
                    self.changes@.take(i as int),
                    *hash,
                ),
            decreases i,
        {
            assert(self.changes@.take(i as int).last() == self.changes@[i - 1]);
            assert(self.changes@.take(i as int).drop_last() == self.changes@.take(i - 1));
            if self.changes[i - 1].hash.same(hash) {
                return Some(&self.changes[i - 1]);
            }
            i = i - 1;
        }
        None
    }

    /// One turn of the editor: takes over the commits where there are new ones or none were read
    /// yet, and says what the editor has to be told. A project that is not running says nothing.
    pub fn process(
        &mut self,
        changes: Vec<CommitInfo>,
        changes_changed: bool,
        connection_changed: bool,
    ) -> (r: Vec<GodotProjectSignal>)
        ensures
            !old(self).running ==> r.len() == 0 && *final(self) == *old(self),
            old(self).running ==> r@ == signals_of(
                old(self).history is None || changes_changed,
                connection_changed,
            ),
            old(self).running && (old(self).history is None || changes_changed) ==> final(self).history is Some && final(self).history->0@ == changes@.map_values(
                |c: CommitInfo| c.hash,
            ) && final(self).changes == changes,
            old(self).running && !(old(self).history is None || changes_changed) ==> *final(self)
                == *old(self),
            final(self).running == old(self).running,
            final(self).server_url == old(self).server_url,
            final(self).local_changes == old(self).local_changes,
            final(self).initial_branch == old(self).initial_branch,
    {
        let mut signals: Vec<GodotProjectSignal> = Vec::new();
        if !self.running {
            return signals;
        }
        if self.history.is_none() || changes_changed {
            signals.push(GodotProjectSignal::ChangesIngested);
            self.ingest_changes(changes);
        }
        if connection_changed {
            signals.push(GodotProjectSignal::ServerStatusChanged);
        }
        proof {
            let fresh = old(self).history is None || changes_changed;
            assert(signals@ =~= signals_of(fresh, connection_changed));
        }
        signals
    }
}

/// What the editor is told.
pub open spec fn signals_of(fresh: bool, connection_changed: bool) -> Seq<GodotProjectSignal> {
    let first = if fresh {
        seq![GodotProjectSignal::ChangesIngested]
    } else {
        Seq::empty()
    };
    let second = if connection_changed {
        seq![GodotProjectSignal::ServerStatusChanged]
    } else {
        Seq::empty()
    };
    first + second
}

/// What is noted of the checked-out branch: its id, or nothing where no branch is checked out or it
/// is the main branch.
pub open spec fn noted_branch(checked_out: Option<&HistoryRef>, on_main: bool) -> Seq<char> {
    if checked_out is None || on_main {
        ""@
    } else {
        document_id_text(checked_out->0.branch@)
    }
}

impl Project {
    /// Notes the checked-out branch in the configuration: its id, or nothing where no branch is
    /// checked out or it is the main branch. The configuration's text is given to be saved.
    pub fn note_checked_out(
        config: &mut BackstitchConfig,
        checked_out: Option<&HistoryRef>,
        on_main: bool,
    ) -> (text: String)
        ensures
            final(config).project_sections() == with_value(
                old(config).project_sections(),
                SECTION@,
                "checked_out_branch_doc_id"@,
                noted_branch(checked_out, on_main),
            ),
            final(config).user_sections() == old(config).user_sections(),
            text@ == written(final(config).project_sections()),
    {
        let id = match checked_out {
            Some(r) if !on_main => r.branch.to_text(),
            _ => "".to_owned(),
        };
        config.set_project_value("checked_out_branch_doc_id", id.as_str())
    }

    /// Whether the editor may be changed now.
    pub fn safe_to_update_godot(scanning: bool, importing: bool, unsaved_files: bool) -> (r: bool)
        ensures
            r == (!scanning && !importing && !unsaved_files),
    {
        !(scanning || importing || unsaved_files)
    }
}

/// What was noted of the checked-out branch is what the next start finds, the other settings stay,
/// and nothing is noted for the main branch.
pub proof fn noted_branch_is_found(
    s: Sections,
    checked_out: Option<&HistoryRef>,
    on_main: bool,
    other: Seq<char>,
)
    requires
        other != "checked_out_branch_doc_id"@,
    ensures
        ({
            let now = with_value(
                s,
                SECTION@,
                "checked_out_branch_doc_id"@,
                noted_branch(checked_out, on_main),
            );
            &&& config_text(now, "checked_out_branch_doc_id"@) == noted_branch(
                checked_out,
                on_main,
            )
            &&& config_text(now, other) == config_text(s, other)
        }),
        on_main ==> noted_branch(checked_out, on_main) == ""@,
{
    setting_changes_one_value(
        s,
        SECTION@,
        "checked_out_branch_doc_id"@,
        noted_branch(checked_out, on_main),
        SECTION@,
        other,
    );
}

/// Diffs that were computed before, by the points in history that they are between.
pub struct DiffCache<T> {
    entries: Vec<((HistoryRef, HistoryRef), T)>,
}

/// The diff between two points in history.
pub open spec fn cached<T>(
    entries: Seq<((HistoryRef, HistoryRef), T)>,
    before: HistoryRef,
    after: HistoryRef,
) -> Option<T>
    decreases entries.len(),
{
    if entries.len() == 0 {
        None
    } else {
        let ((b, a), v) = entries[0];
        if b.is_same(before) && a.is_same(after) {
            Some(v)
        } else {
            cached(entries.skip(1), before, after)
        }
    }
}

impl<T> View for DiffCache<T> {
    type V = Seq<((HistoryRef, HistoryRef), T)>;

    closed spec fn view(&self) -> Seq<((HistoryRef, HistoryRef), T)> {
        self.entries@
    }
}

impl<T> DiffCache<T> {
    pub fn new() -> (r: Self)
        ensures
            r@ == Seq::<((HistoryRef, HistoryRef), T)>::empty(),
    {
        DiffCache { entries: Vec::new() }
    }

    /// The diff that was computed before.
    pub fn get_cached_diff(&self, before: &HistoryRef, after: &HistoryRef) -> (r: Option<&T>)
        ensures
            r == match cached(self@, *before, *after) {
                Some(v) => Some(&v),
                None => None::<&T>,
            },
    {
        let mut i: usize = 0;
        assert(self.entries@.skip(0) == self.entries@);
        while i < self.entries.len()
            invariant
                i <= self.entries.len(),
                self@ == self.entries@,
                cached(self@, *before, *after) == cached(
                    self.entries@.skip(i as int),
                    *before,
                    *after,
                ),
            decreases self.entries.len() - i,
        {
            let key = &self.entries[i].0;
            if key.0.same(before) && key.1.same(after) {
                return Some(&self.entries[i].1);
            }
            assert(self.entries@.skip(i as int).skip(1) == self.entries@.skip(i + 1));
            i = i + 1;
        }
        None
    }

    /// Keeps a diff that was computed now.
    pub fn insert(&mut self, before: HistoryRef, after: HistoryRef, diff: T)
        ensures
            final(self)@ == old(self)@.push(((before, after), diff)),
    {
        self.entries.push(((before, after), diff));
    }

    /// Forgets all diffs.
    pub fn clear_diff_cache(&mut self)
        ensures
            final(self)@ == Seq::<((HistoryRef, HistoryRef), T)>::empty(),
    {
        self.entries = Vec::new();
    }
}

/// A diff that was kept is found again, and the diffs that were there stay.
pub proof fn kept_diff_is_found<T>(
    entries: Seq<((HistoryRef, HistoryRef), T)>,
    before: HistoryRef,
    after: HistoryRef,
    diff: T,
    b: HistoryRef,
    a: HistoryRef,
)
    ensures
        cached(entries, before, after) is None ==> cached(
            entries.push(((before, after), diff)),
            before,
            after,
        ) == Some(diff),
        cached(entries, b, a) is Some ==> cached(entries.push(((before, after), diff)), b, a)
            == cached(entries, b, a),
    decreases entries.len(),
{
    let now = entries.push(((before, after), diff));
    if entries.len() == 0 {
        assert(now[0] == ((before, after), diff));
    } else {
        kept_diff_is_found(entries.skip(1), before, after, diff, b, a);
        assert(now[0] == entries[0]);
        assert(now.skip(1) == entries.skip(1).push(((before, after), diff)));
    }
}

/// What each attempt finds: without a connection the project is found locally, and on the branch
/// that was asked for unless the main branch was tried in its place.
pub proof fn attempts_say_where_a_project_is()
    ensures
        found_by(LoadAttempt::Local) == (LoadSuccess {
            found_locally: true,
            found_on_provided_branch: true,
        }),
        found_by(LoadAttempt::LocalMain) == (LoadSuccess {
            found_locally: true,
            found_on_provided_branch: false,
        }),
        found_by(LoadAttempt::Remote) == (LoadSuccess {
            found_locally: false,
            found_on_provided_branch: true,
        }),
        found_by(LoadAttempt::RemoteMain) == (LoadSuccess {
            found_locally: false,
            found_on_provided_branch: false,
        }),
{
}

/// How a load fails: for a reason that is not known, for a document that is not found, or for a main
/// branch that is not found; the first two end it at once where there is no server left to ask.
pub proof fn how_a_load_fails(has_server: bool, answers: LoadAnswers)
    ensures
        ({
            let end = outcome(LoadStep::Load(LoadAttempt::Local), has_server, answers);
            let missing = answers.local == Err::<(), _>(ProjectLoadError::BranchDocNotFound)
                || answers.local == Err::<(), _>(ProjectLoadError::BinaryDocNotFound);
            let asks_server = has_server && (missing || answers.local == Err::<(), _>(
                ProjectLoadError::MetadataIdNotFound,
            ));
            let then_main = asks_server && answers.connected && answers.remote == Err::<(), _>(
                ProjectLoadError::BranchDocNotFound,
            );
            &&& answers.local == Err::<(), _>(ProjectLoadError::Unknown) ==> end == Err::<
                LoadSuccess,
                _,
            >(ProjectStartError::Unknown)
            &&& !has_server && missing && answers.local_main == Err::<(), _>(
                ProjectLoadError::Unknown,
            ) ==> end == Err::<LoadSuccess, _>(ProjectStartError::Unknown)
            &&& !has_server && missing && answers.local_main == Err::<(), _>(
                ProjectLoadError::MetadataIdNotFound,
            ) ==> end == Err::<LoadSuccess, _>(ProjectStartError::DocumentIdNotFound)
            &&& !has_server && missing && answers.local_main == Err::<(), _>(
                ProjectLoadError::BranchDocNotFound,
            ) ==> end == Err::<LoadSuccess, _>(ProjectStartError::MainBranchNotFound)
            &&& asks_server && !answers.connected ==> end == Err::<LoadSuccess, _>(
                ProjectStartError::Unknown,
            )
            &&& asks_server && answers.connected && answers.remote == Err::<(), _>(
                ProjectLoadError::Unknown,
            ) ==> end == Err::<LoadSuccess, _>(ProjectStartError::Unknown)
            &&& asks_server && answers.connected && answers.remote == Err::<(), _>(
                ProjectLoadError::MetadataIdNotFound,
            ) ==> end == Err::<LoadSuccess, _>(ProjectStartError::DocumentIdNotFound)
            &&& then_main && answers.remote_main == Err::<(), _>(
                ProjectLoadError::BinaryDocNotFound,
            ) ==> end == Ok::<_, ProjectStartError>(found_by(LoadAttempt::RemoteMain))
            &&& then_main && answers.remote_main == Err::<(), _>(
                ProjectLoadError::BranchDocNotFound,
            ) ==> end == Err::<LoadSuccess, _>(ProjectStartError::MainBranchNotFound)
            &&& then_main && answers.remote_main == Err::<(), _>(
                ProjectLoadError::MetadataIdNotFound,
            ) ==> end == Err::<LoadSuccess, _>(ProjectStartError::DocumentIdNotFound)
            &&& then_main && answers.remote_main == Err::<(), _>(ProjectLoadError::Unknown) ==> end
                == Err::<LoadSuccess, _>(ProjectStartError::Unknown)
        }),
{
    reveal_with_fuel(outcome, 6);
}

/// The server of a project: the configured one, which needs no scheme, or else the one for testing.
/// Only TCP and web sockets are spoken.
pub proof fn servers_are_reached_over_tcp_or_web_sockets(configured: Seq<char>)
    ensures
        configured.len() > 0 ==> server_or_default(configured) == configured,
        server_or_default(Seq::empty()) == "alpha.backstitch.dev:8085"@,
        contains_text(configured, "://"@) ==> with_scheme(configured) == configured,
        !contains_text(configured, "://"@) ==> with_scheme(configured) == "tcp://"@ + configured,
        is_server_url(configured) <==> url_parts(configured) is Some && (url_parts(
            configured,
        )->0.scheme == "tcp"@ || url_parts(configured)->0.scheme == "ws"@ || url_parts(
            configured,
        )->0.scheme == "wss"@),
{
}

/// A project is started exactly where its server has a URL that makes sense and, unless the project
/// is new, the id of its document is one. What it is started with is what the configuration says.
pub proof fn a_start_follows_the_configuration(
    mode: ProjectCreateMode,
    config: BackstitchConfig,
    r: Result<StartPlan, ProjectStartError>,
)
    requires
        is_start(mode, config, r),
    ensures
        ({
            let s = config.project_sections();
            let url = with_scheme(server_or_default(config_text(s, "server_url"@)));
            let id = config_text(s, "project_doc_id"@);
            let branch = config_text(s, "checked_out_branch_doc_id"@);
            &&& r is Ok <==> is_server_url(url) && (mode == ProjectCreateMode::New || document_id(
                id,
            ) is Some)
            &&& !is_server_url(url) ==> (r matches Err(ProjectStartError::ServerUrlInvalid(u)) && u@
                == url)
            &&& is_server_url(url) && r is Err ==> (r matches Err(
                ProjectStartError::DocumentIdInvalid(i),
            ) && i@ == id)
            &&& r matches Ok(plan) ==> {
                &&& plan.server_url matches Some(u) && u@ == url_parts(url)->0.text
                &&& plan.username@ == config_text(config.user_sections(), "user_name"@)
                &&& mode == ProjectCreateMode::New ==> plan.metadata_id is None
                    && plan.saved_branch is None
                &&& mode != ProjectCreateMode::New ==> id_view(plan.metadata_id) == document_id(id)
                    && plan.metadata_id is Some
                &&& mode != ProjectCreateMode::New && branch.len() > 0 ==> id_view(
                    plan.saved_branch,
                ) == document_id(branch)
                &&& branch.len() == 0 ==> plan.saved_branch is None
            }
        }),
{
}

/// A text of the configuration is what is noted under Backstitch's section, and empty where nothing
/// is.
pub proof fn settings_are_texts_of_the_section(s: Sections, key: Seq<char>, value: Seq<char>)
    ensures
        value_at(section_of(s, "backstitch"@), key) == Some(value) ==> config_text(s, key) == value,
        value_at(section_of(s, "backstitch"@), key) is None ==> config_text(s, key).len() == 0,
        config_text(with_value(s, "backstitch"@, key, value), key) == value,
{
    reveal_strlit("");
    setting_changes_one_value(s, SECTION@, key, value, SECTION@, key);
}

/// What becomes of changes on disk after a project was loaded: without any there is nothing to ask,
/// and the user is asked unless the project was opened by itself and found here.
pub proof fn changes_are_asked_about(
    mode: ProjectCreateMode,
    found_locally: bool,
    has_changes: bool,
)
    ensures
        next_of(mode, found_locally, has_changes) == StartNext::Finalize <==> !has_changes,
        next_of(mode, found_locally, has_changes) == StartNext::CheckIn <==> has_changes && mode
            == ProjectCreateMode::AutoLoaded && found_locally,
        next_of(mode, found_locally, has_changes) == StartNext::AskUser <==> has_changes && (mode
            != ProjectCreateMode::AutoLoaded || !found_locally),
{
}

/// The editor is told of new commits and of a changed connection, each once and only where there is
/// one, the commits first.
pub proof fn the_editor_is_told(fresh: bool, connection_changed: bool)
    ensures
        signals_of(fresh, connection_changed).contains(GodotProjectSignal::ChangesIngested)
            <==> fresh,
        signals_of(fresh, connection_changed).contains(GodotProjectSignal::ServerStatusChanged)
            <==> connection_changed,
        signals_of(fresh, connection_changed).no_duplicates(),
        fresh ==> signals_of(fresh, connection_changed)[0] == GodotProjectSignal::ChangesIngested,
{
    let all = signals_of(fresh, connection_changed);
    if fresh {
        assert(all[0] == GodotProjectSignal::ChangesIngested);
        if connection_changed {
            assert(all[1] == GodotProjectSignal::ServerStatusChanged);
        }
    } else if connection_changed {
        assert(all[0] == GodotProjectSignal::ServerStatusChanged);
    }
}

/// A commit is found by its hash; where several have the same hash, the last of them is.
pub proof fn commits_are_found_by_hash(changes: Seq<CommitInfo>, hash: ChangeHash)
    ensures
        last_commit(changes, hash) is None <==> forall|i: int|
            0 <= i < changes.len() ==> (#[trigger] changes[i]).hash != hash,
        forall|i: int|
            0 <= i < changes.len() && (#[trigger] changes[i]).hash == hash && (forall|j: int|
                i < j < changes.len() ==> (#[trigger] changes[j]).hash != hash) ==> last_commit(
                changes,
                hash,
            ) == Some(changes[i]),
    decreases changes.len(),
{
    if changes.len() > 0 {
        let n = changes.len() - 1;
        let rest = changes.drop_last();
        commits_are_found_by_hash(rest, hash);
        assert(changes[n] == changes.last());
        if changes.last().hash != hash {
            assert forall|i: int|
                0 <= i < changes.len() && (#[trigger] changes[i]).hash == hash && (forall|j: int|
                    i < j < changes.len() ==> (#[trigger] changes[j]).hash
                        != hash) implies last_commit(changes, hash) == Some(changes[i]) by {
                assert(rest[i] == changes[i]);
                assert forall|j: int| i < j < rest.len() implies (#[trigger] rest[j]).hash
                    != hash by {
                    assert(changes[j].hash != hash);
                }
            }
            if last_commit(changes, hash) is None {
                assert forall|i: int| 0 <= i < changes.len() implies (#[trigger] changes[i]).hash
                    != hash by {
                    if i < n {
                        assert(rest[i].hash != hash);
                    }
                }
            }
            if forall|i: int| 0 <= i < changes.len() ==> (#[trigger] changes[i]).hash != hash {
                assert forall|i: int| 0 <= i < rest.len() implies (#[trigger] rest[i]).hash
                    != hash by {
                    assert(changes[i].hash != hash);
                }
            }
        }
    }
}

/// The branch that is noted as checked out is the one that is, unless it is the main branch, which
/// needs no note.
pub proof fn the_checked_out_branch_is_noted(checked_out: &HistoryRef)
    ensures
        noted_branch(Some(checked_out), false) == document_id_text(checked_out.branch@),
        noted_branch(Some(checked_out), true).len() == 0,
        noted_branch(None, false).len() == 0,
{
    reveal_strlit("");
}

/// A diff is taken from those that were kept only where it was kept for both points in history.
pub proof fn only_kept_diffs_are_found<T>(
    entries: Seq<((HistoryRef, HistoryRef), T)>,
    before: HistoryRef,
    after: HistoryRef,
)
    ensures
        cached(entries, before, after) matches Some(diff) ==> exists|i: int|
            0 <= i < entries.len() && (#[trigger] entries[i]).1 == diff && (entries[i].0).0.is_same(
                before,
            ) && (entries[i].0).1.is_same(after),
    decreases entries.len(),
{
    if entries.len() > 0 {
        let rest = entries.skip(1);
        only_kept_diffs_are_found(rest, before, after);
        if let Some(diff) = cached(entries, before, after) {
            if (entries[0].0).0.is_same(before) && (entries[0].0).1.is_same(after) {
                assert(entries[0].1 == diff);
            } else {
                let i = choose|i: int|
                    0 <= i < rest.len() && (#[trigger] rest[i]).1 == diff && (rest[i].0).0.is_same(
                        before,
                    ) && (rest[i].0).1.is_same(after);
                assert(entries[i + 1] == rest[i]);
            }
        }
    }
}

} // verus!
