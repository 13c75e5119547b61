//! The servers that Backstitch knows, and how far it got with each.

use crate::auth::handshake::{AuthConfig, HandshakeError, OidcAuthConfig, ServerInfo};
use crate::auth::oidc::OidcAuthError;
use crate::auth::user::UserInfo;
use crate::ordered::{has_key, lemma_put, put, value_at};
use crate::table::Table;
use vstd::prelude::*;

verus! {

/// An error of a way to sign in.
pub trait AuthError {

}

impl AuthError for OidcAuthError {

}

impl ServerInfo {
    /// The same once more.
    pub fn duplicate(&self) -> (r: ServerInfo)
        ensures
            r == *self,
    {
        ServerInfo {
            url: self.url.clone(),
            sync_url: self.sync_url.clone(),
            auth: match &self.auth {
                AuthConfig::NoAuth => AuthConfig::NoAuth,
                AuthConfig::Oidc(c) => AuthConfig::Oidc(
                    OidcAuthConfig {
                        issuer: c.issuer.clone(),
                        redirect_port: c.redirect_port,
                        client_id: c.client_id.clone(),
                        resource: match &c.resource {
                            Some(r) => Some(r.clone()),
                            None => None,
                        },
                    },
                ),
            },
            webviewer_url: match &self.webviewer_url {
                Some(u) => Some(u.clone()),
                None => None,
            },
        }
    }
}

/// How far Backstitch got with a server. The provider is the name of the way to sign in.
#[derive(Debug)]
pub enum ServerState {
    Handshaking,
    HandshakeFailed { error: HandshakeError },
    AuthNeeded { server_info: ServerInfo, provider: String },
    Ready { server_info: ServerInfo, provider: String, user_info: UserInfo },
}

/// The status of a server, as it is told to others.
#[derive(Debug)]
pub enum ServerStatus {
    /// The server is not known.
    Untracked,
    Handshaking,
    HandshakeFailed,
    AuthNeeded { provider: String },
    Ready { provider: String, user_info: UserInfo, server_info: ServerInfo },
}

/// What the user has to do.
#[derive(Debug)]
pub enum AuthStatus {
    NeedsUserLogin(String),
    NeedsUserLogout(String),
    Idle,
}

/// Why something could not be done with a server.
#[derive(Debug)]
pub enum ServerError {
    UserCancelled,
    Handshake(HandshakeError),
    Auth(OidcAuthError),
    Deauth(OidcAuthError),
}

impl ServerError {
    /// The error as the user reads it.
    pub open spec fn text(self) -> Seq<char> {
        match self {
            ServerError::UserCancelled => "the user canceled the authentication request"@,
            ServerError::Handshake(e) => e.text(),
            ServerError::Auth(e) => e.text(),
            ServerError::Deauth(e) => e.text(),
        }
    }

    /// The error as the user reads it.
    pub fn to_text(&self) -> (r: String)
        ensures
            r@ == self.text(),
    {
        match self {
            ServerError::UserCancelled =>
                "the user canceled the authentication request".to_owned(),
            ServerError::Handshake(e) => e.to_text(),
            ServerError::Auth(e) => e.to_text(),
            ServerError::Deauth(e) => e.to_text(),
        }
    }
}

/// A change that is told to others.
#[derive(Debug)]
pub struct StatusChange {
    pub url: String,
    pub status: ServerStatus,
}

/// The status that a state is told as.
pub open spec fn status_of(state: ServerState) -> ServerStatus {
    match state {
        ServerState::Handshaking => ServerStatus::Handshaking,
        ServerState::HandshakeFailed { .. } => ServerStatus::HandshakeFailed,
        ServerState::AuthNeeded { server_info, provider } => ServerStatus::AuthNeeded { provider },
        ServerState::Ready { server_info, provider, user_info } => ServerStatus::Ready {
            provider,
            user_info,
            server_info,
        },
    }
}

/// The handshake is done.
pub open spec fn is_met(state: Option<ServerState>) -> bool {
    match state {
        Some(ServerState::AuthNeeded { .. }) => true,
        Some(ServerState::Ready { .. }) => true,
        _ => false,
    }
}

/// What the handshake told.
pub open spec fn info_of(state: ServerState) -> ServerInfo {
    match state {
        ServerState::AuthNeeded { server_info, .. } => server_info,
        ServerState::Ready { server_info, .. } => server_info,
        _ => arbitrary(),
    }
}

/// The name of the way to sign in.
pub open spec fn provider_of(state: ServerState) -> String {
    match state {
        ServerState::AuthNeeded { provider, .. } => provider,
        ServerState::Ready { provider, .. } => provider,
        _ => arbitrary(),
    }
}

/// The change tells of the state of the server at the URL.
pub open spec fn tells(change: StatusChange, url: Seq<char>, state: ServerState) -> bool {
    change.url@ == url && change.status == status_of(state)
}

/// How a handshake starts.
#[derive(Debug)]
pub enum HandshakeStart {
    /// There was one already; this is what it told.
    Cached(ServerInfo),
    /// The one that was waited for failed.
    Failed(ServerError),
    /// The server has to be asked.
    Ask(StatusChange),
}

/// How a sign-in starts.
#[derive(Debug)]
pub enum AuthStart {
    /// The user is signed in.
    Cached(UserInfo),
    /// The user has to be asked.
    Ask { provider: String, change: Option<StatusChange> },
}

/// What became of asking the user.
#[derive(Debug)]
pub enum AuthOutcome {
    Cancelled,
    Failed(OidcAuthError),
    Done(UserInfo),
}

/// What became of a sign-out.
#[derive(Debug)]
pub enum DeauthOutcome {
    Cancelled,
    Failed(OidcAuthError),
    Done,
}

/// What has to happen before a user is signed in once more.
#[derive(Clone, Copy, Debug, PartialEq, Eq, Structural)]
pub enum Reauth {
    /// Nobody is signed in.
    NotReady,
    /// The sign-in looks good, and was refused all the same: it is void.
    Void,
    /// The sign-in has run out: try to renew it.
    Renew,
}

/// What happens while the user is asked.
#[derive(Debug)]
pub enum AuthEvent {
    Status(AuthStatus),
    Finished,
}

/// What a server told is kept under the server's own URL.
pub open spec fn under_own_urls(servers: Seq<(Seq<char>, ServerState)>) -> bool {
    forall|url: Seq<char>|
        is_met(#[trigger] value_at(servers, url)) ==> info_of(value_at(servers, url)->0).url@ == url
}

/// How a handshake ended, as far as a state tells; nothing while it is under way.
pub open spec fn handshake_result(state: ServerState) -> Option<Result<ServerInfo, ServerError>> {
    match state {
        ServerState::Handshaking => None,
        ServerState::HandshakeFailed { error } => Some(Err(ServerError::Handshake(error))),
        _ => Some(Ok(info_of(state))),
    }
}

/// What became of asking a server: what it told, the name of the way to sign in, and the user where
/// one is signed in at once.
pub type HandshakeOutcome = Result<(ServerInfo, String, Option<UserInfo>), HandshakeError>;

/// The state of a server after it was asked.
pub open spec fn asked_state(outcome: HandshakeOutcome) -> ServerState {
    match outcome {
        Err(error) => ServerState::HandshakeFailed { error },
        Ok((server_info, provider, user)) => met_state(server_info, provider, user),
    }
}

/// Keeps track of servers.
pub struct ServerManager {
    servers: Table<ServerState>,
}

impl View for ServerManager {
    type V = Seq<(Seq<char>, ServerState)>;

    closed spec fn view(&self) -> Seq<(Seq<char>, ServerState)> {
        self.servers@
    }
}

/// The user who is signed in to a server, where the sign-in holds.
pub open spec fn signed_in(
    servers: Seq<(Seq<char>, ServerState)>,
    url: Seq<char>,
    now: u128,
) -> Option<UserInfo> {
    match value_at(servers, url) {
        Some(ServerState::Ready { user_info, .. }) => if user_info.valid_at(now) {
            Some(user_info)
        } else {
            None
        },
        _ => None,
    }
}

/// The server has to be asked for a handshake: none is done, and none failed that was waited for.
pub open spec fn asks(state: ServerState, waited: bool) -> bool {
    match handshake_result(state) {
        Some(Ok(_)) => false,
        Some(Err(_)) => !waited,
        None => true,
    }
}

/// How a sign-in to a server starts, from the servers before and with the servers after.
pub open spec fn is_sign_in_start(
    before: Seq<(Seq<char>, ServerState)>,
    after: Seq<(Seq<char>, ServerState)>,
    server_info: ServerInfo,
    now: u128,
    r: AuthStart,
) -> bool {
    match value_at(before, server_info.url@)->0 {
        ServerState::Ready { user_info, provider, .. } => if user_info.valid_at(now) {
            after == before && r == AuthStart::Cached(user_info)
        } else {
            after == put(
                before,
                server_info.url@,
                (ServerState::AuthNeeded { server_info, provider }),
            ) && (r matches AuthStart::Ask { provider: p, change } && p == provider
                && change is Some && tells(
                change->0,
                server_info.url@,
                (ServerState::AuthNeeded { server_info, provider }),
            ))
        },
        state => after == before && r == (AuthStart::Ask {
            provider: provider_of(state),
            change: None,
        }),
    }
}

/// How a sign-in to a server ends.
pub open spec fn is_sign_in_end(
    before: Seq<(Seq<char>, ServerState)>,
    after: Seq<(Seq<char>, ServerState)>,
    server_info: ServerInfo,
    provider: String,
    outcome: AuthOutcome,
    r: (Option<StatusChange>, Result<UserInfo, ServerError>),
) -> bool {
    match outcome {
        AuthOutcome::Cancelled => after == before && r.0 is None && r.1 == Err::<UserInfo, _>(
            ServerError::UserCancelled,
        ),
        AuthOutcome::Failed(e) => after == before && r.0 is None && r.1 == Err::<UserInfo, _>(
            ServerError::Auth(e),
        ),
        AuthOutcome::Done(user_info) => after == put(
            before,
            server_info.url@,
            (ServerState::Ready { server_info, provider, user_info }),
        ) && r.0 is Some && tells(
            r.0->0,
            server_info.url@,
            (ServerState::Ready { server_info, provider, user_info }),
        ) && r.1 == Ok::<_, ServerError>(user_info),
    }
}

/// What has to happen after a server refused a token.
pub open spec fn reauth_of(
    servers: Seq<(Seq<char>, ServerState)>,
    url: Seq<char>,
    now: u128,
) -> Reauth {
    match value_at(servers, url) {
        Some(ServerState::Ready { user_info, .. }) => if user_info.valid_at(now) {
            Reauth::Void
        } else {
            Reauth::Renew
        },
        _ => Reauth::NotReady,
    }
}

/// How a try ends to sign a user in once more without asking.
pub open spec fn is_renewal(
    before: Seq<(Seq<char>, ServerState)>,
    after: Seq<(Seq<char>, ServerState)>,
    server_info: ServerInfo,
    renewed: Option<UserInfo>,
    r: (Option<StatusChange>, Option<UserInfo>),
) -> bool {
    match value_at(before, server_info.url@) {
        Some(ServerState::Ready { server_info: info, provider, .. }) => after == put(
            before,
            server_info.url@,
            met_state(info, provider, renewed),
        ) && r.0 is Some && tells(
            r.0->0,
            server_info.url@,
            met_state(info, provider, renewed),
        ) && info.url@ == server_info.url@ && r.1 == renewed,
        _ => after == before && r.0 is None && r.1 is None,
    }
}

/// How a sign-out from a server ends.
pub open spec fn is_sign_out(
    before: Seq<(Seq<char>, ServerState)>,
    after: Seq<(Seq<char>, ServerState)>,
    server_info: ServerInfo,
    provider: String,
    outcome: DeauthOutcome,
    r: (Option<StatusChange>, Result<(), ServerError>),
) -> bool {
    &&& r.1 == match outcome {
        DeauthOutcome::Cancelled => Err::<(), _>(ServerError::UserCancelled),
        DeauthOutcome::Failed(e) => Err(ServerError::Deauth(e)),
        DeauthOutcome::Done => Ok(()),
    }
    &&& outcome is Cancelled ==> after == before && r.0 is None
    &&& !(outcome is Cancelled) ==> after == put(
        before,
        server_info.url@,
        (ServerState::AuthNeeded { server_info, provider }),
    ) && r.0 is Some && tells(
        r.0->0,
        server_info.url@,
        (ServerState::AuthNeeded { server_info, provider }),
    )
}

impl ServerManager {
    #[verifier::type_invariant]
    spec fn inv(&self) -> bool {
        under_own_urls(self.servers@)
    }

    pub fn new() -> (r: ServerManager)
        ensures
            r@ == Seq::<(Seq<char>, ServerState)>::empty(),
    {
        ServerManager { servers: Table::new() }
    }

    /// The status of a server. What a server told is told under its own URL.
    pub fn server_status(&self, url: &str) -> (r: ServerStatus)
        ensures
            r == match value_at(self@, url@) {
                Some(state) => status_of(state),
                None => ServerStatus::Untracked,
            },
            r matches ServerStatus::Ready { server_info, .. } ==> server_info.url@ == url@,
    {
        proof {
            use_type_invariant(self);
        }
        match self.servers.get(url) {
            Some(state) => Self::state_to_status(state),
            None => ServerStatus::Untracked,
        }
    }

    fn state_to_status(state: &ServerState) -> (r: ServerStatus)
        ensures
            r == status_of(*state),
    {
        match state {
            ServerState::Handshaking => ServerStatus::Handshaking,
            ServerState::HandshakeFailed { .. } => ServerStatus::HandshakeFailed,
            ServerState::AuthNeeded { provider, .. } => ServerStatus::AuthNeeded {
                provider: provider.clone(),
            },
            ServerState::Ready { server_info, provider, user_info } => ServerStatus::Ready {
                provider: provider.clone(),
                user_info: user_info.clone_box(),
                server_info: server_info.duplicate(),
            },
        }
    }

    /// Sets the state of a server, and tells it.
    fn set_server_state(&mut self, url: &str, state: ServerState) -> (r: StatusChange)
        requires
            is_met(Some(state)) ==> info_of(state).url@ == url@,
        ensures
            final(self)@ == put(old(self)@, url@, state),
            tells(r, url@, state),
    {
        proof {
            use_type_invariant(&*self);
            lemma_own_urls(self@, url@, state);
        }
        let status = Self::state_to_status(&state);
        let mut servers = Table::new();
        std::mem::swap(&mut servers, &mut self.servers);
        servers.insert(url.to_owned(), state);
        self.servers = servers;
        StatusChange { url: url.to_owned(), status }
    }

    /// Makes a server known, before its handshake is waited for.
    pub fn track(&mut self, url: &str)
        ensures
            final(self)@ == if has_key(old(self)@, url@) {
                old(self)@
            } else {
                put(old(self)@, url@, ServerState::Handshaking)
            },
    {
        if !self.servers.contains_key(url) {
            let _ = self.set_server_state(url, ServerState::Handshaking);
        }
    }

    /// Starts a handshake with a known server, unless it is done already. A caller who `waited` for
    /// a handshake of another caller gets what that one came to, be it a failure; any other caller
    /// asks again after a failure.
    pub fn begin_handshake(&mut self, url: &str, waited: bool) -> (r: HandshakeStart)
        requires
            has_key(old(self)@, url@),
        ensures
            asks(value_at(old(self)@, url@)->0, waited) ==> final(self)@ == put(
                old(self)@,
                url@,
                ServerState::Handshaking,
            ) && (r matches HandshakeStart::Ask(change) && tells(
                change,
                url@,
                ServerState::Handshaking,
            )),
            !asks(value_at(old(self)@, url@)->0, waited) ==> final(self)@ == old(self)@ && (
            match handshake_result(value_at(old(self)@, url@)->0) {
                Some(Ok(info)) => r == HandshakeStart::Cached(info) && info.url@ == url@,
                Some(Err(e)) => r == HandshakeStart::Failed(e),
                None => false,
            }),
    {
        proof {
            use_type_invariant(&*self);
        }
        match self.servers.get(url) {
            Some(ServerState::AuthNeeded { server_info, .. }) => {
                return HandshakeStart::Cached(server_info.duplicate());
            },
            Some(ServerState::Ready { server_info, .. }) => {
                return HandshakeStart::Cached(server_info.duplicate());
            },
            Some(ServerState::HandshakeFailed { error }) => {
                if waited {
                    return HandshakeStart::Failed(ServerError::Handshake(error.duplicate()));
                }
            },
            _ => {},
        }
        HandshakeStart::Ask(self.set_server_state(url, ServerState::Handshaking))
    }

    /// Ends a handshake with what the server at the URL told of itself: it failed, or the user is
    /// signed in at once, or has to be asked.
    pub fn handshake(&mut self, url: &str, outcome: HandshakeOutcome) -> (r: (
        StatusChange,
        Result<ServerInfo, ServerError>,
    ))
        requires
            outcome matches Ok((server_info, _, _)) ==> server_info.url@ == url@,
        ensures
            final(self)@ == put(old(self)@, url@, asked_state(outcome)),
            tells(r.0, url@, asked_state(outcome)),
            r.1 == match outcome {
                Err(e) => Err::<ServerInfo, _>(ServerError::Handshake(e)),
                Ok((server_info, _, _)) => Ok(server_info),
            },
    {
        match outcome {
            Err(e) => {
                let error = e.duplicate();
                let change = self.set_server_state(url, ServerState::HandshakeFailed { error });
                (change, Err(ServerError::Handshake(e)))
            },
            Ok((server_info, provider, user)) => {
                let kept = server_info.duplicate();
                let state = match user {
                    Some(user_info) => ServerState::Ready { server_info, provider, user_info },
                    None => ServerState::AuthNeeded { server_info, provider },
                };
                let change = self.set_server_state(url, state);
                (change, Ok(kept))
            },
        }
    }

    /// Starts a sign-in to a server whose handshake is done: the user who is signed in is kept as
    /// long as the sign-in holds.
    pub fn begin_authenticate(&mut self, server_info: &ServerInfo, now: u128) -> (r: AuthStart)
        requires
            is_met(value_at(old(self)@, server_info.url@)),
            now <= u128::MAX - 20_000_000_000,
        ensures
            is_sign_in_start(old(self)@, final(self)@, *server_info, now, r),
    {
        let provider = match self.servers.get(server_info.url.as_str()) {
            Some(ServerState::AuthNeeded { provider, .. }) => {
                return AuthStart::Ask { provider: provider.clone(), change: None };
            },
            Some(ServerState::Ready { user_info, provider, .. }) => {
                if user_info.is_valid(now) {
                    return AuthStart::Cached(user_info.clone_box());
                }
                provider.clone()
            },
            _ => String::new(),
        };
        let state = ServerState::AuthNeeded {
            server_info: server_info.duplicate(),
            provider: provider.clone(),
        };
        let change = self.set_server_state(server_info.url.as_str(), state);
        AuthStart::Ask { provider, change: Some(change) }
    }

    /// Ends a sign-in: only a user who signed in is kept.
    pub fn authenticate(
        &mut self,
        server_info: &ServerInfo,
        provider: String,
        outcome: AuthOutcome,
    ) -> (r: (Option<StatusChange>, Result<UserInfo, ServerError>))
        ensures
            is_sign_in_end(old(self)@, final(self)@, *server_info, provider, outcome, r),
    {
        match outcome {
            AuthOutcome::Cancelled => (None, Err(ServerError::UserCancelled)),
            AuthOutcome::Failed(e) => (None, Err(ServerError::Auth(e))),
            AuthOutcome::Done(user_info) => {
                let kept = user_info.clone_box();
                let state = ServerState::Ready {
                    server_info: server_info.duplicate(),
                    provider,
                    user_info,
                };
                let change = self.set_server_state(server_info.url.as_str(), state);
                (Some(change), Ok(kept))
            },
        }
    }

    /// The user who is signed in, where the sign-in holds. Nobody is asked.
    pub fn try_authenticate(&self, server_info: &ServerInfo, now: u128) -> (r: Option<UserInfo>)
        requires
            now <= u128::MAX - 20_000_000_000,
        ensures
            r == signed_in(self@, server_info.url@, now),
    {
        match self.servers.get(server_info.url.as_str()) {
            Some(ServerState::Ready { user_info, .. }) => if user_info.is_valid(now) {
                Some(user_info.clone_box())
            } else {
                None
            },
            _ => None,
        }
    }

    /// What has to happen after a server refused the user's token.
    pub fn reauth_step(&self, server_info: &ServerInfo, now: u128) -> (r: Reauth)
        requires
            now <= u128::MAX - 20_000_000_000,
        ensures
            r == reauth_of(self@, server_info.url@, now),
    {
        match self.servers.get(server_info.url.as_str()) {
            Some(ServerState::Ready { user_info, .. }) => if user_info.is_valid(now) {
                Reauth::Void
            } else {
                Reauth::Renew
            },
            _ => Reauth::NotReady,
        }
    }

    /// Ends a try to sign a user in once more without asking: with the renewed sign-in, or with
    /// none, in which case the user has to be asked. Nothing happens where nobody was signed in.
    pub fn try_reauthenticate(&mut self, server_info: &ServerInfo, renewed: Option<UserInfo>) -> (r:
        (Option<StatusChange>, Option<UserInfo>))
        ensures
            is_renewal(old(self)@, final(self)@, *server_info, renewed, r),
    {
        proof {
            use_type_invariant(&*self);
        }
        let (info, provider) = match self.servers.get(server_info.url.as_str()) {
            Some(ServerState::Ready { server_info: info, provider, .. }) => (
                info.duplicate(),
                provider.clone(),
            ),
            _ => {
                return (None, None);
            },
        };
        let kept = match &renewed {
            Some(user) => Some(user.clone_box()),
            None => None,
        };
        let state = match renewed {
            Some(user_info) => ServerState::Ready { server_info: info, provider, user_info },
            None => ServerState::AuthNeeded { server_info: info, provider },
        };
        let change = self.set_server_state(server_info.url.as_str(), state);
        (Some(change), kept)
    }

    /// Starts a sign-out from a server whose handshake is done, and gives the name of the way to
    /// sign in. Where there is no sign-in there is nothing to sign out of.
    pub fn begin_deauthenticate(&self, server_info: &ServerInfo) -> (r: Option<String>)
        requires
            server_info.auth is Oidc ==> is_met(value_at(self@, server_info.url@)),
        ensures
            match server_info.auth {
                AuthConfig::NoAuth => r is None,
                AuthConfig::Oidc(_) => r == Some(
                    provider_of(value_at(self@, server_info.url@)->0),
                ),
            },
    {
        match &server_info.auth {
            AuthConfig::NoAuth => None,
            AuthConfig::Oidc(_) => match self.servers.get(server_info.url.as_str()) {
                Some(ServerState::AuthNeeded { provider, .. }) => Some(provider.clone()),
                Some(ServerState::Ready { provider, .. }) => Some(provider.clone()),
                _ => None,
            },
        }
    }

    /// Ends a sign-out: the user has to be asked again, even where the sign-out failed, unless it
    /// was cancelled.
    pub fn deauthenticate(
        &mut self,
        server_info: &ServerInfo,
        provider: String,
        outcome: DeauthOutcome,
    ) -> (r: (Option<StatusChange>, Result<(), ServerError>))
        ensures
            is_sign_out(old(self)@, final(self)@, *server_info, provider, outcome, r),
    {
        let result = match outcome {
            DeauthOutcome::Cancelled => {
                return (None, Err(ServerError::UserCancelled));
            },
            DeauthOutcome::Failed(e) => Err(ServerError::Deauth(e)),
            DeauthOutcome::Done => Ok(()),
        };
        let state = ServerState::AuthNeeded { server_info: server_info.duplicate(), provider };
        let change = self.set_server_state(server_info.url.as_str(), state);
        (Some(change), result)
    }

    /// What the user is told while being asked: nothing more once it is finished.
    pub fn authenticate_inner(event: AuthEvent) -> (r: AuthStatus)
        ensures
            r == match event {
                AuthEvent::Status(status) => status,
                AuthEvent::Finished => AuthStatus::Idle,
            },
    {
        match event {
            AuthEvent::Status(status) => status,
            AuthEvent::Finished => AuthStatus::Idle,
        }
    }
}

/// The state of a server whose handshake is done.
pub open spec fn met_state(
    server_info: ServerInfo,
    provider: String,
    user: Option<UserInfo>,
) -> ServerState {
    match user {
        Some(user_info) => ServerState::Ready { server_info, provider, user_info },
        None => ServerState::AuthNeeded { server_info, provider },
    }
}

proof fn lemma_own_urls(
    servers: Seq<(Seq<char>, ServerState)>,
    url: Seq<char>,
    state: ServerState,
)
    requires
        under_own_urls(servers),
        is_met(Some(state)) ==> info_of(state).url@ == url,
    ensures
        under_own_urls(put(servers, url, state)),
{
    assert forall|other: Seq<char>|
        is_met(#[trigger] value_at(put(servers, url, state), other)) implies info_of(
        value_at(put(servers, url, state), other)->0,
    ).url@ == other by {
        lemma_put(servers, url, state);
    }
}

/// A caller who waited for a handshake gets the result of the caller who made it.
pub proof fn waiting_gives_the_same_result(
    servers: Seq<(Seq<char>, ServerState)>,
    url: Seq<char>,
    outcome: HandshakeOutcome,
)
    ensures
        value_at(put(servers, url, asked_state(outcome)), url) == Some(asked_state(outcome)),
        handshake_result(asked_state(outcome)) == Some(
            match outcome {
                Err(e) => Err::<ServerInfo, _>(ServerError::Handshake(e)),
                Ok((server_info, _, _)) => Ok(server_info),
            },
        ),
{
    lemma_put(servers, url, asked_state(outcome));
}

/// Whatever happens to one server, the others stay as they are.
pub proof fn other_servers_stay(
    servers: Seq<(Seq<char>, ServerState)>,
    url: Seq<char>,
    state: ServerState,
    other: Seq<char>,
)
    requires
        other != url,
    ensures
        value_at(put(servers, url, state), other) == value_at(servers, other),
        value_at(put(servers, url, state), url) == Some(state),
{
    lemma_put(servers, url, state);
}

/// A user who signed in is signed in for as long as the sign-in holds, and not after a sign-out.
pub proof fn signed_in_until_signed_out(
    servers: Seq<(Seq<char>, ServerState)>,
    server_info: ServerInfo,
    provider: String,
    user_info: UserInfo,
    now: u128,
)
    ensures
        user_info.valid_at(now) ==> signed_in(
            put(
                servers,
                server_info.url@,
                (ServerState::Ready { server_info, provider, user_info }),
            ),
            server_info.url@,
            now,
        ) == Some(user_info),
        !user_info.valid_at(now) ==> signed_in(
            put(
                servers,
                server_info.url@,
                (ServerState::Ready { server_info, provider, user_info }),
            ),
            server_info.url@,
            now,
        ) is None,
        signed_in(
            put(servers, server_info.url@, (ServerState::AuthNeeded { server_info, provider })),
            server_info.url@,
            now,
        ) is None,
{
    lemma_put(
        servers,
        server_info.url@,
        (ServerState::Ready { server_info, provider, user_info }),
    );
    lemma_put(servers, server_info.url@, (ServerState::AuthNeeded { server_info, provider }));
}


/// A server's status says how far it got, and who is signed in, but not why a handshake failed.
pub proof fn statuses_follow_states(
    info: ServerInfo,
    provider: String,
    user: UserInfo,
    error: HandshakeError,
)
    ensures
        status_of(ServerState::Handshaking) == ServerStatus::Handshaking,
        status_of(ServerState::HandshakeFailed { error }) == ServerStatus::HandshakeFailed,
        status_of(ServerState::AuthNeeded { server_info: info, provider }) == (
        ServerStatus::AuthNeeded { provider }),
        status_of(ServerState::Ready { server_info: info, provider, user_info: user }) == (
        ServerStatus::Ready { provider, user_info: user, server_info: info }),
{
}

/// A handshake is done once the server told of itself, whether or not a user is signed in, and what
/// it told is kept.
pub proof fn handshakes_are_kept(
    info: ServerInfo,
    provider: String,
    user: Option<UserInfo>,
    error: HandshakeError,
)
    ensures
        is_met(Some(met_state(info, provider, user))),
        info_of(met_state(info, provider, user)) == info,
        provider_of(met_state(info, provider, user)) == provider,
        met_state(info, provider, user) is Ready <==> user is Some,
        user is Some ==> met_state(info, provider, user)->Ready_user_info == user->0,
        handshake_result(met_state(info, provider, user)) == Some(Ok::<_, ServerError>(info)),
        asked_state(Ok((info, provider, user))) == met_state(info, provider, user),
        !is_met(Some(asked_state(Err(error)))),
        handshake_result(asked_state(Err(error))) == Some(
            Err::<ServerInfo, _>(ServerError::Handshake(error)),
        ),
        !is_met(None),
        !is_met(Some(ServerState::Handshaking)),
        handshake_result(ServerState::Handshaking) is None,
{
}

/// A server is asked where nobody asked it yet, or where it could not be reached and the caller did
/// not wait for that to be found out.
pub proof fn servers_are_asked_once(state: ServerState, waited: bool)
    ensures
        asks(state, waited) <==> state is Handshaking || (state is HandshakeFailed && !waited),
{
}

/// Whoever is signed in stays so when a sign-in starts. Whoever is not has to be asked by the way of
/// the server, and a sign-in that ran out is told of.
pub proof fn sign_ins_start_where_nobody_is_signed_in(
    before: Seq<(Seq<char>, ServerState)>,
    after: Seq<(Seq<char>, ServerState)>,
    server_info: ServerInfo,
    now: u128,
    r: AuthStart,
    other: Seq<char>,
)
    requires
        is_met(value_at(before, server_info.url@)),
        is_sign_in_start(before, after, server_info, now, r),
    ensures
        r is Cached <==> signed_in(before, server_info.url@, now) is Some,
        r is Cached ==> Some(r->Cached_0) == signed_in(before, server_info.url@, now) && after
            == before,
        signed_in(after, server_info.url@, now) == signed_in(before, server_info.url@, now),
        r is Ask ==> value_at(after, server_info.url@)->0 is AuthNeeded && r->provider
            == provider_of(value_at(before, server_info.url@)->0),
        r is Ask ==> (r->change is Some <==> value_at(before, server_info.url@)->0 is Ready),
        r is Ask && r->change is Some ==> tells(
            r->change->0,
            server_info.url@,
            value_at(after, server_info.url@)->0,
        ),
        other != server_info.url@ ==> value_at(after, other) == value_at(before, other),
{
    match value_at(before, server_info.url@)->0 {
        ServerState::Ready { provider, .. } => {
            lemma_put(
                before,
                server_info.url@,
                (ServerState::AuthNeeded { server_info, provider }),
            );
        },
        _ => {},
    }
}

/// A sign-in ends with a user who is signed in, or changes nothing.
pub proof fn sign_ins_end_with_a_user(
    before: Seq<(Seq<char>, ServerState)>,
    after: Seq<(Seq<char>, ServerState)>,
    server_info: ServerInfo,
    provider: String,
    outcome: AuthOutcome,
    r: (Option<StatusChange>, Result<UserInfo, ServerError>),
    now: u128,
)
    requires
        is_sign_in_end(before, after, server_info, provider, outcome, r),
    ensures
        r.1 is Ok <==> outcome is Done,
        outcome is Done ==> r.1->Ok_0 == outcome->Done_0 && r.0 is Some,
        outcome is Done && outcome->Done_0.valid_at(now) ==> signed_in(
            after,
            server_info.url@,
            now,
        ) == Some(outcome->Done_0),
        !(outcome is Done) ==> after == before && r.0 is None,
        outcome is Cancelled ==> r.1->Err_0 == ServerError::UserCancelled,
        outcome is Failed ==> r.1->Err_0 == ServerError::Auth(outcome->Failed_0),
{
    if let AuthOutcome::Done(user_info) = outcome {
        lemma_put(
            before,
            server_info.url@,
            (ServerState::Ready { server_info, provider, user_info }),
        );
    }
}

/// A refused token is void where the sign-in looks good, and is renewed where the sign-in ran out.
pub proof fn refused_tokens_are_void_or_renewed(
    servers: Seq<(Seq<char>, ServerState)>,
    url: Seq<char>,
    now: u128,
)
    ensures
        reauth_of(servers, url, now) == Reauth::Void <==> signed_in(servers, url, now) is Some,
        reauth_of(servers, url, now) == Reauth::NotReady <==> !(value_at(servers, url) is Some
            && value_at(servers, url)->0 is Ready),
{
}

/// A renewed sign-in takes the place of the old one; where it could not be renewed nobody is signed
/// in any more, and what the server told stays.
pub proof fn sign_ins_are_renewed_or_lost(
    before: Seq<(Seq<char>, ServerState)>,
    after: Seq<(Seq<char>, ServerState)>,
    server_info: ServerInfo,
    renewed: Option<UserInfo>,
    r: (Option<StatusChange>, Option<UserInfo>),
    now: u128,
)
    requires
        is_renewal(before, after, server_info, renewed, r),
    ensures
        reauth_of(before, server_info.url@, now) == Reauth::NotReady ==> after == before
            && r.0 is None && r.1 is None,
        reauth_of(before, server_info.url@, now) != Reauth::NotReady ==> r.0 is Some && r.1
            == renewed && is_met(value_at(after, server_info.url@)) && info_of(
            value_at(after, server_info.url@)->0,
        ) == info_of(value_at(before, server_info.url@)->0),
        reauth_of(before, server_info.url@, now) != Reauth::NotReady && renewed is None
            ==> signed_in(after, server_info.url@, now) is None,
        reauth_of(before, server_info.url@, now) != Reauth::NotReady && renewed is Some
            && renewed->0.valid_at(now) ==> signed_in(after, server_info.url@, now) == renewed,
{
    if let Some(ServerState::Ready { server_info: info, provider, .. }) = value_at(
        before,
        server_info.url@,
    ) {
        lemma_put(before, server_info.url@, met_state(info, provider, renewed));
    }
}

/// After a sign-out nobody is signed in, also where it failed; only a sign-out that was cancelled
/// changes nothing.
pub proof fn sign_outs_leave_nobody_signed_in(
    before: Seq<(Seq<char>, ServerState)>,
    after: Seq<(Seq<char>, ServerState)>,
    server_info: ServerInfo,
    provider: String,
    outcome: DeauthOutcome,
    r: (Option<StatusChange>, Result<(), ServerError>),
    now: u128,
)
    requires
        is_sign_out(before, after, server_info, provider, outcome, r),
    ensures
        r.1 is Ok <==> outcome is Done,
        outcome is Cancelled ==> after == before && r.0 is None && r.1->Err_0
            == ServerError::UserCancelled,
        outcome is Failed ==> r.1->Err_0 == ServerError::Deauth(outcome->Failed_0),
        !(outcome is Cancelled) ==> signed_in(after, server_info.url@, now) is None && is_met(
            value_at(after, server_info.url@),
        ) && r.0 is Some,
{
    lemma_put(before, server_info.url@, (ServerState::AuthNeeded { server_info, provider }));
}


/// A change is told under the URL of its server, with the status that the server has now.
pub proof fn changes_tell_the_status(change: StatusChange, url: Seq<char>, state: ServerState)
    requires
        tells(change, url, state),
    ensures
        change.url@ == url,
        change.status == status_of(state),
        change.status is Ready <==> state is Ready,
        change.status is AuthNeeded <==> state is AuthNeeded,
        !(change.status is Untracked),
{
}

} // verus!
