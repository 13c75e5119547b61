//! The connection to a server's sync endpoint.

use crate::auth::handshake::{parse_url, url_parts, ServerInfo};
use crate::auth::server_manager::ServerError;
use crate::auth::user::UserInfo;
use crate::text::same_text;
use vstd::prelude::*;
use vstd::string::*;

pub mod dialer;

verus! {

/// The URL with another scheme.
pub uninterp spec fn with_other_scheme(url: Seq<char>, scheme: Seq<char>) -> Option<Seq<char>>;

/// `url::Url::set_scheme`: the URL with another scheme; nothing where the text is no URL or cannot
/// have that scheme.
#[verifier::external_body]
fn set_scheme(url: &str, scheme: &str) -> (r: Option<String>)
    ensures
        (match r {
            Some(u) => Some(u@),
            None => None,
        }) == with_other_scheme(url@, scheme@),
{
    let mut url = url::Url::parse(url).ok()?;
    url.set_scheme(scheme).ok()?;
    Some(url.as_str().to_string())
}

/// What is told of a connection.
#[derive(Debug)]
pub enum RemoteConnectionEvent {
    /// The connection stands.
    Connected { username: Option<String> },
    /// A connection failed, and is tried again.
    Failed,
    /// The connection was cancelled, and is not tried again.
    Cancelled,
}

/// Why a connection could not be made.
#[derive(Debug)]
pub enum RemoteConnectionError {
    RepoStopped,
    Server(ServerError),
    NotAuthenticated,
}

impl RemoteConnectionError {
    /// The error as the user reads it.
    pub fn to_text(&self) -> (r: String)
        ensures
            r@ == match *self {
                RemoteConnectionError::RepoStopped => "the Samod instance has been stopped"@,
                RemoteConnectionError::Server(e) => e.text(),
                RemoteConnectionError::NotAuthenticated =>
                    "the server is not authenticated, so we can't connect."@,
            },
    {
        match self {
            RemoteConnectionError::RepoStopped => "the Samod instance has been stopped".to_owned(),
            RemoteConnectionError::Server(e) => e.to_text(),
            RemoteConnectionError::NotAuthenticated =>
                "the server is not authenticated, so we can't connect.".to_owned(),
        }
    }
}

/// Whom to dial, and with which token.
#[derive(Debug)]
pub struct Dial {
    pub url: String,
    pub bearer_token: Option<String>,
    pub username: Option<String>,
}

/// The WebSocket URL for an HTTP URL; nothing for a URL of another scheme.
pub open spec fn socket_url(url: Seq<char>) -> Option<Seq<char>> {
    match url_parts(url) {
        Some(parts) => if parts.scheme == "http"@ {
            with_other_scheme(url, "ws"@)
        } else if parts.scheme == "https"@ {
            with_other_scheme(url, "wss"@)
        } else {
            None
        },
        None => None,
    }
}

/// The WebSocket URL for an HTTP URL; nothing for a URL of another scheme.
pub fn to_socket_url(url: &str) -> (r: Option<String>)
    ensures
        (match r {
            Some(u) => Some(u@),
            None => None,
        }) == socket_url(url@),
{
    match parse_url(url) {
        Some(parsed) => if same_text(parsed.scheme.as_str(), "http") {
            set_scheme(url, "ws")
        } else if same_text(parsed.scheme.as_str(), "https") {
            set_scheme(url, "wss")
        } else {
            None
        },
        None => None,
    }
}

/// The token to send for a user.
pub open spec fn token_of(user: UserInfo) -> Option<String> {
    match user {
        UserInfo::Oidc(u) => Some(u.access_token),
        UserInfo::Anonymous(_) => None,
    }
}

/// Whom to dial, after the handshake and from who is signed in.
pub open spec fn is_dial(
    handshake: Result<ServerInfo, ServerError>,
    user_info: Option<UserInfo>,
    r: Result<Option<Dial>, RemoteConnectionError>,
) -> bool {
    match handshake {
        Err(e) => r == Err::<Option<Dial>, _>(RemoteConnectionError::Server(e)),
        Ok(info) => match user_info {
            None => r == Err::<Option<Dial>, _>(RemoteConnectionError::NotAuthenticated),
            Some(user) => match socket_url(info.sync_url@) {
                None => r == Ok::<Option<Dial>, RemoteConnectionError>(None),
                Some(url) => r is Ok && r->Ok_0 is Some && r->Ok_0->0.url@ == url
                    && r->Ok_0->0.bearer_token == token_of(user) && r->Ok_0->0.username == (
                match user {
                    UserInfo::Oidc(u) => Some(u.stored_session.name),
                    UserInfo::Anonymous(_) => None,
                }),
            },
        },
    }
}

/// Decides what a connection does.
#[derive(Clone, Copy, Debug)]
pub struct RemoteConnectionInner;

impl RemoteConnectionInner {
    /// Whom to dial, after the handshake and from who is signed in. Inside, nothing for a server whose
    /// sync URL is neither HTTP nor HTTPS.
    pub fn begin_connection(
        handshake: Result<ServerInfo, ServerError>,
        user_info: Option<UserInfo>,
    ) -> (r: Result<Option<Dial>, RemoteConnectionError>)
        ensures
            is_dial(handshake, user_info, r),
    {
        let server_info = match handshake {
            Ok(info) => info,
            Err(e) => {
                return Err(RemoteConnectionError::Server(e));
            },
        };
        let user_info = match user_info {
            Some(user) => user,
            None => {
                return Err(RemoteConnectionError::NotAuthenticated);
            },
        };
        match to_socket_url(server_info.sync_url.as_str()) {
            Some(url) => Ok(
                Some(
                    Dial {
                        url,
                        bearer_token: user_info.bearer_token(),
                        username: user_info.username(),
                    },
                ),
            ),
            None => Ok(None),
        }
    }
}

/// What a dialer tells.
#[derive(Clone, Copy, Debug, PartialEq, Eq, Structural)]
pub enum DialerEvent {
    Connected,
    Disconnected,
    Reconnecting,
    MaxRetriesReached,
}

/// What happens to a connection.
#[derive(Debug)]
pub enum ConnectionEvent {
    /// This connection is to end.
    Cancelled,
    /// All connections are to end.
    Shutdown,
    /// The server refused the token. With who could be signed in once more without being asked.
    AuthFailed(Option<UserInfo>),
    /// The dialer told something, or nothing where it has nothing more to tell.
    Dialer(Option<DialerEvent>),
}

/// What to do about a connection.
#[derive(Debug)]
pub enum ConnectionAction {
    /// Go on.
    Proceed,
    /// Tell this, and go on.
    Emit(RemoteConnectionEvent),
    /// Use this token, and go on.
    SetToken(Option<String>),
    /// Hang up, and let the connection be tried again.
    Close,
    /// Hang up, and let the connection not be tried again.
    CloseAndCancel,
}

/// What to do about what happens to a connection of the user with the given name.
pub open spec fn action_on(event: ConnectionEvent, username: Option<String>) -> ConnectionAction {
    match event {
        ConnectionEvent::Cancelled => ConnectionAction::Close,
        ConnectionEvent::Shutdown => ConnectionAction::CloseAndCancel,
        ConnectionEvent::AuthFailed(None) => ConnectionAction::Close,
        ConnectionEvent::AuthFailed(Some(user)) => ConnectionAction::SetToken(token_of(user)),
        ConnectionEvent::Dialer(Some(DialerEvent::Connected)) => ConnectionAction::Emit(
            RemoteConnectionEvent::Connected { username },
        ),
        ConnectionEvent::Dialer(Some(DialerEvent::Disconnected)) => ConnectionAction::Emit(
            RemoteConnectionEvent::Failed,
        ),
        ConnectionEvent::Dialer(Some(DialerEvent::Reconnecting)) => ConnectionAction::Proceed,
        ConnectionEvent::Dialer(Some(DialerEvent::MaxRetriesReached)) => ConnectionAction::Close,
        ConnectionEvent::Dialer(None) => ConnectionAction::Proceed,
    }
}

impl RemoteConnectionInner {
    /// What to do about what happens to a connection of the user with the given name.
    pub fn handle_connection(event: ConnectionEvent, username: &Option<String>) -> (r: ConnectionAction)
        ensures
            r == action_on(event, *username),
    {
        match event {
            ConnectionEvent::Cancelled => ConnectionAction::Close,
            ConnectionEvent::Shutdown => ConnectionAction::CloseAndCancel,
            ConnectionEvent::AuthFailed(renewed) => match renewed {
                Some(user) => ConnectionAction::SetToken(user.bearer_token()),
                None => ConnectionAction::Close,
            },
            ConnectionEvent::Dialer(event) => match event {
                Some(DialerEvent::Connected) => ConnectionAction::Emit(
                    RemoteConnectionEvent::Connected {
                        username: match username {
                            Some(name) => Some(name.clone()),
                            None => None,
                        },
                    },
                ),
                Some(DialerEvent::Disconnected) => ConnectionAction::Emit(
                    RemoteConnectionEvent::Failed,
                ),
                Some(DialerEvent::Reconnecting) => ConnectionAction::Proceed,
                Some(DialerEvent::MaxRetriesReached) => ConnectionAction::Close,
                None => ConnectionAction::Proceed,
            },
        }
    }
}

/// How long to wait before a connection is tried again, in milliseconds.
pub const RETRY_DELAY: u64 = 5000;

impl RemoteConnectionInner {
    /// What is told once a connection has ended, and whether it is tried again.
    pub fn loop_connection(shutdown: bool, cancelled: bool) -> (r: (RemoteConnectionEvent, bool))
        ensures
            r.1 == (!shutdown && !cancelled),
            r.0 == if r.1 {
                RemoteConnectionEvent::Failed
            } else {
                RemoteConnectionEvent::Cancelled
            },
    {
        if shutdown || cancelled {
            (RemoteConnectionEvent::Cancelled, false)
        } else {
            (RemoteConnectionEvent::Failed, true)
        }
    }
}

/// Whether a connection stands at once, by the first thing that is told of it.
pub fn connected_at_once(first: &Option<RemoteConnectionEvent>) -> (r: bool)
    ensures
        r == (*first matches Some(RemoteConnectionEvent::Connected { .. })),
{
    match first {
        Some(RemoteConnectionEvent::Connected { .. }) => true,
        _ => false,
    }
}

/// Which connection there is.
#[derive(Debug)]
pub struct RemoteConnection<H> {
    /// The handle of the dialer, once there is one, of the connection that was started.
    pub info: Option<Option<H>>,
}

impl<H> RemoteConnection<H> {
    pub fn new() -> (r: Self)
        ensures
            r.info is None,
    {
        RemoteConnection { info: None }
    }

    /// Starts a connection. The one that was there has been cancelled.
    pub fn connect(&mut self)
        ensures
            final(self).info == Some(None::<H>),
    {
        self.info = Some(None);
    }

    /// Ends the connection.
    pub fn disconnect(&mut self)
        ensures
            final(self).info is None,
    {
        self.info = None;
    }

    /// Notes the handle of the dialer. Where the connection has been ended meanwhile the handle is
    /// given back, to be closed.
    pub fn set_handle(&mut self, handle: H) -> (r: Option<H>)
        ensures
            old(self).info is Some ==> final(self).info == Some(Some(handle)) && r is None,
            old(self).info is None ==> final(self).info is None && r == Some(handle),
    {
        if self.info.is_some() {
            self.info = Some(Some(handle));
            None
        } else {
            Some(handle)
        }
    }

    /// The handle to ask whether the connection stands; none where there is none.
    pub fn handle(&self) -> (r: Option<&H>)
        ensures
            r == match self.info {
                Some(Some(h)) => Some(&h),
                _ => None::<&H>,
            },
    {
        match &self.info {
            Some(Some(h)) => Some(h),
            _ => None,
        }
    }

    /// Whether the connection stands. `connected` is what its handle says, where there is one.
    pub fn is_connected(&self, connected: bool) -> (r: bool)
        ensures
            r == (connected && self.info matches Some(Some(_))),
    {
        self.handle().is_some() && connected
    }

    /// Whether a connection was started, even if it does not stand yet.
    pub fn has_connection(&self) -> (r: bool)
        ensures
            r == (self.info is Some),
    {
        self.info.is_some()
    }
}


/// A server is reached over the WebSocket scheme that goes with its own: a secure one where that is
/// secure, and not at all over any other scheme.
pub proof fn secure_servers_are_reached_securely(url: Seq<char>)
    ensures
        url_parts(url) is None ==> socket_url(url) is None,
        url_parts(url) is Some && url_parts(url)->0.scheme == "https"@ ==> socket_url(url)
            == with_other_scheme(url, "wss"@),
        url_parts(url) is Some && url_parts(url)->0.scheme == "http"@ ==> socket_url(url)
            == with_other_scheme(url, "ws"@),
        url_parts(url) is Some && url_parts(url)->0.scheme != "http"@ && url_parts(url)->0.scheme
            != "https"@ ==> socket_url(url) is None,
{
    reveal_strlit("http");
    reveal_strlit("https");
    assert("http"@.len() == 4);
    assert("https"@.len() == 5);
}

/// A connection is dialed only to a server that answered the handshake, for a user who is signed
/// in, at the server's own sync URL, and with that user's token and name.
pub proof fn only_users_of_answering_servers_dial(
    handshake: Result<ServerInfo, ServerError>,
    user: Option<UserInfo>,
    r: Result<Option<Dial>, RemoteConnectionError>,
)
    requires
        is_dial(handshake, user, r),
    ensures
        r is Ok <==> handshake is Ok && user is Some,
        handshake is Err ==> r == Err::<Option<Dial>, _>(
            RemoteConnectionError::Server(handshake->Err_0),
        ),
        handshake is Ok && user is None ==> r == Err::<Option<Dial>, _>(
            RemoteConnectionError::NotAuthenticated,
        ),
        r is Ok ==> (r->Ok_0 is Some <==> socket_url(handshake->Ok_0.sync_url@) is Some),
        r is Ok && r->Ok_0 is Some ==> Some(r->Ok_0->0.url@) == socket_url(
            handshake->Ok_0.sync_url@,
        ),
        r is Ok && r->Ok_0 is Some ==> r->Ok_0->0.bearer_token == token_of(user->0),
        r is Ok && r->Ok_0 is Some && user->0 is Anonymous ==> r->Ok_0->0.username is None,
        r is Ok && r->Ok_0 is Some && user->0 is Oidc ==> r->Ok_0->0.username == Some(
            user->0->Oidc_0.stored_session.name,
        ),
{
}

/// Only who signed in has a token.
pub proof fn only_known_users_have_a_token(user: UserInfo)
    ensures
        user is Oidc ==> token_of(user) == Some(user->Oidc_0.access_token),
        user is Anonymous ==> token_of(user) is None,
{
}

/// A connection is given up for good only when all end. It is closed, and may be tried again, when
/// it is cancelled, when the server refuses a token that cannot be renewed, and when no retry is
/// left. A renewed token is used, and what changes is told.
pub proof fn connections_end_for_a_reason(event: ConnectionEvent, username: Option<String>)
    ensures
        action_on(event, username) is CloseAndCancel <==> event is Shutdown,
        action_on(event, username) is Close <==> (event is Cancelled || event
            == ConnectionEvent::AuthFailed(None) || event == ConnectionEvent::Dialer(
            Some(DialerEvent::MaxRetriesReached),
        )),
        action_on(event, username) is SetToken <==> event is AuthFailed
            && event->AuthFailed_0 is Some,
        event is AuthFailed && event->AuthFailed_0 is Some ==> action_on(event, username)
            == ConnectionAction::SetToken(token_of(event->AuthFailed_0->0)),
        action_on(event, username) is Proceed <==> event == ConnectionEvent::Dialer(None) || event
            == ConnectionEvent::Dialer(Some(DialerEvent::Reconnecting)),
        event == ConnectionEvent::Dialer(Some(DialerEvent::Connected)) ==> action_on(
            event,
            username,
        ) == ConnectionAction::Emit(RemoteConnectionEvent::Connected { username }),
        event == ConnectionEvent::Dialer(Some(DialerEvent::Disconnected)) ==> action_on(
            event,
            username,
        ) == ConnectionAction::Emit(RemoteConnectionEvent::Failed),
        RETRY_DELAY == 5000,
{
}

} // verus!
