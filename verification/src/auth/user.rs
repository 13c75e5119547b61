//! Users who are signed in.

use crate::auth::handshake::{AuthConfig, ServerInfo};
use crate::auth::none::NoneUserInfo;
use crate::auth::oidc::{OidcAuthError, OidcUserInfo};
use vstd::prelude::*;

verus! {

/// A user who is signed in.
#[derive(Debug)]
pub enum UserInfo {
    Oidc(OidcUserInfo),
    Anonymous(NoneUserInfo),
}

impl UserInfo {
    /// The user's name.
    pub fn username(&self) -> (r: Option<String>)
        ensures
            r == match *self {
                UserInfo::Oidc(u) => Some(u.stored_session.name),
                UserInfo::Anonymous(_) => None,
            },
    {
        match self {
            UserInfo::Oidc(u) => Some(u.username()),
            UserInfo::Anonymous(u) => u.username(),
        }
    }

    /// What the user is identified by. It may be the same as the name.
    pub fn subject(&self) -> (r: Option<String>)
        ensures
            r == match *self {
                UserInfo::Oidc(u) => Some(u.stored_session.subject),
                UserInfo::Anonymous(_) => None,
            },
    {
        match self {
            UserInfo::Oidc(u) => Some(u.subject()),
            UserInfo::Anonymous(u) => u.subject(),
        }
    }

    /// The user's email address.
    pub fn email(&self) -> (r: Option<String>)
        ensures
            r == match *self {
                UserInfo::Oidc(u) => u.stored_session.email,
                UserInfo::Anonymous(_) => None,
            },
    {
        match self {
            UserInfo::Oidc(u) => u.email(),
            UserInfo::Anonymous(u) => u.email(),
        }
    }

    /// The sign-in still holds at the given time.
    pub open spec fn valid_at(self, now: u128) -> bool {
        match self {
            UserInfo::Oidc(u) => u.valid_at(now),
            UserInfo::Anonymous(_) => true,
        }
    }

    /// Whether the sign-in still holds at the given time, in nanoseconds since the Unix epoch.
    pub fn is_valid(&self, now: u128) -> (r: bool)
        requires
            now <= u128::MAX - 20_000_000_000,
        ensures
            r == self.valid_at(now),
    {
        match self {
            UserInfo::Oidc(u) => u.is_valid(now),
            UserInfo::Anonymous(u) => u.is_valid(),
        }
    }

    /// The token to send with requests.
    pub fn bearer_token(&self) -> (r: Option<String>)
        ensures
            r == match *self {
                UserInfo::Oidc(u) => Some(u.access_token),
                UserInfo::Anonymous(_) => None,
            },
    {
        match self {
            UserInfo::Oidc(u) => Some(u.bearer_token()),
            UserInfo::Anonymous(u) => u.bearer_token(),
        }
    }

    /// The same user once more.
    pub fn clone_box(&self) -> (r: UserInfo)
        ensures
            r == *self,
    {
        match self {
            UserInfo::Oidc(u) => UserInfo::Oidc(u.duplicate()),
            UserInfo::Anonymous(u) => UserInfo::Anonymous(*u),
        }
    }
}

/// An error of a way to sign in.
#[derive(Debug)]
pub enum AuthError {
    Oidc(OidcAuthError),
}

/// The user, by the way that a server asks to sign in and from what OpenID Connect came to.
pub open spec fn signed_in(auth: AuthConfig, oidc: Result<OidcUserInfo, OidcAuthError>) -> Result<
    UserInfo,
    AuthError,
> {
    match auth {
        AuthConfig::Oidc(_) => match oidc {
            Ok(user) => Ok(UserInfo::Oidc(user)),
            Err(e) => Err(AuthError::Oidc(e)),
        },
        AuthConfig::NoAuth => Ok(UserInfo::Anonymous(NoneUserInfo)),
    }
}

/// The user of a server, by the way that the server asks to sign in: from what OpenID Connect came
/// to, or without any question.
pub fn authenticate(info: &ServerInfo, oidc: Result<OidcUserInfo, OidcAuthError>) -> (r: Result<
    UserInfo,
    AuthError,
>)
    ensures
        r == signed_in(info.auth, oidc),
{
    match &info.auth {
        AuthConfig::Oidc(_) => match oidc {
            Ok(user) => Ok(UserInfo::Oidc(user)),
            Err(e) => Err(AuthError::Oidc(e)),
        },
        AuthConfig::NoAuth => Ok(UserInfo::Anonymous(NoneUserInfo)),
    }
}


/// A user is signed in the way that the server asks for: by what OpenID Connect came to, whether
/// good or bad, or without any question.
pub proof fn the_server_says_how_to_sign_in(
    auth: AuthConfig,
    oidc: Result<OidcUserInfo, OidcAuthError>,
)
    ensures
        auth is NoAuth ==> signed_in(auth, oidc) == Ok::<_, AuthError>(
            UserInfo::Anonymous(NoneUserInfo),
        ),
        auth is Oidc ==> (signed_in(auth, oidc) is Ok <==> oidc is Ok),
        auth is Oidc && oidc is Ok ==> signed_in(auth, oidc)->Ok_0 == UserInfo::Oidc(oidc->Ok_0),
        auth is Oidc && oidc is Err ==> signed_in(auth, oidc)->Err_0 == AuthError::Oidc(
            oidc->Err_0,
        ),
{
}

/// Who was not asked never has to sign in again, and who was asked has to as the session says.
pub proof fn unknown_users_stay_signed_in(user: UserInfo, now: u128)
    ensures
        user is Anonymous ==> user.valid_at(now),
        user is Oidc ==> (user.valid_at(now) <==> user->Oidc_0.valid_at(now)),
{
}

} // verus!
