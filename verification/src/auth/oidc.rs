//! Signing in with OpenID Connect.

use crate::auth::handshake::{
    append_pairs, pair_texts, parse_url, url_parts, url_with_pairs, OidcAuthConfig,
    UrlParts, URL_TEXT_LIMIT,
};
use crate::auth::redirect_server::RedirectServerError;
use crate::content::text_bytes;
use crate::digest::{blake3_hash, FileHasher};
use crate::history::hash_text;
use crate::text::{decimal, decimal_text, joined, joined3, list_has, same_text, texts};
use vstd::prelude::*;
use vstd::string::*;
use vstd::utf8::*;

verus! {

/// Why signing in or out failed.
#[derive(Debug)]
pub enum OidcAuthError {
    Reqwest(String),
    InvalidIssuer(String),
    Discovery(String),
    Configuration(String),
    CodeExchange(String),
    Io(String),
    Redirect(RedirectServerError),
    NoIdToken,
    NoAccessTokenExpiry,
    NoRefreshToken,
    TokenTypeNotSupported(String),
    ClaimsVerification(String),
    SignatureVerification(String),
    Signing(String),
    TokenMismatch,
}

impl OidcAuthError {
    /// The error as the user reads it.
    pub open spec fn text(self) -> Seq<char> {
        match self {
            OidcAuthError::Reqwest(e) => e@,
            OidcAuthError::InvalidIssuer(url) => "invalid issuer URL: "@ + url@,
            OidcAuthError::Discovery(e) => "discovery failed "@ + e@,
            OidcAuthError::Configuration(e) => e@,
            OidcAuthError::CodeExchange(e) => "code exchange failed "@ + e@,
            OidcAuthError::Io(e) => e@,
            OidcAuthError::Redirect(e) => e.text(),
            OidcAuthError::NoIdToken => "the authentication server did not provide an ID token"@,
            OidcAuthError::NoAccessTokenExpiry =>
                "the authentication server did not provide an access token expiry"@,
            OidcAuthError::NoRefreshToken => "we didn't have a stored refresh token"@,
            OidcAuthError::TokenTypeNotSupported(t) =>
                "the authentication server provided an incompatible token type "@ + t@,
            OidcAuthError::ClaimsVerification(e) => e@,
            OidcAuthError::SignatureVerification(e) => e@,
            OidcAuthError::Signing(e) => e@,
            OidcAuthError::TokenMismatch =>
                "the returned access token mismatched the expected access token hash"@,
        }
    }

    /// The error as the user reads it.
    pub fn to_text(&self) -> (r: String)
        ensures
            r@ == self.text(),
    {
        match self {
            OidcAuthError::Reqwest(e) => e.clone(),
            OidcAuthError::InvalidIssuer(url) => joined("invalid issuer URL: ", url.as_str()),
            OidcAuthError::Discovery(e) => joined("discovery failed ", e.as_str()),
            OidcAuthError::Configuration(e) => e.clone(),
            OidcAuthError::CodeExchange(e) => joined("code exchange failed ", e.as_str()),
            OidcAuthError::Io(e) => e.clone(),
            OidcAuthError::Redirect(e) => e.to_text(),
            OidcAuthError::NoIdToken =>
                "the authentication server did not provide an ID token".to_owned(),
            OidcAuthError::NoAccessTokenExpiry =>
                "the authentication server did not provide an access token expiry".to_owned(),
            OidcAuthError::NoRefreshToken => "we didn't have a stored refresh token".to_owned(),
            OidcAuthError::TokenTypeNotSupported(t) => joined(
                "the authentication server provided an incompatible token type ",
                t.as_str(),
            ),
            OidcAuthError::ClaimsVerification(e) => e.clone(),
            OidcAuthError::SignatureVerification(e) => e.clone(),
            OidcAuthError::Signing(e) => e.clone(),
            OidcAuthError::TokenMismatch =>
                "the returned access token mismatched the expected access token hash".to_owned(),
        }
    }
}

/// What is kept of a session between runs.
#[derive(Debug)]
pub struct StoredOidcSession {
    pub refresh_token: Option<String>,
    pub id_token: String,
    pub subject: String,
    pub name: String,
    pub email: Option<String>,
}

fn same_optional(text: &Option<String>) -> (r: Option<String>)
    ensures
        r == *text,
{
    match text {
        Some(t) => Some(t.clone()),
        None => None,
    }
}

impl StoredOidcSession {
    pub fn duplicate(&self) -> (r: StoredOidcSession)
        ensures
            r == *self,
    {
        StoredOidcSession {
            refresh_token: same_optional(&self.refresh_token),
            id_token: self.id_token.clone(),
            subject: self.subject.clone(),
            name: self.name.clone(),
            email: same_optional(&self.email),
        }
    }
}

/// What is kept of a session, in texts: the refresh token, the id token, the subject, the name and the
/// email address.
pub type SessionTexts = (Option<Seq<char>>, Seq<char>, Seq<char>, Seq<char>, Option<Seq<char>>);

impl View for StoredOidcSession {
    type V = SessionTexts;

    open spec fn view(&self) -> SessionTexts {
        (
            match self.refresh_token {
                Some(t) => Some(t@),
                None => None,
            },
            self.id_token@,
            self.subject@,
            self.name@,
            match self.email {
                Some(t) => Some(t@),
                None => None,
            },
        )
    }
}

/// The session in stored bytes; nothing where the bytes are no session.
pub uninterp spec fn session_in(bytes: Seq<u8>) -> Option<SessionTexts>;

/// The bytes under which a session is stored; nothing for a session that cannot be stored.
pub uninterp spec fn session_bytes(session: SessionTexts) -> Option<Seq<u8>>;

/// The most bytes that a stored text may have.
pub const TEXT_LIMIT: usize = 4194304;

/// The text is not too long to be stored.
pub open spec fn is_storable(text: Seq<char>) -> bool {
    encode_utf8(text).len() <= TEXT_LIMIT
}

/// None of the texts is too long to be stored.
pub open spec fn all_storable(session: SessionTexts) -> bool {
    &&& session.0 matches Some(t) ==> is_storable(t)
    &&& is_storable(session.1)
    &&& is_storable(session.2)
    &&& is_storable(session.3)
    &&& session.4 matches Some(t) ==> is_storable(t)
}

/// `wincode::deserialize` of the texts of a session.
#[verifier::external_body]
fn read_session(bytes: &Vec<u8>) -> (r: Option<StoredOidcSession>)
    ensures
        (match r {
            Some(s) => Some(s@),
            None => None,
        }) == session_in(bytes@),
{
    let texts: (Option<String>, String, String, String, Option<String>) =
        wincode::deserialize(bytes).ok()?;
    let (refresh_token, id_token, subject, name, email) = texts;
    Some(StoredOidcSession { refresh_token, id_token, subject, name, email })
}

/// `wincode::serialize` of the texts of a session: it fails where one of them is longer than four
/// mebibytes, and what it gives reads back as what it was given.
#[verifier::external_body]
fn write_session(session: StoredOidcSession) -> (r: Option<Vec<u8>>)
    ensures
        (match r {
            Some(b) => Some(b@),
            None => None,
        }) == session_bytes(session@),
        r is Some <==> all_storable(session@),
        (r matches Some(b) ==> session_in(b@) == Some(session@)),
{
    let s = session;
    wincode::serialize(&(s.refresh_token, s.id_token, s.subject, s.name, s.email)).ok()
}

/// A user who signed in with OpenID Connect. Times are in nanoseconds since the Unix epoch.
#[derive(Debug)]
pub struct OidcUserInfo {
    pub access_token: String,
    pub access_token_expiry: u128,
    pub stored_session: StoredOidcSession,
}

impl OidcUserInfo {
    pub fn duplicate(&self) -> (r: OidcUserInfo)
        ensures
            r == *self,
    {
        OidcUserInfo {
            access_token: self.access_token.clone(),
            access_token_expiry: self.access_token_expiry,
            stored_session: self.stored_session.duplicate(),
        }
    }

    pub fn username(&self) -> (r: String)
        ensures
            r == self.stored_session.name,
    {
        self.stored_session.name.clone()
    }

    pub fn subject(&self) -> (r: String)
        ensures
            r == self.stored_session.subject,
    {
        self.stored_session.subject.clone()
    }

    pub fn email(&self) -> (r: Option<String>)
        ensures
            r == self.stored_session.email,
    {
        same_optional(&self.stored_session.email)
    }

    /// The access token lasts for more than twenty seconds from the given time.
    pub open spec fn valid_at(self, now: u128) -> bool {
        self.access_token_expiry > now + 20_000_000_000
    }

    /// Whether the access token lasts for more than twenty seconds from the given time.
    pub fn is_valid(&self, now: u128) -> (r: bool)
        requires
            now <= u128::MAX - 20_000_000_000,
        ensures
            r == self.valid_at(now),
    {
        self.access_token_expiry > now + 20_000_000_000
    }

    pub fn bearer_token(&self) -> (r: String)
        ensures
            r == self.access_token,
    {
        self.access_token.clone()
    }
}

/// The type of an access token.
#[derive(Debug)]
pub enum TokenType {
    Bearer,
    Other(String),
}

/// What the sign-in server answers when it is asked for tokens.
#[derive(Debug)]
pub struct TokenAnswer {
    pub access_token: String,
    pub token_type: TokenType,
    /// How long the access token lasts, in nanoseconds.
    pub expires_in: Option<u128>,
    pub refresh_token: Option<String>,
    pub id_token: Option<String>,
    pub scopes: Option<Vec<String>>,
}

/// What an id token says of a user, once it has been verified.
#[derive(Debug)]
pub struct IdClaims {
    pub subject: String,
    /// The user's name in each language; one of them may be in no particular language.
    pub names: Vec<(Option<String>, String)>,
    pub email: Option<String>,
    pub access_token_hash: Option<String>,
}

/// The host is the machine itself. A URL gives an IPv6 address in brackets.
pub open spec fn is_local(host: Option<Seq<char>>) -> bool {
    match host {
        Some(h) => h == "localhost"@ || h == "127.0.0.1"@ || h == "[::1]"@,
        None => false,
    }
}

fn local_host(host: &Option<String>) -> (r: bool)
    ensures
        r == is_local(
            match *host {
                Some(h) => Some(h@),
                None => None,
            },
        ),
{
    match host {
        Some(h) => same_text(h.as_str(), "localhost") || same_text(h.as_str(), "127.0.0.1")
            || same_text(h.as_str(), "[::1]"),
        None => false,
    }
}

/// The host of a URL.
pub open spec fn host_of(url: Seq<char>) -> Option<Seq<char>> {
    match url_parts(url) {
        Some(parts) => parts.host,
        None => None,
    }
}

/// Certificates are accepted that do not hold.
pub open spec fn accepts_invalid_certs(issuer: UrlParts, server_host: Option<Seq<char>>) -> bool {
    issuer.scheme == "https"@ && is_local(issuer.host) && is_local(server_host)
}

/// The first name in the given language.
pub open spec fn name_in(names: Seq<(Option<String>, String)>, language: Option<Seq<char>>) -> Option<
    String,
>
    decreases names.len(),
{
    if names.len() == 0 {
        None
    } else {
        let here = match names[0].0 {
            Some(l) => language == Some(l@),
            None => language is None,
        };
        if here {
            Some(names[0].1)
        } else {
            name_in(names.skip(1), language)
        }
    }
}

fn find_name(names: &Vec<(Option<String>, String)>, language: Option<&str>) -> (r: Option<String>)
    ensures
        r == name_in(
            names@,
            (match language {
                Some(l) => Some(l@),
                None => None,
            }),
        ),
{
    let ghost wanted = match language {
        Some(l) => Some(l@),
        None => None,
    };
    let mut i: usize = 0;
    assert(names@.skip(0) == names@);
    while i < names.len()
        invariant
            i <= names.len(),
            wanted == (match language {
                Some(l) => Some(l@),
                None => None,
            }),
            name_in(names@, wanted) == name_in(names@.skip(i as int), wanted),
        decreases names.len() - i,
    {
        let here = match (&names[i].0, language) {
            (Some(a), Some(b)) => same_text(a.as_str(), b),
            (None, None) => true,
            _ => false,
        };
        if here {
            return Some(names[i].1.clone());
        }
        assert(names@.skip(i as int).skip(1) == names@.skip(i + 1));
        i = i + 1;
    }
    None
}

/// The name that a user is shown by: the American English one, else the one in no particular
/// language, else a stand-in.
pub open spec fn is_shown_name(names: Seq<(Option<String>, String)>, name: String) -> bool {
    match name_in(names, Some("en-US"@)) {
        Some(n) => name == n,
        None => match name_in(names, None) {
            Some(n) => name == n,
            None => name@ == "<anonymous>"@,
        },
    }
}

/// When an access token expires, or why that is not known.
pub open spec fn expiry(now: u128, expires_in: Option<u128>) -> Result<u128, OidcAuthError> {
    match expires_in {
        Some(d) => if now + d <= u128::MAX {
            Ok((now + d) as u128)
        } else {
            Err(OidcAuthError::NoAccessTokenExpiry)
        },
        None => Err(OidcAuthError::NoAccessTokenExpiry),
    }
}

/// A port is written with five digits at most.
proof fn lemma_port_is_short(port: u16)
    ensures
        decimal(port as nat).len() <= 5,
{
    reveal_with_fuel(decimal, 5);
}

impl OidcAuthenticator {
    /// When an access token expires, or why that is not known.
    pub fn access_token_expiry(now: u128, expires_in: Option<u128>) -> (r: Result<u128, OidcAuthError>)
        ensures
            r == expiry(now, expires_in),
    {
        match expires_in {
            Some(d) => match now.checked_add(d) {
                Some(at) => Ok(at),
                None => Err(OidcAuthError::NoAccessTokenExpiry),
            },
            None => Err(OidcAuthError::NoAccessTokenExpiry),
        }
    }
}

/// What the sign-in server answered is refused because it holds no id token, the id token is not
/// genuine, or the access token is not the one that the id token vouches for.
pub open spec fn token_fault(
    answer: TokenAnswer,
    claims: Result<IdClaims, OidcAuthError>,
    actual_hash: Result<String, OidcAuthError>,
) -> Option<OidcAuthError> {
    if answer.id_token is None {
        Some(OidcAuthError::NoIdToken)
    } else {
        match claims {
            Err(e) => Some(e),
            Ok(c) => match c.access_token_hash {
                None => None,
                Some(expected) => match actual_hash {
                    Err(e) => Some(e),
                    Ok(actual) => if actual@ == expected@ {
                        None
                    } else {
                        Some(OidcAuthError::TokenMismatch)
                    },
                },
            },
        }
    }
}

/// The user is the one that the answer and the claims speak of.
pub open spec fn is_user_of(
    answer: TokenAnswer,
    claims: IdClaims,
    expires: u128,
    user: OidcUserInfo,
) -> bool {
    &&& user.access_token == answer.access_token
    &&& user.access_token_expiry == expires
    &&& user.stored_session.refresh_token == answer.refresh_token
    &&& user.stored_session.id_token == answer.id_token->0
    &&& user.stored_session.subject == claims.subject
    &&& user.stored_session.email == claims.email
    &&& is_shown_name(claims.names@, user.stored_session.name)
}

/// The outcome of a sign-in, from what the sign-in server answered.
pub open spec fn is_login(
    answer: TokenAnswer,
    claims: Result<IdClaims, OidcAuthError>,
    actual_hash: Result<String, OidcAuthError>,
    now: u128,
    r: Result<OidcUserInfo, OidcAuthError>,
) -> bool {
    match token_fault(answer, claims, actual_hash) {
        Some(e) => r == Err::<OidcUserInfo, _>(e),
        None => match expiry(now, answer.expires_in) {
            Err(e) => r == Err::<OidcUserInfo, _>(e),
            Ok(expires) => match answer.token_type {
                TokenType::Other(t) => r == Err::<OidcUserInfo, _>(
                    OidcAuthError::TokenTypeNotSupported(t),
                ),
                TokenType::Bearer => (r matches Ok(user) && is_user_of(
                    answer,
                    claims->Ok_0,
                    expires,
                    user,
                )),
            },
        },
    }
}

/// How to sign in, once the stored session is looked at.
#[derive(Debug)]
pub enum LoginPlan {
    /// Use the session's refresh token; if that fails, ask the user.
    Refresh(StoredOidcSession),
    /// Ask the user.
    Interactive,
}

/// What reading the stored session came to.
#[derive(Debug)]
pub enum SessionRead {
    Found(StoredOidcSession),
    /// There is none.
    NoEntry,
    /// It could not be read.
    Failed(String),
}

/// What reading the keyring came to.
#[derive(Debug)]
pub enum KeyringRead {
    Secret(Vec<u8>),
    /// There is none.
    NoEntry,
    /// It could not be read.
    Failed(String),
}

/// A text of the session is too long to be stored.
#[derive(Clone, Copy, Debug, PartialEq, Eq, Structural)]
pub struct SessionTooLong;

/// Signs in with OpenID Connect.
#[derive(Debug)]
pub struct OidcAuthenticator {
    pub config: OidcAuthConfig,
    /// The URL of the server to sign in to.
    pub server_url: String,
}

impl OidcAuthenticator {
    pub fn new(config: OidcAuthConfig, server_url: String) -> (r: OidcAuthenticator)
        ensures
            r == (OidcAuthenticator { config, server_url }),
    {
        OidcAuthenticator { config, server_url }
    }

    /// Whether certificates are accepted that do not hold: only where both the server and its
    /// sign-in server, reached over HTTPS, are on the machine itself.
    pub fn should_accept_invalid_certs(&self) -> (r: Result<bool, OidcAuthError>)
        ensures
            match url_parts(self.config.issuer@) {
                None => r == Err::<bool, _>(OidcAuthError::InvalidIssuer(self.config.issuer)),
                Some(issuer) => r == Ok::<bool, OidcAuthError>(
                    accepts_invalid_certs(issuer, host_of(self.server_url@)),
                ),
            },
    {
        match parse_url(self.config.issuer.as_str()) {
            None => Err(OidcAuthError::InvalidIssuer(self.config.issuer.clone())),
            Some(issuer) => {
                let server_host = match parse_url(self.server_url.as_str()) {
                    Some(url) => url.host,
                    None => None,
                };
                Ok(
                    same_text(issuer.scheme.as_str(), "https") && local_host(&issuer.host)
                        && local_host(&server_host),
                )
            },
        }
    }

    /// Where the browser is sent back to after signing in.
    pub fn redirect_uri(&self) -> (r: String)
        ensures
            r@ == "http://localhost:"@ + decimal(self.config.redirect_port as nat)
                + "/auth/oidc/callback"@,
    {
        let port = decimal_text(self.config.redirect_port as u64);
        joined3("http://localhost:", port.as_str(), "/auth/oidc/callback")
    }

    /// Where the browser is sent back to after signing out.
    pub fn post_logout_redirect_uri(&self) -> (r: String)
        ensures
            r@ == "http://localhost:"@ + decimal(self.config.redirect_port as nat)
                + "/auth/oidc/logged_out"@,
    {
        let port = decimal_text(self.config.redirect_port as u64);
        joined3("http://localhost:", port.as_str(), "/auth/oidc/logged_out")
    }

    /// The scopes that are asked for.
    pub fn requested_scopes() -> (r: Vec<String>)
        ensures
            texts(r@) == seq!["email"@, "profile"@, "offline_access"@],
    {
        let mut scopes: Vec<String> = Vec::new();
        scopes.push("email".to_owned());
        scopes.push("profile".to_owned());
        scopes.push("offline_access".to_owned());
        assert(texts(scopes@) == seq!["email"@, "profile"@, "offline_access"@]);
        scopes
    }

    /// The scopes that were asked for and not granted, in order.
    pub fn missing_scopes(requested: &Vec<String>, used: &Vec<String>) -> (r: Vec<String>)
        ensures
            texts(r@) == not_in(texts(requested@), texts(used@)),
    {
        let mut missing: Vec<String> = Vec::new();
        let ghost all = texts(requested@);
        let mut i: usize = 0;
        assert(all.take(0) == Seq::<Seq<char>>::empty());
        assert(texts(missing@) == Seq::<Seq<char>>::empty());
        while i < requested.len()
            invariant
                i <= requested.len(),
                all == texts(requested@),
                texts(missing@) == not_in(all.take(i as int), texts(used@)),
            decreases requested.len() - i,
        {
            assert(all.take(i + 1).drop_last() == all.take(i as int));
            assert(all.take(i + 1).last() == requested@[i as int]@);
            if !list_has(used, requested[i].as_str()) {
                let ghost before = texts(missing@);
                missing.push(requested[i].clone());
                assert(texts(missing@) == before.push(requested@[i as int]@));
            }
            i = i + 1;
        }
        assert(all.take(all.len() as int) == all);
        missing
    }

    /// How to sign in: with the stored session, where there is one.
    pub fn authenticate(stored: Option<StoredOidcSession>) -> (r: LoginPlan)
        ensures
            r == match stored {
                Some(session) => LoginPlan::Refresh(session),
                None => LoginPlan::Interactive,
            },
    {
        match stored {
            Some(session) => LoginPlan::Refresh(session),
            None => LoginPlan::Interactive,
        }
    }

    /// The user who signed in, or why the sign-in does not count. `claims` is what verifying the
    /// id token came to, and `actual_hash` the hash of the access token; each is looked at only
    /// where it is needed.
    pub fn interactive_login(
        answer: TokenAnswer,
        claims: Result<IdClaims, OidcAuthError>,
        actual_hash: Result<String, OidcAuthError>,
        now: u128,
    ) -> (r: Result<OidcUserInfo, OidcAuthError>)
        ensures
            is_login(answer, claims, actual_hash, now, r),
    {
        let id_token = match answer.id_token {
            Some(token) => token,
            None => {
                return Err(OidcAuthError::NoIdToken);
            },
        };
        let claims = match claims {
            Ok(claims) => claims,
            Err(e) => {
                return Err(e);
            },
        };
        if let Some(expected) = &claims.access_token_hash {
            let actual = match actual_hash {
                Ok(hash) => hash,
                Err(e) => {
                    return Err(e);
                },
            };
            if !same_text(actual.as_str(), expected.as_str()) {
                return Err(OidcAuthError::TokenMismatch);
            }
        }
        let expires = match OidcAuthenticator::access_token_expiry(now, answer.expires_in) {
            Ok(at) => at,
            Err(e) => {
                return Err(e);
            },
        };
        match answer.token_type {
            TokenType::Bearer => {},
            TokenType::Other(t) => {
                return Err(OidcAuthError::TokenTypeNotSupported(t));
            },
        }
        let name = match find_name(&claims.names, Some("en-US")) {
            Some(name) => name,
            None => match find_name(&claims.names, None) {
                Some(name) => name,
                None => "<anonymous>".to_owned(),
            },
        };
        Ok(
            OidcUserInfo {
                access_token: answer.access_token,
                access_token_expiry: expires,
                stored_session: StoredOidcSession {
                    refresh_token: answer.refresh_token,
                    id_token,
                    subject: claims.subject,
                    name,
                    email: claims.email,
                },
            },
        )
    }

    /// The token to refresh a session with.
    pub fn refresh_token(session: &StoredOidcSession) -> (r: Result<&String, OidcAuthError>)
        ensures
            match session.refresh_token {
                Some(token) => r == Ok::<&String, OidcAuthError>(&token),
                None => r == Err::<&String, _>(OidcAuthError::NoRefreshToken),
            },
    {
        match &session.refresh_token {
            Some(token) => Ok(token),
            None => Err(OidcAuthError::NoRefreshToken),
        }
    }

    /// The session to store after it was refreshed: with the new refresh token, where there is
    /// one.
    pub fn refreshed_session(session: &StoredOidcSession, answer: &TokenAnswer) -> (r: Result<
        StoredOidcSession,
        OidcAuthError,
    >)
        ensures
            r == session_to_keep(*session, *answer),
    {
        match &answer.token_type {
            TokenType::Bearer => {},
            TokenType::Other(t) => {
                return Err(OidcAuthError::TokenTypeNotSupported(t.clone()));
            },
        }
        let mut session = session.duplicate();
        if let Some(token) = &answer.refresh_token {
            session.refresh_token = Some(token.clone());
        }
        Ok(session)
    }

    /// The user of a refreshed session, or why it cannot be used.
    pub fn refresh_login(session: StoredOidcSession, answer: TokenAnswer, now: u128) -> (r: Result<
        OidcUserInfo,
        OidcAuthError,
    >)
        ensures
            r == refreshed_user(session, answer, now),
    {
        match OidcAuthenticator::access_token_expiry(now, answer.expires_in) {
            Ok(expires) => Ok(
                OidcUserInfo {
                    access_token: answer.access_token,
                    access_token_expiry: expires,
                    stored_session: session,
                },
            ),
            Err(e) => Err(e),
        }
    }

    /// The session to sign out of. Where none is stored, or it cannot be read, there is nothing
    /// to sign out of, which is no error.
    pub fn deauthenticate(read: SessionRead) -> (r: Option<StoredOidcSession>)
        ensures
            r == match read {
                SessionRead::Found(session) => Some(session),
                _ => None,
            },
    {
        match read {
            SessionRead::Found(session) => Some(session),
            _ => None,
        }
    }

    /// What the browser is sent along with to sign out.
    pub open spec fn logout_pairs(&self, id_token: Seq<char>, state: Seq<char>) -> Seq<
        (Seq<char>, Seq<char>),
    > {
        seq![
            ("id_token_hint"@, id_token),
            (
                "post_logout_redirect_uri"@,
                "http://localhost:"@ + decimal(self.config.redirect_port as nat)
                    + "/auth/oidc/logged_out"@,
            ),
            ("client_id"@, self.config.client_id@),
            ("state"@, state),
        ]
    }

    /// What the browser is sent along with to sign out.
    pub fn logout_query(&self, session: &StoredOidcSession, state: &str) -> (r: Vec<
        (String, String),
    >)
        ensures
            pair_texts(r@) == self.logout_pairs(session.id_token@, state@),
    {
        let uri = self.post_logout_redirect_uri();
        let mut pairs: Vec<(String, String)> = Vec::new();
        pairs.push(("id_token_hint".to_owned(), session.id_token.clone()));
        pairs.push(("post_logout_redirect_uri".to_owned(), uri));
        pairs.push(("client_id".to_owned(), self.config.client_id.clone()));
        pairs.push(("state".to_owned(), state.to_owned()));
        assert(pair_texts(pairs@) =~= self.logout_pairs(session.id_token@, state@));
        pairs
    }

    /// The page at which the user signs out; nothing where the provider's endpoint is no URL.
    pub fn logout_url(&self, endpoint: &str, session: &StoredOidcSession, state: &str) -> (r:
        Option<String>)
        requires
            endpoint@.len() <= URL_TEXT_LIMIT,
            session.id_token@.len() <= URL_TEXT_LIMIT,
            self.config.client_id@.len() <= URL_TEXT_LIMIT,
            state@.len() <= URL_TEXT_LIMIT,
        ensures
            (match r {
                Some(u) => Some(u@),
                None => None,
            }) == url_with_pairs(endpoint@, self.logout_pairs(session.id_token@, state@)),
    {
        let pairs = self.logout_query(session, state);
        proof {
            reveal_strlit("id_token_hint");
            reveal_strlit("post_logout_redirect_uri");
            reveal_strlit("client_id");
            reveal_strlit("state");
            reveal_strlit("http://localhost:");
            reveal_strlit("/auth/oidc/logged_out");
            lemma_port_is_short(self.config.redirect_port);
        }
        append_pairs(endpoint, &pairs)
    }

    /// The stored session, from what reading the keyring came to.
    pub fn retrieve_session(read: KeyringRead) -> (r: SessionRead)
        ensures
            is_session_read(read, r),
    {
        match read {
            KeyringRead::Secret(bytes) => match read_session(&bytes) {
                Some(session) => SessionRead::Found(session),
                None => SessionRead::Failed("the stored session cannot be read".to_owned()),
            },
            KeyringRead::NoEntry => SessionRead::NoEntry,
            KeyringRead::Failed(e) => SessionRead::Failed(e),
        }
    }

    /// The bytes that are put into the keyring for a session, which read back as the session.
    pub fn store_session(session: StoredOidcSession) -> (r: Result<Vec<u8>, SessionTooLong>)
        ensures
            r is Ok <==> all_storable(session@),
            r matches Ok(b) ==> Some(b@) == session_bytes(session@) && session_in(b@) == Some(
                session@,
            ),
    {
        match write_session(session) {
            Some(bytes) => Ok(bytes),
            None => Err(SessionTooLong),
        }
    }

    /// The name under which the session is kept in the keyring: one for each server, client and
    /// sign-in server.
    pub fn keyring_username(&self) -> (r: String)
        ensures
            r@ == hash_text(
                blake3_hash(
                    encode_utf8("backstitch/auth/oidc"@) + encode_utf8(self.server_url@)
                        + encode_utf8(self.config.client_id@) + encode_utf8(self.config.issuer@),
                ),
            ),
    {
        let mut hasher = FileHasher::new();
        let domain = text_bytes("backstitch/auth/oidc");
        hasher.update(domain.as_slice());
        assert(hasher@ == encode_utf8("backstitch/auth/oidc"@));
        let server = text_bytes(self.server_url.as_str());
        hasher.update(server.as_slice());
        let client = text_bytes(self.config.client_id.as_str());
        hasher.update(client.as_slice());
        let issuer = text_bytes(self.config.issuer.as_str());
        hasher.update(issuer.as_slice());
        hasher.finish().to_text()
    }
}

/// The session to store after it was refreshed, or why the answer cannot be used.
pub open spec fn session_to_keep(session: StoredOidcSession, answer: TokenAnswer) -> Result<
    StoredOidcSession,
    OidcAuthError,
> {
    match answer.token_type {
        TokenType::Other(t) => Err(OidcAuthError::TokenTypeNotSupported(t)),
        TokenType::Bearer => Ok(with_refresh_token(session, answer.refresh_token)),
    }
}

/// The user of a refreshed session, or why it cannot be used.
pub open spec fn refreshed_user(
    session: StoredOidcSession,
    answer: TokenAnswer,
    now: u128,
) -> Result<OidcUserInfo, OidcAuthError> {
    match expiry(now, answer.expires_in) {
        Err(e) => Err(e),
        Ok(expires) => Ok(
            OidcUserInfo {
                access_token: answer.access_token,
                access_token_expiry: expires,
                stored_session: session,
            },
        ),
    }
}

/// The stored session, from what reading the keyring came to.
pub open spec fn is_session_read(read: KeyringRead, r: SessionRead) -> bool {
    match read {
        KeyringRead::Secret(bytes) => match session_in(bytes@) {
            Some(texts) => r matches SessionRead::Found(s) && s@ == texts,
            None => r matches SessionRead::Failed(e) && e@ == "the stored session cannot be read"@,
        },
        KeyringRead::NoEntry => r == SessionRead::NoEntry,
        KeyringRead::Failed(e) => r == SessionRead::Failed(e),
    }
}

/// The session with a new refresh token, where there is one.
pub open spec fn with_refresh_token(
    session: StoredOidcSession,
    token: Option<String>,
) -> StoredOidcSession {
    match token {
        Some(_) => (StoredOidcSession { refresh_token: token, ..session }),
        None => session,
    }
}

/// The texts that are not in another list, in order.
pub open spec fn not_in(list: Seq<Seq<char>>, other: Seq<Seq<char>>) -> Seq<Seq<char>>
    decreases list.len(),
{
    if list.len() == 0 {
        Seq::empty()
    } else if other.contains(list.last()) {
        not_in(list.drop_last(), other)
    } else {
        not_in(list.drop_last(), other).push(list.last())
    }
}

/// Nobody is signed in without an id token that was verified, nor with an access token that the id
/// token does not vouch for, nor with a token of another type than a bearer token.
pub proof fn login_needs_proof(
    answer: TokenAnswer,
    claims: Result<IdClaims, OidcAuthError>,
    actual_hash: Result<String, OidcAuthError>,
    now: u128,
    r: Result<OidcUserInfo, OidcAuthError>,
)
    requires
        is_login(answer, claims, actual_hash, now, r),
        r is Ok,
    ensures
        answer.id_token is Some,
        claims is Ok,
        claims->Ok_0.access_token_hash matches Some(expected) ==> actual_hash is Ok
            && actual_hash->Ok_0@ == expected@,
        answer.token_type is Bearer,
        answer.expires_in is Some,
{
}

/// The language of a name in the claims.
pub open spec fn language_of(name: (Option<String>, String)) -> Option<Seq<char>> {
    match name.0 {
        Some(l) => Some(l@),
        None => None,
    }
}

/// A user is shown by the first American English name in the claims; where there is none, by the
/// first name in no particular language; and as anonymous only where there is neither.
pub proof fn users_are_shown_by_their_name(names: Seq<(Option<String>, String)>, name: String)
    requires
        is_shown_name(names, name),
    ensures
        forall|i: int|
            0 <= i < names.len() && language_of(#[trigger] names[i]) == Some("en-US"@) && (forall|
                j: int,
            |
                0 <= j < i ==> language_of(#[trigger] names[j]) != Some("en-US"@)) ==> name
                == names[i].1,
        (forall|j: int|
            0 <= j < names.len() ==> language_of(#[trigger] names[j]) != Some("en-US"@)) ==> (
        forall|i: int|
            0 <= i < names.len() && language_of(#[trigger] names[i]) is None && (forall|j: int|
                0 <= j < i ==> language_of(#[trigger] names[j]) is Some) ==> name == names[i].1),
        (forall|j: int|
            0 <= j < names.len() ==> language_of(#[trigger] names[j]) != Some("en-US"@)
                && language_of(names[j]) is Some) ==> name@ == "<anonymous>"@,
{
    lemma_first_name(names, Some("en-US"@));
    lemma_first_name(names, None);
}

proof fn lemma_first_name(names: Seq<(Option<String>, String)>, language: Option<Seq<char>>)
    ensures
        name_in(names, language) is None <==> forall|j: int|
            0 <= j < names.len() ==> language_of(#[trigger] names[j]) != language,
        forall|i: int|
            0 <= i < names.len() && language_of(#[trigger] names[i]) == language && (forall|j: int|
                0 <= j < i ==> language_of(#[trigger] names[j]) != language) ==> name_in(
                names,
                language,
            ) == Some(names[i].1),
    decreases names.len(),
{
    if names.len() > 0 {
        let rest = names.skip(1);
        lemma_first_name(rest, language);
        if language_of(names[0]) != language {
            assert forall|i: int|
                0 <= i < names.len() && language_of(#[trigger] names[i]) == language && (forall|
                    j: int,
                |
                    0 <= j < i ==> language_of(#[trigger] names[j]) != language) implies name_in(
                names,
                language,
            ) == Some(names[i].1) by {
                assert(rest[i - 1] == names[i]);
                assert forall|j: int| 0 <= j < i - 1 implies language_of(#[trigger] rest[j])
                    != language by {
                    assert(language_of(names[j + 1]) != language);
                }
            }
            if name_in(names, language) is None {
                assert forall|j: int| 0 <= j < names.len() implies language_of(#[trigger] names[j])
                    != language by {
                    if j > 0 {
                        assert(language_of(rest[j - 1]) != language);
                    }
                }
            }
            if forall|j: int| 0 <= j < names.len() ==> language_of(#[trigger] names[j])
                != language {
                assert forall|j: int| 0 <= j < rest.len() implies language_of(#[trigger] rest[j])
                    != language by {
                    assert(language_of(names[j + 1]) != language);
                }
            }
        } else {
            assert forall|i: int|
                0 <= i < names.len() && language_of(#[trigger] names[i]) == language && (forall|
                    j: int,
                |
                    0 <= j < i ==> language_of(#[trigger] names[j]) != language) implies name_in(
                names,
                language,
            ) == Some(names[i].1) by {
                if i > 0 {
                    assert(language_of(names[0]) != language);
                }
            }
        }
    }
}

/// A sign-in succeeds exactly where the server gave a genuine id token and a bearer token that the
/// id token vouches for or says nothing of, with a time for which it lasts. The user then is the one
/// that the id token speaks of, with what the server gave, until that time is over.
pub proof fn a_good_answer_signs_the_user_in(
    answer: TokenAnswer,
    claims: Result<IdClaims, OidcAuthError>,
    actual_hash: Result<String, OidcAuthError>,
    now: u128,
    r: Result<OidcUserInfo, OidcAuthError>,
)
    requires
        is_login(answer, claims, actual_hash, now, r),
    ensures
        r is Ok <==> answer.id_token is Some && claims is Ok && (
        claims->Ok_0.access_token_hash is None || (actual_hash is Ok && actual_hash->Ok_0@
            == claims->Ok_0.access_token_hash->0@)) && answer.token_type is Bearer
            && answer.expires_in is Some && now + answer.expires_in->0 <= u128::MAX,
        r matches Ok(user) ==> user.access_token == answer.access_token && user.access_token_expiry
            == now + answer.expires_in->0 && user.stored_session.refresh_token
            == answer.refresh_token && Some(user.stored_session.id_token) == answer.id_token
            && user.stored_session.subject == claims->Ok_0.subject && user.stored_session.email
            == claims->Ok_0.email && is_shown_name(
            claims->Ok_0.names@,
            user.stored_session.name,
        ),
{
}

/// Why a sign-in fails: the first of the things that are wrong with the answer.
pub proof fn a_bad_answer_is_told(
    answer: TokenAnswer,
    claims: Result<IdClaims, OidcAuthError>,
    actual_hash: Result<String, OidcAuthError>,
    now: u128,
    r: Result<OidcUserInfo, OidcAuthError>,
)
    requires
        is_login(answer, claims, actual_hash, now, r),
    ensures
        answer.id_token is None ==> r == Err::<OidcUserInfo, _>(OidcAuthError::NoIdToken),
        answer.id_token is Some && claims is Err ==> r == Err::<OidcUserInfo, _>(claims->Err_0),
        answer.id_token is Some && claims is Ok && claims->Ok_0.access_token_hash is Some
            && actual_hash is Err ==> r == Err::<OidcUserInfo, _>(actual_hash->Err_0),
        answer.id_token is Some && claims is Ok && claims->Ok_0.access_token_hash is Some
            && actual_hash is Ok && actual_hash->Ok_0@ != claims->Ok_0.access_token_hash->0@ ==> r
            == Err::<OidcUserInfo, _>(OidcAuthError::TokenMismatch),
        answer.id_token is Some && claims is Ok && claims->Ok_0.access_token_hash is None
            && answer.expires_in is None ==> r == Err::<OidcUserInfo, _>(
            OidcAuthError::NoAccessTokenExpiry,
        ),
        (answer.id_token is Some && claims is Ok && claims->Ok_0.access_token_hash is None
            && answer.expires_in is Some && now + answer.expires_in->0 <= u128::MAX) ==> (
        answer.token_type matches TokenType::Other(t) ==> r == Err::<OidcUserInfo, _>(
            OidcAuthError::TokenTypeNotSupported(t),
        )),
{
}

/// A refreshed session is the session before, but for the refresh token where a new one came; the
/// user of it has the new access token until it expires.
pub proof fn refreshing_keeps_the_session(
    session: StoredOidcSession,
    answer: TokenAnswer,
    now: u128,
)
    ensures
        session_to_keep(session, answer) is Ok <==> answer.token_type is Bearer,
        session_to_keep(session, answer) matches Ok(kept) ==> {
            &&& kept.id_token == session.id_token
            &&& kept.subject == session.subject
            &&& kept.name == session.name
            &&& kept.email == session.email
            &&& answer.refresh_token is Some ==> kept.refresh_token == answer.refresh_token
            &&& answer.refresh_token is None ==> kept.refresh_token == session.refresh_token
        },
        refreshed_user(session, answer, now) is Ok <==> answer.expires_in is Some && now
            + answer.expires_in->0 <= u128::MAX,
        refreshed_user(session, answer, now) matches Ok(user) ==> user.stored_session == session
            && user.access_token == answer.access_token && user.access_token_expiry == now
            + answer.expires_in->0,
        refreshed_user(session, answer, now) matches Err(e) ==> e
            == OidcAuthError::NoAccessTokenExpiry,
{
}

/// What was stored for a session is found again as that session.
pub proof fn stored_sessions_are_found(
    session: SessionTexts,
    bytes: Vec<u8>,
    r: SessionRead,
)
    requires
        session_in(bytes@) == Some(session),
        is_session_read(KeyringRead::Secret(bytes), r),
    ensures
        r matches SessionRead::Found(found) && found@ == session,
{
}

/// Only a keyring without an entry counts as one without a session; what cannot be read is an error.
pub proof fn an_unreadable_session_is_no_missing_one(read: KeyringRead, r: SessionRead)
    requires
        is_session_read(read, r),
    ensures
        r is NoEntry <==> read is NoEntry,
        r is Found ==> read is Secret,
        read is Failed ==> r is Failed,
{
}

/// An access token is used only while it lasts for more than twenty seconds yet. What is valid at
/// some time was valid before.
pub proof fn tokens_are_not_used_to_the_last_second(user: OidcUserInfo, now: u128, earlier: u128)
    ensures
        user.valid_at(now) <==> user.access_token_expiry - now > 20_000_000_000,
        user.valid_at(now) && earlier <= now ==> user.valid_at(earlier),
{
}

/// Certificates that do not hold are accepted only where both the server and its sign-in server
/// are the machine itself, and the sign-in server is asked over HTTPS.
pub proof fn bad_certificates_stay_on_the_machine(issuer: UrlParts, server_host: Option<Seq<char>>)
    ensures
        accepts_invalid_certs(issuer, server_host) <==> issuer.scheme == "https"@ && (issuer.host
            == Some("localhost"@) || issuer.host == Some("127.0.0.1"@) || issuer.host == Some(
            "[::1]"@,
        )) && (server_host == Some("localhost"@) || server_host == Some("127.0.0.1"@)
            || server_host == Some("[::1]"@)),
{
}

/// The scopes that were not granted are those that were asked for, in that order, but for the
/// granted ones.
pub proof fn missing_scopes_were_asked_for(requested: Seq<Seq<char>>, used: Seq<Seq<char>>)
    ensures
        not_in(requested, used) == requested.filter(|s: Seq<char>| !used.contains(s)),
    decreases requested.len(),
{
    reveal(Seq::filter);
    if requested.len() > 0 {
        missing_scopes_were_asked_for(requested.drop_last(), used);
    }
}

/// A session is stored exactly where none of its texts has more than four mebibytes.
pub proof fn long_texts_are_not_stored(session: SessionTexts)
    ensures
        all_storable(session) <==> encode_utf8(session.1).len() <= 4194304 && encode_utf8(
            session.2,
        ).len() <= 4194304 && encode_utf8(session.3).len() <= 4194304 && (session.0 is None
            || encode_utf8(session.0->0).len() <= 4194304) && (session.4 is None || encode_utf8(
            session.4->0,
        ).len() <= 4194304),
{
}

/// The sign-in server is told who signs out, where the browser is to go then, and a token by which
/// it is known again; each once.
pub proof fn logging_out_says_who(
    authenticator: OidcAuthenticator,
    id_token: Seq<char>,
    state: Seq<char>,
)
    ensures
        authenticator.logout_pairs(id_token, state).len() == 4,
        authenticator.logout_pairs(id_token, state).contains(("id_token_hint"@, id_token)),
        authenticator.logout_pairs(id_token, state).contains(("state"@, state)),
        authenticator.logout_pairs(id_token, state).contains(
            ("client_id"@, authenticator.config.client_id@),
        ),
        authenticator.logout_pairs(id_token, state).contains(
            (
                "post_logout_redirect_uri"@,
                "http://localhost:"@ + decimal(authenticator.config.redirect_port as nat)
                    + "/auth/oidc/logged_out"@,
            ),
        ),
{
    let pairs = authenticator.logout_pairs(id_token, state);
    assert(pairs[0] == ("id_token_hint"@, id_token));
    assert(pairs[1].0 == "post_logout_redirect_uri"@);
    assert(pairs[2] == ("client_id"@, authenticator.config.client_id@));
    assert(pairs[3] == ("state"@, state));
}

} // verus!
