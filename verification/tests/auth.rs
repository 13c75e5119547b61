use backstitch::auth::handshake::{
    describe_url, parse_or_append, server_handshake, AuthConfig, HandshakeError, HandshakeResponse,
    OidcAuthConfig, ServerInfo, Version,
};
use backstitch::auth::none::{NoneAuthenticator, NoneUserInfo};
use backstitch::auth::oidc::{
    IdClaims, KeyringRead, LoginPlan, OidcAuthError, OidcAuthenticator, OidcUserInfo, SessionRead,
    SessionTooLong, StoredOidcSession, TokenAnswer, TokenType,
};
use backstitch::auth::redirect_server::{
    AuthResult, PendingAuths, RedirectParams, RedirectServer, RedirectServerError,
};
use backstitch::auth::server_manager::{
    AuthEvent, AuthOutcome, AuthStart, AuthStatus, DeauthOutcome, HandshakeStart, Reauth,
    ServerError, ServerManager, ServerStatus,
};
use backstitch::auth::user::{authenticate, AuthError, UserInfo};

const SECOND: u128 = 1_000_000_000;

fn response(auth: &str) -> HandshakeResponse {
    HandshakeResponse {
        version: Version::release(2, 1, 0),
        minimum_backstitch_version: Version::release(0, 3, 0),
        auth: auth.to_string(),
        sync: "sync".to_string(),
        webviewer: None,
        oidc_issuer: Some("https://issuer.example".to_string()),
        oidc_client_id: Some("client".to_string()),
        oidc_redirect_port: Some(8712),
        oidc_resource: None,
    }
}

fn info(auth: AuthConfig) -> ServerInfo {
    ServerInfo {
        url: "https://s.example/".to_string(),
        sync_url: "https://s.example/sync".to_string(),
        auth,
        webviewer_url: None,
    }
}

fn oidc_config() -> OidcAuthConfig {
    OidcAuthConfig {
        issuer: "https://issuer.example".to_string(),
        redirect_port: 8712,
        client_id: "client".to_string(),
        resource: None,
    }
}

fn session() -> StoredOidcSession {
    StoredOidcSession {
        refresh_token: Some("refresh".to_string()),
        id_token: "id".to_string(),
        subject: "subject".to_string(),
        name: "Ada".to_string(),
        email: Some("ada@example.com".to_string()),
    }
}

fn user(expiry: u128) -> OidcUserInfo {
    OidcUserInfo { access_token: "token".to_string(), access_token_expiry: expiry, stored_session: session() }
}

fn answer() -> TokenAnswer {
    TokenAnswer {
        access_token: "token".to_string(),
        token_type: TokenType::Bearer,
        expires_in: Some(60 * SECOND),
        refresh_token: Some("new".to_string()),
        id_token: Some("id".to_string()),
        scopes: None,
    }
}

fn claims(names: Vec<(Option<String>, String)>) -> IdClaims {
    IdClaims {
        subject: "subject".to_string(),
        names,
        email: None,
        access_token_hash: Some("hash".to_string()),
    }
}

fn params(code: Option<&str>, state: Option<&str>, error: Option<&str>) -> RedirectParams {
    RedirectParams {
        code: code.map(|s| s.to_string()),
        state: state.map(|s| s.to_string()),
        error: error.map(|s| s.to_string()),
    }
}

#[test]
fn paths_are_joined_to_the_server() {
    assert_eq!(parse_or_append("sync", "https://s.example/").unwrap(), "https://s.example/sync");
    assert_eq!(
        parse_or_append("wss://other.example/x", "https://s.example/").unwrap(),
        "wss://other.example/x"
    );
    assert!(matches!(
        parse_or_append("sync", "no url"),
        Err(HandshakeError::MalformedResponse(e)) if e == "invalid path sync"
    ));
    assert_eq!(describe_url("https://s.example").unwrap(), "https://s.example/describe");
    assert!(describe_url("no url").is_none());
}

#[test]
fn a_handshake_tells_about_the_server() {
    let client = Version::release(0, 4, 0);
    let met = server_handshake("https://s.example/", response("none"), &client).unwrap();
    assert_eq!(met.sync_url, "https://s.example/sync");
    assert!(matches!(met.auth, AuthConfig::NoAuth));
    assert!(met.webviewer_url.is_none());

    let mut with_viewer = response("oidc");
    with_viewer.webviewer = Some("https://view.example/".to_string());
    let met = server_handshake("https://s.example/", with_viewer, &client).unwrap();
    assert!(matches!(met.auth, AuthConfig::Oidc(c) if c.redirect_port == 8712 && c.client_id == "client"));
    assert_eq!(met.webviewer_url.unwrap(), "https://view.example/");
}

#[test]
fn handshakes_with_old_versions_fail() {
    let client = Version::release(0, 4, 0);
    let mut old_server = response("none");
    old_server.version = Version::release(1, 9, 9);
    assert!(matches!(
        server_handshake("https://s.example/", old_server, &client),
        Err(HandshakeError::UnsupportedServer { current_version, minimum_version })
            if current_version == "1.9.9" && minimum_version == "2.0.0"
    ));
    let mut new_server = response("none");
    new_server.minimum_backstitch_version = Version::release(0, 5, 0);
    assert!(matches!(
        server_handshake("https://s.example/", new_server, &client),
        Err(HandshakeError::UnsupportedClient { current_version, minimum_version })
            if current_version == "0.4.0" && minimum_version == "0.5.0"
    ));
    let mut pre = Version::release(2, 0, 0);
    pre.pre = "alpha.1".to_string();
    assert_eq!(pre.to_text(), "2.0.0-alpha.1");
    let mut pre_server = response("none");
    pre_server.version = pre;
    assert!(server_handshake("https://s.example/", pre_server, &client).is_err());
}

#[test]
fn malformed_responses_are_refused() {
    let client = Version::release(0, 4, 0);
    let fails = |r: HandshakeResponse, message: &str| match server_handshake("https://s.example/", r, &client) {
        Err(HandshakeError::MalformedResponse(e)) => assert_eq!(e, message),
        _ => panic!("the response makes no sense"),
    };
    fails(response("magic"), "unsupported auth_type magic");
    let mut r = response("oidc");
    r.oidc_client_id = None;
    fails(r, "expected oidc_client_id to exist");
    let mut r = response("oidc");
    r.oidc_issuer = None;
    fails(r, "expected oidc_issuer to exist");
    let mut r = response("oidc");
    r.oidc_redirect_port = None;
    fails(r, "expected oidc_redirect_port to exist");
    let mut r = response("none");
    r.sync = "http://[".to_string();
    fails(r, "invalid path http://[");
    assert!(HandshakeError::MalformedResponse("x".to_string()).to_text().contains("x"));
}

#[test]
fn nobody_has_to_sign_in_without_a_provider() {
    let auth = NoneAuthenticator::new();
    let someone = auth.interactive_authenticate();
    assert!(someone.is_valid());
    assert!(someone.bearer_token().is_none());
    assert!(someone.username().is_none());
    assert!(auth.immediate_authenticate().is_some());
    let outcome = authenticate(&info(AuthConfig::NoAuth), Ok(user(0)));
    assert!(matches!(outcome, Ok(UserInfo::Anonymous(_))));
    let outcome = authenticate(&info(AuthConfig::Oidc(oidc_config())), Ok(user(0)));
    assert!(matches!(outcome, Ok(UserInfo::Oidc(_))));
    let outcome = authenticate(&info(AuthConfig::Oidc(oidc_config())), Err(OidcAuthError::NoIdToken));
    assert!(matches!(outcome, Err(AuthError::Oidc(OidcAuthError::NoIdToken))));
}

#[test]
fn access_tokens_run_out() {
    let u = user(100 * SECOND);
    assert!(u.is_valid(79 * SECOND));
    assert!(!u.is_valid(80 * SECOND));
    assert_eq!(u.username(), "Ada");
    assert_eq!(u.bearer_token(), "token");
    assert_eq!(OidcAuthenticator::access_token_expiry(5, Some(7)).unwrap(), 12);
    assert!(matches!(
        OidcAuthenticator::access_token_expiry(5, None),
        Err(OidcAuthError::NoAccessTokenExpiry)
    ));
    assert!(OidcAuthenticator::access_token_expiry(u128::MAX, Some(1)).is_err());
}

#[test]
fn a_login_needs_proof() {
    let hash = || Ok("hash".to_string());
    let names = vec![(None, "Someone".to_string()), (Some("en-US".to_string()), "Ada".to_string())];
    let user = OidcAuthenticator::interactive_login(answer(), Ok(claims(names)), hash(), 0).unwrap();
    assert_eq!(user.stored_session.name, "Ada");
    assert_eq!(user.access_token_expiry, 60 * SECOND);
    assert_eq!(user.stored_session.refresh_token, Some("new".to_string()));

    let mut a = answer();
    a.id_token = None;
    assert!(matches!(
        OidcAuthenticator::interactive_login(a, Ok(claims(Vec::new())), hash(), 0),
        Err(OidcAuthError::NoIdToken)
    ));
    let bad = Err(OidcAuthError::ClaimsVerification("bad".to_string()));
    assert!(matches!(
        OidcAuthenticator::interactive_login(answer(), bad, hash(), 0),
        Err(OidcAuthError::ClaimsVerification(_))
    ));
    assert!(matches!(
        OidcAuthenticator::interactive_login(answer(), Ok(claims(Vec::new())), Ok("other".to_string()), 0),
        Err(OidcAuthError::TokenMismatch)
    ));
    let signing = Err(OidcAuthError::Signing("alg".to_string()));
    assert!(matches!(
        OidcAuthenticator::interactive_login(answer(), Ok(claims(Vec::new())), signing, 0),
        Err(OidcAuthError::Signing(_))
    ));
    let mut a = answer();
    a.token_type = TokenType::Other("mac".to_string());
    assert!(matches!(
        OidcAuthenticator::interactive_login(a, Ok(claims(Vec::new())), hash(), 0),
        Err(OidcAuthError::TokenTypeNotSupported(t)) if t == "mac"
    ));
    let mut a = answer();
    a.expires_in = None;
    assert!(matches!(
        OidcAuthenticator::interactive_login(a, Ok(claims(Vec::new())), hash(), 0),
        Err(OidcAuthError::NoAccessTokenExpiry)
    ));
    let user = OidcAuthenticator::interactive_login(answer(), Ok(claims(Vec::new())), hash(), 0).unwrap();
    assert_eq!(user.stored_session.name, "<anonymous>");
}

#[test]
fn sessions_are_refreshed() {
    assert!(matches!(OidcAuthenticator::authenticate(Some(session())), LoginPlan::Refresh(_)));
    assert!(matches!(OidcAuthenticator::authenticate(None), LoginPlan::Interactive));
    assert_eq!(OidcAuthenticator::refresh_token(&session()).unwrap(), "refresh");
    let mut none = session();
    none.refresh_token = None;
    assert!(matches!(OidcAuthenticator::refresh_token(&none), Err(OidcAuthError::NoRefreshToken)));
    let refreshed = OidcAuthenticator::refreshed_session(&session(), &answer()).unwrap();
    assert_eq!(refreshed.refresh_token, Some("new".to_string()));
    let mut a = answer();
    a.refresh_token = None;
    let kept = OidcAuthenticator::refreshed_session(&session(), &a).unwrap();
    assert_eq!(kept.refresh_token, Some("refresh".to_string()));
    a.token_type = TokenType::Other("mac".to_string());
    assert!(OidcAuthenticator::refreshed_session(&session(), &a).is_err());
    let user = OidcAuthenticator::refresh_login(session(), answer(), SECOND).unwrap();
    assert_eq!(user.access_token_expiry, 61 * SECOND);
    assert!(OidcAuthenticator::deauthenticate(SessionRead::NoEntry).is_none());
    assert!(OidcAuthenticator::deauthenticate(SessionRead::Failed("x".to_string())).is_none());
    assert!(OidcAuthenticator::deauthenticate(SessionRead::Found(session())).is_some());
}

#[test]
fn addresses_of_the_local_server() {
    let auth = OidcAuthenticator::new(oidc_config(), "https://s.example/".to_string());
    assert_eq!(auth.redirect_uri(), "http://localhost:8712/auth/oidc/callback");
    assert_eq!(auth.post_logout_redirect_uri(), "http://localhost:8712/auth/oidc/logged_out");
    let query = auth.logout_query(&session(), "csrf");
    assert_eq!(query[0], ("id_token_hint".to_string(), "id".to_string()));
    assert_eq!(query[1].1, "http://localhost:8712/auth/oidc/logged_out");
    assert_eq!(query[3], ("state".to_string(), "csrf".to_string()));
    let mut hasher = blake3::Hasher::new();
    hasher.update(b"backstitch/auth/oidc");
    hasher.update(b"https://s.example/");
    hasher.update(b"client");
    hasher.update(b"https://issuer.example");
    assert_eq!(auth.keyring_username(), hasher.finalize().to_hex().to_string());
    assert_eq!(OidcAuthenticator::requested_scopes(), vec!["email", "profile", "offline_access"]);
    let used = vec!["email".to_string()];
    assert_eq!(
        OidcAuthenticator::missing_scopes(&OidcAuthenticator::requested_scopes(), &used),
        vec!["profile", "offline_access"]
    );
}

#[test]
fn invalid_certificates_are_accepted_on_the_machine_itself_only() {
    let check = |issuer: &str, server: &str| {
        let mut config = oidc_config();
        config.issuer = issuer.to_string();
        OidcAuthenticator::new(config, server.to_string()).should_accept_invalid_certs()
    };
    assert!(check("https://localhost:1/", "http://127.0.0.1/").unwrap());
    assert!(check("https://[::1]:1/", "http://[::1]:2/").unwrap());
    assert!(check("https://localhost/", "https://[0:0:0:0:0:0:0:1]/").unwrap());
    assert!(!check("https://[::2]/", "http://[::1]/").unwrap());
    assert!(!check("http://localhost:1/", "http://127.0.0.1/").unwrap());
    assert!(!check("https://localhost:1/", "https://s.example/").unwrap());
    assert!(!check("https://issuer.example/", "http://localhost/").unwrap());
    assert!(matches!(check("nonsense", "http://localhost/"), Err(OidcAuthError::InvalidIssuer(i)) if i == "nonsense"));
}

#[test]
fn a_browser_comes_back_from_signing_in() {
    let mut pending: PendingAuths<u32> = PendingAuths::new();
    pending.insert("token", 1);
    assert!(pending.contains("token"));
    let reply = RedirectServer::login(params(Some("code"), None, None), &mut pending);
    assert!(reply.answer.is_none());
    assert_eq!(reply.header, "Login Error:");
    assert_eq!(reply.body, "The state query parameter is required to authenticate");
    let reply = RedirectServer::login(params(Some("code"), Some("other"), None), &mut pending);
    assert_eq!(reply.body, "Backstitch isn't waiting for us to authenticate with the provided state!");
    let reply = RedirectServer::login(params(Some("code"), Some("token"), None), &mut pending);
    assert_eq!(reply.header, "Login Successful");
    assert_eq!(reply.body, "You may now close this tab.");
    assert!(matches!(reply.answer, Some((1, Ok(AuthResult::Login(c)))) if c == "code"));
    let again = RedirectServer::login(params(Some("code"), Some("token"), None), &mut pending);
    assert!(again.answer.is_none());

    pending.insert("token", 2);
    let reply = RedirectServer::login(params(None, Some("token"), None), &mut pending);
    assert!(matches!(reply.answer, Some((2, Err(RedirectServerError::NoAuthorizationCode)))));
    pending.insert("token", 3);
    let reply = RedirectServer::login(params(Some("code"), Some("token"), Some("denied")), &mut pending);
    assert!(matches!(reply.answer, Some((3, Err(RedirectServerError::AuthFailure(e)))) if e == "denied"));
    assert_eq!(reply.body, "denied");
}

#[test]
fn a_browser_comes_back_from_signing_out() {
    let mut pending: PendingAuths<u32> = PendingAuths::new();
    pending.insert("token", 1);
    let reply = RedirectServer::logged_out(params(None, None, None), &mut pending);
    assert_eq!(reply.header, "Logout Error:");
    let reply = RedirectServer::logged_out(params(None, Some("other"), None), &mut pending);
    assert!(reply.answer.is_none());
    let reply = RedirectServer::logged_out(params(None, Some("token"), None), &mut pending);
    assert_eq!(reply.header, "Logout Successful");
    assert!(matches!(reply.answer, Some((1, Ok(AuthResult::Logout)))));
    pending.insert("token", 2);
    let reply = RedirectServer::logged_out(params(None, Some("token"), Some("no")), &mut pending);
    assert!(matches!(reply.answer, Some((2, Err(RedirectServerError::AuthFailure(_))))));
    pending.insert("left", 4);
    assert_eq!(pending.remove("left"), Some(4));
    assert_eq!(pending.remove("left"), None);
}

#[test]
fn whoever_waits_is_answered() {
    let login = || Some(Ok(AuthResult::Login("code".to_string())));
    assert_eq!(RedirectServer::wait_for_login(login()).unwrap(), "code");
    assert!(matches!(
        RedirectServer::wait_for_login(Some(Ok(AuthResult::Logout))),
        Err(RedirectServerError::AuthFailure(e)) if e == "wrong type of authorization (logout)"
    ));
    assert!(matches!(RedirectServer::wait_for_login(None), Err(RedirectServerError::Recv)));
    assert!(RedirectServer::wait_for_logout(Some(Ok(AuthResult::Logout))).is_ok());
    assert!(RedirectServer::wait_for_logout(login()).is_err());
    assert!(matches!(RedirectServer::wait_for_logout(None), Err(RedirectServerError::Recv)));
    assert_eq!(
        RedirectServerError::AuthFailure("x".to_string()).to_text(),
        "an error occurred while authenticating: x"
    );
    assert_eq!(
        RedirectServerError::NoAuthorizationCode.to_text(),
        "no authorization code was received during authentication"
    );
}

#[test]
fn pages_escape_what_they_show() {
    let page = RedirectServer::html("<h1>{{HEADER}}</h1><p>{{BODY}}</p>", "A & B", "<script>");
    assert_eq!(page, "<h1>A &amp; B</h1><p>&lt;script&gt;</p>");
}

#[test]
fn servers_are_met_before_they_are_used() {
    let mut servers = ServerManager::new();
    let url = "https://s.example/";
    assert!(matches!(servers.server_status(url), ServerStatus::Untracked));
    servers.track(url);
    assert!(matches!(servers.server_status(url), ServerStatus::Handshaking));
    assert!(matches!(servers.begin_handshake(url, false), HandshakeStart::Ask(_)));
    assert!(matches!(servers.begin_handshake(url, true), HandshakeStart::Ask(_)));
    let (change, result) = servers.handshake(url, Err(HandshakeError::Request("x".to_string())));
    assert!(matches!(change.status, ServerStatus::HandshakeFailed));
    assert!(matches!(result, Err(ServerError::Handshake(_))));
    // Who waited for the handshake shares its failure; who comes later asks again.
    assert!(matches!(
        servers.begin_handshake(url, true),
        HandshakeStart::Failed(ServerError::Handshake(HandshakeError::Request(e))) if e == "x"
    ));
    assert!(matches!(servers.server_status(url), ServerStatus::HandshakeFailed));
    assert!(matches!(servers.begin_handshake(url, false), HandshakeStart::Ask(_)));
    assert!(matches!(servers.server_status(url), ServerStatus::Handshaking));
    let oidc = || info(AuthConfig::Oidc(oidc_config()));
    let (change, result) = servers.handshake(url, Ok((oidc(), "Issuer".to_string(), None)));
    assert!(matches!(change.status, ServerStatus::AuthNeeded { provider } if provider == "Issuer"));
    assert_eq!(result.unwrap().sync_url, "https://s.example/sync");
    assert!(matches!(servers.begin_handshake(url, false), HandshakeStart::Cached(_)));
    assert!(matches!(servers.begin_handshake(url, true), HandshakeStart::Cached(i) if i.url == url));
    assert!(matches!(servers.server_status("https://other/"), ServerStatus::Untracked));
}

#[test]
fn a_sign_in_lasts_until_it_runs_out_or_is_given_up() {
    let mut servers = ServerManager::new();
    let oidc = info(AuthConfig::Oidc(oidc_config()));
    let url = oidc.url.clone();
    servers.track(&url);
    let _ = servers.handshake(&url, Ok((info(AuthConfig::Oidc(oidc_config())), "Issuer".to_string(), None)));
    assert!(servers.try_authenticate(&oidc, 0).is_none());
    assert!(matches!(servers.begin_authenticate(&oidc, 0), AuthStart::Ask { change: None, .. }));
    let (_, result) = servers.authenticate(&oidc, "Issuer".to_string(), AuthOutcome::Cancelled);
    assert!(matches!(result, Err(ServerError::UserCancelled)));
    let failed = AuthOutcome::Failed(OidcAuthError::NoIdToken);
    let (_, result) = servers.authenticate(&oidc, "Issuer".to_string(), failed);
    assert!(matches!(result, Err(ServerError::Auth(OidcAuthError::NoIdToken))));
    let done = AuthOutcome::Done(UserInfo::Oidc(user(100 * SECOND)));
    let (change, result) = servers.authenticate(&oidc, "Issuer".to_string(), done);
    assert!(change.is_some());
    assert_eq!(result.unwrap().username(), Some("Ada".to_string()));
    assert!(servers.try_authenticate(&oidc, 0).is_some());
    assert!(matches!(servers.begin_authenticate(&oidc, 0), AuthStart::Cached(_)));
    assert!(matches!(servers.reauth_step(&oidc, 0), Reauth::Void));
    assert!(matches!(servers.reauth_step(&oidc, 99 * SECOND), Reauth::Renew));
    assert!(servers.try_authenticate(&oidc, 99 * SECOND).is_none());
    let (_, renewed) = servers.try_reauthenticate(&oidc, Some(UserInfo::Oidc(user(500 * SECOND))));
    assert!(renewed.is_some());
    assert!(servers.try_authenticate(&oidc, 99 * SECOND).is_some());
    assert_eq!(servers.begin_deauthenticate(&oidc), Some("Issuer".to_string()));
    let (change, result) = servers.deauthenticate(&oidc, "Issuer".to_string(), DeauthOutcome::Cancelled);
    assert!(change.is_none());
    assert!(matches!(result, Err(ServerError::UserCancelled)));
    let failed = DeauthOutcome::Failed(OidcAuthError::NoIdToken);
    let (_, result) = servers.deauthenticate(&oidc, "Issuer".to_string(), failed);
    assert!(matches!(result, Err(ServerError::Deauth(_))));
    assert!(matches!(servers.reauth_step(&oidc, 0), Reauth::NotReady));
    assert!(servers.try_authenticate(&oidc, 0).is_none());
    let (none, nobody) = servers.try_reauthenticate(&oidc, None);
    assert!(none.is_none() && nobody.is_none());
    let (_, result) = servers.deauthenticate(&oidc, "Issuer".to_string(), DeauthOutcome::Done);
    assert!(result.is_ok());
    assert!(servers.begin_deauthenticate(&info(AuthConfig::NoAuth)).is_none());
}

#[test]
fn the_user_is_told_what_to_do() {
    let status = AuthEvent::Status(AuthStatus::NeedsUserLogin("https://login".to_string()));
    assert!(matches!(ServerManager::authenticate_inner(status), AuthStatus::NeedsUserLogin(u) if u == "https://login"));
    assert!(matches!(ServerManager::authenticate_inner(AuthEvent::Finished), AuthStatus::Idle));
    let nobody = UserInfo::Anonymous(NoneUserInfo);
    assert!(nobody.is_valid(0));
    assert!(nobody.clone_box().bearer_token().is_none());
    assert_eq!(UserInfo::Oidc(user(1)).subject(), Some("subject".to_string()));
    assert_eq!(UserInfo::Oidc(user(1)).email(), Some("ada@example.com".to_string()));
}

#[test]
fn errors_of_signing_in_are_told() {
    let s = |t: &str| t.to_string();
    let told = |e: OidcAuthError| e.to_text();
    assert_eq!(told(OidcAuthError::Reqwest(s("down"))), "down");
    assert_eq!(told(OidcAuthError::InvalidIssuer(s("x"))), "invalid issuer URL: x");
    assert_eq!(told(OidcAuthError::Discovery(s("x"))), "discovery failed x");
    assert_eq!(told(OidcAuthError::Configuration(s("c"))), "c");
    assert_eq!(told(OidcAuthError::CodeExchange(s("x"))), "code exchange failed x");
    assert_eq!(told(OidcAuthError::Redirect(RedirectServerError::Recv)), "channel closed");
    assert_eq!(
        told(OidcAuthError::NoAccessTokenExpiry),
        "the authentication server did not provide an access token expiry"
    );
    assert_eq!(
        told(OidcAuthError::TokenTypeNotSupported(s("Mac"))),
        "the authentication server provided an incompatible token type Mac"
    );
    assert_eq!(
        told(OidcAuthError::TokenMismatch),
        "the returned access token mismatched the expected access token hash"
    );
    assert_eq!(ServerError::UserCancelled.to_text(), "the user canceled the authentication request");
    assert_eq!(
        ServerError::Auth(OidcAuthError::NoIdToken).to_text(),
        "the authentication server did not provide an ID token"
    );
    assert_eq!(
        ServerError::Handshake(HandshakeError::MalformedResponse(s("y"))).to_text(),
        "the handshake response was malformed: y"
    );
}

#[test]
fn sessions_are_read_back_from_the_keyring() {
    let session = || StoredOidcSession {
        refresh_token: Some("r".to_string()),
        id_token: "token".to_string(),
        subject: "s".to_string(),
        name: "Ad\u{e9}".to_string(),
        email: None,
    };
    let bytes = OidcAuthenticator::store_session(session()).unwrap();
    let mut expected = vec![1, 1, 0, 0, 0, 0, 0, 0, 0, b'r'];
    for text in ["token", "s", "Ad\u{e9}"] {
        expected.extend((text.len() as u64).to_le_bytes());
        expected.extend(text.as_bytes());
    }
    expected.push(0);
    assert_eq!(bytes, expected);
    let SessionRead::Found(read) = OidcAuthenticator::retrieve_session(KeyringRead::Secret(bytes)) else {
        panic!()
    };
    assert_eq!(read.refresh_token.as_deref(), Some("r"));
    assert_eq!((read.id_token.as_str(), read.subject.as_str()), ("token", "s"));
    assert_eq!((read.name.as_str(), read.email), ("Ad\u{e9}", None));
    let broken = OidcAuthenticator::retrieve_session(KeyringRead::Secret(vec![9]));
    assert!(matches!(broken, SessionRead::Failed(e) if e == "the stored session cannot be read"));
    assert!(matches!(OidcAuthenticator::retrieve_session(KeyringRead::NoEntry), SessionRead::NoEntry));
    let failed = KeyringRead::Failed("locked".to_string());
    assert!(matches!(OidcAuthenticator::retrieve_session(failed), SessionRead::Failed(e) if e == "locked"));
    let mut long = session();
    long.name = "x".repeat(4194304);
    assert!(OidcAuthenticator::store_session(long).is_ok());
    let mut long = session();
    long.name = "x".repeat(4194305);
    assert_eq!(OidcAuthenticator::store_session(long), Err(SessionTooLong));
}

#[test]
fn the_logout_page_is_told_who_signs_out() {
    let auth = OidcAuthenticator::new(oidc_config(), "https://s.example/".to_string());
    assert_eq!(
        auth.logout_url("https://issuer.example/end?a=b#c", &session(), "c&s").unwrap(),
        "https://issuer.example/end?a=b&id_token_hint=id&post_logout_redirect_uri=\
         http%3A%2F%2Flocalhost%3A8712%2Fauth%2Foidc%2Flogged_out&client_id=client&state=c%26s#c"
    );
    assert!(auth.logout_url("end", &session(), "csrf").is_none());
}

#[test]
fn versions_are_read_from_text() {
    let version = Version::from_text("1.20.3-rc.1+b5").unwrap();
    assert_eq!((version.major, version.minor, version.patch), (1, 20, 3));
    assert_eq!((version.pre.as_str(), version.build.as_str()), ("rc.1", "b5"));
    assert_eq!(version.to_text(), "1.20.3-rc.1+b5");
    assert_eq!(
        Version::from_text("1.2").unwrap_err(),
        "unexpected end of input while parsing minor version number"
    );
}
