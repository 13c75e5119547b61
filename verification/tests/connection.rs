use automerge::transaction::Transactable;
use automerge::{Automerge, ObjType, ROOT};
use backstitch::auth::handshake::{AuthConfig, HandshakeError, ServerInfo};
use backstitch::auth::none::NoneUserInfo;
use backstitch::auth::oidc::{OidcUserInfo, StoredOidcSession};
use backstitch::auth::server_manager::ServerError;
use backstitch::auth::user::UserInfo;
use backstitch::connection::dialer::{
    authorization, ws_to_bytes, AuthenticatedTungsteniteDialer, DialerError, WsMessage,
};
use backstitch::connection::{
    connected_at_once, to_socket_url, ConnectionAction, ConnectionEvent, DialerEvent,
    RemoteConnection, RemoteConnectionError, RemoteConnectionEvent, RemoteConnectionInner,
};
use backstitch::fs_index::{FileMetadata, Modified};
use backstitch::history::DocumentId;
use backstitch::toml_file::{
    new_temp_file_name, temp_file_name, FileBackedToml, FileBackedTomlError, FileRead,
};
use backstitch::watcher::{
    ingest_branch_document, BranchIngestState, DocumentWatcher, EventKind, FileSystemWatcher,
    IngestWaitError, Poll, PollStep, WatcherEvent,
};

fn info(sync_url: &str) -> ServerInfo {
    ServerInfo {
        url: "https://s.example/".to_string(),
        sync_url: sync_url.to_string(),
        auth: AuthConfig::NoAuth,
        webviewer_url: None,
    }
}

fn user() -> UserInfo {
    UserInfo::Oidc(OidcUserInfo {
        access_token: "token".to_string(),
        access_token_expiry: 0,
        stored_session: StoredOidcSession {
            refresh_token: None,
            id_token: "id".to_string(),
            subject: "s".to_string(),
            name: "Ada".to_string(),
            email: None,
        },
    })
}

fn id(n: u8) -> DocumentId {
    DocumentId { bytes: [n; 16] }
}

#[test]
fn http_becomes_a_web_socket() {
    assert_eq!(to_socket_url("http://s.example/sync").unwrap(), "ws://s.example/sync");
    assert_eq!(to_socket_url("https://s.example/sync").unwrap(), "wss://s.example/sync");
    assert!(to_socket_url("ftp://s.example/").is_none());
    assert!(to_socket_url("nonsense").is_none());
}

#[test]
fn connections_need_a_handshake_and_a_user() {
    let failed = Err(ServerError::Handshake(HandshakeError::Request("x".to_string())));
    assert!(matches!(
        RemoteConnectionInner::begin_connection(failed, Some(user())),
        Err(RemoteConnectionError::Server(_))
    ));
    assert!(matches!(
        RemoteConnectionInner::begin_connection(Ok(info("https://s.example/sync")), None),
        Err(RemoteConnectionError::NotAuthenticated)
    ));
    let dial = RemoteConnectionInner::begin_connection(Ok(info("https://s.example/sync")), Some(user()))
        .unwrap()
        .unwrap();
    assert_eq!(dial.url, "wss://s.example/sync");
    assert_eq!(dial.bearer_token, Some("token".to_string()));
    assert_eq!(dial.username, Some("Ada".to_string()));
    let anonymous = UserInfo::Anonymous(NoneUserInfo);
    let dial = RemoteConnectionInner::begin_connection(Ok(info("http://s.example/sync")), Some(anonymous))
        .unwrap()
        .unwrap();
    assert_eq!(dial.bearer_token, None);
    assert!(RemoteConnectionInner::begin_connection(Ok(info("ftp://s.example/")), Some(user()))
        .unwrap()
        .is_none());
}

#[test]
fn a_connection_reacts_to_what_happens() {
    let name = Some("Ada".to_string());
    let act = |event: ConnectionEvent| RemoteConnectionInner::handle_connection(event, &name);
    assert!(matches!(act(ConnectionEvent::Cancelled), ConnectionAction::Close));
    assert!(matches!(act(ConnectionEvent::Shutdown), ConnectionAction::CloseAndCancel));
    assert!(matches!(act(ConnectionEvent::AuthFailed(None)), ConnectionAction::Close));
    assert!(matches!(
        act(ConnectionEvent::AuthFailed(Some(user()))),
        ConnectionAction::SetToken(Some(t)) if t == "token"
    ));
    assert!(matches!(
        act(ConnectionEvent::Dialer(Some(DialerEvent::Connected))),
        ConnectionAction::Emit(RemoteConnectionEvent::Connected { username: Some(n) }) if n == "Ada"
    ));
    assert!(matches!(
        act(ConnectionEvent::Dialer(Some(DialerEvent::Disconnected))),
        ConnectionAction::Emit(RemoteConnectionEvent::Failed)
    ));
    assert!(matches!(act(ConnectionEvent::Dialer(Some(DialerEvent::Reconnecting))), ConnectionAction::Proceed));
    assert!(matches!(act(ConnectionEvent::Dialer(Some(DialerEvent::MaxRetriesReached))), ConnectionAction::Close));
    assert!(matches!(act(ConnectionEvent::Dialer(None)), ConnectionAction::Proceed));
}

#[test]
fn connections_are_tried_again_unless_they_are_given_up() {
    assert!(matches!(RemoteConnectionInner::loop_connection(false, false), (RemoteConnectionEvent::Failed, true)));
    assert!(matches!(RemoteConnectionInner::loop_connection(true, false), (RemoteConnectionEvent::Cancelled, false)));
    assert!(matches!(RemoteConnectionInner::loop_connection(false, true), (RemoteConnectionEvent::Cancelled, false)));
    assert!(connected_at_once(&Some(RemoteConnectionEvent::Connected { username: None })));
    assert!(!connected_at_once(&Some(RemoteConnectionEvent::Failed)));
    assert!(!connected_at_once(&None));
}

#[test]
fn there_is_one_connection_at_a_time() {
    let mut connection: RemoteConnection<u32> = RemoteConnection::new();
    assert!(!connection.has_connection());
    assert_eq!(connection.set_handle(1), Some(1));
    connection.connect();
    assert!(connection.has_connection());
    assert!(!connection.is_connected(true));
    assert_eq!(connection.set_handle(2), None);
    assert_eq!(connection.handle(), Some(&2));
    assert!(connection.is_connected(true));
    assert!(!connection.is_connected(false));
    connection.disconnect();
    assert!(!connection.has_connection());
    assert!(connection.handle().is_none());
}

#[test]
fn dialers_remember_refused_tokens() {
    let mut dialer = AuthenticatedTungsteniteDialer::new("wss://s.example/sync".to_string());
    assert_eq!(dialer.header(), None);
    dialer.set_bearer_token(Some("token".to_string()));
    assert_eq!(dialer.header(), Some("Bearer token".to_string()));
    assert_eq!(authorization("x"), "Bearer x");
    dialer.connect_failed(Some(500));
    dialer.connect_failed(None);
    assert!(!dialer.auth_failed);
    dialer.connect_failed(Some(401));
    assert!(dialer.auth_failed);
    dialer.set_bearer_token(None);
    assert!(!dialer.auth_failed);
}

#[test]
fn only_binary_messages_count() {
    assert!(matches!(ws_to_bytes(Ok(WsMessage::Binary(vec![1]))), Some(Ok(b)) if b == vec![1]));
    assert!(matches!(
        ws_to_bytes(Ok(WsMessage::Text)),
        Some(Err(DialerError::Network(e))) if e == "unexpected string message on websocket"
    ));
    assert!(ws_to_bytes(Ok(WsMessage::Ping)).is_none());
    assert!(ws_to_bytes(Ok(WsMessage::Pong)).is_none());
    assert!(ws_to_bytes(Ok(WsMessage::Close)).is_none());
    let error = DialerError::receiving("gone");
    assert_eq!(error.to_text(), "network: error receiving websocket message: gone");
    assert!(matches!(
        ws_to_bytes(Err(error)),
        Some(Err(DialerError::Network(e)))
            if e == "websocket receive error: network: error receiving websocket message: gone"
    ));
    let sent = DialerError::sending("full").send_failed();
    assert_eq!(sent.to_text(), "network: websocket send error: network: error sending websocket message: full");
}

#[test]
fn branches_are_tracked_once() {
    let mut watcher = DocumentWatcher::new();
    assert!(matches!(watcher.wait_for_branch_ingest(&id(1)), Some(Err(IngestWaitError::NotTracked))));
    let new = watcher.ingest_metadata_document(&vec![id(1), id(2), id(1)]);
    assert_eq!(new.len(), 2);
    assert!(watcher.wait_for_branch_ingest(&id(1)).is_none());
    assert!(watcher.ingest_metadata_document(&vec![id(2)]).is_empty());
    watcher.track_branch_document(&id(1), true);
    watcher.track_branch_document(&id(2), false);
    assert!(matches!(watcher.state(&id(1)), Some(BranchIngestState::Ingested)));
    assert!(matches!(watcher.wait_for_branch_ingest(&id(1)), Some(Ok(()))));
    assert!(matches!(watcher.wait_for_branch_ingest(&id(2)), Some(Err(IngestWaitError::TimedOut))));
    assert!(!IngestWaitError::TimedOut.to_text().is_empty());
    assert_ne!(IngestWaitError::NotTracked.to_text(), IngestWaitError::Unknown.to_text());
}

#[test]
fn polls_come_to_an_end() {
    let mut poll = Poll::new(1000);
    let mut asked = 0;
    while poll.poll_document() == PollStep::Ask {
        asked += 1;
        poll.not_found();
    }
    assert_eq!(asked, 3);
    assert_eq!(poll.poll_document(), PollStep::GiveUp);
}

#[test]
fn linked_documents_of_a_branch_are_found() {
    let mut doc = Automerge::new();
    let mut tx = doc.transaction();
    let files = tx.put_object(ROOT, "files", ObjType::Map).unwrap();
    let a = tx.put_object(&files, "res://a.png", ObjType::Map).unwrap();
    tx.put(&a, "url", format!("automerge:{}", id(5).to_text())).unwrap();
    let b = tx.put_object(&files, "res://b.txt", ObjType::Map).unwrap();
    tx.put(&b, "content", "text").unwrap();
    tx.commit();
    let (heads, links) = ingest_branch_document(&doc);
    assert_eq!(heads.len(), 1);
    assert_eq!(heads[0].bytes, doc.get_heads()[0].0);
    assert_eq!(links.len(), 1);
    assert_eq!(links[0].0, "res://a.png");
    assert!(links[0].1.same(&id(5)));
    let (heads, links) = ingest_branch_document(&Automerge::new());
    assert!(heads.is_empty() && links.is_empty());
}

#[test]
fn only_changes_of_files_count() {
    for kind in [EventKind::Create, EventKind::Modify, EventKind::Remove] {
        assert!(FileSystemWatcher::is_change(kind));
    }
    for kind in [EventKind::Any, EventKind::Access, EventKind::Other] {
        assert!(!FileSystemWatcher::is_change(kind));
    }
    let event = |ignored: bool, present: bool, is_file: bool| {
        FileSystemWatcher::handle_file_event("a".to_string(), ignored, present, is_file)
    };
    assert!(matches!(event(false, true, true), Some(WatcherEvent::FileTouched(p)) if p == "a"));
    assert!(event(false, false, false).is_some());
    assert!(event(false, true, false).is_none());
    assert!(event(true, true, true).is_none());
}

#[test]
fn settings_are_set_and_removed() {
    let mut file = FileBackedToml::new();
    assert!(file.get("a", "x").is_none());
    file.set("a", "x", Some(toml::Value::Integer(1)));
    file.set("a", "y", Some(toml::Value::String("two".to_string())));
    file.set("b", "x", Some(toml::Value::Boolean(true)));
    assert_eq!(file.get("a", "x"), Some(toml::Value::Integer(1)));
    file.set("a", "x", None);
    assert_eq!(file.get("a", "x"), None);
    assert_eq!(file.get("a", "y"), Some(toml::Value::String("two".to_string())));
    file.set("c", "x", None);
    let text = file.write_backing().unwrap();
    assert_eq!(text, "[a]\ny = \"two\"\n\n[b]\nx = true\n");

    let mut again = FileBackedToml::new();
    assert!(matches!(again.reload_backing(FileRead::Text(text)), Ok(None)));
    assert_eq!(again.get("b", "x"), Some(toml::Value::Boolean(true)));
}

#[test]
fn a_setting_takes_the_place_of_what_is_no_section() {
    let mut file = FileBackedToml::new();
    assert!(matches!(file.reload_backing(FileRead::Text("a = 1\n".to_string())), Ok(None)));
    assert!(file.get("a", "x").is_none());
    file.set("a", "x", Some(toml::Value::Integer(2)));
    assert_eq!(file.get("a", "x"), Some(toml::Value::Integer(2)));
}

#[test]
fn missing_and_broken_files_are_written_anew() {
    let mut file = FileBackedToml::new();
    file.set("a", "x", Some(toml::Value::Integer(1)));
    let broken = file.reload_backing(FileRead::Text("= nonsense".to_string()));
    assert!(matches!(broken, Ok(Some(t)) if t == "[a]\nx = 1\n"));
    assert_eq!(file.get("a", "x"), Some(toml::Value::Integer(1)));
    assert!(matches!(file.reload_backing(FileRead::Missing), Ok(Some(t)) if t.is_empty()));
    assert!(file.get("a", "x").is_none());
    assert!(matches!(FileBackedTomlError::Io("x".to_string()), FileBackedTomlError::Io(_)));
}

#[test]
fn files_are_read_again_when_they_changed() {
    let at = |secs: i64| Some(FileMetadata { modified: Modified { secs, nanos: 0 }, size: 1 });
    let mut file = FileBackedToml::new();
    assert!(!file.needs_reload(&None));
    assert!(file.needs_reload(&at(1)));
    file.saw(at(1));
    assert!(!file.needs_reload(&at(1)));
    assert!(file.needs_reload(&at(2)));
    assert!(file.needs_reload(&None));
}

#[test]
fn temporary_files_stand_beside_the_file() {
    assert_eq!(temp_file_name("/home/a/settings.toml", "7"), ".settings.toml.7.tmp");
    assert_eq!(temp_file_name("/", "7"), ".file.7.tmp");
    let one = new_temp_file_name("/home/a/settings.toml");
    let two = new_temp_file_name("/home/a/settings.toml");
    assert!(one.starts_with(".settings.toml.") && one.ends_with(".tmp"));
    assert_ne!(one, two);
}

#[test]
fn errors_of_connections_are_told() {
    assert_eq!(RemoteConnectionError::RepoStopped.to_text(), "the Samod instance has been stopped");
    assert_eq!(
        RemoteConnectionError::NotAuthenticated.to_text(),
        "the server is not authenticated, so we can't connect."
    );
    let error = RemoteConnectionError::Server(ServerError::Handshake(HandshakeError::Request("x".to_string())));
    assert_eq!(error.to_text(), "x");
}
