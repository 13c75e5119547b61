//! What a server says of itself when it is first asked.

use crate::text::{decimal, decimal_text, joined, joined3, same_text};
use vstd::prelude::*;
use vstd::string::*;

verus! {

/// What a URL consists of.
#[derive(Debug)]
pub struct ParsedUrl {
    /// The URL in its normal form.
    pub text: String,
    pub has_authority: bool,
    pub scheme: String,
    pub host: Option<String>,
}

/// What a URL consists of.
pub struct UrlParts {
    pub text: Seq<char>,
    pub has_authority: bool,
    pub scheme: Seq<char>,
    pub host: Option<Seq<char>>,
}

impl View for ParsedUrl {
    type V = UrlParts;

    open spec fn view(&self) -> UrlParts {
        UrlParts {
            text: self.text@,
            has_authority: self.has_authority,
            scheme: self.scheme@,
            host: match self.host {
                Some(h) => Some(h@),
                None => None,
            },
        }
    }
}

/// What the URL in a text consists of; nothing where the text is no absolute URL.
pub uninterp spec fn url_parts(text: Seq<char>) -> Option<UrlParts>;

/// The URL that a reference means on a page at a base URL.
pub uninterp spec fn url_join(base: Seq<char>, reference: Seq<char>) -> Option<Seq<char>>;

/// A host name that is written with small letters, digits, dots and hyphens alone.
pub open spec fn is_plain_name(host: Seq<char>) -> bool {
    0 < host.len() <= 253 && forall|i: int|
        0 <= i < host.len() ==> is_plain_char(#[trigger] host[i])
}

/// A small letter, a digit, a dot or a hyphen.
pub open spec fn is_plain_char(c: char) -> bool {
    'a' <= c <= 'z' || '0' <= c <= '9' || c == '.' || c == '-'
}

/// The URL of a TCP server at a host and a port.
pub open spec fn tcp_address(host: Seq<char>, port: u16) -> Seq<char> {
    "tcp://"@ + host + ":"@ + decimal(port as nat)
}

/// `url::Url::parse`, with the parts of the URL: its text, whether it has an authority, its scheme
/// and its host. The URL of a TCP server at a plain host name and a port is in its normal form.
#[verifier::external_body]
pub(crate) fn parse_url(text: &str) -> (r: Option<ParsedUrl>)
    ensures
        (match r {
            Some(u) => Some(u@),
            None => None,
        }) == url_parts(text@),
        (forall|host: Seq<char>, port: u16|
            is_plain_name(host) && text@ == #[trigger] tcp_address(host, port) ==> (match r {
                Some(u) => u@ == (UrlParts {
                    text: text@,
                    has_authority: true,
                    scheme: "tcp"@,
                    host: Some(host),
                }),
                None => false,
            })),
{
    let url = url::Url::parse(text).ok()?;
    Some(ParsedUrl {
        text: url.as_str().to_string(),
        has_authority: url.has_authority(),
        scheme: url.scheme().to_string(),
        host: url.host_str().map(|h| h.to_string()),
    })
}

/// `url::Url::join`: the URL that a reference means on a page at the base URL; nothing where the
/// base is no URL or the reference cannot be joined to it.
#[verifier::external_body]
pub(crate) fn join_url(base: &str, reference: &str) -> (r: Option<String>)
    ensures
        (match r {
            Some(u) => Some(u@),
            None => None,
        }) == url_join(base@, reference@),
{
    let url = url::Url::parse(base).ok()?.join(reference).ok()?;
    Some(url.as_str().to_string())
}

/// A URL with pairs appended to its query.
pub uninterp spec fn url_with_pairs(url: Seq<char>, pairs: Seq<(Seq<char>, Seq<char>)>) -> Option<
    Seq<char>,
>;

/// Pairs of texts as their characters.
pub open spec fn pair_texts(pairs: Seq<(String, String)>) -> Seq<(Seq<char>, Seq<char>)> {
    pairs.map_values(|p: (String, String)| (p.0@, p.1@))
}

/// The longest text that can stand in a URL whatever characters it is made of: a few such texts
/// fit in a URL, which counts its bytes with 32 bits, after each byte was escaped.
pub const URL_TEXT_LIMIT: usize = 0x100_0000;

/// The texts are few and short enough to be put into one URL.
pub open spec fn fit_in_url(url: Seq<char>, pairs: Seq<(Seq<char>, Seq<char>)>) -> bool {
    &&& url.len() <= URL_TEXT_LIMIT
    &&& pairs.len() <= 4
    &&& forall|i: int|
        0 <= i < pairs.len() ==> (#[trigger] pairs[i]).0.len() <= URL_TEXT_LIMIT
            && pairs[i].1.len() <= URL_TEXT_LIMIT
}

/// `url::Url::query_pairs_mut` and its `extend_pairs`: the URL with the pairs appended to its
/// query; nothing where the text is no URL.
#[verifier::external_body]
pub(crate) fn append_pairs(url: &str, pairs: &Vec<(String, String)>) -> (r: Option<String>)
    requires
        fit_in_url(url@, pair_texts(pairs@)),
    ensures
        (match r {
            Some(u) => Some(u@),
            None => None,
        }) == url_with_pairs(url@, pair_texts(pairs@)),
{
    let mut url = url::Url::parse(url).ok()?;
    url.query_pairs_mut().extend_pairs(pairs.iter().map(|p| (&p.0, &p.1)));
    Some(url.to_string())
}

/// A semantic version.
#[derive(Debug)]
pub struct Version {
    pub major: u64,
    pub minor: u64,
    pub patch: u64,
    /// The pre-release identifiers, empty for a release.
    pub pre: String,
    /// The build metadata, empty where there is none.
    pub build: String,
}

/// A semantic version.
pub struct VersionParts {
    pub major: u64,
    pub minor: u64,
    pub patch: u64,
    pub pre: Seq<char>,
    pub build: Seq<char>,
}

impl View for Version {
    type V = VersionParts;

    open spec fn view(&self) -> VersionParts {
        VersionParts {
            major: self.major,
            minor: self.minor,
            patch: self.patch,
            pre: self.pre@,
            build: self.build@,
        }
    }
}

/// The version that is written in a text, or what is wrong with the text.
pub uninterp spec fn version_in(text: Seq<char>) -> Result<VersionParts, Seq<char>>;

/// `semver::Version::parse`, with the parts of the version, or the error as it is shown.
#[verifier::external_body]
fn parse_version(text: &str) -> (r: Result<Version, String>)
    ensures
        (match r {
            Ok(v) => Ok(v@),
            Err(e) => Err(e@),
        }) == version_in(text@),
{
    let v = semver::Version::parse(text).map_err(|e| e.to_string())?;
    Ok(Version {
        major: v.major,
        minor: v.minor,
        patch: v.patch,
        pre: v.pre.to_string(),
        build: v.build.to_string(),
    })
}

/// The first version is older than the second.
pub uninterp spec fn version_older(a: VersionParts, b: VersionParts) -> bool;

/// The numbers of the first version are lower than those of the second.
pub open spec fn lower_numbers(a: VersionParts, b: VersionParts) -> bool {
    a.major < b.major || a.major == b.major && (a.minor < b.minor || a.minor == b.minor && a.patch
        < b.patch)
}

/// The versions have the same numbers.
pub open spec fn same_numbers(a: VersionParts, b: VersionParts) -> bool {
    a.major == b.major && a.minor == b.minor && a.patch == b.patch
}

/// `semver::Version`'s `<`: a version with lower numbers is older, whatever else it says. Of two
/// versions with the same numbers neither is older where both are releases without metadata.
/// Identifiers or metadata that no version can have count as absent.
#[verifier::external_body]
fn is_older(a: &Version, b: &Version) -> (r: bool)
    ensures
        r == version_older(a@, b@),
        lower_numbers(a@, b@) ==> r,
        lower_numbers(b@, a@) ==> !r,
        same_numbers(a@, b@) && a@.pre.len() == 0 && b@.pre.len() == 0 && a@.build.len() == 0
            && b@.build.len() == 0 ==> !r,
{
    let version = |v: &Version| semver::Version {
        major: v.major,
        minor: v.minor,
        patch: v.patch,
        pre: semver::Prerelease::new(&v.pre).unwrap_or_default(),
        build: semver::BuildMetadata::new(&v.build).unwrap_or_default(),
    };
    version(a) < version(b)
}

/// The text of a version.
pub open spec fn version_text(v: VersionParts) -> Seq<char> {
    let numbers = decimal(v.major as nat) + "."@ + decimal(v.minor as nat) + ("."@ + decimal(
        v.patch as nat,
    ));
    let pre = if v.pre.len() == 0 {
        Seq::empty()
    } else {
        "-"@ + v.pre
    };
    let build = if v.build.len() == 0 {
        Seq::empty()
    } else {
        "+"@ + v.build
    };
    numbers + pre + build
}

impl Version {
    /// A release.
    pub fn release(major: u64, minor: u64, patch: u64) -> (r: Version)
        ensures
            r@ == release_parts(major, minor, patch),
    {
        let r = Version { major, minor, patch, pre: String::new(), build: String::new() };
        assert(r.pre@ =~= Seq::<char>::empty());
        assert(r.build@ =~= Seq::<char>::empty());
        r
    }

    /// The version that is written in a text, or what is wrong with the text.
    pub fn from_text(text: &str) -> (r: Result<Version, String>)
        ensures
            (match r {
                Ok(v) => Ok(v@),
                Err(e) => Err(e@),
            }) == version_in(text@),
    {
        parse_version(text)
    }

    /// The text of the version.
    pub fn to_text(&self) -> (r: String)
        ensures
            r@ == version_text(self@),
    {
        let major = decimal_text(self.major);
        let minor = decimal_text(self.minor);
        let patch = decimal_text(self.patch);
        let head = joined3(major.as_str(), ".", minor.as_str());
        let tail = joined(".", patch.as_str());
        let mut text = joined(head.as_str(), tail.as_str());
        let ghost numbers = text@;
        if self.pre.as_str().unicode_len() > 0 {
            let pre = joined("-", self.pre.as_str());
            text = joined(text.as_str(), pre.as_str());
        }
        assert(text@ == numbers + if self@.pre.len() == 0 {
            Seq::empty()
        } else {
            "-"@ + self@.pre
        });
        let ghost with_pre = text@;
        if self.build.as_str().unicode_len() > 0 {
            let build = joined("+", self.build.as_str());
            text = joined(text.as_str(), build.as_str());
        }
        assert(text@ == with_pre + if self@.build.len() == 0 {
            Seq::empty()
        } else {
            "+"@ + self@.build
        });
        text
    }
}

/// A release.
pub open spec fn release_parts(major: u64, minor: u64, patch: u64) -> VersionParts {
    VersionParts { major, minor, patch, pre: Seq::empty(), build: Seq::empty() }
}

/// The oldest server that Backstitch talks to.
pub open spec fn minimum_server() -> VersionParts {
    release_parts(2, 0, 0)
}

/// How to sign in with OpenID Connect.
#[derive(Debug)]
pub struct OidcAuthConfig {
    /// Kept as it was sent: a parsed URL would get a trailing slash.
    pub issuer: String,
    pub redirect_port: u16,
    pub client_id: String,
    pub resource: Option<String>,
}

/// How to sign in to a server.
#[derive(Debug)]
pub enum AuthConfig {
    Oidc(OidcAuthConfig),
    NoAuth,
}

/// What is known of a server after the handshake.
#[derive(Debug)]
pub struct ServerInfo {
    pub url: String,
    pub sync_url: String,
    pub auth: AuthConfig,
    pub webviewer_url: Option<String>,
}

/// What a server answers when it is asked to describe itself.
#[derive(Debug)]
pub struct HandshakeResponse {
    pub version: Version,
    pub minimum_backstitch_version: Version,
    pub auth: String,
    pub sync: String,
    pub webviewer: Option<String>,
    pub oidc_issuer: Option<String>,
    pub oidc_client_id: Option<String>,
    pub oidc_redirect_port: Option<u16>,
    pub oidc_resource: Option<String>,
}

/// Why a handshake failed.
#[derive(Debug)]
pub enum HandshakeError {
    /// The server could not be asked.
    Request(String),
    MalformedResponse(String),
    UnsupportedClient { current_version: String, minimum_version: String },
    UnsupportedServer { current_version: String, minimum_version: String },
}

impl HandshakeError {
    /// The same once more.
    pub fn duplicate(&self) -> (r: HandshakeError)
        ensures
            r == *self,
    {
        match self {
            HandshakeError::Request(e) => HandshakeError::Request(e.clone()),
            HandshakeError::MalformedResponse(e) => HandshakeError::MalformedResponse(e.clone()),
            HandshakeError::UnsupportedClient { current_version, minimum_version } => {
                HandshakeError::UnsupportedClient {
                    current_version: current_version.clone(),
                    minimum_version: minimum_version.clone(),
                }
            },
            HandshakeError::UnsupportedServer { current_version, minimum_version } => {
                HandshakeError::UnsupportedServer {
                    current_version: current_version.clone(),
                    minimum_version: minimum_version.clone(),
                }
            },
        }
    }

    /// The error as the user reads it.
    pub open spec fn text(self) -> Seq<char> {
        match self {
            HandshakeError::Request(e) => e@,
            HandshakeError::MalformedResponse(e) => "the handshake response was malformed: "@ + e@,
            HandshakeError::UnsupportedClient { current_version, minimum_version } => (
            "our Backstitch version is too old (v"@ + current_version@
                + "). Please update Backstitch to at least v"@) + (minimum_version@
                + " to connect to this server."@),
            HandshakeError::UnsupportedServer { current_version, minimum_version } => (
            "the server you're trying to connect to is too old (v"@ + current_version@
                + "). Please update your server to at least "@) + minimum_version@,
        }
    }

    /// The error as the user reads it.
    pub fn to_text(&self) -> (r: String)
        ensures
            r@ == self.text(),
    {
        match self {
            HandshakeError::Request(e) => e.clone(),
            HandshakeError::MalformedResponse(e) => joined(
                "the handshake response was malformed: ",
                e.as_str(),
            ),
            HandshakeError::UnsupportedClient { current_version, minimum_version } => {
                let head = joined3(
                    "our Backstitch version is too old (v",
                    current_version.as_str(),
                    "). Please update Backstitch to at least v",
                );
                let tail = joined(minimum_version.as_str(), " to connect to this server.");
                joined(head.as_str(), tail.as_str())
            },
            HandshakeError::UnsupportedServer { current_version, minimum_version } => {
                let head = joined3(
                    "the server you're trying to connect to is too old (v",
                    current_version.as_str(),
                    "). Please update your server to at least ",
                );
                joined(head.as_str(), minimum_version.as_str())
            },
        }
    }
}

/// The URL that a server gives for one of its parts: an absolute URL with an authority as it
/// stands, anything else relative to the server's own URL.
pub open spec fn resolved_url(path: Seq<char>, base: Seq<char>) -> Option<Seq<char>> {
    match url_parts(path) {
        Some(url) => if url.has_authority {
            Some(url.text)
        } else {
            url_join(base, path)
        },
        None => url_join(base, path),
    }
}

/// The URL that a server gives for one of its parts, or why it gives none.
pub fn parse_or_append(path: &str, base_url: &str) -> (r: Result<String, HandshakeError>)
    ensures
        match resolved_url(path@, base_url@) {
            Some(url) => r matches Ok(u) && u@ == url,
            None => r matches Err(HandshakeError::MalformedResponse(e)) && e@ == "invalid path "@
                + path@,
        },
{
    if let Some(url) = parse_url(path) {
        if url.has_authority {
            return Ok(url.text);
        }
    }
    match join_url(base_url, path) {
        Some(url) => Ok(url),
        None => Err(HandshakeError::MalformedResponse(joined("invalid path ", path))),
    }
}

/// The URL at which a server describes itself.
pub fn describe_url(url: &str) -> (r: Option<String>)
    ensures
        (match r {
            Some(u) => Some(u@),
            None => None,
        }) == url_join(url@, "describe"@),
{
    join_url(url, "describe")
}

/// How the response says to sign in, or what is wrong with what it says.
pub open spec fn auth_of(response: HandshakeResponse) -> Result<AuthConfig, Seq<char>> {
    if response.auth@ == "none"@ {
        Ok(AuthConfig::NoAuth)
    } else if response.auth@ == "oidc"@ {
        if response.oidc_client_id is None {
            Err("expected oidc_client_id to exist"@)
        } else if response.oidc_issuer is None {
            Err("expected oidc_issuer to exist"@)
        } else if response.oidc_redirect_port is None {
            Err("expected oidc_redirect_port to exist"@)
        } else {
            Ok(
                AuthConfig::Oidc(
                    OidcAuthConfig {
                        issuer: response.oidc_issuer->0,
                        redirect_port: response.oidc_redirect_port->0,
                        client_id: response.oidc_client_id->0,
                        resource: response.oidc_resource,
                    },
                ),
            )
        }
    } else {
        Err("unsupported auth_type "@ + response.auth@)
    }
}

/// The result is what becomes of the URLs in the response.
pub open spec fn urls_taken(
    url: Seq<char>,
    response: HandshakeResponse,
    auth: AuthConfig,
    r: Result<ServerInfo, HandshakeError>,
) -> bool {
    match resolved_url(response.sync@, url) {
        None => (r matches Err(HandshakeError::MalformedResponse(e)) && e@ == "invalid path "@
            + response.sync@),
        Some(sync) => match response.webviewer {
            None => (r matches Ok(info) && info.url@ == url && info.sync_url@ == sync && info.auth
                == auth && info.webviewer_url is None),
            Some(path) => match resolved_url(path@, url) {
                None => (r matches Err(HandshakeError::MalformedResponse(e)) && e@
                    == "invalid path "@ + path@),
                Some(viewer) => (r matches Ok(info) && info.url@ == url && info.sync_url@ == sync
                    && info.auth == auth && info.webviewer_url is Some && info.webviewer_url->0@
                    == viewer),
            },
        },
    }
}

/// The result is what a handshake gives for a response: an error where the server or this client
/// is too old, or where the response makes no sense, else what the response says.
pub open spec fn is_handshake(
    url: Seq<char>,
    response: HandshakeResponse,
    client: VersionParts,
    r: Result<ServerInfo, HandshakeError>,
) -> bool {
    if version_older(response.version@, minimum_server()) {
        (r matches Err(HandshakeError::UnsupportedServer { current_version, minimum_version })
            && current_version@ == version_text(response.version@) && minimum_version@
            == version_text(minimum_server()))
    } else if version_older(client, response.minimum_backstitch_version@) {
        (r matches Err(HandshakeError::UnsupportedClient { current_version, minimum_version })
            && current_version@ == version_text(client) && minimum_version@ == version_text(
            response.minimum_backstitch_version@,
        ))
    } else {
        match auth_of(response) {
            Err(message) => (r matches Err(HandshakeError::MalformedResponse(e)) && e@ == message),
            Ok(auth) => urls_taken(url, response, auth, r),
        }
    }
}

/// What is known of a server after it answered, or why it cannot be used. `client` is the version
/// of this Backstitch.
pub fn server_handshake(url: &str, response: HandshakeResponse, client: &Version) -> (r: Result<
    ServerInfo,
    HandshakeError,
>)
    ensures
        is_handshake(url@, response, client@, r),
{
    let minimum = Version::release(2, 0, 0);
    if is_older(&response.version, &minimum) {
        return Err(
            HandshakeError::UnsupportedServer {
                current_version: response.version.to_text(),
                minimum_version: minimum.to_text(),
            },
        );
    }
    if is_older(client, &response.minimum_backstitch_version) {
        return Err(
            HandshakeError::UnsupportedClient {
                current_version: client.to_text(),
                minimum_version: response.minimum_backstitch_version.to_text(),
            },
        );
    }
    let auth = if same_text(response.auth.as_str(), "none") {
        AuthConfig::NoAuth
    } else if same_text(response.auth.as_str(), "oidc") {
        let client_id = match response.oidc_client_id {
            Some(id) => id,
            None => {
                return Err(
                    HandshakeError::MalformedResponse(
                        "expected oidc_client_id to exist".to_owned(),
                    ),
                );
            },
        };
        let issuer = match response.oidc_issuer {
            Some(issuer) => issuer,
            None => {
                return Err(
                    HandshakeError::MalformedResponse("expected oidc_issuer to exist".to_owned()),
                );
            },
        };
        let redirect_port = match response.oidc_redirect_port {
            Some(port) => port,
            None => {
                return Err(
                    HandshakeError::MalformedResponse(
                        "expected oidc_redirect_port to exist".to_owned(),
                    ),
                );
            },
        };
        AuthConfig::Oidc(
            OidcAuthConfig { issuer, redirect_port, client_id, resource: response.oidc_resource },
        )
    } else {
        return Err(
            HandshakeError::MalformedResponse(
                joined("unsupported auth_type ", response.auth.as_str()),
            ),
        );
    };
    let sync_url = match parse_or_append(response.sync.as_str(), url) {
        Ok(url) => url,
        Err(e) => {
            return Err(e);
        },
    };
    let webviewer_url = match &response.webviewer {
        Some(path) => match parse_or_append(path.as_str(), url) {
            Ok(url) => Some(url),
            Err(e) => {
                return Err(e);
            },
        },
        None => None,
    };
    Ok(ServerInfo { url: url.to_owned(), sync_url, auth, webviewer_url })
}

/// A server before version two is never accepted, nor one that asks for a newer Backstitch.
pub proof fn old_versions_are_refused(
    url: Seq<char>,
    response: HandshakeResponse,
    client: VersionParts,
    r: Result<ServerInfo, HandshakeError>,
)
    requires
        is_handshake(url, response, client, r),
        version_older(response.version@, minimum_server()) || version_older(
            client,
            response.minimum_backstitch_version@,
        ),
    ensures
        r is Err,
{
}

/// A server and a client that are new enough for each other are never turned away for their
/// versions, and of one that is too old both versions are told.
pub proof fn versions_decide_first(
    url: Seq<char>,
    response: HandshakeResponse,
    client: VersionParts,
    r: Result<ServerInfo, HandshakeError>,
)
    requires
        is_handshake(url, response, client, r),
    ensures
        r matches Err(HandshakeError::UnsupportedServer { current_version, minimum_version })
            ==> version_older(
            response.version@,
            VersionParts { major: 2, minor: 0, patch: 0, pre: Seq::empty(), build: Seq::empty() },
        ) && current_version@ == version_text(response.version@) && minimum_version@
            == version_text(
            VersionParts { major: 2, minor: 0, patch: 0, pre: Seq::empty(), build: Seq::empty() },
        ),
        version_older(
            response.version@,
            VersionParts { major: 2, minor: 0, patch: 0, pre: Seq::empty(), build: Seq::empty() },
        ) ==> r matches Err(HandshakeError::UnsupportedServer { .. }),
        r matches Err(HandshakeError::UnsupportedClient { current_version, minimum_version })
            ==> version_older(client, response.minimum_backstitch_version@) && current_version@
            == version_text(client) && minimum_version@ == version_text(
            response.minimum_backstitch_version@,
        ),
        !version_older(
            response.version@,
            VersionParts { major: 2, minor: 0, patch: 0, pre: Seq::empty(), build: Seq::empty() },
        ) && version_older(client, response.minimum_backstitch_version@) ==> r matches Err(
            HandshakeError::UnsupportedClient { .. },
        ),
{
}

/// What is known of a server after a handshake: its own URL, the URL for syncing and, where it has
/// one, that of its web viewer, each absolute or below its own; and the way to sign in that it asks
/// for. A server that asks for OpenID Connect has to name its issuer, the client and the port, and
/// any other way but signing in nowhere is refused.
pub proof fn a_server_says_how_to_reach_it(
    url: Seq<char>,
    response: HandshakeResponse,
    client: VersionParts,
    r: Result<ServerInfo, HandshakeError>,
)
    requires
        is_handshake(url, response, client, r),
    ensures
        r matches Ok(info) ==> {
            &&& info.url@ == url
            &&& resolved_url(response.sync@, url) == Some(info.sync_url@)
            &&& response.webviewer is None <==> info.webviewer_url is None
            &&& response.webviewer matches Some(path) ==> resolved_url(path@, url) == Some(
                info.webviewer_url->0@,
            )
            &&& response.auth@ == "none"@ || response.auth@ == "oidc"@
            &&& response.auth@ == "none"@ ==> info.auth is NoAuth
            &&& response.auth@ == "oidc"@ && response.auth@ != "none"@ ==> (
            info.auth matches AuthConfig::Oidc(config) && Some(config.client_id)
                == response.oidc_client_id && Some(config.issuer) == response.oidc_issuer && Some(
                config.redirect_port,
            ) == response.oidc_redirect_port && config.resource == response.oidc_resource)
        },
        !version_older(response.version@, minimum_server()) && !version_older(
            client,
            response.minimum_backstitch_version@,
        ) && resolved_url(response.sync@, url) is Some && (response.webviewer is None
            || resolved_url(response.webviewer->0@, url) is Some) && (response.auth@ == "none"@ || (
        response.auth@ == "oidc"@ && response.oidc_client_id is Some && response.oidc_issuer is Some
            && response.oidc_redirect_port is Some)) ==> r is Ok,
{
    reveal_strlit("none");
    reveal_strlit("oidc");
}

/// A URL that a server gives stands as it is where it is absolute and names a host, and is taken
/// relative to the server's URL otherwise.
pub proof fn only_full_urls_stand_alone(path: Seq<char>, base: Seq<char>)
    ensures
        url_parts(path) is Some && url_parts(path)->0.has_authority ==> resolved_url(path, base)
            == Some(url_parts(path)->0.text),
        url_parts(path) is None || !url_parts(path)->0.has_authority ==> resolved_url(path, base)
            == url_join(base, path),
{
}

/// The oldest server that is talked to has version two.
pub proof fn the_oldest_server_has_version_two()
    ensures
        minimum_server() == (VersionParts {
            major: 2,
            minor: 0,
            patch: 0,
            pre: Seq::empty(),
            build: Seq::empty(),
        }),
{
}

/// A version is written with its three numbers between dots. Pre-release identifiers follow after a
/// hyphen and metadata after a plus sign, where there are any.
pub proof fn versions_are_written_in_order(v: VersionParts)
    ensures
        ({
            let numbers = decimal(v.major as nat) + seq!['.'] + decimal(v.minor as nat) + seq!['.']
                + decimal(v.patch as nat);
            &&& v.pre.len() == 0 && v.build.len() == 0 ==> version_text(v) == numbers
            &&& v.pre.len() > 0 && v.build.len() == 0 ==> version_text(v) == numbers + seq!['-']
                + v.pre
            &&& v.pre.len() == 0 && v.build.len() > 0 ==> version_text(v) == numbers + seq!['+']
                + v.build
            &&& v.pre.len() > 0 && v.build.len() > 0 ==> version_text(v) == numbers + seq!['-']
                + v.pre + seq!['+'] + v.build
        }),
{
    reveal_strlit(".");
    reveal_strlit("-");
    reveal_strlit("+");
    assert("."@ =~= seq!['.']);
    assert("-"@ =~= seq!['-']);
    assert("+"@ =~= seq!['+']);
    let numbers = decimal(v.major as nat) + seq!['.'] + decimal(v.minor as nat) + seq!['.']
        + decimal(v.patch as nat);
    let spec_numbers = decimal(v.major as nat) + "."@ + decimal(v.minor as nat) + ("."@ + decimal(
        v.patch as nat,
    ));
    assert(spec_numbers =~= numbers);
    assert(version_text(v) =~= numbers + (if v.pre.len() == 0 {
        Seq::empty()
    } else {
        seq!['-'] + v.pre
    }) + (if v.build.len() == 0 {
        Seq::empty()
    } else {
        seq!['+'] + v.build
    }));
    if v.pre.len() == 0 && v.build.len() == 0 {
        assert(version_text(v) =~= numbers);
    } else if v.build.len() == 0 {
        assert(version_text(v) =~= numbers + seq!['-'] + v.pre);
    } else if v.pre.len() == 0 {
        assert(version_text(v) =~= numbers + seq!['+'] + v.build);
    } else {
        assert(version_text(v) =~= numbers + seq!['-'] + v.pre + seq!['+'] + v.build);
    }
}

} // verus!
