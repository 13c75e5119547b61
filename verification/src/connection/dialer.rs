//! Dialing a server with a token.

use crate::text::joined;
use vstd::prelude::*;
use vstd::string::*;

verus! {

/// Why dialing failed.
#[derive(Debug)]
pub enum DialerError {
    Network(String),
}

impl DialerError {
    /// The error as it is logged.
    pub fn to_text(&self) -> (r: String)
        ensures
            r@ == match *self {
                DialerError::Network(e) => "network: "@ + e@,
            },
    {
        match self {
            DialerError::Network(e) => joined("network: ", e.as_str()),
        }
    }

    /// An error on the way in.
    pub fn receiving(error: &str) -> (r: DialerError)
        ensures
            r matches DialerError::Network(e) && e@ == "error receiving websocket message: "@
                + error@,
    {
        DialerError::Network(joined("error receiving websocket message: ", error))
    }

    /// An error on the way out.
    pub fn sending(error: &str) -> (r: DialerError)
        ensures
            r matches DialerError::Network(e) && e@ == "error sending websocket message: "@ + error@,
    {
        DialerError::Network(joined("error sending websocket message: ", error))
    }

    /// An error on the way out, as the sync protocol sees it.
    pub fn send_failed(&self) -> (r: DialerError)
        ensures
            r matches DialerError::Network(e) && e@ == "websocket send error: "@ + (
            "network: "@ + self->Network_0@),
    {
        let text = self.to_text();
        DialerError::Network(joined("websocket send error: ", text.as_str()))
    }
}

/// The value of the authorization header for a token.
pub fn authorization(token: &str) -> (r: String)
    ensures
        r@ == "Bearer "@ + token@,
{
    joined("Bearer ", token)
}

/// Dials a server with a token.
#[derive(Debug)]
pub struct AuthenticatedTungsteniteDialer {
    pub url: String,
    pub bearer_token: Option<String>,
    pub auth_failed: bool,
}

impl AuthenticatedTungsteniteDialer {
    pub fn new(url: String) -> (r: Self)
        ensures
            r.url == url,
            r.bearer_token is None,
            !r.auth_failed,
    {
        AuthenticatedTungsteniteDialer { url, bearer_token: None, auth_failed: false }
    }

    /// Sets the token. What was refused before does not count any more.
    pub fn set_bearer_token(&mut self, bearer_token: Option<String>)
        ensures
            final(self).bearer_token == bearer_token,
            !final(self).auth_failed,
            final(self).url == old(self).url,
    {
        self.bearer_token = bearer_token;
        self.auth_failed = false;
    }

    /// The value of the authorization header, where there is a token.
    pub fn header(&self) -> (r: Option<String>)
        ensures
            match self.bearer_token {
                Some(t) => r is Some && r->0@ == "Bearer "@ + t@,
                None => r is None,
            },
    {
        match &self.bearer_token {
            Some(token) => Some(authorization(token.as_str())),
            None => None,
        }
    }

    /// Dialing failed; with the status of the server's answer, where it gave one. Only an answer
    /// that the token is not good enough is remembered.
    pub fn connect_failed(&mut self, status: Option<u16>)
        ensures
            final(self).auth_failed == (old(self).auth_failed || status == Some(401u16)),
            final(self).url == old(self).url,
            final(self).bearer_token == old(self).bearer_token,
    {
        if let Some(code) = status {
            if code == 401 {
                self.auth_failed = true;
            }
        }
    }
}

/// A message on a WebSocket.
#[derive(Debug)]
pub enum WsMessage {
    Binary(Vec<u8>),
    Text,
    Ping,
    Pong,
    Close,
}

/// What the sync protocol gets of what came in: the bytes of binary messages; errors for what went
/// wrong and for text; nothing for the rest.
pub fn ws_to_bytes(message: Result<WsMessage, DialerError>) -> (r: Option<
    Result<Vec<u8>, DialerError>,
>)
    ensures
        match message {
            Err(e) => r matches Some(Err(DialerError::Network(t))) && t@
                == "websocket receive error: "@ + ("network: "@ + e->Network_0@),
            Ok(WsMessage::Binary(data)) => r == Some(Ok::<Vec<u8>, DialerError>(data)),
            Ok(WsMessage::Text) => r matches Some(Err(DialerError::Network(t))) && t@
                == "unexpected string message on websocket"@,
            _ => r is None,
        },
{
    match message {
        Err(e) => {
            let text = e.to_text();
            Some(Err(DialerError::Network(joined("websocket receive error: ", text.as_str()))))
        },
        Ok(WsMessage::Binary(data)) => Some(Ok(data)),
        Ok(WsMessage::Text) => Some(
            Err(DialerError::Network("unexpected string message on websocket".to_owned())),
        ),
        _ => None,
    }
}

} // verus!
