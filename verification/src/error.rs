//! The fault kinds of the backend, their external code names and the messages
//! that may leave the process.

use crate::text::concat;
use vstd::prelude::*;

verus! {

/// A fault of the backend.
///
/// The storage, network and parse kinds carry the internal detail as text; it
/// is meant for the local log only and never for a caller outside the process.
#[derive(Debug, Clone, PartialEq, Eq)]
pub enum NoteDeckError {
    Database(String),
    Network(String),
    Json(String),
    AccountNotFound(String),
    Api { endpoint: String, status: u16, message: String },
    Auth(String),
    WebSocket(String),
    NoConnection(String),
    ConnectionClosed,
    InvalidInput(String),
    Keychain(String),
}

/// The mathematical value of a [`NoteDeckError`].
pub ghost enum ErrorView {
    Database(Seq<char>),
    Network(Seq<char>),
    Json(Seq<char>),
    AccountNotFound(Seq<char>),
    Api { endpoint: Seq<char>, status: u16, message: Seq<char> },
    Auth(Seq<char>),
    WebSocket(Seq<char>),
    NoConnection(Seq<char>),
    ConnectionClosed,
    InvalidInput(Seq<char>),
    Keychain(Seq<char>),
}

impl View for NoteDeckError {
    type V = ErrorView;

    open spec fn view(&self) -> ErrorView {
        match self {
            NoteDeckError::Database(d) => ErrorView::Database(d@),
            NoteDeckError::Network(d) => ErrorView::Network(d@),
            NoteDeckError::Json(d) => ErrorView::Json(d@),
            NoteDeckError::AccountNotFound(id) => ErrorView::AccountNotFound(id@),
            NoteDeckError::Api { endpoint, status, message } => ErrorView::Api {
                endpoint: endpoint@,
                status: *status,
                message: message@,
            },
            NoteDeckError::Auth(m) => ErrorView::Auth(m@),
            NoteDeckError::WebSocket(d) => ErrorView::WebSocket(d@),
            NoteDeckError::NoConnection(id) => ErrorView::NoConnection(id@),
            NoteDeckError::ConnectionClosed => ErrorView::ConnectionClosed,
            NoteDeckError::InvalidInput(m) => ErrorView::InvalidInput(m@),
            NoteDeckError::Keychain(d) => ErrorView::Keychain(d@),
        }
    }
}

impl ErrorView {
    /// The external code name of the kind.
    pub open spec fn code(self) -> Seq<char> {
        match self {
            ErrorView::Database(_) => "DATABASE"@,
            ErrorView::Network(_) => "NETWORK"@,
            ErrorView::Json(_) => "JSON"@,
            ErrorView::AccountNotFound(_) => "ACCOUNT_NOT_FOUND"@,
            ErrorView::Api { .. } => "API"@,
            ErrorView::Auth(_) => "AUTH"@,
            ErrorView::WebSocket(_) => "WEBSOCKET"@,
            ErrorView::NoConnection(_) => "NO_CONNECTION"@,
            ErrorView::ConnectionClosed => "CONNECTION_CLOSED"@,
            ErrorView::InvalidInput(_) => "INVALID_INPUT"@,
            ErrorView::Keychain(_) => "KEYCHAIN"@,
        }
    }

    /// Whether the kind carries internal detail that must not leave the process.
    pub open spec fn is_internal(self) -> bool {
        self is Database || self is Network || self is Json || self is WebSocket
            || self is Keychain
    }

    /// The message that may be shown outside the process.
    pub open spec fn safe_message(self) -> Seq<char> {
        match self {
            ErrorView::Database(_) => "Database operation failed"@,
            ErrorView::Network(_) => "Network request failed"@,
            ErrorView::Json(_) => "Invalid response format"@,
            ErrorView::WebSocket(_) => "Connection error"@,
            ErrorView::Keychain(_) => "Credential storage error"@,
            ErrorView::Api { message, .. } => message,
            ErrorView::Auth(m) => m,
            ErrorView::AccountNotFound(id) => "Account not found: "@ + id,
            ErrorView::NoConnection(id) => "No connection for account: "@ + id,
            ErrorView::ConnectionClosed => "Connection closed"@,
            ErrorView::InvalidInput(m) => "Invalid input: "@ + m,
        }
    }

    /// The line for the local log, for the kinds whose detail is internal.
    pub open spec fn log_line(self) -> Option<Seq<char>> {
        match self {
            ErrorView::Database(d) => Some("[error] Database: "@ + d),
            ErrorView::Network(d) => Some("[error] Network: "@ + d),
            ErrorView::Json(d) => Some("[error] JSON: "@ + d),
            ErrorView::WebSocket(d) => Some("[error] WebSocket: "@ + d),
            ErrorView::Keychain(d) => Some("[error] Keychain: "@ + d),
            _ => None,
        }
    }

    /// The description of the fault as the backend itself prints it.
    pub open spec fn description(self) -> Seq<char> {
        match self {
            ErrorView::Database(_) => "Database error"@,
            ErrorView::Network(_) => "Network error"@,
            ErrorView::Json(_) => "JSON parse error"@,
            ErrorView::AccountNotFound(id) => "Account not found: "@ + id,
            ErrorView::Api { message, .. } => message,
            ErrorView::Auth(m) => m,
            ErrorView::WebSocket(d) => "WebSocket: "@ + d,
            ErrorView::NoConnection(id) => "No connection for account: "@ + id,
            ErrorView::ConnectionClosed => "Connection closed"@,
            ErrorView::InvalidInput(m) => "Invalid input: "@ + m,
            ErrorView::Keychain(d) => "Keychain error: "@ + d,
        }
    }
}

impl NoteDeckError {
    /// The external code name of the kind.
    pub fn code(&self) -> (r: &'static str)
        ensures
            r@ == self@.code(),
    {
        match self {
            NoteDeckError::Database(_) => "DATABASE",
            NoteDeckError::Network(_) => "NETWORK",
            NoteDeckError::Json(_) => "JSON",
            NoteDeckError::AccountNotFound(_) => "ACCOUNT_NOT_FOUND",
            NoteDeckError::Api { .. } => "API",
            NoteDeckError::Auth(_) => "AUTH",
            NoteDeckError::WebSocket(_) => "WEBSOCKET",
            NoteDeckError::NoConnection(_) => "NO_CONNECTION",
            NoteDeckError::ConnectionClosed => "CONNECTION_CLOSED",
            NoteDeckError::InvalidInput(_) => "INVALID_INPUT",
            NoteDeckError::Keychain(_) => "KEYCHAIN",
        }
    }

    /// The message that may be shown outside the process: a fixed text for the
    /// kinds with internal detail, the composed message for the others.
    pub fn safe_message(&self) -> (r: String)
        ensures
            r@ == self@.safe_message(),
    {
        match self {
            NoteDeckError::Database(_) => "Database operation failed".to_owned(),
            NoteDeckError::Network(_) => "Network request failed".to_owned(),
            NoteDeckError::Json(_) => "Invalid response format".to_owned(),
            NoteDeckError::WebSocket(_) => "Connection error".to_owned(),
            NoteDeckError::Keychain(_) => "Credential storage error".to_owned(),
            NoteDeckError::Api { message, .. } => message.clone(),
            NoteDeckError::Auth(m) => m.clone(),
            NoteDeckError::AccountNotFound(id) => concat("Account not found: ", id.as_str()),
            NoteDeckError::NoConnection(id) => concat(
                "No connection for account: ",
                id.as_str(),
            ),
            NoteDeckError::ConnectionClosed => "Connection closed".to_owned(),
            NoteDeckError::InvalidInput(m) => concat("Invalid input: ", m.as_str()),
        }
    }

    /// The line to write to the local log before the fault is reported, if the
    /// kind carries internal detail.
    pub fn log_line(&self) -> (r: Option<String>)
        ensures
            r.deep_view() == self@.log_line(),
    {
        match self {
            NoteDeckError::Database(d) => Some(concat("[error] Database: ", d.as_str())),
            NoteDeckError::Network(d) => Some(concat("[error] Network: ", d.as_str())),
            NoteDeckError::Json(d) => Some(concat("[error] JSON: ", d.as_str())),
            NoteDeckError::WebSocket(d) => Some(concat("[error] WebSocket: ", d.as_str())),
            NoteDeckError::Keychain(d) => Some(concat("[error] Keychain: ", d.as_str())),
            _ => None,
        }
    }

    /// The description of the fault as the backend itself prints it.
    pub fn description(&self) -> (r: String)
        ensures
            r@ == self@.description(),
    {
        match self {
            NoteDeckError::Database(_) => "Database error".to_owned(),
            NoteDeckError::Network(_) => "Network error".to_owned(),
            NoteDeckError::Json(_) => "JSON parse error".to_owned(),
            NoteDeckError::AccountNotFound(id) => concat("Account not found: ", id.as_str()),
            NoteDeckError::Api { message, .. } => message.clone(),
            NoteDeckError::Auth(m) => m.clone(),
            NoteDeckError::WebSocket(d) => concat("WebSocket: ", d.as_str()),
            NoteDeckError::NoConnection(id) => concat(
                "No connection for account: ",
                id.as_str(),
            ),
            NoteDeckError::ConnectionClosed => "Connection closed".to_owned(),
            NoteDeckError::InvalidInput(m) => concat("Invalid input: ", m.as_str()),
            NoteDeckError::Keychain(d) => concat("Keychain error: ", d.as_str()),
        }
    }
}

/// The message shown outside the process never holds the internal detail: for
/// the kinds that carry one it does not depend on it.
pub proof fn lemma_safe_message_hides_detail(a: ErrorView, b: ErrorView)
    requires
        a.is_internal(),
        a.code() == b.code(),
    ensures
        a.safe_message() == b.safe_message(),
{
    reveal_strlit("DATABASE");
    reveal_strlit("NETWORK");
    reveal_strlit("JSON");
    reveal_strlit("ACCOUNT_NOT_FOUND");
    reveal_strlit("API");
    reveal_strlit("AUTH");
    reveal_strlit("WEBSOCKET");
    reveal_strlit("NO_CONNECTION");
    reveal_strlit("CONNECTION_CLOSED");
    reveal_strlit("INVALID_INPUT");
    reveal_strlit("KEYCHAIN");
    assert("DATABASE"@[0] == 'D');
    assert("NETWORK"@[1] == 'E');
    assert("JSON"@[0] == 'J');
    assert("ACCOUNT_NOT_FOUND"@[1] == 'C');
    assert("API"@[1] == 'P');
    assert("AUTH"@[1] == 'U');
    assert("WEBSOCKET"@[0] == 'W');
    assert("NO_CONNECTION"@[1] == 'O');
    assert("CONNECTION_CLOSED"@[0] == 'C');
    assert("INVALID_INPUT"@[0] == 'I');
    assert("KEYCHAIN"@[0] == 'K');
}

} // verus!
