//! Error types of the transport, blob, shell and server layers.

use vstd::prelude::*;

use crate::ids::{uuid_text, DeviceId};
use crate::text::{owned, push_str};

verus! {

/// Errors of peer-to-peer message delivery.
#[derive(Debug, Clone)]
pub enum TransportError {
    /// No session with this peer.
    PeerNotFound(DeviceId),
    /// The transport went away.
    Disconnected,
    /// A frame or stream could not be encoded or decoded.
    Codec(String),
}

/// Errors of blob storage and transfer.
#[derive(Debug, Clone)]
pub enum BlobError {
    Store(String),
    PeerNotFound(String),
    InvalidHash(String),
    NotFound(String),
}

/// Errors of the remote-shell host.
#[derive(Debug, Clone)]
pub enum ShellError {
    Pty(String),
    Spawn(String),
    Io(String),
}

/// Errors of authentication.
#[derive(Debug, Clone)]
pub enum AuthError {
    InvalidCredentials,
    InvalidToken,
    HashingFailed,
    Jwt(String),
}

/// Errors of the registration server; each becomes an HTTP response.
#[derive(Debug, Clone)]
pub enum ServerError {
    Unauthorized,
    Conflict(String),
    BadRequest(String),
    NotFound,
    Forbidden,
    ForbiddenMessage(String),
    /// A database failure, with the database's message.
    Database(String),
    Auth(AuthError),
    Internal(String),
}


/// The text of an authentication error.
pub open spec fn auth_error_text(e: AuthError) -> Seq<char> {
    match e {
        AuthError::InvalidCredentials => "invalid credentials"@,
        AuthError::InvalidToken => "invalid token"@,
        AuthError::HashingFailed => "password hashing failed"@,
        AuthError::Jwt(m) => "jwt error: "@ + m@,
    }
}

/// The text of a server error.
pub open spec fn server_error_text(e: ServerError) -> Seq<char> {
    match e {
        ServerError::Unauthorized => "unauthorized"@,
        ServerError::Conflict(m) => "conflict: "@ + m@,
        ServerError::BadRequest(m) => "bad request: "@ + m@,
        ServerError::NotFound => "not found"@,
        ServerError::Forbidden => "forbidden"@,
        ServerError::ForbiddenMessage(m) => "forbidden: "@ + m@,
        ServerError::Database(m) => m@,
        ServerError::Auth(a) => auth_error_text(a),
        ServerError::Internal(m) => m@,
    }
}

/// The text of a transport error; `peer` is the text of the device id.
pub open spec fn transport_error_text(e: TransportError) -> Seq<char> {
    match e {
        TransportError::PeerNotFound(d) => "peer `"@ + uuid_text(d.0) + "` not found"@,
        TransportError::Disconnected => "transport disconnected"@,
        TransportError::Codec(m) => "transport codec error: "@ + m@,
    }
}

/// The text of a blob error.
pub open spec fn blob_error_text(e: BlobError) -> Seq<char> {
    match e {
        BlobError::Store(m) => "blob store error: "@ + m@,
        BlobError::PeerNotFound(m) => "peer `"@ + m@ + "` not found"@,
        BlobError::InvalidHash(m) => "invalid blob hash: "@ + m@,
        BlobError::NotFound(m) => "blob not found: "@ + m@,
    }
}

/// The text of a shell error.
pub open spec fn shell_error_text(e: ShellError) -> Seq<char> {
    match e {
        ShellError::Pty(m) => "failed to open pty: "@ + m@,
        ShellError::Spawn(m) => "failed to spawn shell: "@ + m@,
        ShellError::Io(m) => "io error: "@ + m@,
    }
}

fn joined(a: &str, b: &str) -> (r: String)
    ensures
        r@ == a@ + b@,
{
    let mut r = owned(a);
    push_str(&mut r, b);
    r
}

fn joined3(a: &str, b: &str, c: &str) -> (r: String)
    ensures
        r@ == a@ + b@ + c@,
{
    let mut r = owned(a);
    push_str(&mut r, b);
    push_str(&mut r, c);
    r
}

impl AuthError {
    /// The error's text.
    pub fn message(&self) -> (r: String)
        ensures
            r@ == auth_error_text(*self),
    {
        match self {
            AuthError::InvalidCredentials => String::from_str("invalid credentials"),
            AuthError::InvalidToken => String::from_str("invalid token"),
            AuthError::HashingFailed => String::from_str("password hashing failed"),
            AuthError::Jwt(m) => joined("jwt error: ", m.as_str()),
        }
    }
}

impl ServerError {
    /// The error's text.
    pub fn message(&self) -> (r: String)
        ensures
            r@ == server_error_text(*self),
    {
        match self {
            ServerError::Unauthorized => String::from_str("unauthorized"),
            ServerError::Conflict(m) => joined("conflict: ", m.as_str()),
            ServerError::BadRequest(m) => joined("bad request: ", m.as_str()),
            ServerError::NotFound => String::from_str("not found"),
            ServerError::Forbidden => String::from_str("forbidden"),
            ServerError::ForbiddenMessage(m) => joined("forbidden: ", m.as_str()),
            ServerError::Database(m) => m.clone(),
            ServerError::Auth(a) => a.message(),
            ServerError::Internal(m) => m.clone(),
        }
    }

    /// The HTTP status and the message of the response that answers this
    /// error. Bad credentials and tokens are 401 with their text, conflicts and
    /// bad requests carry their own message, and database, other
    /// authentication and internal failures are a bare 500 that gives nothing
    /// away.
    pub fn status_and_message(&self) -> (r: (u16, String))
        ensures
            r.0 == response_status(*self),
            r.1@ == response_message(*self),
    {
        match self {
            ServerError::Unauthorized => (401, String::from_str("unauthorized")),
            ServerError::Auth(AuthError::InvalidCredentials) => (401, String::from_str("invalid credentials")),
            ServerError::Auth(AuthError::InvalidToken) => (401, String::from_str("invalid token")),
            ServerError::Conflict(m) => (409, m.clone()),
            ServerError::BadRequest(m) => (400, m.clone()),
            ServerError::NotFound => (404, String::from_str("not found")),
            ServerError::Forbidden => (403, String::from_str("forbidden")),
            ServerError::ForbiddenMessage(m) => (403, m.clone()),
            _ => (500, String::from_str("internal server error")),
        }
    }
}

/// The HTTP status answering a server error.
pub open spec fn response_status(e: ServerError) -> u16 {
    match e {
        ServerError::Unauthorized => 401,
        ServerError::Auth(AuthError::InvalidCredentials) => 401,
        ServerError::Auth(AuthError::InvalidToken) => 401,
        ServerError::Conflict(_) => 409,
        ServerError::BadRequest(_) => 400,
        ServerError::NotFound => 404,
        ServerError::Forbidden => 403,
        ServerError::ForbiddenMessage(_) => 403,
        _ => 500,
    }
}

/// The message of the response answering a server error.
pub open spec fn response_message(e: ServerError) -> Seq<char> {
    match e {
        ServerError::Conflict(m) => m@,
        ServerError::BadRequest(m) => m@,
        ServerError::ForbiddenMessage(m) => m@,
        ServerError::Unauthorized => "unauthorized"@,
        ServerError::Auth(AuthError::InvalidCredentials) => "invalid credentials"@,
        ServerError::Auth(AuthError::InvalidToken) => "invalid token"@,
        ServerError::NotFound => "not found"@,
        ServerError::Forbidden => "forbidden"@,
        _ => "internal server error"@,
    }
}

impl TransportError {
    /// The error's text.
    pub fn message(&self) -> (r: String)
        ensures
            r@ == transport_error_text(*self),
    {
        match self {
            TransportError::PeerNotFound(d) => {
                let t = d.to_text();
                joined3("peer `", t.as_str(), "` not found")
            },
            TransportError::Disconnected => String::from_str("transport disconnected"),
            TransportError::Codec(m) => joined("transport codec error: ", m.as_str()),
        }
    }
}

impl BlobError {
    /// The error's text.
    pub fn message(&self) -> (r: String)
        ensures
            r@ == blob_error_text(*self),
    {
        match self {
            BlobError::Store(m) => joined("blob store error: ", m.as_str()),
            BlobError::PeerNotFound(m) => joined3("peer `", m.as_str(), "` not found"),
            BlobError::InvalidHash(m) => joined("invalid blob hash: ", m.as_str()),
            BlobError::NotFound(m) => joined("blob not found: ", m.as_str()),
        }
    }
}

impl ShellError {
    /// The error's text.
    pub fn message(&self) -> (r: String)
        ensures
            r@ == shell_error_text(*self),
    {
        match self {
            ShellError::Pty(m) => joined("failed to open pty: ", m.as_str()),
            ShellError::Spawn(m) => joined("failed to spawn shell: ", m.as_str()),
            ShellError::Io(m) => joined("io error: ", m.as_str()),
        }
    }
}

} // verus!
