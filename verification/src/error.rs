//! The platform's error type and how each error is answered over HTTP.

use vstd::prelude::*;
use vstd::string::*;

verus! {

/// Every error the platform reports; each carries a human-readable message.
#[derive(Debug, PartialEq, Eq)]
pub enum GaggleError {
    Unauthorized(String),
    Forbidden(String),
    SpaceNotFound(String),
    SpaceClosed(String),
    InvalidMessageType(String),
    EncryptionError(String),
    SolanaError(String),
    DatabaseError(String),
    ValidationError(String),
    NotFound(String),
    Internal(String),
    WebSocketError(String),
}

/// The machine-readable code of an error, as it appears in an error response.
pub open spec fn error_code(e: GaggleError) -> Seq<char> {
    match e {
        GaggleError::Unauthorized(_) => "UNAUTHORIZED"@,
        GaggleError::Forbidden(_) => "FORBIDDEN"@,
        GaggleError::SpaceNotFound(_) => "SPACE_NOT_FOUND"@,
        GaggleError::SpaceClosed(_) => "SPACE_CLOSED"@,
        GaggleError::InvalidMessageType(_) => "INVALID_MESSAGE_TYPE"@,
        GaggleError::EncryptionError(_) => "ENCRYPTION_ERROR"@,
        GaggleError::SolanaError(_) => "SOLANA_ERROR"@,
        GaggleError::DatabaseError(_) => "DATABASE_ERROR"@,
        GaggleError::ValidationError(_) => "VALIDATION_ERROR"@,
        GaggleError::NotFound(_) => "NOT_FOUND"@,
        GaggleError::Internal(_) => "INTERNAL_ERROR"@,
        GaggleError::WebSocketError(_) => "WEBSOCKET_ERROR"@,
    }
}

/// The HTTP status with which an error is answered.
pub open spec fn error_status(e: GaggleError) -> u16 {
    match e {
        GaggleError::Unauthorized(_) => 401,
        GaggleError::Forbidden(_) => 403,
        GaggleError::SpaceNotFound(_) => 404,
        GaggleError::SpaceClosed(_) => 400,
        GaggleError::InvalidMessageType(_) => 400,
        GaggleError::EncryptionError(_) => 500,
        GaggleError::SolanaError(_) => 500,
        GaggleError::DatabaseError(_) => 500,
        GaggleError::ValidationError(_) => 400,
        GaggleError::NotFound(_) => 404,
        GaggleError::Internal(_) => 500,
        GaggleError::WebSocketError(_) => 500,
    }
}

/// The prefix of an error's display text, before its message.
pub open spec fn error_prefix(e: GaggleError) -> Seq<char> {
    match e {
        GaggleError::Unauthorized(_) => "Unauthorized: "@,
        GaggleError::Forbidden(_) => "Forbidden: "@,
        GaggleError::SpaceNotFound(_) => "Space not found: "@,
        GaggleError::SpaceClosed(_) => "Space closed: "@,
        GaggleError::InvalidMessageType(_) => "Invalid message type: "@,
        GaggleError::EncryptionError(_) => "Encryption error: "@,
        GaggleError::SolanaError(_) => "Solana error: "@,
        GaggleError::DatabaseError(_) => "Database error: "@,
        GaggleError::ValidationError(_) => "Validation error: "@,
        GaggleError::NotFound(_) => "Not found: "@,
        GaggleError::Internal(_) => "Internal error: "@,
        GaggleError::WebSocketError(_) => "WebSocket error: "@,
    }
}

/// The message an error carries.
pub open spec fn error_message(e: GaggleError) -> Seq<char> {
    match e {
        GaggleError::Unauthorized(m) => m@,
        GaggleError::Forbidden(m) => m@,
        GaggleError::SpaceNotFound(m) => m@,
        GaggleError::SpaceClosed(m) => m@,
        GaggleError::InvalidMessageType(m) => m@,
        GaggleError::EncryptionError(m) => m@,
        GaggleError::SolanaError(m) => m@,
        GaggleError::DatabaseError(m) => m@,
        GaggleError::ValidationError(m) => m@,
        GaggleError::NotFound(m) => m@,
        GaggleError::Internal(m) => m@,
        GaggleError::WebSocketError(m) => m@,
    }
}

impl GaggleError {
    /// The error code of the JSON error body.
    pub fn code(&self) -> (r: &'static str)
        ensures
            r@ == error_code(*self),
    {
        match self {
            GaggleError::Unauthorized(_) => "UNAUTHORIZED",
            GaggleError::Forbidden(_) => "FORBIDDEN",
            GaggleError::SpaceNotFound(_) => "SPACE_NOT_FOUND",
            GaggleError::SpaceClosed(_) => "SPACE_CLOSED",
            GaggleError::InvalidMessageType(_) => "INVALID_MESSAGE_TYPE",
            GaggleError::EncryptionError(_) => "ENCRYPTION_ERROR",
            GaggleError::SolanaError(_) => "SOLANA_ERROR",
            GaggleError::DatabaseError(_) => "DATABASE_ERROR",
            GaggleError::ValidationError(_) => "VALIDATION_ERROR",
            GaggleError::NotFound(_) => "NOT_FOUND",
            GaggleError::Internal(_) => "INTERNAL_ERROR",
            GaggleError::WebSocketError(_) => "WEBSOCKET_ERROR",
        }
    }

    /// The HTTP status code of the error response.
    pub fn status(&self) -> (r: u16)
        ensures
            r == error_status(*self),
    {
        match self {
            GaggleError::Unauthorized(_) => 401,
            GaggleError::Forbidden(_) => 403,
            GaggleError::SpaceNotFound(_) => 404,
            GaggleError::SpaceClosed(_) => 400,
            GaggleError::InvalidMessageType(_) => 400,
            GaggleError::EncryptionError(_) => 500,
            GaggleError::SolanaError(_) => 500,
            GaggleError::DatabaseError(_) => 500,
            GaggleError::ValidationError(_) => 400,
            GaggleError::NotFound(_) => 404,
            GaggleError::Internal(_) => 500,
            GaggleError::WebSocketError(_) => 500,
        }
    }

    /// The message the error carries.
    pub fn message(&self) -> (r: &String)
        ensures
            r@ == error_message(*self),
    {
        match self {
            GaggleError::Unauthorized(m) => m,
            GaggleError::Forbidden(m) => m,
            GaggleError::SpaceNotFound(m) => m,
            GaggleError::SpaceClosed(m) => m,
            GaggleError::InvalidMessageType(m) => m,
            GaggleError::EncryptionError(m) => m,
            GaggleError::SolanaError(m) => m,
            GaggleError::DatabaseError(m) => m,
            GaggleError::ValidationError(m) => m,
            GaggleError::NotFound(m) => m,
            GaggleError::Internal(m) => m,
            GaggleError::WebSocketError(m) => m,
        }
    }

    /// The display text of the error: its kind, a colon, and its message.
    pub fn to_text(&self) -> (r: String)
        ensures
            r@ == error_prefix(*self) + error_message(*self),
    {
        let prefix = match self {
            GaggleError::Unauthorized(_) => "Unauthorized: ",
            GaggleError::Forbidden(_) => "Forbidden: ",
            GaggleError::SpaceNotFound(_) => "Space not found: ",
            GaggleError::SpaceClosed(_) => "Space closed: ",
            GaggleError::InvalidMessageType(_) => "Invalid message type: ",
            GaggleError::EncryptionError(_) => "Encryption error: ",
            GaggleError::SolanaError(_) => "Solana error: ",
            GaggleError::DatabaseError(_) => "Database error: ",
            GaggleError::ValidationError(_) => "Validation error: ",
            GaggleError::NotFound(_) => "Not found: ",
            GaggleError::Internal(_) => "Internal error: ",
            GaggleError::WebSocketError(_) => "WebSocket error: ",
        };
        let mut s = String::from_str(prefix);
        s.append(self.message().as_str());
        s
    }
}

} // verus!
