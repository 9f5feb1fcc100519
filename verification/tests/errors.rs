use gaggle::error::GaggleError;

#[test]
fn error_codes_statuses_and_text() {
    let cases = vec![
        (GaggleError::Unauthorized("x".to_string()), "UNAUTHORIZED", 401, "Unauthorized: x"),
        (GaggleError::Forbidden("x".to_string()), "FORBIDDEN", 403, "Forbidden: x"),
        (GaggleError::SpaceNotFound("s".to_string()), "SPACE_NOT_FOUND", 404, "Space not found: s"),
        (GaggleError::SpaceClosed("s".to_string()), "SPACE_CLOSED", 400, "Space closed: s"),
        (GaggleError::InvalidMessageType("m".to_string()), "INVALID_MESSAGE_TYPE", 400, "Invalid message type: m"),
        (GaggleError::EncryptionError("e".to_string()), "ENCRYPTION_ERROR", 500, "Encryption error: e"),
        (GaggleError::SolanaError("e".to_string()), "SOLANA_ERROR", 500, "Solana error: e"),
        (GaggleError::DatabaseError("e".to_string()), "DATABASE_ERROR", 500, "Database error: e"),
        (GaggleError::ValidationError("v".to_string()), "VALIDATION_ERROR", 400, "Validation error: v"),
        (GaggleError::NotFound("n".to_string()), "NOT_FOUND", 404, "Not found: n"),
        (GaggleError::Internal("i".to_string()), "INTERNAL_ERROR", 500, "Internal error: i"),
        (GaggleError::WebSocketError("w".to_string()), "WEBSOCKET_ERROR", 500, "WebSocket error: w"),
    ];
    for (e, code, status, text) in cases {
        assert_eq!(e.code(), code);
        assert_eq!(e.status(), status);
        assert_eq!(e.to_text(), text);
    }
    assert_eq!(GaggleError::NotFound("abc".to_string()).message(), "abc");
}
