use contribution_store::response::StorageError;

#[test]
fn failure_classification_is_the_generic_server_error() {
    let error = StorageError::DatabaseError(String::from("connection refused"));
    assert_eq!(error.status_code(), 500);
}

#[test]
fn failure_body_is_the_error_object() {
    let error = StorageError::DatabaseError(String::from("connection refused"));
    assert_eq!(error.response_body(), "{\"error\":\"connection refused\"}");
}

#[test]
fn failure_message_is_kept_as_given() {
    let error = StorageError::DatabaseError(String::from("pool timed out"));
    assert_eq!(error.message(), "pool timed out");
}

#[test]
fn empty_message_still_yields_an_error_object() {
    let error = StorageError::DatabaseError(String::new());
    assert_eq!(error.response_body(), "{\"error\":\"\"}");
}

#[test]
fn quotes_backslashes_and_newlines_are_escaped() {
    let error = StorageError::DatabaseError(String::from("he said \"hi\"\\\n"));
    assert_eq!(error.response_body(), "{\"error\":\"he said \\\"hi\\\"\\\\\\n\"}");
}

#[test]
fn control_characters_use_short_or_unicode_escapes() {
    let error = StorageError::DatabaseError(String::from("\t\r\u{0008}\u{000C}\u{0001}\u{001f}"));
    assert_eq!(
        error.response_body(),
        "{\"error\":\"\\t\\r\\b\\f\\u0001\\u001f\"}"
    );
}

#[test]
fn body_parses_as_json_with_the_message_in_the_error_field() {
    let message = "near \"SELCT\": syntax error\nline 1";
    let error = StorageError::DatabaseError(String::from(message));
    let body = error.response_body();
    let value: serde_json::Value = serde_json::from_str(&body).expect("body is valid JSON");
    let object = value.as_object().expect("body is a JSON object");
    assert_eq!(object.len(), 1);
    assert_eq!(object.get("error").and_then(|v| v.as_str()), Some(message));
}

#[test]
fn unicode_messages_pass_through_unescaped() {
    let error = StorageError::DatabaseError(String::from("boîte à outils — 工具"));
    assert_eq!(error.response_body(), "{\"error\":\"boîte à outils — 工具\"}");
    let value: serde_json::Value =
        serde_json::from_str(&error.response_body()).expect("body is valid JSON");
    assert_eq!(
        value.get("error").and_then(|v| v.as_str()),
        Some("boîte à outils — 工具")
    );
}
