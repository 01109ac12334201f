use asmith_bot::session::{
    decode_session, encode_session, ClientStoreConfig, MatrixSessionData, PersistedSession,
};

fn sample_session(refresh: Option<&str>, cursor: Option<&str>) -> PersistedSession {
    PersistedSession {
        client_store_config: ClientStoreConfig {
            store_path: "/data/matrix_sdk_store/Ab12Cd34Ef56Gh78".to_owned(),
            store_passphrase: "SECRET-REDACTED".to_owned(),
        },
        matrix_session: MatrixSessionData {
            user_id: "@bot:example.org".to_owned(),
            device_id: "DEVICEID01".to_owned(),
            access_token: "syt_access_token_value".to_owned(),
            refresh_token: refresh.map(|s| s.to_owned()),
        },
        sync_token: cursor.map(|s| s.to_owned()),
    }
}

fn assert_sessions_equal(a: &PersistedSession, b: &PersistedSession) {
    assert_eq!(a.client_store_config.store_path, b.client_store_config.store_path);
    assert_eq!(a.client_store_config.store_passphrase, b.client_store_config.store_passphrase);
    assert_eq!(a.matrix_session.user_id, b.matrix_session.user_id);
    assert_eq!(a.matrix_session.device_id, b.matrix_session.device_id);
    assert_eq!(a.matrix_session.access_token, b.matrix_session.access_token);
    assert_eq!(a.matrix_session.refresh_token, b.matrix_session.refresh_token);
    assert_eq!(a.sync_token, b.sync_token);
}

#[test]
fn save_then_load_reproduces_the_record() {
    let session = sample_session(Some("refresh_token_value"), Some("s72594_4483_1934"));
    let document = encode_session(&session);
    let loaded = decode_session(document.as_str()).expect("round trip must succeed");
    assert_sessions_equal(&session, &loaded);
}

#[test]
fn round_trip_without_optional_fields() {
    let session = sample_session(None, None);
    let document = encode_session(&session);
    let loaded = decode_session(document.as_str()).expect("round trip must succeed");
    assert_sessions_equal(&session, &loaded);
}

#[test]
fn round_trip_with_awkward_characters() {
    let mut session = sample_session(Some(""), Some("7:colon"));
    session.client_store_config.store_passphrase = "line\nbreak:and 9:digits".to_owned();
    session.matrix_session.user_id = "@weird um:laut:example".to_owned();
    let document = encode_session(&session);
    let loaded = decode_session(document.as_str()).expect("round trip must succeed");
    assert_sessions_equal(&session, &loaded);
}

#[test]
fn empty_document_is_rejected() {
    assert!(decode_session("").is_none());
}

#[test]
fn truncated_document_is_rejected() {
    let session = sample_session(Some("r"), Some("c"));
    let document = encode_session(&session);
    let truncated = &document[..document.len() - 1];
    assert!(decode_session(truncated).is_none());
}

#[test]
fn trailing_garbage_is_rejected() {
    let session = sample_session(None, None);
    let mut document = encode_session(&session);
    document.push('x');
    assert!(decode_session(document.as_str()).is_none());
}

#[test]
fn corrupt_length_prefix_is_rejected() {
    assert!(decode_session("banana").is_none());
    assert!(decode_session("999999999999999999999999:x").is_none());
}
