use asmith_bot::acquire::{
    build_fresh_session, generate_store_config, plan_login, should_attempt_restore, LoginMethod,
};
use asmith_bot::config::{BotConfig, ConfigError};
use asmith_bot::monitor::ConnectionMonitor;
use asmith_bot::session::{decode_session, encode_session, MatrixSessionData};
use asmith_bot::sync::{SyncAction, SyncEvent, SyncLoop};

fn config_with(
    homeserver: Option<&str>,
    user_id: Option<&str>,
    password: Option<&str>,
    access_token: Option<&str>,
) -> BotConfig {
    BotConfig {
        data_dir: "/data".to_owned(),
        homeserver: homeserver.map(|s| s.to_owned()),
        user_id: user_id.map(|s| s.to_owned()),
        password: password.map(|s| s.to_owned()),
        access_token: access_token.map(|s| s.to_owned()),
        debug: false,
        max_retries: 3,
    }
}

#[test]
fn restore_is_attempted_only_without_a_token_override() {
    assert!(should_attempt_restore(true, &None));
    assert!(!should_attempt_restore(true, &Some("tok".to_owned())));
    assert!(!should_attempt_restore(false, &None));
    assert!(!should_attempt_restore(false, &Some("tok".to_owned())));
}

#[test]
fn password_login_plan() {
    let config = config_with(Some("https://hs.example"), Some("@bot:example.org"), Some("pw"), None);
    let plan = plan_login(&config).expect("password login must be planned");
    assert_eq!(plan.homeserver, "https://hs.example");
    match plan.method {
        LoginMethod::WithPassword { user_id, password } => {
            assert_eq!(user_id, "@bot:example.org");
            assert_eq!(password, "pw");
        }
        _ => panic!("a password configuration must log in by password"),
    }
}

#[test]
fn token_login_takes_precedence_over_password() {
    let config = config_with(
        Some("https://hs.example"),
        Some("@bot:example.org"),
        Some("pw"),
        Some("tok"),
    );
    let plan = plan_login(&config).expect("token login must be planned");
    match plan.method {
        LoginMethod::WithToken { user_id, access_token } => {
            assert_eq!(user_id, "@bot:example.org");
            assert_eq!(access_token, "tok");
        }
        _ => panic!("an access token must win over a password"),
    }
}

#[test]
fn missing_configuration_is_fatal_before_any_network_call() {
    let no_hs = config_with(None, Some("@u:x"), Some("pw"), None);
    assert!(matches!(plan_login(&no_hs), Err(ConfigError::MissingHomeserver)));

    let token_no_user = config_with(Some("https://hs"), None, None, Some("tok"));
    assert!(matches!(plan_login(&token_no_user), Err(ConfigError::MissingUserId)));

    let no_credentials = config_with(Some("https://hs"), Some("@u:x"), None, None);
    assert!(matches!(plan_login(&no_credentials), Err(ConfigError::MissingCredentials)));

    let password_no_user = config_with(Some("https://hs"), None, Some("pw"), None);
    assert!(matches!(plan_login(&password_no_user), Err(ConfigError::MissingCredentials)));
}

#[test]
fn can_login_requires_all_three_pieces() {
    assert!(config_with(Some("h"), Some("u"), Some("p"), None).can_login());
    assert!(config_with(Some("h"), Some("u"), None, Some("t")).can_login());
    assert!(!config_with(None, Some("u"), Some("p"), None).can_login());
    assert!(!config_with(Some("h"), None, Some("p"), None).can_login());
    assert!(!config_with(Some("h"), Some("u"), None, None).can_login());
}

#[test]
fn session_file_path_is_under_the_data_directory() {
    let config = config_with(None, None, None, None);
    assert_eq!(config.get_session_file_path(), "/data/session.json");
}

#[test]
fn generated_store_config_is_fresh_and_well_formed() {
    let store = generate_store_config("/data/matrix_sdk_store");
    assert!(store.store_path.starts_with("/data/matrix_sdk_store/"));
    let suffix = &store.store_path["/data/matrix_sdk_store/".len()..];
    assert_eq!(suffix.chars().count(), 16);
    assert!(suffix.chars().all(|c| c.is_ascii_alphanumeric()));
    assert_eq!(store.store_passphrase.chars().count(), 32);
    assert!(store.store_passphrase.chars().all(|c| c.is_ascii_alphanumeric()));

    // Two generations must not collide: the values are unguessable.
    let other = generate_store_config("/data/matrix_sdk_store");
    assert_ne!(store.store_passphrase, other.store_passphrase);
}

#[test]
fn fresh_login_writes_a_session_without_a_cursor() {
    let store = generate_store_config("/data/matrix_sdk_store");
    let auth = MatrixSessionData {
        user_id: "@bot:example.org".to_owned(),
        device_id: "DEV1".to_owned(),
        access_token: "tok".to_owned(),
        refresh_token: None,
    };
    let session = build_fresh_session(&store, auth);
    assert!(session.sync_token.is_none());
    assert_eq!(session.client_store_config.store_path, store.store_path);
    assert_eq!(session.client_store_config.store_passphrase, store.store_passphrase);
}

#[test]
fn fresh_login_then_first_sync_persists_the_polled_cursor() {
    // Session file absent, password supplied: fresh login, cursor absent.
    assert!(!should_attempt_restore(false, &None));
    let config = config_with(Some("https://hs.example"), Some("@bot:example.org"), Some("pw"), None);
    assert!(plan_login(&config).is_ok());
    let store = generate_store_config("/data/matrix_sdk_store");
    let auth = MatrixSessionData {
        user_id: "@bot:example.org".to_owned(),
        device_id: "DEV1".to_owned(),
        access_token: "tok".to_owned(),
        refresh_token: None,
    };
    let fresh = build_fresh_session(&store, auth);
    assert!(fresh.sync_token.is_none());
    let first_file = encode_session(&fresh);

    // First successful sync cycle overwrites the file with the polled cursor.
    let mut sync = SyncLoop::new(fresh.sync_token.clone(), ConnectionMonitor::new(3));
    let action = sync.step(
        SyncEvent::Succeeded { next_cursor: "s1_first_batch".to_owned() },
        &fresh.client_store_config,
        &fresh.matrix_session,
    );
    match action {
        SyncAction::PersistAndContinue { snapshot } => {
            let second_file = encode_session(&snapshot);
            assert_ne!(first_file, second_file);
            let reloaded = decode_session(second_file.as_str()).unwrap();
            assert_eq!(reloaded.sync_token.as_deref(), Some("s1_first_batch"));
        }
        _ => panic!("the first successful cycle must persist a snapshot"),
    }
}

#[test]
fn restore_reuses_the_stored_location_and_secret_unchanged() {
    // Session file present, no forced-fresh-login flag: restore, no login.
    assert!(should_attempt_restore(true, &None));
    let store = generate_store_config("/data/matrix_sdk_store");
    let auth = MatrixSessionData {
        user_id: "@bot:example.org".to_owned(),
        device_id: "DEV1".to_owned(),
        access_token: "tok".to_owned(),
        refresh_token: Some("r".to_owned()),
    };
    let original = build_fresh_session(&store, auth);
    let file = encode_session(&original);
    let restored = decode_session(file.as_str()).expect("a valid session file must restore");
    assert_eq!(restored.client_store_config.store_path, store.store_path);
    assert_eq!(restored.client_store_config.store_passphrase, store.store_passphrase);
}

#[test]
fn config_error_descriptions() {
    assert_eq!(
        ConfigError::MissingHomeserver.describe(),
        "Homeserver URL is required but was not provided"
    );
    assert_eq!(
        ConfigError::MissingUserId.describe(),
        "User ID is required but was not provided"
    );
    assert_eq!(
        ConfigError::MissingCredentials.describe(),
        "Ensure homeserver, user ID, and either password or access token are correctly configured"
    );
}
