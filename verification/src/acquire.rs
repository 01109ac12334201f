//! Session acquisition: at startup, either resume the previously persisted
//! session or perform a fresh login, and prepare everything a fresh login
//! needs — the unguessable store location and secret, the login method, and
//! the first session record to persist.

use vstd::prelude::*;

use crate::config::{BotConfig, ConfigError};
use crate::entropy::{is_alphanumeric_char, random_alphanumeric};
use crate::session::{ClientStoreConfig, MatrixSessionData, PersistedSession};

verus! {

/// Whether startup should try to resume the persisted session: only when the
/// session file exists and no explicit access token forces a fresh login.
pub fn should_attempt_restore(session_file_exists: bool, access_token: &Option<String>) -> (r:
    bool)
    ensures
        r == (session_file_exists && access_token is None),
{
    session_file_exists && access_token.is_none()
}

/// How a fresh login authenticates: by restoring a synthesized session from
/// a supplied access token, or by username and password.
pub enum LoginMethod {
    WithToken { user_id: String, access_token: String },
    WithPassword { user_id: String, password: String },
}

/// Everything a fresh login needs from the configuration.
pub struct LoginPlan {
    pub homeserver: String,
    pub method: LoginMethod,
}

/// Decides how a fresh login will authenticate. A homeserver is always
/// required; an access token takes precedence over a password and requires a
/// user identity; otherwise a user identity and a password are required.
/// Exactly the configurations missing one of these are rejected, before any
/// network call.
pub fn plan_login(config: &BotConfig) -> (r: Result<LoginPlan, ConfigError>)
    ensures
        match r {
            Result::Ok(plan) => {
                &&& config.homeserver matches Option::Some(h) && plan.homeserver@ == h@
                &&& match plan.method {
                    LoginMethod::WithToken { user_id, access_token } => {
                        &&& config.access_token matches Option::Some(t) && access_token@ == t@
                        &&& config.user_id matches Option::Some(u) && user_id@ == u@
                    },
                    LoginMethod::WithPassword { user_id, password } => {
                        &&& config.access_token is None
                        &&& config.user_id matches Option::Some(u) && user_id@ == u@
                        &&& config.password matches Option::Some(p) && password@ == p@
                    },
                }
            },
            Result::Err(e) => match e {
                ConfigError::MissingHomeserver => config.homeserver is None,
                ConfigError::MissingUserId => config.homeserver is Some
                    && config.access_token is Some && config.user_id is None,
                ConfigError::MissingCredentials => config.homeserver is Some
                    && config.access_token is None && (config.user_id is None
                    || config.password is None),
            },
        },
{
    let homeserver = match config.get_homeserver() {
        Result::Ok(h) => h.clone(),
        Result::Err(e) => { return Result::Err(e); },
    };
    match &config.access_token {
        Option::Some(token) => {
            let user_id = match config.get_user_id() {
                Result::Ok(u) => u.clone(),
                Result::Err(e) => { return Result::Err(e); },
            };
            Result::Ok(LoginPlan {
                homeserver,
                method: LoginMethod::WithToken { user_id, access_token: token.clone() },
            })
        },
        Option::None => {
            match (&config.user_id, &config.password) {
                (Option::Some(user_id), Option::Some(password)) => Result::Ok(LoginPlan {
                    homeserver,
                    method: LoginMethod::WithPassword {
                        user_id: user_id.clone(),
                        password: password.clone(),
                    },
                }),
                _ => Result::Err(ConfigError::MissingCredentials),
            }
        },
    }
}

/// Generates the store configuration for a fresh login: a new store directory
/// under the given base, named by sixteen unguessable alphanumeric
/// characters, and a new unguessable thirty-two character store secret. The
/// two are generated together and never reused across identities.
pub fn generate_store_config(store_base_path: &str) -> (r: ClientStoreConfig)
    ensures
        r.store_path@.len() == store_base_path@.len() + 17,
        r.store_path@.subrange(0, store_base_path@.len() as int) == store_base_path@,
        r.store_path@[store_base_path@.len() as int] == '/',
        forall|i: int|
            store_base_path@.len() + 1 <= i < r.store_path@.len()
                ==> is_alphanumeric_char(#[trigger] r.store_path@[i]),
        r.store_passphrase@.len() == 32,
        forall|i: int|
            0 <= i < r.store_passphrase@.len()
                ==> is_alphanumeric_char(#[trigger] r.store_passphrase@[i]),
{
    let subdir = random_alphanumeric(16);
    let store_passphrase = random_alphanumeric(32);
    let mut store_path = String::new();
    store_path.append(store_base_path);
    store_path.append("/");
    store_path.append(subdir.as_str());
    proof {
        reveal_strlit("/");
        assert(store_path@.subrange(0, store_base_path@.len() as int) =~= store_base_path@);
    }
    ClientStoreConfig { store_path, store_passphrase }
}

/// The first session record after a successful fresh login: the new store
/// configuration, the authenticated identity and tokens, and no continuation
/// cursor yet.
pub fn build_fresh_session(store: &ClientStoreConfig, auth: MatrixSessionData) -> (r:
    PersistedSession)
    ensures
        r@.client_store_config == store@,
        r@.matrix_session == auth@,
        r@.sync_token is None,
{
    PersistedSession {
        client_store_config: ClientStoreConfig {
            store_path: store.store_path.clone(),
            store_passphrase: store.store_passphrase.clone(),
        },
        matrix_session: auth,
        sync_token: Option::None,
    }
}

} // verus!
