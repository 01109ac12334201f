//! The bot's already-validated configuration, as plain values, and the
//! queries the session lifecycle makes of it.

use vstd::prelude::*;

verus! {

/// The application's name, used in file names and display names.
pub fn app_name() -> (r: &'static str)
    ensures
        r@ == spec_app_name(),
{
    "asmith_bot"
}

pub open spec fn spec_app_name() -> Seq<char> {
    "asmith_bot"@
}

/// A configuration item required for login that was not provided.
#[derive(Debug, Clone, Copy, PartialEq, Eq, Structural)]
pub enum ConfigError {
    MissingHomeserver,
    MissingUserId,
    MissingCredentials,
}

impl ConfigError {
    /// A short description of the missing item.
    pub fn describe(&self) -> (r: &'static str)
        ensures
            match self {
                ConfigError::MissingHomeserver => r@ == "Homeserver URL is required but was not provided"@,
                ConfigError::MissingUserId => r@ == "User ID is required but was not provided"@,
                ConfigError::MissingCredentials => r@ == "Ensure homeserver, user ID, and either password or access token are correctly configured"@,
            },
    {
        match self {
            ConfigError::MissingHomeserver => "Homeserver URL is required but was not provided",
            ConfigError::MissingUserId => "User ID is required but was not provided",
            ConfigError::MissingCredentials => "Ensure homeserver, user ID, and either password or access token are correctly configured",
        }
    }
}

/// Configuration consumed by the session lifecycle: where data lives, who to
/// log in as and with what, and the retry budget for the sync loop.
pub struct BotConfig {
    pub data_dir: String,
    pub homeserver: Option<String>,
    pub user_id: Option<String>,
    pub password: Option<String>,
    pub access_token: Option<String>,
    pub debug: bool,
    pub max_retries: usize,
}

impl BotConfig {
    /// Where the session record is stored: `session.json` in the data
    /// directory.
    pub fn get_session_file_path(&self) -> (r: String)
        ensures
            r@ == self.data_dir@ + "/session.json"@,
    {
        let mut path = self.data_dir.clone();
        path.append("/session.json");
        path
    }

    /// The homeserver, required for any login or restore.
    pub fn get_homeserver(&self) -> (r: Result<&String, ConfigError>)
        ensures
            match r {
                Result::Ok(h) => self.homeserver matches Option::Some(s) && h@ == s@,
                Result::Err(e) => self.homeserver is None && e == ConfigError::MissingHomeserver,
            },
    {
        match &self.homeserver {
            Option::Some(h) => Result::Ok(h),
            Option::None => Result::Err(ConfigError::MissingHomeserver),
        }
    }

    /// The user identity, required for any login.
    pub fn get_user_id(&self) -> (r: Result<&String, ConfigError>)
        ensures
            match r {
                Result::Ok(u) => self.user_id matches Option::Some(s) && u@ == s@,
                Result::Err(e) => self.user_id is None && e == ConfigError::MissingUserId,
            },
    {
        match &self.user_id {
            Option::Some(u) => Result::Ok(u),
            Option::None => Result::Err(ConfigError::MissingUserId),
        }
    }

    /// Whether the configuration carries everything a login needs: a
    /// homeserver, a user identity, and a password or an access token.
    pub fn can_login(&self) -> (r: bool)
        ensures
            r == (self.homeserver is Some && self.user_id is Some && (self.password is Some
                || self.access_token is Some)),
    {
        self.homeserver.is_some() && self.user_id.is_some() && (self.password.is_some()
            || self.access_token.is_some())
    }
}

} // verus!
