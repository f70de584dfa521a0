//! Application configuration: chat delivery, persistence, server binding,
//! and the validation policy. Loading the file from disk and serialising a
//! sample belong to the surrounding program; the values themselves, their
//! defaults and the checks on them live here.

use vstd::prelude::*;
use vstd::string::StringExecFns;

use crate::decimal::{dec_digits, fmt_u64};
use crate::text::str_eq;

verus! {

/// Chat delivery settings: the bot token and the destination channel.
pub struct DiscordConfig {
    pub token: String,
    pub channel_id: u64,
}

/// Persistence settings.
pub struct DatabaseConfig {
    pub url: String,
}

/// HTTP server settings.
pub struct ServerConfig {
    pub host: String,
    pub port: u16,
    pub static_dir: String,
}

/// Policy for validating submissions.
pub struct ValidationConfig {
    /// Maximum username length; negative for no limit.
    pub max_username_length: i32,
    /// Allow-list of usernames; when non-empty it alone decides.
    pub username_whitelist: Vec<String>,
    /// Deny-list of username substrings; used when the allow-list is empty.
    pub username_blacklist: Vec<String>,
    /// Maximum duration in milliseconds.
    pub max_duration_ms: i32,
    /// Minimum duration in milliseconds.
    pub min_duration_ms: i32,
}

/// The whole configuration.
pub struct Config {
    pub discord: DiscordConfig,
    pub database: DatabaseConfig,
    pub server: ServerConfig,
    pub validation: ValidationConfig,
}

/// A configuration that was never filled in: a placeholder is still present.
pub enum ConfigError {
    PlaceholderToken,
    PlaceholderChannelId,
}

/// The token value a freshly generated configuration carries.
pub open spec fn placeholder_token() -> Seq<char> {
    "YOUR_TOKEN_HERE"@
}

/// The channel id a freshly generated configuration carries.
pub open spec fn placeholder_channel_id() -> u64 {
    1234567890123456789u64
}

impl Default for DiscordConfig {
    fn default() -> (r: Self)
        ensures
            r.token@ == placeholder_token(),
            r.channel_id == placeholder_channel_id(),
    {
        DiscordConfig { token: "YOUR_TOKEN_HERE".to_owned(), channel_id: 1234567890123456789u64 }
    }
}

impl Default for DatabaseConfig {
    fn default() -> (r: Self)
        ensures
            r.url@ == "sqlite:splits.db"@,
    {
        DatabaseConfig { url: "sqlite:splits.db".to_owned() }
    }
}

impl Default for ServerConfig {
    fn default() -> (r: Self)
        ensures
            r.host@ == "0.0.0.0"@,
            r.port == 7758,
            r.static_dir@ == "static"@,
    {
        ServerConfig { host: "0.0.0.0".to_owned(), port: 7758, static_dir: "static".to_owned() }
    }
}

impl Default for ValidationConfig {
    fn default() -> (r: Self)
        ensures
            r.max_username_length == -1,
            r.username_whitelist@.len() == 0,
            r.username_blacklist@.len() == 0,
            r.max_duration_ms == 24 * 60 * 60 * 1000,
            r.min_duration_ms == 100,
    {
        ValidationConfig {
            max_username_length: -1,
            username_whitelist: Vec::new(),
            username_blacklist: Vec::new(),
            max_duration_ms: 24 * 60 * 60 * 1000,
            min_duration_ms: 100,
        }
    }
}

impl Default for Config {
    fn default() -> (r: Self)
        ensures
            r.discord.token@ == placeholder_token(),
            r.discord.channel_id == placeholder_channel_id(),
            r.database.url@ == "sqlite:splits.db"@,
            r.server.host@ == "0.0.0.0"@,
            r.server.port == 7758,
            r.server.static_dir@ == "static"@,
            r.validation.max_username_length == -1,
            r.validation.username_whitelist@.len() == 0,
            r.validation.username_blacklist@.len() == 0,
            r.validation.max_duration_ms == 24 * 60 * 60 * 1000,
            r.validation.min_duration_ms == 100,
    {
        Config {
            discord: DiscordConfig::default(),
            database: DatabaseConfig::default(),
            server: ServerConfig::default(),
            validation: ValidationConfig::default(),
        }
    }
}

impl Config {
    /// Checks that the placeholders of a generated configuration were
    /// replaced with real settings.
    pub fn validate(&self) -> (r: Result<(), ConfigError>)
        ensures
            match r {
                Ok(()) => self.discord.token@ != placeholder_token() && self.discord.channel_id
                    != placeholder_channel_id(),
                Err(ConfigError::PlaceholderToken) => self.discord.token@ == placeholder_token(),
                Err(ConfigError::PlaceholderChannelId) => self.discord.token@
                    != placeholder_token() && self.discord.channel_id == placeholder_channel_id(),
            },
    {
        if str_eq(self.discord.token.as_str(), "YOUR_TOKEN_HERE") {
            return Err(ConfigError::PlaceholderToken);
        }
        if self.discord.channel_id == 1234567890123456789u64 {
            return Err(ConfigError::PlaceholderChannelId);
        }
        Ok(())
    }

    /// The address the server binds to, as `host:port`.
    pub fn server_address(&self) -> (r: String)
        ensures
            r@ == self.server.host@ + ":"@ + dec_digits(self.server.port as nat),
    {
        let mut s = self.server.host.clone();
        s.append(":");
        let port = fmt_u64(self.server.port as u64);
        s.append(port.as_str());
        s
    }
}

} // verus!
