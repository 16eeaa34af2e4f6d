//! The settings that the bot runs with.

use crate::text::{parse_trimmed_unsigned, parse_unsigned, same_text, trimmed, unsigned_value};
use vstd::prelude::*;

verus! {

/// Minutes between two periodic refreshes, where none is configured.
pub const DEFAULT_CRON_INTERVAL_MINUTE: u32 = 60;

/// The port of the HTTP endpoint, where none is configured.
pub const DEFAULT_HTTP_PORT: u16 = 8000;

/// The settings that the bot runs with.
#[derive(Debug, Default, Clone)]
pub struct Config {
    pub discord_token: String,
    pub discord_server_id: Option<String>,
    pub http_port: u16,
    pub database_path: String,
    pub cron_interval_minute: u32,
    pub skip_cron: bool,
    pub admin_api_key: String,
}

/// The port that a setting asks for: the number that it writes, white
/// space aside, and the default where there is no setting or it writes no
/// port.
pub open spec fn port_setting(text: Option<&str>) -> u16 {
    match text {
        Some(t) => match unsigned_value(trimmed(t@), u16::MAX as int) {
            Some(port) => port as u16,
            None => DEFAULT_HTTP_PORT,
        },
        None => DEFAULT_HTTP_PORT,
    }
}

/// The minutes that a setting asks for: the number that it writes, white
/// space aside, and the default where there is no setting or it writes no
/// such number.
pub open spec fn interval_setting(text: Option<&str>) -> u32 {
    match text {
        Some(t) => match unsigned_value(trimmed(t@), u32::MAX as int) {
            Some(minutes) => minutes as u32,
            None => DEFAULT_CRON_INTERVAL_MINUTE,
        },
        None => DEFAULT_CRON_INTERVAL_MINUTE,
    }
}

/// Whether a setting asks to skip: it is the word `true`.
pub open spec fn skip_setting(text: Option<&str>) -> bool {
    match text {
        Some(t) => t@ == "true"@,
        None => false,
    }
}

impl Config {
    /// The settings that the texts of the environment ask for.
    pub fn from_settings(
        discord_token: String,
        discord_server_id: Option<String>,
        http_port: Option<&str>,
        database_path: String,
        cron_interval_minute: Option<&str>,
        skip_cron: Option<&str>,
        admin_api_key: String,
    ) -> (r: Config)
        ensures
            r.discord_token == discord_token,
            r.discord_server_id == discord_server_id,
            r.http_port == port_setting(http_port),
            r.database_path == database_path,
            r.cron_interval_minute == interval_setting(cron_interval_minute),
            r.skip_cron == skip_setting(skip_cron),
            r.admin_api_key == admin_api_key,
    {
        let port: Option<u16> = match http_port {
            Some(text) => match parse_trimmed_unsigned(text, 0xffff) {
                Some(port) => Some(port as u16),
                None => None,
            },
            None => None,
        };
        let minutes: Option<u32> = match cron_interval_minute {
            Some(text) => match parse_trimmed_unsigned(text, 0xffff_ffff) {
                Some(minutes) => Some(minutes as u32),
                None => None,
            },
            None => None,
        };
        let skip: Option<bool> = match skip_cron {
            Some(text) => Some(same_text(text, "true")),
            None => None,
        };
        Config::from_values(
            discord_token,
            discord_server_id,
            port,
            database_path,
            minutes,
            skip,
            admin_api_key,
        )
    }

    /// The server that commands are registered in while developing: `None`
    /// where none is configured, and `Some(None)` where what is configured
    /// is no server id.
    pub fn dev_server(&self) -> (r: Option<Option<u64>>)
        ensures
            r == (match self.discord_server_id {
                Some(text) => Some(
                    match unsigned_value(text@, u64::MAX as int) {
                        Some(id) => Some(id as u64),
                        None => None,
                    },
                ),
                None => None,
            }),
    {
        match &self.discord_server_id {
            Some(text) => Some(parse_unsigned(text.as_str(), 0xffff_ffff_ffff_ffff)),
            None => None,
        }
    }

    /// The settings made of the values that were configured, with the
    /// defaults for those that were not.
    pub fn from_values(
        discord_token: String,
        discord_server_id: Option<String>,
        http_port: Option<u16>,
        database_path: String,
        cron_interval_minute: Option<u32>,
        skip_cron: Option<bool>,
        admin_api_key: String,
    ) -> (r: Config)
        ensures
            r.discord_token == discord_token,
            r.discord_server_id == discord_server_id,
            r.http_port == (match http_port {
                Some(port) => port,
                None => DEFAULT_HTTP_PORT,
            }),
            r.database_path == database_path,
            r.cron_interval_minute == (match cron_interval_minute {
                Some(minutes) => minutes,
                None => DEFAULT_CRON_INTERVAL_MINUTE,
            }),
            r.skip_cron == (match skip_cron {
                Some(skip) => skip,
                None => false,
            }),
            r.admin_api_key == admin_api_key,
    {
        Config {
            discord_token,
            discord_server_id,
            http_port: match http_port {
                Some(port) => port,
                None => DEFAULT_HTTP_PORT,
            },
            database_path,
            cron_interval_minute: match cron_interval_minute {
                Some(minutes) => minutes,
                None => DEFAULT_CRON_INTERVAL_MINUTE,
            },
            skip_cron: match skip_cron {
                Some(skip) => skip,
                None => false,
            },
            admin_api_key,
        }
    }

    /// A copy of these settings.
    pub fn replica(&self) -> (r: Config)
        ensures
            r == *self,
    {
        Config {
            discord_token: self.discord_token.clone(),
            discord_server_id: match &self.discord_server_id {
                Some(id) => Some(id.clone()),
                None => None,
            },
            http_port: self.http_port,
            database_path: self.database_path.clone(),
            cron_interval_minute: self.cron_interval_minute,
            skip_cron: self.skip_cron,
            admin_api_key: self.admin_api_key.clone(),
        }
    }

    /// Seconds between two periodic refreshes.
    pub fn cron_interval_seconds(&self) -> (r: u64)
        ensures
            r == self.cron_interval_minute * 60,
    {
        let minutes: u64 = self.cron_interval_minute as u64;
        minutes * 60
    }

    /// Whether the periodic refresh is to run.
    pub fn cron_enabled(&self) -> (r: bool)
        ensures
            r == !self.skip_cron,
    {
        !self.skip_cron
    }
}

} // verus!
