//! The configuration of the service: an explicit value, made once when the
//! process starts and handed to what needs it.

use vstd::prelude::*;
use vstd::string::*;

verus! {

/// The owner of the first token where none is configured.
pub const DEFAULT_MASTER_ID: i64 = 777000;

/// The number of symbols in a new secret where none is configured.
pub const DEFAULT_TOKEN_SIZE: u8 = 64;

/// The length of the antiflood window where none is configured: five
/// minutes, in seconds.
pub const DEFAULT_ANTIFLOOD_WINDOW: u32 = 300;

/// Settings that concern the service as a whole.
#[derive(Debug, PartialEq, Eq)]
pub struct General {
    /// The owner of the first, automatically created token.
    pub masterid: i64,
    /// The number of symbols in a new secret.
    pub token_size: u8,
    /// Whether this instance is a staging instance.
    pub staging: bool,
    /// For how many seconds a call that the antiflood limiter let through
    /// keeps the next one away.
    pub antiflood_window: u32,
}

/// Where the database is and how to log in.
#[derive(Debug, PartialEq, Eq)]
pub struct DatabaseCfg {
    pub host: String,
    pub port: u16,
    pub name: String,
    pub username: String,
    pub password: String,
}

/// Where the service listens.
#[derive(Debug, PartialEq, Eq)]
pub struct ServerCfg {
    pub host: String,
    pub port: u16,
}

/// The whole configuration.
#[derive(Debug, PartialEq, Eq)]
pub struct Settings {
    pub database: DatabaseCfg,
    pub server: ServerCfg,
    pub general: General,
}

impl Settings {
    /// Whether the settings are the ones that hold where nothing is
    /// configured.
    pub open spec fn is_default(&self) -> bool {
        &&& self.database.host@ == "127.0.0.1"@
        &&& self.database.port == 5432
        &&& self.database.name@ == "SpamWatchAPI"@
        &&& self.database.username@ == "SpamWatchAPI"@
        &&& self.database.password@ == Seq::<char>::empty()
        &&& self.server.host@ == "127.0.0.1"@
        &&& self.server.port == 6345
        &&& self.general.masterid == DEFAULT_MASTER_ID
        &&& self.general.token_size == DEFAULT_TOKEN_SIZE
        &&& !self.general.staging
        &&& self.general.antiflood_window == DEFAULT_ANTIFLOOD_WINDOW
    }

    /// Whether the owner of the first token was left at its default, which
    /// is worth a warning when the service starts.
    pub fn master_is_default(&self) -> (unset: bool)
        ensures
            unset == (self.general.masterid == DEFAULT_MASTER_ID),
    {
        self.general.masterid == DEFAULT_MASTER_ID
    }
}

impl Default for Settings {
    fn default() -> (settings: Settings)
        ensures
            settings.is_default(),
    {
        Settings {
            database: DatabaseCfg {
                host: String::from_str("127.0.0.1"),
                port: 5432,
                name: String::from_str("SpamWatchAPI"),
                username: String::from_str("SpamWatchAPI"),
                password: String::new(),
            },
            server: ServerCfg { host: String::from_str("127.0.0.1"), port: 6345 },
            general: General {
                masterid: DEFAULT_MASTER_ID,
                token_size: DEFAULT_TOKEN_SIZE,
                staging: false,
                antiflood_window: DEFAULT_ANTIFLOOD_WINDOW,
            },
        }
    }
}

} // verus!
