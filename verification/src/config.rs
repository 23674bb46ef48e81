//! Configuration options the relay core reads.

use vstd::prelude::*;

verus! {

/// Client-facing limits.
#[derive(Debug)]
pub struct Limits {
    /// Writer-side events-per-second quota, if any.
    pub messages_per_sec: Option<u32>,
    /// Client addresses exempt from publish rate limiting.
    pub rate_limit_whitelist: Vec<String>,
    /// Maximum accepted event size, if bounded.
    pub max_event_bytes: Option<usize>,
    /// Maximum websocket message size, if bounded.
    pub max_ws_message_bytes: Option<usize>,
    /// Maximum websocket frame size, if bounded.
    pub max_ws_frame_bytes: Option<usize>,
}

/// Publishing policy.
#[derive(Debug)]
pub struct Authorization {
    /// If set, only these author keys may publish.
    pub pubkey_whitelist: Option<Vec<String>>,
}

/// How strongly author identity verification is enforced.
#[derive(Debug, Clone, Copy, PartialEq, Eq, Structural)]
pub enum VerifiedUsersMode {
    /// No verification work at all.
    Disabled,
    /// Verification records are maintained but not required.
    Passive,
    /// Publishing requires a fresh verification record.
    Enabled,
}

/// Identity verification policy.
#[derive(Debug)]
pub struct VerifiedUsers {
    pub mode: VerifiedUsersMode,
}

impl VerifiedUsers {
    /// Whether the verifier runs at all.
    pub fn is_active(&self) -> (r: bool)
        ensures
            r == (self.mode != VerifiedUsersMode::Disabled),
    {
        match self.mode {
            VerifiedUsersMode::Disabled => false,
            VerifiedUsersMode::Passive => true,
            VerifiedUsersMode::Enabled => true,
        }
    }

    /// Whether publishing requires a valid verification record.
    pub fn is_enabled(&self) -> (r: bool)
        ensures
            r == (self.mode == VerifiedUsersMode::Enabled),
    {
        match self.mode {
            VerifiedUsersMode::Disabled => false,
            VerifiedUsersMode::Passive => false,
            VerifiedUsersMode::Enabled => true,
        }
    }
}

/// Which storage backend to run.
#[derive(Debug, Clone, Copy, PartialEq, Eq, Structural)]
pub enum DatabaseEngine {
    /// The embedded file-based store.
    Embedded,
    /// The networked SQL store.
    Networked,
}

/// Storage backend configuration.
#[derive(Debug)]
pub struct Database {
    /// Engine name: `sqlite` for the embedded store, `postgres` for the
    /// networked one.
    pub engine: String,
    /// Where the embedded store keeps its file.
    pub data_directory: String,
    /// Connection URL for the networked store.
    pub connection: String,
    /// Separate connection URL for writes, when reads and writes are split.
    pub connection_write: Option<String>,
    /// Pool sizing.
    pub max_conn: u32,
    pub min_conn: u32,
}

/// The backend an engine name selects, or nothing for an unrecognized name.
pub fn select_engine(engine: &str) -> (r: Option<DatabaseEngine>)
    ensures
        engine@ == "sqlite"@ ==> r == Some(DatabaseEngine::Embedded),
        engine@ == "postgres"@ ==> r == Some(DatabaseEngine::Networked),
        engine@ != "sqlite"@ && engine@ != "postgres"@ ==> r is None,
{
    proof {
        reveal_strlit("sqlite");
        reveal_strlit("postgres");
        assert("sqlite"@.len() != "postgres"@.len());
    }
    if crate::utils::str_eq(engine, "sqlite") {
        Some(DatabaseEngine::Embedded)
    } else if crate::utils::str_eq(engine, "postgres") {
        Some(DatabaseEngine::Networked)
    } else {
        None
    }
}

/// Miscellaneous operator choices.
#[derive(Debug)]
pub struct Options {
    /// Drop earlier contact lists when a newer one arrives.
    pub cleanup_contact_list: bool,
}

/// The configuration the core reads.
#[derive(Debug)]
pub struct Settings {
    pub database: Database,
    pub limits: Limits,
    pub authorization: Authorization,
    pub verified_users: VerifiedUsers,
    pub options: Options,
}

impl Default for Settings {
    /// Permissive defaults: the embedded store in the working directory, no
    /// quotas, no whitelist, verification disabled.
    fn default() -> (r: Settings)
        ensures
            r.database.engine@ == "sqlite"@,
            r.database.connection_write is None,
            r.limits.messages_per_sec is None,
            r.limits.rate_limit_whitelist@.len() == 0,
            r.authorization.pubkey_whitelist is None,
            r.verified_users.mode == VerifiedUsersMode::Disabled,
            !r.options.cleanup_contact_list,
    {
        Settings {
            database: Database {
                engine: String::from_str("sqlite"),
                data_directory: String::from_str("."),
                connection: String::new(),
                connection_write: None,
                max_conn: 8,
                min_conn: 0,
            },
            limits: Limits {
                messages_per_sec: None,
                rate_limit_whitelist: Vec::new(),
                max_event_bytes: None,
                max_ws_message_bytes: None,
                max_ws_frame_bytes: None,
            },
            authorization: Authorization { pubkey_whitelist: None },
            verified_users: VerifiedUsers { mode: VerifiedUsersMode::Disabled },
            options: Options { cleanup_contact_list: false },
        }
    }
}

} // verus!
