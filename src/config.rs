//! Configuration values, built once at start-up and handed to the parts
//! that need them.
use vstd::prelude::*;

verus! {

/// Where the server listens.
pub struct ServerConfig {
    pub host: String,
    pub port: u16,
    pub workers: usize,
    /// Port of the HTTP server; `port` when absent.
    pub http_port: Option<u16>,
    /// Port of the WebSocket server; `port` when absent.
    pub ws_port: Option<u16>,
}

impl ServerConfig {
    /// The port the HTTP server binds.
    pub fn http_port_or_default(&self) -> (r: u16)
        ensures
            r == match self.http_port {
                Some(p) => p,
                None => self.port,
            },
    {
        match self.http_port {
            Some(p) => p,
            None => self.port,
        }
    }

    /// The port the WebSocket server binds.
    pub fn ws_port_or_default(&self) -> (r: u16)
        ensures
            r == match self.ws_port {
                Some(p) => p,
                None => self.port,
            },
    {
        match self.ws_port {
            Some(p) => p,
            None => self.port,
        }
    }
}

/// Connection heartbeat settings, in seconds.
pub struct WebSocketConfig {
    pub path: String,
    pub ping_interval: u64,
    pub ping_timeout: u64,
}

/// Room sizes and phase durations (durations in seconds).
#[derive(Clone, Copy, Debug, PartialEq, Eq, Structural)]
pub struct GameConfig {
    pub min_players: usize,
    pub max_players: usize,
    pub describe_time_limit: u64,
    pub vote_time_limit: u64,
    pub round_delay: u64,
}

/// Persistence backend address.
pub struct RedisConfig {
    pub url: String,
    pub pool_size: u32,
}

/// Logging settings.
pub struct LogConfig {
    pub level: String,
    pub file: Option<String>,
}

/// Rate limits and word filtering.
pub struct SecurityConfig {
    pub rate_limits: RateLimitConfig,
    pub word_filter: WordFilterConfig,
}

/// Per-action rate limits: at most `*_max_actions` within `*_window` seconds.
#[derive(Clone, Copy, Debug, PartialEq, Eq, Structural)]
pub struct RateLimitConfig {
    pub describe_window: u64,
    pub describe_max_actions: u32,
    pub vote_window: u64,
    pub vote_max_actions: u32,
    pub default_window: u64,
    pub default_max_actions: u32,
}

/// Words that are masked in player text.
pub struct WordFilterConfig {
    pub sensitive_words: Vec<String>,
    pub custom_words: Vec<String>,
    pub replacement: String,
}

/// Public domain of the authentication callbacks.
pub struct AuthConfig {
    pub domain: String,
    /// Domain of the WebSocket endpoint; `domain` when absent.
    pub ws_domain: Option<String>,
}

/// Cross-origin policy.
pub struct CorsConfig {
    pub allow_all_origins: Option<bool>,
    pub allowed_origins: Option<Vec<String>>,
}

/// Administrators, by user name.
pub struct AdminConfig {
    pub admin_usernames: Vec<String>,
}

impl AdminConfig {
    /// Whether `username` is one of the administrators.
    pub fn is_admin(&self, username: &String) -> (r: bool)
        ensures
            r == exists|i: int|
                0 <= i < self.admin_usernames@.len() && (#[trigger] self.admin_usernames@[i])@
                    == username@,
    {
        let mut i: usize = 0;
        while i < self.admin_usernames.len()
            invariant
                i <= self.admin_usernames@.len(),
                forall|j: int| 0 <= j < i ==> (#[trigger] self.admin_usernames@[j])@ != username@,
            decreases self.admin_usernames.len() - i,
        {
            if self.admin_usernames[i] == *username {
                return true;
            }
            i = i + 1;
        }
        false
    }
}

} // verus!
