//! Process configuration as plain values. Reading configuration files
//! and the environment is the composition root's business; the values
//! themselves, and their defaults, live here.

use vstd::prelude::*;

verus! {

/// Where the server should listen.
#[derive(Debug)]
pub struct ServerConfig {
    pub host: String,
    pub port: u16,
}

/// How verbose the process should log.
#[derive(Debug)]
pub struct LoggerConfig {
    pub level: String,
}

/// The whole application configuration.
#[derive(Debug)]
pub struct AppConfig {
    pub server: ServerConfig,
    pub logger: LoggerConfig,
    /// Shortest pause between two synthesized events, in seconds.
    pub mock_event_min_delay_secs: u64,
    /// Longest pause between two synthesized events, in seconds.
    pub mock_event_max_delay_secs: u64,
}

impl AppConfig {
    /// The delay window is usable as a sampling range.
    pub open spec fn delays_ordered(&self) -> bool {
        self.mock_event_min_delay_secs <= self.mock_event_max_delay_secs
    }
}

impl Default for AppConfig {
    /// The built-in defaults, as the generated configuration file
    /// states them.
    fn default() -> (c: Self)
        ensures
            c.server.host@ == "127.0.0.1"@,
            c.server.port == 8080,
            c.logger.level@ == "info"@,
            c.mock_event_min_delay_secs == 5,
            c.mock_event_max_delay_secs == 15,
            c.delays_ordered(),
    {
        AppConfig {
            server: ServerConfig { host: "127.0.0.1".to_string(), port: 8080 },
            logger: LoggerConfig { level: "info".to_string() },
            mock_event_min_delay_secs: 5,
            mock_event_max_delay_secs: 15,
        }
    }
}

} // verus!
