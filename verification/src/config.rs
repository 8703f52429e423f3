//! Settings of the query server: where the database is and where to
//! listen.

use crate::text::{decimal_text, push_decimal};
use vstd::prelude::*;
use vstd::string::StringExecFns;

verus! {

/// Port used when none is configured.
pub const DEFAULT_PORT: u16 = 3000;

/// Settings of the query server.
#[derive(Debug, Clone)]
pub struct Config {
    pub database: DatabaseConfig,
    pub server: ServerConfig,
}

/// Where the database is.
#[derive(Debug, Clone)]
pub struct DatabaseConfig {
    /// Path of the SQLite database file.
    pub path: String,
}

/// Where the server listens.
#[derive(Debug, Clone)]
pub struct ServerConfig {
    pub port: u16,
    pub host: String,
}

/// Why a configuration could not be loaded.
#[derive(Debug)]
pub enum ConfigError {
    FileNotFound(String),
    ParseError(String),
    IoError(String),
}

/// The sentence that describes a configuration error.
pub open spec fn config_error_text(e: ConfigError) -> Seq<char> {
    match e {
        ConfigError::FileNotFound(path) => "Config file not found: "@ + path@,
        ConfigError::ParseError(detail) => "Failed to parse config: "@ + detail@,
        ConfigError::IoError(detail) => "IO error: "@ + detail@,
    }
}

impl ConfigError {
    /// The error in words.
    pub fn to_string(&self) -> (text: String)
        ensures
            text@ == config_error_text(*self),
    {
        match self {
            ConfigError::FileNotFound(path) => String::from_str("Config file not found: ").concat(
                path.as_str(),
            ),
            ConfigError::ParseError(detail) => String::from_str("Failed to parse config: ").concat(
                detail.as_str(),
            ),
            ConfigError::IoError(detail) => String::from_str("IO error: ").concat(detail.as_str()),
        }
    }
}

/// The database path used when none is configured.
pub fn default_db_path() -> (path: String)
    ensures
        path@ == "analysis.db"@,
{
    String::from_str("analysis.db")
}

/// The port used when none is configured.
pub fn default_port() -> (port: u16)
    ensures
        port == 3000,
{
    DEFAULT_PORT
}

/// The host used when none is configured.
pub fn default_host() -> (host: String)
    ensures
        host@ == "127.0.0.1"@,
{
    String::from_str("127.0.0.1")
}

impl Default for DatabaseConfig {
    fn default() -> (c: DatabaseConfig)
        ensures
            c.path@ == "analysis.db"@,
    {
        DatabaseConfig { path: default_db_path() }
    }
}

impl Default for ServerConfig {
    fn default() -> (c: ServerConfig)
        ensures
            c.port == 3000,
            c.host@ == "127.0.0.1"@,
    {
        ServerConfig { port: default_port(), host: default_host() }
    }
}

impl Default for Config {
    fn default() -> (c: Config)
        ensures
            c.database.path@ == "analysis.db"@,
            c.server.port == 3000,
            c.server.host@ == "127.0.0.1"@,
    {
        Config { database: DatabaseConfig::default(), server: ServerConfig::default() }
    }
}

impl Config {
    /// The address to listen on: host, colon, port.
    pub open spec fn spec_listen_addr(self) -> Seq<char> {
        self.server.host@ + seq![':'] + decimal_text(self.server.port as nat)
    }

    /// The configuration that was loaded, or the default one if loading
    /// failed for whatever reason.
    pub fn from_file_or_default(loaded: Result<Config, ConfigError>) -> (c: Config)
        ensures
            match loaded {
                Ok(config) => c == config,
                Err(_) => c.database.path@ == "analysis.db"@ && c.server.port == 3000
                    && c.server.host@ == "127.0.0.1"@,
            },
    {
        match loaded {
            Ok(config) => config,
            Err(_) => Config::default(),
        }
    }

    /// The address to listen on: host, colon, port.
    pub fn listen_addr(&self) -> (addr: String)
        ensures
            addr@ == self.spec_listen_addr(),
    {
        let mut out = String::from_str(self.server.host.as_str());
        out.push(':');
        push_decimal(&mut out, self.server.port as u64);
        assert(out@ =~= self.spec_listen_addr());
        out
    }

    /// The same configuration with another database path.
    pub fn with_db_path(self, path: &str) -> (c: Config)
        ensures
            c.database.path@ == path@,
            c.server == self.server,
    {
        let mut c = self;
        c.database.path = String::from_str(path);
        c
    }

    /// The same configuration with another port.
    pub fn with_port(self, port: u16) -> (c: Config)
        ensures
            c.server.port == port,
            c.server.host == self.server.host,
            c.database == self.database,
    {
        let mut c = self;
        c.server.port = port;
        c
    }

    /// The same configuration with another host.
    pub fn with_host(self, host: &str) -> (c: Config)
        ensures
            c.server.host@ == host@,
            c.server.port == self.server.port,
            c.database == self.database,
    {
        let mut c = self;
        c.server.host = String::from_str(host);
        c
    }
}

} // verus!
