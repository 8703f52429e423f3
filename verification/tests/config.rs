use macsec_packet_analyzer::api::{within_byte_range, ApiError, GapResponse};
use macsec_packet_analyzer::config::{
    default_db_path, default_host, default_port, Config, ConfigError,
};
use macsec_packet_analyzer::db::{page_bounds, DatabaseConfig};
use macsec_packet_analyzer::types::{FlowId, SequenceGap, Timestamp};

#[test]
fn test_default_config() {
    let config = Config::default();
    assert_eq!(config.database.path, "analysis.db");
    assert_eq!(config.server.port, 3000);
    assert_eq!(config.server.host, "127.0.0.1");
}

#[test]
fn test_listen_addr() {
    let config = Config::default();
    assert_eq!(config.listen_addr(), "127.0.0.1:3000");
}

#[test]
fn test_with_db_path() {
    let config = Config::default().with_db_path("custom.db");
    assert_eq!(config.database.path, "custom.db");
}

#[test]
fn test_with_port() {
    let config = Config::default().with_port(8080);
    assert_eq!(config.server.port, 8080);
}

#[test]
fn with_host_and_listen_addr() {
    let config = Config::default().with_host("0.0.0.0").with_port(65535).with_db_path("x.db");
    assert_eq!(config.server.host, "0.0.0.0");
    assert_eq!(config.listen_addr(), "0.0.0.0:65535");
    assert_eq!(config.database.path, "x.db");
    let zero = Config::default().with_port(0);
    assert_eq!(zero.listen_addr(), "127.0.0.1:0");
}

#[test]
fn defaults() {
    assert_eq!(default_db_path(), "analysis.db");
    assert_eq!(default_port(), 3000);
    assert_eq!(default_host(), "127.0.0.1");
}

#[test]
fn from_file_or_default_falls_back() {
    let failed = Config::from_file_or_default(Err(ConfigError::FileNotFound("c.json".to_string())));
    assert_eq!(failed.database.path, "analysis.db");
    assert_eq!(failed.server.port, 3000);
    let loaded = Config::from_file_or_default(Ok(Config::default().with_port(1)));
    assert_eq!(loaded.server.port, 1);
}

#[test]
fn config_error_texts() {
    assert_eq!(
        ConfigError::FileNotFound("c.json".to_string()).to_string(),
        "Config file not found: c.json"
    );
    assert_eq!(
        ConfigError::ParseError("eof".to_string()).to_string(),
        "Failed to parse config: eof"
    );
    assert_eq!(ConfigError::IoError("denied".to_string()).to_string(), "IO error: denied");
}

#[test]
fn database_config_constructors() {
    assert!(matches!(DatabaseConfig::sqlite_default(), DatabaseConfig::SQLite { path } if path == "analysis.db"));
    assert!(matches!(DatabaseConfig::sqlite(":memory:"), DatabaseConfig::SQLite { path } if path == ":memory:"));
    assert!(matches!(
        DatabaseConfig::postgres("host=db"),
        DatabaseConfig::PostgreSQL { connection_string } if connection_string == "host=db"
    ));
}

#[test]
fn page_bounds_clamp() {
    assert_eq!(page_bounds(None, None), (100, 0));
    assert_eq!(page_bounds(Some(5000), Some(-3)), (1000, 0));
    assert_eq!(page_bounds(Some(10), Some(20)), (10, 20));
    assert_eq!(page_bounds(Some(1000), Some(0)), (1000, 0));
    assert_eq!(page_bounds(Some(-1), None), (-1, 0));
}

#[test]
fn api_error_status_codes() {
    let db = ApiError::DatabaseError("disk full".to_string());
    assert_eq!(db.status_code(), 500);
    assert_eq!(db.error_code(), "database_error");
    assert_eq!(db.message(), "disk full");
    assert_eq!(ApiError::DatabaseLocked.status_code(), 503);
    assert_eq!(ApiError::DatabaseLocked.error_code(), "database_locked");
    assert_eq!(ApiError::DatabaseLocked.message(), "Database is currently locked");
    assert_eq!(ApiError::FlowNotFound.status_code(), 404);
    assert_eq!(ApiError::FlowNotFound.error_code(), "flow_not_found");
    assert_eq!(ApiError::FlowNotFound.message(), "The requested flow was not found");
}

#[test]
fn gap_response_and_byte_filter() {
    let gap = SequenceGap {
        flow_id: FlowId::MACsec { sci: 0x10 },
        expected: 4,
        received: 9,
        gap_size: 5,
        timestamp: Timestamp::from_secs(1),
    };
    let response = GapResponse::from_gap(&gap, "1970-01-01T00:00:01+00:00".to_string());
    assert_eq!(response.flow_id, "MACsec { sci: 0x0000000000000010 }");
    assert_eq!(response.expected_sequence, 4);
    assert_eq!(response.received_sequence, 9);
    assert_eq!(response.gap_size, 5);
    assert_eq!(response.timestamp, "1970-01-01T00:00:01+00:00");
    assert!(within_byte_range(10, None, None));
    assert!(within_byte_range(10, Some(10), Some(10)));
    assert!(!within_byte_range(9, Some(10), None));
    assert!(!within_byte_range(11, None, Some(10)));
}
