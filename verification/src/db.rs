//! What the persistence layer stores, and the choice of its backend.

use vstd::prelude::*;
use vstd::string::StringExecFns;

verus! {

/// Number of rows returned when a query names no limit.
pub const DEFAULT_PAGE_LIMIT: i64 = 100;

/// Largest number of rows that one query returns.
pub const MAX_PAGE_LIMIT: i64 = 1000;

/// The database that results are stored in.
#[derive(Clone, Debug)]
pub enum DatabaseConfig {
    /// A local SQLite file.
    SQLite { path: String },
    /// A PostgreSQL server.
    PostgreSQL { connection_string: String },
}

impl DatabaseConfig {
    /// SQLite at the default path.
    pub fn sqlite_default() -> (c: DatabaseConfig)
        ensures
            c matches DatabaseConfig::SQLite { path } && path@ == "analysis.db"@,
    {
        DatabaseConfig::SQLite { path: String::from_str("analysis.db") }
    }

    /// SQLite at `path`.
    pub fn sqlite(path: &str) -> (c: DatabaseConfig)
        ensures
            c matches DatabaseConfig::SQLite { path: p } && p@ == path@,
    {
        DatabaseConfig::SQLite { path: String::from_str(path) }
    }

    /// PostgreSQL reached by `connection_string`.
    pub fn postgres(connection_string: &str) -> (c: DatabaseConfig)
        ensures
            c matches DatabaseConfig::PostgreSQL { connection_string: s } && s@
                == connection_string@,
    {
        DatabaseConfig::PostgreSQL { connection_string: String::from_str(connection_string) }
    }
}

/// Totals over all stored flows.
#[derive(Debug, Clone)]
pub struct SummaryStats {
    pub total_flows: i64,
    pub total_packets_received: i64,
    pub total_gaps_detected: i64,
    pub total_lost_packets: i64,
    pub max_gap_size: i64,
}

/// The stored arrival statistics of one flow.
#[derive(Debug, Clone)]
pub struct FlowStatisticsRecord {
    pub flow_id: String,
    pub total_bytes: i64,
    pub first_timestamp: Option<String>,
    pub last_timestamp: Option<String>,
    pub min_inter_arrival_us: Option<i64>,
    pub max_inter_arrival_us: Option<i64>,
    pub avg_inter_arrival_us: Option<i64>,
    pub protocol_distribution: Option<String>,
}

/// The page that a query reads: the limit asked for, 100 if none, and at
/// most 1000; the offset asked for, zero if none or negative.
pub open spec fn spec_page_bounds(limit: Option<i64>, offset: Option<i64>) -> (i64, i64) {
    let wanted = match limit {
        Some(l) => l,
        None => 100,
    };
    let start = match offset {
        Some(o) => o,
        None => 0,
    };
    (
        if wanted < 1000 {
            wanted
        } else {
            1000
        },
        if start > 0 {
            start
        } else {
            0
        },
    )
}

/// Limit and offset of the page that a query reads.
pub fn page_bounds(limit: Option<i64>, offset: Option<i64>) -> (page: (i64, i64))
    ensures
        page == spec_page_bounds(limit, offset),
        page.0 <= 1000,
        page.1 >= 0,
{
    let wanted = match limit {
        Some(l) => l,
        None => DEFAULT_PAGE_LIMIT,
    };
    let start = match offset {
        Some(o) => o,
        None => 0,
    };
    (
        if wanted < MAX_PAGE_LIMIT {
            wanted
        } else {
            MAX_PAGE_LIMIT
        },
        if start > 0 {
            start
        } else {
            0
        },
    )
}

} // verus!
