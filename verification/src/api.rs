//! Models of the query interface.

use crate::types::SequenceGap;
use vstd::prelude::*;
use vstd::string::StringExecFns;

verus! {

/// One gap as the query interface shows it.
#[derive(Debug)]
pub struct GapResponse {
    pub flow_id: String,
    pub expected_sequence: u32,
    pub received_sequence: u32,
    pub gap_size: u32,
    pub timestamp: String,
}

/// Paging of a query.
#[derive(Debug)]
pub struct PaginationParams {
    pub limit: Option<i64>,
    pub offset: Option<i64>,
}

/// Failures of a query.
#[derive(Debug)]
pub enum ApiError {
    DatabaseError(String),
    DatabaseLocked,
    FlowNotFound,
}

impl ApiError {
    /// The HTTP status that reports the error.
    pub open spec fn spec_status_code(self) -> u16 {
        match self {
            ApiError::DatabaseError(_) => 500,
            ApiError::DatabaseLocked => 503,
            ApiError::FlowNotFound => 404,
        }
    }

    /// The HTTP status that reports the error.
    pub fn status_code(&self) -> (code: u16)
        ensures
            code == self.spec_status_code(),
    {
        match self {
            ApiError::DatabaseError(_) => 500,
            ApiError::DatabaseLocked => 503,
            ApiError::FlowNotFound => 404,
        }
    }

    /// The machine-readable name of the error.
    pub fn error_code(&self) -> (code: &'static str)
        ensures
            code@ == match *self {
                ApiError::DatabaseError(_) => "database_error"@,
                ApiError::DatabaseLocked => "database_locked"@,
                ApiError::FlowNotFound => "flow_not_found"@,
            },
    {
        match self {
            ApiError::DatabaseError(_) => "database_error",
            ApiError::DatabaseLocked => "database_locked",
            ApiError::FlowNotFound => "flow_not_found",
        }
    }

    /// The message shown with the error.
    pub fn message(&self) -> (text: String)
        ensures
            text@ == match *self {
                ApiError::DatabaseError(detail) => detail@,
                ApiError::DatabaseLocked => "Database is currently locked"@,
                ApiError::FlowNotFound => "The requested flow was not found"@,
            },
    {
        match self {
            ApiError::DatabaseError(detail) => String::from_str(detail.as_str()),
            ApiError::DatabaseLocked => String::from_str("Database is currently locked"),
            ApiError::FlowNotFound => String::from_str("The requested flow was not found"),
        }
    }
}

impl GapResponse {
    /// The response for `gap`; `timestamp` is the gap's time of detection
    /// as the caller has rendered it.
    pub fn from_gap(gap: &SequenceGap, timestamp: String) -> (r: GapResponse)
        ensures
            r.flow_id@ == gap.flow_id.spec_text(),
            r.expected_sequence == gap.expected,
            r.received_sequence == gap.received,
            r.gap_size == gap.gap_size,
            r.timestamp == timestamp,
    {
        GapResponse {
            flow_id: gap.flow_id.to_string(),
            expected_sequence: gap.expected,
            received_sequence: gap.received,
            gap_size: gap.gap_size,
            timestamp,
        }
    }
}

/// Whether a flow with `total_bytes` bytes passes a filter on the byte
/// count.
pub fn within_byte_range(total_bytes: u64, min_bytes: Option<u64>, max_bytes: Option<u64>) -> (ok:
    bool)
    ensures
        ok == ((min_bytes matches Some(lo) ==> total_bytes >= lo) && (max_bytes matches Some(hi)
            ==> total_bytes <= hi)),
{
    if let Some(lo) = min_bytes {
        if total_bytes < lo {
            return false;
        }
    }
    if let Some(hi) = max_bytes {
        if total_bytes > hi {
            return false;
        }
    }
    true
}

} // verus!
