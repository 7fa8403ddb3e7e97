//! Errors of collecting and syncing snapshots.
use crate::domain::DomainError;
use crate::storage::StorageError;
use vstd::prelude::*;

verus! {

/// Why a snapshot could not be collected or stored.
#[derive(Debug)]
pub enum CollectorError {
    Domain(DomainError),
    Storage(StorageError),
    Configuration(String),
    Gateway(String),
    GatewayProtocol(String),
    SnapshotTooSmall { actual: usize, minimum: usize },
}

/// A protocol error with the given message.
pub open spec fn is_protocol_error(e: CollectorError, message: Seq<char>) -> bool {
    e matches CollectorError::GatewayProtocol(m) && m@ == message
}

/// A configuration error with the given message.
pub open spec fn is_configuration_error(e: CollectorError, message: Seq<char>) -> bool {
    e matches CollectorError::Configuration(m) && m@ == message
}

/// A gateway error with the given message.
pub open spec fn is_gateway_error(e: CollectorError, message: Seq<char>) -> bool {
    e matches CollectorError::Gateway(m) && m@ == message
}

} // verus!
