//! What the engine asks its host to write to the log.

use vstd::prelude::*;

verus! {

/// One entry of the event log. Timestamps are those of the call that caused
/// the event.
#[derive(Debug)]
pub enum InvestigationEvent {
    Started { target_account: String, token_id: String, case_number: u64, timestamp: u64 },
    MetadataUpdated { token_id: String, timestamp: u64 },
    RetryAttempted { token_id: String, attempt: u32, timestamp: u64 },
    Failed { token_id: String, error: String, timestamp: u64 },
    StatusChanged { token_id: String, old_status: String, new_status: String, timestamp: u64 },
    AnalysisCompleted { token_id: String, timestamp: u64, has_summary: bool },
    ContractInitialized { owner_id: String, timestamp: u64, version: String, block_height: u64 },
    ContractMigrated { old_version: u32, new_version: u32, timestamp: u64 },
    StorageError { operation: String, error: String, timestamp: u64 },
    DeserializationError { context: String, error: String, timestamp: u64 },
}

impl InvestigationEvent {
    /// The line that puts an event into the log: the marker of structured
    /// events, then the event as JSON, which the host hands in.
    pub fn log_line(json: &str) -> (r: String)
        ensures
            r@ == "EVENT_JSON:"@ + json@,
    {
        let mut line = String::from_str("EVENT_JSON:");
        line.append(json);
        line
    }
}

/// The log entry of the token standard for newly created tokens.
#[derive(Debug)]
pub struct NftMintLog {
    pub owner_id: String,
    pub token_ids: Vec<String>,
    pub memo: Option<String>,
}

impl NftMintLog {
    /// The line that puts a mint into the log: the marker of mints, then the
    /// entry as JSON, which the host hands in.
    pub fn log_line(json: &str) -> (r: String)
        ensures
            r@ == "NFT_MINT:"@ + json@,
    {
        let mut line = String::from_str("NFT_MINT:");
        line.append(json);
        line
    }
}

} // verus!
