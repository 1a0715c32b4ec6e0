//! Lifecycle engine for investigation cases.
//!
//! A case is a long-running analysis of one account. It is opened against
//! the account, numbered, and backed by a record in a token registry; reports
//! about it arrive as webhooks and are merged into its metadata. The engine
//! owns the state and decides; its host performs what the engine asks for
//! (minting records, refunds, log entries) and supplies what only the host
//! knows (the caller, the deposit, the time).

use vstd::prelude::*;

pub mod contract;
pub mod enumeration;
pub mod error;
pub mod events;
pub mod invariants;
pub mod investigation;
pub mod json;
pub mod metadata;
pub mod summary;
pub mod text;
pub mod webhook_mappings;

pub use crate::contract::{CaseRecord, Contract, InvestigationStart, MintRequest};
pub use crate::error::ContractError;
pub use crate::events::{InvestigationEvent, NftMintLog};
pub use crate::investigation::{
    AnalysisSummary, FinancialSummary, InvestigationMetadata, InvestigationResponse,
    InvestigationStatus, PartialMetadata,
};
pub use crate::metadata::{
    create_token_metadata, MetadataUpdate, TokenMetadata, DEFAULT_NFT_IMAGE_URL,
};
pub use crate::webhook_mappings::{WebhookResponse, WebhookType};

verus! {

/// The name of the token standard that the registry follows.
pub const NFT_STANDARD_NAME: &'static str = "nep171";

/// The icon of the collection.
pub const DEFAULT_ICON_URL: &'static str =
    "https://gateway.pinata.cloud/ipfs/QmYkT5eNLePKnvw9vLXNdLxFynp8amKUPaPZ74LhQxxdpu";

/// The collections of the persisted state, each under a prefix of its own.
#[derive(Clone, Copy, Debug, PartialEq, Eq)]
pub enum StorageKey {
    NonFungibleToken,
    Metadata,
    TokenMetadata,
    Enumeration,
    Approval,
    InvestigatedAccounts,
    InvestigationStatus,
    InvestigationData,
    FailedMints,
}

} // verus!
