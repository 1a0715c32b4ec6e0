//! The failures that the engine reports.

use vstd::prelude::*;

verus! {

/// Why a call was refused. Every refusal leaves the state as it was.
#[derive(Debug)]
pub enum ContractError {
    /// No case, or no buffered mint, is known under the given token id.
    NotFound,
    /// The caller is not the administrator.
    Unauthorized,
    /// The attached deposit is below what opening a case costs.
    InsufficientPayment,
    /// The payload is not a JSON document.
    DeserializationFailed,
    /// The call makes no sense for the case; the text says why.
    Rejected(String),
    /// The persisted schema is not at the version that a migration starts from.
    VersionMismatch,
}

pub enum ErrorView {
    NotFound,
    Unauthorized,
    InsufficientPayment,
    DeserializationFailed,
    Rejected(Seq<char>),
    VersionMismatch,
}

impl View for ContractError {
    type V = ErrorView;

    open spec fn view(&self) -> ErrorView {
        match self {
            ContractError::NotFound => ErrorView::NotFound,
            ContractError::Unauthorized => ErrorView::Unauthorized,
            ContractError::InsufficientPayment => ErrorView::InsufficientPayment,
            ContractError::DeserializationFailed => ErrorView::DeserializationFailed,
            ContractError::Rejected(reason) => ErrorView::Rejected(reason@),
            ContractError::VersionMismatch => ErrorView::VersionMismatch,
        }
    }
}

impl ErrorView {
    /// The sentence that describes this failure.
    pub open spec fn message(self) -> Seq<char> {
        match self {
            ErrorView::NotFound => "No case or failed mint found for this token"@,
            ErrorView::Unauthorized => "Only the contract owner may make this call"@,
            ErrorView::InsufficientPayment => "Must attach at least 0.01 NEAR for storage"@,
            ErrorView::DeserializationFailed => "Metadata deserialization failed"@,
            ErrorView::Rejected(reason) => reason,
            ErrorView::VersionMismatch => "Can only migrate from version 1"@,
        }
    }
}

impl ContractError {
    /// The sentence that describes this failure.
    pub fn message(&self) -> (r: String)
        ensures
            r@ == self@.message(),
    {
        match self {
            ContractError::NotFound => String::from_str(
                "No case or failed mint found for this token",
            ),
            ContractError::Unauthorized => String::from_str(
                "Only the contract owner may make this call",
            ),
            ContractError::InsufficientPayment => String::from_str(
                "Must attach at least 0.01 NEAR for storage",
            ),
            ContractError::DeserializationFailed => String::from_str(
                "Metadata deserialization failed",
            ),
            ContractError::Rejected(reason) => reason.clone(),
            ContractError::VersionMismatch => String::from_str("Can only migrate from version 1"),
        }
    }
}

} // verus!
