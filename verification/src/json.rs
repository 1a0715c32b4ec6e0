//! Reading a partial update out of a JSON payload.
//!
//! The JSON itself is read by `serde_json`. Its documents are opaque here:
//! the functions below that call into it are believed, not proved, and say of
//! each call only that its outcome is a function of what it was given.

use crate::error::{ContractError, ErrorView};
use crate::investigation::{
    InvestigationMetadata, InvestigationStatus, PartialMetadata, PartialView,
};
use vstd::prelude::*;

verus! {

#[verifier::external_type_specification]
#[verifier::external_body]
pub struct ExJsonValue(serde_json::Value);

#[verifier::external_type_specification]
#[verifier::external_body]
pub struct ExJsonError(serde_json::Error);

/// The document that `serde_json::from_str` reads from `text`, if `text` is
/// one JSON value and nothing more.
pub uninterp spec fn json_document(text: Seq<char>) -> Option<serde_json::Value>;

/// What `serde_json::Value::get` finds in `value` under the key `key`.
pub uninterp spec fn json_member(value: serde_json::Value, key: Seq<char>) -> Option<
    serde_json::Value,
>;

/// What `serde_json::Value::as_str` makes of `value`.
pub uninterp spec fn json_string(value: serde_json::Value) -> Option<Seq<char>>;

/// What `serde_json::Value::as_u64` makes of `value`.
pub uninterp spec fn json_u64(value: serde_json::Value) -> Option<u64>;

/// What `serde_json::Value::as_bool` makes of `value`.
pub uninterp spec fn json_bool(value: serde_json::Value) -> Option<bool>;

/// `serde_json::from_str`, at the type `serde_json::Value`: parses `text` as
/// one JSON document. Whether it succeeds, and with what, depends on the text
/// alone.
#[verifier::external_body]
fn parse_document(text: &str) -> (r: Result<serde_json::Value, serde_json::Error>)
    ensures
        r is Ok == json_document(text@) is Some,
        r matches Ok(doc) ==> json_document(text@) == Some(doc),
{
    serde_json::from_str::<serde_json::Value>(text)
}

/// `serde_json::Value::get` with a string key: the member of an object under
/// that key; `None` where there is none or `value` is no object.
#[verifier::external_body]
fn member<'a>(value: &'a serde_json::Value, key: &str) -> (r: Option<&'a serde_json::Value>)
    ensures
        r is Some == json_member(*value, key@) is Some,
        r matches Some(m) ==> json_member(*value, key@) == Some(*m),
{
    value.get(key)
}

/// `serde_json::Value::as_str`: the text of a JSON string, `None` for any
/// other value.
#[verifier::external_body]
fn as_text<'a>(value: &'a serde_json::Value) -> (r: Option<&'a str>)
    ensures
        r is Some == json_string(*value) is Some,
        r matches Some(s) ==> json_string(*value) == Some(s@),
{
    value.as_str()
}

/// `serde_json::Value::as_u64`: the number, where `value` is a whole number
/// that fits `u64`; `None` otherwise.
#[verifier::external_body]
fn as_count(value: &serde_json::Value) -> (r: Option<u64>)
    ensures
        r == json_u64(*value),
{
    value.as_u64()
}

/// `serde_json::Value::as_bool`: the truth value of a JSON boolean, `None`
/// for any other value.
#[verifier::external_body]
fn as_flag(value: &serde_json::Value) -> (r: Option<bool>)
    ensures
        r == json_bool(*value),
{
    value.as_bool()
}

/// The member under `key` of `parent`, if `parent` is there.
pub open spec fn member_of(parent: Option<serde_json::Value>, key: Seq<char>) -> Option<
    serde_json::Value,
> {
    match parent {
        Some(p) => json_member(p, key),
        None => None,
    }
}

/// The text under `key` of `parent`: absent where the member is missing or
/// is no string.
pub open spec fn text_member(parent: Option<serde_json::Value>, key: Seq<char>) -> Option<
    Seq<char>,
> {
    match member_of(parent, key) {
        Some(m) => json_string(m),
        None => None,
    }
}

/// The count under `key` of `parent`: absent where the member is missing or
/// is no whole number in `u64`.
pub open spec fn count_member(parent: Option<serde_json::Value>, key: Seq<char>) -> Option<u64> {
    match member_of(parent, key) {
        Some(m) => json_u64(m),
        None => None,
    }
}

/// The flag under `key` of `parent`: absent where the member is missing or
/// is no boolean.
pub open spec fn flag_member(parent: Option<serde_json::Value>, key: Seq<char>) -> Option<bool> {
    match member_of(parent, key) {
        Some(m) => json_bool(m),
        None => None,
    }
}

/// The update that the document `doc` carries. Fields are looked up by name:
/// `status` at the top, the amounts under `result.financialData`, the rest
/// under `result`. A member that is missing, `null` or of another type than
/// its field leaves the field absent, and so does a status tag that names no
/// status.
pub open spec fn update_in(doc: serde_json::Value) -> PartialView {
    let result = json_member(doc, "result"@);
    let financial = member_of(result, "financialData"@);
    PartialView {
        status: match text_member(Some(doc), "status"@) {
            Some(tag) => InvestigationStatus::of_tag(tag),
            None => None,
        },
        total_usd_value: text_member(financial, "totalUsdValue"@),
        near_balance: text_member(financial, "nearBalance"@),
        defi_value: text_member(financial, "defiValue"@),
        robust_summary: text_member(result, "robustSummary"@),
        short_summary: text_member(result, "shortSummary"@),
        transaction_count: count_member(result, "transactionCount"@),
        is_bot: flag_member(result, "isBot"@),
    }
}

/// The update that the payload `text` carries; `None` where `text` is no
/// JSON document.
pub open spec fn decoded(text: Seq<char>) -> Option<PartialView> {
    match json_document(text) {
        Some(doc) => Some(update_in(doc)),
        None => None,
    }
}

fn member_in<'a>(parent: Option<&'a serde_json::Value>, key: &str) -> (r: Option<
    &'a serde_json::Value,
>)
    ensures
        r is Some == member_of(value_view(parent), key@) is Some,
        r matches Some(m) ==> member_of(value_view(parent), key@) == Some(*m),
{
    match parent {
        Some(p) => member(p, key),
        None => None,
    }
}

/// The document behind an optional reference.
pub open spec fn value_view(value: Option<&serde_json::Value>) -> Option<serde_json::Value> {
    match value {
        Some(v) => Some(*v),
        None => None,
    }
}

fn read_text(parent: Option<&serde_json::Value>, key: &str) -> (r: Option<String>)
    ensures
        r is Some == text_member(value_view(parent), key@) is Some,
        r matches Some(s) ==> text_member(value_view(parent), key@) == Some(s@),
{
    match member_in(parent, key) {
        Some(m) => match as_text(m) {
            Some(s) => Some(s.to_owned()),
            None => None,
        },
        None => None,
    }
}

fn read_count(parent: Option<&serde_json::Value>, key: &str) -> (r: Option<u64>)
    ensures
        r == count_member(value_view(parent), key@),
{
    match member_in(parent, key) {
        Some(m) => as_count(m),
        None => None,
    }
}

fn read_flag(parent: Option<&serde_json::Value>, key: &str) -> (r: Option<bool>)
    ensures
        r == flag_member(value_view(parent), key@),
{
    match member_in(parent, key) {
        Some(m) => as_flag(m),
        None => None,
    }
}

impl PartialMetadata {
    /// Reads the update that a JSON document carries.
    pub fn from_value(doc: &serde_json::Value) -> (r: PartialMetadata)
        ensures
            r@ == update_in(*doc),
    {
        let result = member(doc, "result");
        let financial = member_in(result, "financialData");
        let status = match read_text(Some(doc), "status") {
            Some(tag) => InvestigationStatus::from_tag(tag.as_str()),
            None => None,
        };
        PartialMetadata {
            status,
            total_usd_value: read_text(financial, "totalUsdValue"),
            near_balance: read_text(financial, "nearBalance"),
            defi_value: read_text(financial, "defiValue"),
            robust_summary: read_text(result, "robustSummary"),
            short_summary: read_text(result, "shortSummary"),
            transaction_count: read_count(result, "transactionCount"),
            is_bot: read_flag(result, "isBot"),
        }
    }

    /// Decodes a payload. It fails, with `DeserializationFailed`, exactly
    /// where the payload is no JSON document.
    pub fn from_json(payload: &str) -> (r: Result<PartialMetadata, ContractError>)
        ensures
            match r {
                Ok(update) => decoded(payload@) == Some(update@),
                Err(e) => decoded(payload@) is None && e@ == ErrorView::DeserializationFailed,
            },
    {
        match parse_document(payload) {
            Ok(doc) => Ok(PartialMetadata::from_value(&doc)),
            Err(_) => Err(ContractError::DeserializationFailed),
        }
    }
}

impl InvestigationMetadata {
    /// Merges the fields that the webhook document `webhook_data` carries
    /// into this metadata and sets `last_updated` to `now`: what
    /// [`InvestigationMetadata::merge`] does with the update read by
    /// [`PartialMetadata::from_value`].
    pub fn update_from_webhook(&mut self, webhook_data: &serde_json::Value, now: u64)
        ensures
            final(self)@ == old(self)@.merged(update_in(*webhook_data), now),
    {
        let update = PartialMetadata::from_value(webhook_data);
        self.merge(&update, now);
    }
}

} // verus!
