use investigation_engine::{
    ContractError, InvestigationStatus, MetadataUpdate, PartialMetadata, WebhookResponse,
    WebhookType,
};

#[test]
fn webhook_tags() {
    assert_eq!(WebhookType::Progress.as_str(), "progress");
    assert_eq!(WebhookType::Completion.as_str(), "completion");
    assert_eq!(WebhookType::Error.as_str(), "error");
    assert_eq!(WebhookType::MetadataReady.as_str(), "metadata_ready");
    assert_eq!(WebhookType::Log.as_str(), "log");
}

#[test]
fn webhook_tags_are_read_in_any_case() {
    assert_eq!(WebhookType::from_str("progress"), Some(WebhookType::Progress));
    assert_eq!(WebhookType::from_str("COMPLETION"), Some(WebhookType::Completion));
    assert_eq!(WebhookType::from_str("Error"), Some(WebhookType::Error));
    assert_eq!(WebhookType::from_str("Metadata_Ready"), Some(WebhookType::MetadataReady));
    assert_eq!(WebhookType::from_str("lOg"), Some(WebhookType::Log));
    assert_eq!(WebhookType::from_str("logs"), None);
    assert_eq!(WebhookType::from_str(""), None);
    assert_eq!(WebhookType::from_str(" progress"), None);
}

#[test]
fn canonical_tags_are_read_letter_for_letter() {
    assert_eq!(WebhookType::from_tag("progress"), Some(WebhookType::Progress));
    assert_eq!(WebhookType::from_tag("metadata_ready"), Some(WebhookType::MetadataReady));
    assert_eq!(WebhookType::from_tag("Progress"), None);
    assert_eq!(WebhookType::from_tag("LOG"), None);
}

#[test]
fn terminal_and_merging_types() {
    assert!(WebhookType::Completion.is_terminal());
    assert!(WebhookType::Error.is_terminal());
    assert!(!WebhookType::Progress.is_terminal());
    assert!(!WebhookType::MetadataReady.is_terminal());
    assert!(!WebhookType::Log.is_terminal());
    assert!(WebhookType::Completion.requires_metadata_update());
    assert!(WebhookType::MetadataReady.requires_metadata_update());
    assert!(WebhookType::Progress.requires_metadata_update());
    assert!(!WebhookType::Error.requires_metadata_update());
    assert!(!WebhookType::Log.requires_metadata_update());
}

#[test]
fn webhook_responses() {
    let ok = WebhookResponse::success();
    assert!(ok.success);
    assert_eq!(ok.message, None);
    let failed = WebhookResponse::error("went wrong".to_string());
    assert!(!failed.success);
    assert_eq!(failed.message.as_deref(), Some("went wrong"));
}

#[test]
fn payload_fields_are_found_by_name() {
    let payload = "{\"status\":\"complete\",\"result\":{\"financialData\":{\"totalUsdValue\":\"1.5\",\
        \"nearBalance\":\"2\",\"defiValue\":\"0.25\"},\"robustSummary\":\"r\",\"shortSummary\":\"s\",\
        \"transactionCount\":42,\"isBot\":true}}";
    let update = PartialMetadata::from_json(payload).unwrap();
    assert_eq!(update.status, Some(InvestigationStatus::Completed));
    assert_eq!(update.total_usd_value.as_deref(), Some("1.5"));
    assert_eq!(update.near_balance.as_deref(), Some("2"));
    assert_eq!(update.defi_value.as_deref(), Some("0.25"));
    assert_eq!(update.robust_summary.as_deref(), Some("r"));
    assert_eq!(update.short_summary.as_deref(), Some("s"));
    assert_eq!(update.transaction_count, Some(42));
    assert_eq!(update.is_bot, Some(true));
}

#[test]
fn missing_null_and_mistyped_members_are_absent() {
    let payload = "{\"status\":\"unheard of\",\"result\":{\"financialData\":{\"totalUsdValue\":15,\
        \"nearBalance\":null},\"robustSummary\":false,\"transactionCount\":\"42\",\"isBot\":\"yes\"}}";
    let update = PartialMetadata::from_json(payload).unwrap();
    assert_eq!(update.status, None);
    assert_eq!(update.total_usd_value, None);
    assert_eq!(update.near_balance, None);
    assert_eq!(update.defi_value, None);
    assert_eq!(update.robust_summary, None);
    assert_eq!(update.short_summary, None);
    assert_eq!(update.transaction_count, None);
    assert_eq!(update.is_bot, None);
}

#[test]
fn negative_and_fractional_counts_are_absent() {
    let update = PartialMetadata::from_json("{\"result\":{\"transactionCount\":-1}}").unwrap();
    assert_eq!(update.transaction_count, None);
    let update = PartialMetadata::from_json("{\"result\":{\"transactionCount\":1.5}}").unwrap();
    assert_eq!(update.transaction_count, None);
}

#[test]
fn any_json_document_decodes() {
    for payload in ["{}", "[]", "null", "7", "\"text\"", "{\"result\":[1,2]}", " {\"a\":1} "] {
        let update = PartialMetadata::from_json(payload).unwrap();
        assert_eq!(update.status, None);
        assert_eq!(update.total_usd_value, None);
        assert_eq!(update.transaction_count, None);
        assert_eq!(update.is_bot, None);
    }
}

#[test]
fn what_is_no_json_fails_to_decode() {
    for payload in ["", "{invalid_json}", "{\"a\":1", "{} {}", "{\"a\":1,}"] {
        let result = PartialMetadata::from_json(payload);
        assert!(matches!(result, Err(ContractError::DeserializationFailed)));
    }
}

#[test]
fn a_document_is_read_like_its_text() {
    let text = "{\"result\":{\"transactionCount\":5,\"shortSummary\":\"fine\"}}";
    let doc: serde_json::Value = serde_json::from_str(text).unwrap();
    let from_value = PartialMetadata::from_value(&doc);
    let from_text = PartialMetadata::from_json(text).unwrap();
    assert_eq!(from_value.transaction_count, Some(5));
    assert_eq!(from_value.transaction_count, from_text.transaction_count);
    assert_eq!(from_value.short_summary, from_text.short_summary);
    assert_eq!(from_value.short_summary.as_deref(), Some("fine"));
}

#[test]
fn update_becomes_token_metadata() {
    let update =
        MetadataUpdate { description: Some("Test".to_string()), extra: "{\"a\":1}".to_string() };
    let metadata = update.to_token_metadata(1700).unwrap();
    assert_eq!(metadata.description.as_deref(), Some("Test"));
    assert_eq!(metadata.extra.as_deref(), Some("{\"a\":1}"));
    assert_eq!(metadata.updated_at.as_deref(), Some("1700"));
    assert_eq!(metadata.title, None);
    assert_eq!(metadata.media, None);
    assert_eq!(metadata.media_hash, None);
    assert_eq!(metadata.copies, None);
    assert_eq!(metadata.issued_at, None);
    assert_eq!(metadata.expires_at, None);
    assert_eq!(metadata.starts_at, None);
    assert_eq!(metadata.reference, None);
    assert_eq!(metadata.reference_hash, None);
    let bare = MetadataUpdate { description: None, extra: String::new() };
    let metadata = bare.to_token_metadata(0).unwrap();
    assert_eq!(metadata.description, None);
    assert_eq!(metadata.extra.as_deref(), Some(""));
    assert_eq!(metadata.updated_at.as_deref(), Some("0"));
}

#[test]
fn errors_describe_themselves() {
    assert_eq!(
        ContractError::InsufficientPayment.message(),
        "Must attach at least 0.01 NEAR for storage"
    );
    assert_eq!(ContractError::VersionMismatch.message(), "Can only migrate from version 1");
    assert_eq!(ContractError::Rejected("because".to_string()).message(), "because");
    assert!(!ContractError::NotFound.message().is_empty());
    assert!(!ContractError::Unauthorized.message().is_empty());
    assert!(!ContractError::DeserializationFailed.message().is_empty());
}
