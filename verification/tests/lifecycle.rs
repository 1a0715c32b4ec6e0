use investigation_engine::contract::{ALREADY_EXISTS, NO_METADATA_UPDATE, REQUIRED_DEPOSIT};
use investigation_engine::{
    CaseRecord, Contract, ContractError, InvestigationEvent, InvestigationMetadata,
    InvestigationStatus, MetadataUpdate, PartialMetadata, WebhookType,
};

const MINT_STORAGE_COST: u128 = 10_000_000_000_000_000_000_000;

fn update(extra: &str) -> MetadataUpdate {
    MetadataUpdate { description: Some("Test".to_string()), extra: extra.to_string() }
}

fn metadata_json(metadata: &InvestigationMetadata) -> String {
    let mut object = serde_json::Map::new();
    object.insert(
        "case_number".to_string(),
        serde_json::Value::Number(serde_json::Number::from(metadata.case_number)),
    );
    object.insert(
        "target_account".to_string(),
        serde_json::Value::String(metadata.target_account.clone()),
    );
    object.insert("requester".to_string(), serde_json::Value::String(metadata.requester.clone()));
    object.insert(
        "investigation_date".to_string(),
        serde_json::Value::String(metadata.investigation_date.to_string()),
    );
    object.insert("status".to_string(), serde_json::Value::String("Pending".to_string()));
    object.insert("summary".to_string(), serde_json::Value::Null);
    object.insert(
        "transaction_count".to_string(),
        serde_json::Value::Number(serde_json::Number::from(
            metadata.analysis_summary.transaction_count,
        )),
    );
    object.insert(
        "total_value_usd".to_string(),
        serde_json::Value::String(metadata.financial_summary.total_usd_value.clone()),
    );
    object.insert(
        "near_balance".to_string(),
        serde_json::Value::String(metadata.financial_summary.near_balance.clone()),
    );
    object.insert("is_bot".to_string(), serde_json::Value::Bool(metadata.analysis_summary.is_bot));
    object.insert(
        "last_updated".to_string(),
        serde_json::Value::String(metadata.last_updated.to_string()),
    );
    serde_json::to_string(&serde_json::Value::Object(object)).unwrap()
}

#[test]
fn test_new() {
    let contract = Contract::new("alice".to_string());
    assert_eq!(contract.owner_id(), "alice");
    assert_eq!(contract.case_number_counter(), 0);
}

#[test]
fn test_failed_deserialization() {
    let mut contract = Contract::new("bob".to_string());

    let invalid_metadata =
        MetadataUpdate { description: Some("Test".to_string()), extra: "{invalid_json}".to_string() };

    let result = contract.update_investigation_metadata(
        "bob",
        "1",
        &invalid_metadata,
        WebhookType::Progress,
        0,
    );

    assert!(result.is_err());
}

#[test]
fn test_invalid_webhook_data() {
    let mut contract = Contract::new("bob".to_string());
    let target = "charlie";
    contract.start_investigation(target, "bob", MINT_STORAGE_COST, 0).unwrap();

    let metadata = InvestigationMetadata::new(1, target.to_string(), "bob".to_string(), 0);
    let update =
        MetadataUpdate { description: Some("Test".to_string()), extra: metadata_json(&metadata) };

    // A log webhook carries nothing to merge.
    let result =
        contract.update_investigation_metadata("bob", "1", &update, WebhookType::Log, 0);

    assert!(result.is_err());
}

#[test]
fn test_storage_limits() {
    let mut contract = Contract::new("bob".to_string());

    // No deposit attached.
    let result = contract.start_investigation("charlie", "bob", 0, 0);
    assert!(result.is_err());
}

#[test]
fn new_contract_is_empty_and_at_first_version() {
    let contract = Contract::new("owner.near".to_string());
    assert_eq!(contract.version(), 1);
    assert_eq!(contract.cases().len(), 0);
    assert!(contract.get_all_investigations(None, None).is_empty());
}

#[test]
fn failed_deserialization_is_reported_as_such() {
    let mut contract = Contract::new("bob".to_string());
    let result = contract.update_investigation_metadata(
        "bob",
        "1",
        &update("{invalid_json}"),
        WebhookType::Progress,
        0,
    );
    assert!(matches!(result, Err(ContractError::DeserializationFailed)));
}

#[test]
fn log_webhook_is_rejected_with_a_reason() {
    let mut contract = Contract::new("bob".to_string());
    let started = contract.start_investigation("charlie", "bob", MINT_STORAGE_COST, 0).unwrap();
    let token = started.response.request_id;
    let result =
        contract.update_investigation_metadata("bob", &token, &update("{}"), WebhookType::Log, 5);
    match result {
        Err(ContractError::Rejected(reason)) => assert_eq!(reason, NO_METADATA_UPDATE),
        other => panic!("expected a rejection, got {:?}", other),
    }
    assert_eq!(contract.get_investigation_status(&token), Some(InvestigationStatus::Pending));
    assert_eq!(contract.get_investigation_metadata(&token).unwrap().last_updated, 0);
}

#[test]
fn insufficient_deposit_changes_nothing() {
    let mut contract = Contract::new("bob".to_string());
    let result = contract.start_investigation("charlie", "bob", MINT_STORAGE_COST - 1, 0);
    assert!(matches!(result, Err(ContractError::InsufficientPayment)));
    assert_eq!(contract.case_number_counter(), 0);
    assert!(contract.get_investigation_by_account("charlie").is_none());
}

#[test]
fn required_deposit_is_a_hundredth_of_a_near() {
    assert_eq!(REQUIRED_DEPOSIT, 10u128.pow(22));
}

#[test]
fn opening_a_case_asks_for_a_mint_and_refunds_the_excess() {
    let mut contract = Contract::new("owner.near".to_string());
    let started = contract
        .start_investigation("subject.near", "asker.near", MINT_STORAGE_COST + 7, 1234)
        .unwrap();
    assert_eq!(started.response.request_id, "Case File #1: subject.near");
    assert_eq!(started.response.status, InvestigationStatus::Pending);
    assert_eq!(started.response.message, None);
    assert_eq!(started.refund, 7);
    let mint = started.mint.expect("a new case asks for a mint");
    assert_eq!(mint.token_id, "Case File #1: subject.near");
    assert_eq!(mint.owner_id, "subject.near");
    assert_eq!(mint.metadata.title.as_deref(), Some("Case File #1: subject.near"));
    assert_eq!(mint.metadata.description.as_deref(), Some("Investigation in progress..."));
    assert_eq!(mint.metadata.copies, Some(1));
    assert_eq!(mint.metadata.issued_at.as_deref(), Some("1234"));
    assert_eq!(mint.metadata.updated_at.as_deref(), Some("1234"));
    assert_eq!(mint.metadata.extra, None);
    assert_eq!(mint.investigation.case_number, 1);
    assert_eq!(mint.investigation.requester, "asker.near");
    assert_eq!(mint.investigation.investigation_date, 1234);
    assert_eq!(mint.investigation.financial_summary.total_usd_value, "0");
    assert_eq!(mint.investigation.financial_summary.near_balance, "0");
    assert_eq!(mint.investigation.financial_summary.defi_value, "0");
    assert_eq!(mint.investigation.analysis_summary.transaction_count, 0);
    assert!(!mint.investigation.analysis_summary.is_bot);
    match started.event {
        Some(InvestigationEvent::Started { target_account, token_id, case_number, timestamp }) => {
            assert_eq!(target_account, "subject.near");
            assert_eq!(token_id, "Case File #1: subject.near");
            assert_eq!(case_number, 1);
            assert_eq!(timestamp, 1234);
        },
        other => panic!("expected a start event, got {:?}", other),
    }
    assert_eq!(contract.case_number_counter(), 1);
}

#[test]
fn opening_twice_returns_the_same_case() {
    let mut contract = Contract::new("owner.near".to_string());
    let first = contract.start_investigation("a.near", "x.near", MINT_STORAGE_COST, 1).unwrap();
    let second = contract.start_investigation("a.near", "y.near", 0, 2).unwrap();
    assert_eq!(second.response.request_id, first.response.request_id);
    assert_eq!(second.response.status, InvestigationStatus::Pending);
    assert_eq!(second.response.message.as_deref(), Some(ALREADY_EXISTS));
    assert!(second.mint.is_none());
    assert!(second.event.is_none());
    assert_eq!(second.refund, 0);
    assert_eq!(contract.case_number_counter(), 1);
    assert_eq!(contract.cases().len(), 1);
}

#[test]
fn case_numbers_rise_by_one() {
    let mut contract = Contract::new("owner.near".to_string());
    let subjects = ["a.near", "b.near", "a.near", "c.near", "b.near", "d.near"];
    let mut numbers = Vec::new();
    for subject in subjects {
        let before = contract.case_number_counter();
        let started =
            contract.start_investigation(subject, "x.near", MINT_STORAGE_COST, 9).unwrap();
        if let Some(mint) = started.mint {
            assert_eq!(mint.investigation.case_number, before + 1);
            numbers.push(mint.investigation.case_number);
        } else {
            assert_eq!(contract.case_number_counter(), before);
        }
    }
    assert_eq!(numbers, vec![1, 2, 3, 4]);
    let stored: Vec<u64> = contract.cases().iter().map(|c| c.metadata.case_number).collect();
    assert_eq!(stored, vec![1, 2, 3, 4]);
    assert_eq!(contract.case_number_counter(), 4);
}

#[test]
fn happy_path() {
    let mut contract = Contract::new("admin.near".to_string());
    let started = contract.start_investigation("A", "asker.near", MINT_STORAGE_COST, 10).unwrap();
    let token = started.response.request_id;
    assert_eq!(started.response.status, InvestigationStatus::Pending);
    assert_eq!(started.mint.unwrap().investigation.case_number, 1);
    let seeded = contract.get_investigation_metadata(&token).unwrap();

    let event = contract
        .update_investigation_metadata(
            "admin.near",
            &token,
            &update("{\"result\":{\"transactionCount\":5}}"),
            WebhookType::Progress,
            20,
        )
        .unwrap();
    match event {
        InvestigationEvent::StatusChanged { token_id, old_status, new_status, timestamp } => {
            assert_eq!(token_id, token);
            assert_eq!(old_status, "pending");
            assert_eq!(new_status, "processing");
            assert_eq!(timestamp, 20);
        },
        other => panic!("expected a status change, got {:?}", other),
    }
    let progressed = contract.get_investigation_metadata(&token).unwrap();
    assert_eq!(progressed.status, InvestigationStatus::Processing);
    assert_eq!(progressed.analysis_summary.transaction_count, 5);
    assert_eq!(progressed.last_updated, 20);
    assert_eq!(progressed.case_number, seeded.case_number);
    assert_eq!(progressed.target_account, seeded.target_account);
    assert_eq!(progressed.requester, seeded.requester);
    assert_eq!(progressed.investigation_date, seeded.investigation_date);
    assert_eq!(
        progressed.financial_summary.total_usd_value,
        seeded.financial_summary.total_usd_value
    );
    assert_eq!(progressed.financial_summary.near_balance, seeded.financial_summary.near_balance);
    assert_eq!(progressed.financial_summary.defi_value, seeded.financial_summary.defi_value);
    assert_eq!(progressed.analysis_summary.robust_summary, None);
    assert_eq!(progressed.analysis_summary.short_summary, None);
    assert_eq!(progressed.analysis_summary.is_bot, seeded.analysis_summary.is_bot);

    contract
        .update_investigation_metadata(
            "admin.near",
            &token,
            &update("{\"result\":{\"robustSummary\":\"clean\"}}"),
            WebhookType::Completion,
            30,
        )
        .unwrap();
    let completed = contract.get_investigation_metadata(&token).unwrap();
    assert_eq!(completed.status, InvestigationStatus::Completed);
    assert_eq!(completed.summary().as_deref(), Some("clean"));
    assert_eq!(completed.analysis_summary.transaction_count, 5);
    assert_eq!(contract.get_investigation_status(&token), Some(InvestigationStatus::Completed));
}

#[test]
fn failure_and_retry() {
    let mut contract = Contract::new("admin.near".to_string());
    let started = contract.start_investigation("A", "asker.near", MINT_STORAGE_COST, 10).unwrap();
    let token = started.response.request_id;

    let event = contract.record_failed_mint(&token, "registry refused", 11).unwrap();
    match event {
        InvestigationEvent::Failed { token_id, error, timestamp } => {
            assert_eq!(token_id, token);
            assert_eq!(error, "registry refused");
            assert_eq!(timestamp, 11);
        },
        other => panic!("expected a failure event, got {:?}", other),
    }
    assert_eq!(contract.get_investigation_status(&token), Some(InvestigationStatus::Failed));
    let buffered = contract.cases()[0].failed_mint.clone().expect("the metadata is buffered");
    assert_eq!(buffered.status, InvestigationStatus::Pending);
    assert_eq!(buffered.last_updated, 10);

    let mint = contract.retry_investigation("admin.near", &token, 12).unwrap();
    assert_eq!(mint.token_id, token);
    assert_eq!(mint.owner_id, "A");
    assert_eq!(mint.investigation.status, InvestigationStatus::Pending);
    assert_eq!(mint.investigation.last_updated, 12);
    assert_eq!(mint.metadata.title.as_deref(), Some(token.as_str()));
    assert_eq!(contract.get_investigation_status(&token), Some(InvestigationStatus::Pending));
    assert!(contract.cases()[0].failed_mint.is_none());
    assert_eq!(
        contract.get_investigation_by_account("A").map(|c| c.token_id),
        Some(token.clone())
    );
}

#[test]
fn retry_is_single_use() {
    let mut contract = Contract::new("admin.near".to_string());
    let token = contract
        .start_investigation("A", "asker.near", MINT_STORAGE_COST, 10)
        .unwrap()
        .response
        .request_id;
    contract.record_failed_mint(&token, "boom", 11).unwrap();
    assert!(contract.retry_investigation("admin.near", &token, 12).is_ok());
    let again = contract.retry_investigation("admin.near", &token, 13);
    assert!(matches!(again, Err(ContractError::NotFound)));
    assert_eq!(contract.get_investigation_metadata(&token).unwrap().last_updated, 12);
}

#[test]
fn retry_needs_the_administrator_and_a_buffered_mint() {
    let mut contract = Contract::new("admin.near".to_string());
    let token = contract
        .start_investigation("A", "asker.near", MINT_STORAGE_COST, 10)
        .unwrap()
        .response
        .request_id;
    assert!(matches!(
        contract.retry_investigation("admin.near", &token, 11),
        Err(ContractError::NotFound)
    ));
    assert!(matches!(
        contract.retry_investigation("admin.near", "no such token", 11),
        Err(ContractError::NotFound)
    ));
    contract.record_failed_mint(&token, "boom", 11).unwrap();
    assert!(matches!(
        contract.retry_investigation("mallory.near", &token, 12),
        Err(ContractError::Unauthorized)
    ));
    assert!(contract.cases()[0].failed_mint.is_some());
    assert!(matches!(
        contract.record_failed_mint("no such token", "boom", 11),
        Err(ContractError::NotFound)
    ));
}

#[test]
fn webhooks_need_the_administrator_and_a_case() {
    let mut contract = Contract::new("admin.near".to_string());
    let token = contract
        .start_investigation("A", "asker.near", MINT_STORAGE_COST, 10)
        .unwrap()
        .response
        .request_id;
    let refused = contract.update_investigation_metadata(
        "mallory.near",
        &token,
        &update("{}"),
        WebhookType::Progress,
        11,
    );
    assert!(matches!(refused, Err(ContractError::Unauthorized)));
    let missing = contract.update_investigation_metadata(
        "admin.near",
        "Case File #2: B",
        &update("{}"),
        WebhookType::Progress,
        11,
    );
    assert!(matches!(missing, Err(ContractError::NotFound)));
    assert_eq!(contract.get_investigation_status(&token), Some(InvestigationStatus::Pending));
}

#[test]
fn transition_table_holds_from_every_status() {
    let tags = [
        (WebhookType::Progress, InvestigationStatus::Processing),
        (WebhookType::Completion, InvestigationStatus::Completed),
        (WebhookType::Error, InvestigationStatus::Failed),
        (WebhookType::MetadataReady, InvestigationStatus::Processing),
    ];
    for (first, _) in tags {
        for (second, expected) in tags {
            let mut contract = Contract::new("admin.near".to_string());
            let token = contract
                .start_investigation("A", "asker.near", MINT_STORAGE_COST, 10)
                .unwrap()
                .response
                .request_id;
            let update = PartialMetadata::empty();
            contract.apply_webhook("admin.near", &token, first, &update, 11).unwrap();
            contract.apply_webhook("admin.near", &token, second, &update, 12).unwrap();
            assert_eq!(contract.get_investigation_status(&token), Some(expected));
            let logged = contract.apply_webhook("admin.near", &token, WebhookType::Log, &update, 13);
            assert!(logged.is_err());
            assert_eq!(contract.get_investigation_status(&token), Some(expected));
        }
    }
}

#[test]
fn error_webhook_fails_the_case_without_merging() {
    let mut contract = Contract::new("admin.near".to_string());
    let token = contract
        .start_investigation("A", "asker.near", MINT_STORAGE_COST, 10)
        .unwrap()
        .response
        .request_id;
    contract
        .update_investigation_metadata(
            "admin.near",
            &token,
            &update("{\"result\":{\"transactionCount\":9}}"),
            WebhookType::Error,
            15,
        )
        .unwrap();
    let metadata = contract.get_investigation_metadata(&token).unwrap();
    assert_eq!(metadata.status, InvestigationStatus::Failed);
    assert_eq!(metadata.analysis_summary.transaction_count, 0);
    assert_eq!(metadata.last_updated, 15);
}

#[test]
fn migration_happens_once() {
    let mut contract = Contract::new("admin.near".to_string());
    contract.start_investigation("A", "asker.near", MINT_STORAGE_COST, 10).unwrap();
    assert!(matches!(contract.migrate("mallory.near", 1), Err(ContractError::Unauthorized)));
    assert_eq!(contract.version(), 1);
    let event = contract.migrate("admin.near", 2).unwrap();
    match event {
        InvestigationEvent::ContractMigrated { old_version, new_version, timestamp } => {
            assert_eq!(old_version, 1);
            assert_eq!(new_version, 2);
            assert_eq!(timestamp, 2);
        },
        other => panic!("expected a migration event, got {:?}", other),
    }
    assert_eq!(contract.version(), 2);
    assert_eq!(contract.case_number_counter(), 1);
    assert_eq!(contract.cases().len(), 1);
    assert!(matches!(contract.migrate("admin.near", 3), Err(ContractError::VersionMismatch)));
    assert_eq!(contract.version(), 2);
}

#[test]
fn pages_are_bounded() {
    let mut contract = Contract::new("admin.near".to_string());
    for i in 0..120 {
        let subject = format!("s{}.near", i);
        contract.start_investigation(&subject, "asker.near", MINT_STORAGE_COST, 1).unwrap();
    }
    assert_eq!(contract.get_all_investigations(None, None).len(), 100);
    assert_eq!(contract.get_all_investigations(None, Some(1000)).len(), 100);
    let page = contract.get_all_investigations(Some(110), Some(50));
    assert_eq!(page.len(), 10);
    assert_eq!(page[0].metadata.case_number, 111);
    assert_eq!(page[9].metadata.case_number, 120);
    let page = contract.get_all_investigations(Some(5), Some(3));
    let numbers: Vec<u64> = page.iter().map(|c| c.metadata.case_number).collect();
    assert_eq!(numbers, vec![6, 7, 8]);
    assert!(contract.get_all_investigations(Some(120), None).is_empty());
    assert!(contract.get_all_investigations(Some(u128::MAX), None).is_empty());
    assert!(contract.get_all_investigations(None, Some(0)).is_empty());
}

#[test]
fn cases_are_found_by_account_and_by_status() {
    let mut contract = Contract::new("admin.near".to_string());
    let mut tokens = Vec::new();
    for subject in ["a.near", "b.near", "c.near"] {
        tokens.push(
            contract
                .start_investigation(subject, "asker.near", MINT_STORAGE_COST, 1)
                .unwrap()
                .response
                .request_id,
        );
    }
    let update = PartialMetadata::empty();
    contract.apply_webhook("admin.near", &tokens[1], WebhookType::Progress, &update, 2).unwrap();
    let on_b = contract.get_investigations_by_account("b.near", None, None);
    assert_eq!(on_b.len(), 1);
    assert_eq!(on_b[0].token_id, tokens[1]);
    assert!(contract.get_investigations_by_account("b.near", Some(1), None).is_empty());
    assert!(contract.get_investigations_by_account("z.near", None, None).is_empty());
    let pending = contract.get_investigations_by_status(InvestigationStatus::Pending);
    let ids: Vec<&str> = pending.iter().map(|c| c.token_id.as_str()).collect();
    assert_eq!(ids, vec![tokens[0].as_str(), tokens[2].as_str()]);
    let processing = contract.get_investigations_by_status(InvestigationStatus::Processing);
    assert_eq!(processing.len(), 1);
    assert_eq!(processing[0].metadata.target_account, "b.near");
    assert!(contract.get_investigations_by_status(InvestigationStatus::Completed).is_empty());
    assert_eq!(contract.get_investigation_status("nothing"), None);
    assert!(contract.get_investigation_metadata("nothing").is_none());
}

#[test]
fn state_survives_being_taken_apart() {
    let mut contract = Contract::new("admin.near".to_string());
    contract.start_investigation("a.near", "asker.near", MINT_STORAGE_COST, 1).unwrap();
    contract.start_investigation("b.near", "asker.near", MINT_STORAGE_COST, 2).unwrap();
    let cases: Vec<CaseRecord> = contract.cases().clone();
    let restored = Contract::from_parts("admin.near".to_string(), 1, 2, cases)
        .expect("the parts of a state make a state");
    assert_eq!(restored.case_number_counter(), 2);
    assert_eq!(
        restored.get_investigation_by_account("b.near").map(|c| c.token_id),
        Some("Case File #2: b.near".to_string())
    );
}

#[test]
fn ill_formed_parts_make_no_state() {
    let mut contract = Contract::new("admin.near".to_string());
    contract.start_investigation("a.near", "asker.near", MINT_STORAGE_COST, 1).unwrap();
    contract.start_investigation("b.near", "asker.near", MINT_STORAGE_COST, 2).unwrap();
    let cases: Vec<CaseRecord> = contract.cases().clone();

    assert!(Contract::from_parts("admin.near".to_string(), 1, 3, cases.clone()).is_none());

    let mut renumbered = cases.clone();
    renumbered[1].metadata.case_number = 5;
    assert!(Contract::from_parts("admin.near".to_string(), 1, 2, renumbered).is_none());

    let mut renamed = cases.clone();
    renamed[1].token_id = "Case File #1: a.near".to_string();
    assert!(Contract::from_parts("admin.near".to_string(), 1, 2, renamed).is_none());

    let mut doubled = cases.clone();
    doubled[1].metadata.target_account = "a.near".to_string();
    doubled[1].token_id = "Case File #2: a.near".to_string();
    assert!(Contract::from_parts("admin.near".to_string(), 1, 2, doubled).is_none());

    let mut foreign = cases.clone();
    foreign[0].failed_mint = Some(cases[1].metadata.clone());
    assert!(Contract::from_parts("admin.near".to_string(), 1, 2, foreign).is_none());
}
