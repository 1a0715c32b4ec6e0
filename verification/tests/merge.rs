use investigation_engine::{
    InvestigationMetadata, InvestigationStatus, PartialMetadata, WebhookType,
};

fn sample() -> InvestigationMetadata {
    let mut m =
        InvestigationMetadata::new(7, "subject.near".to_string(), "asker.near".to_string(), 100);
    m.financial_summary.total_usd_value = "12.50".to_string();
    m.analysis_summary.short_summary = Some("short".to_string());
    m.analysis_summary.transaction_count = 3;
    m
}

fn same(a: &InvestigationMetadata, b: &InvestigationMetadata) -> bool {
    a.case_number == b.case_number
        && a.target_account == b.target_account
        && a.requester == b.requester
        && a.investigation_date == b.investigation_date
        && a.last_updated == b.last_updated
        && a.status == b.status
        && a.financial_summary.total_usd_value == b.financial_summary.total_usd_value
        && a.financial_summary.near_balance == b.financial_summary.near_balance
        && a.financial_summary.defi_value == b.financial_summary.defi_value
        && a.analysis_summary.robust_summary == b.analysis_summary.robust_summary
        && a.analysis_summary.short_summary == b.analysis_summary.short_summary
        && a.analysis_summary.transaction_count == b.analysis_summary.transaction_count
        && a.analysis_summary.is_bot == b.analysis_summary.is_bot
}

#[test]
fn new_metadata_is_zeroed() {
    let m = InvestigationMetadata::new(1, "s.near".to_string(), "r.near".to_string(), 42);
    assert_eq!(m.case_number, 1);
    assert_eq!(m.target_account, "s.near");
    assert_eq!(m.requester, "r.near");
    assert_eq!(m.investigation_date, 42);
    assert_eq!(m.last_updated, 42);
    assert_eq!(m.status, InvestigationStatus::Pending);
    assert_eq!(m.financial_summary.total_usd_value, "0");
    assert_eq!(m.financial_summary.near_balance, "0");
    assert_eq!(m.financial_summary.defi_value, "0");
    assert_eq!(m.analysis_summary.robust_summary, None);
    assert_eq!(m.analysis_summary.short_summary, None);
    assert_eq!(m.analysis_summary.transaction_count, 0);
    assert!(!m.analysis_summary.is_bot);
    assert_eq!(m.summary(), None);
}

#[test]
fn merging_nothing_changes_nothing() {
    let before = sample();
    let mut after = before.clone();
    after.merge(&PartialMetadata::empty(), before.last_updated);
    assert!(same(&before, &after));
}

#[test]
fn merging_nothing_still_bumps_the_time() {
    let before = sample();
    let mut after = before.clone();
    after.merge(&PartialMetadata::empty(), 555);
    assert_eq!(after.last_updated, 555);
    after.last_updated = before.last_updated;
    assert!(same(&before, &after));
}

#[test]
fn merging_twice_is_merging_once() {
    let mut update = PartialMetadata::empty();
    update.total_usd_value = Some("99.01".to_string());
    update.robust_summary = Some("robust".to_string());
    update.is_bot = Some(true);
    let mut once = sample();
    once.merge(&update, 200);
    let mut twice = once.clone();
    twice.merge(&update, 200);
    assert!(same(&once, &twice));
    assert_eq!(once.financial_summary.total_usd_value, "99.01");
    assert_eq!(once.analysis_summary.robust_summary.as_deref(), Some("robust"));
    assert!(once.analysis_summary.is_bot);
}

#[test]
fn merge_leaves_absent_fields_alone() {
    let mut update = PartialMetadata::empty();
    update.near_balance = Some("4.2".to_string());
    update.transaction_count = Some(17);
    update.status = Some(InvestigationStatus::Completed);
    let before = sample();
    let mut after = before.clone();
    after.merge(&update, 300);
    assert_eq!(after.financial_summary.near_balance, "4.2");
    assert_eq!(after.analysis_summary.transaction_count, 17);
    assert_eq!(after.last_updated, 300);
    assert_eq!(after.financial_summary.total_usd_value, "12.50");
    assert_eq!(after.financial_summary.defi_value, "0");
    assert_eq!(after.analysis_summary.short_summary.as_deref(), Some("short"));
    assert_eq!(after.analysis_summary.robust_summary, None);
    assert_eq!(after.status, InvestigationStatus::Pending);
    assert_eq!(after.case_number, 7);
    assert_eq!(after.investigation_date, 100);
}

#[test]
fn disjoint_updates_both_apply_in_either_order() {
    let mut p = PartialMetadata::empty();
    p.total_usd_value = Some("1".to_string());
    p.short_summary = Some("s".to_string());
    let mut q = PartialMetadata::empty();
    q.defi_value = Some("2".to_string());
    q.is_bot = Some(true);
    let mut pq = sample();
    pq.merge(&p, 9);
    pq.merge(&q, 9);
    let mut qp = sample();
    qp.merge(&q, 9);
    qp.merge(&p, 9);
    assert!(same(&pq, &qp));
    assert_eq!(pq.financial_summary.total_usd_value, "1");
    assert_eq!(pq.financial_summary.defi_value, "2");
    assert!(pq.analysis_summary.is_bot);
}

#[test]
fn webhook_document_is_merged() {
    let doc: serde_json::Value = serde_json::from_str(
        "{\"status\":\"failed\",\"result\":{\"financialData\":{\"nearBalance\":\"8\"},\
         \"shortSummary\":\"brief\",\"isBot\":true}}",
    )
    .unwrap();
    let before = sample();
    let mut after = before.clone();
    after.update_from_webhook(&doc, 77);
    assert_eq!(after.financial_summary.near_balance, "8");
    assert_eq!(after.analysis_summary.short_summary.as_deref(), Some("brief"));
    assert!(after.analysis_summary.is_bot);
    assert_eq!(after.last_updated, 77);
    assert_eq!(after.status, before.status);
    assert_eq!(after.financial_summary.total_usd_value, "12.50");
    assert_eq!(after.analysis_summary.transaction_count, 3);
}

#[test]
fn summary_prefers_the_robust_one() {
    let mut m = sample();
    assert_eq!(m.summary().as_deref(), Some("short"));
    m.analysis_summary.robust_summary = Some("robust".to_string());
    assert_eq!(m.summary().as_deref(), Some("robust"));
}

#[test]
fn status_follows_the_table() {
    let all = [
        InvestigationStatus::Pending,
        InvestigationStatus::Processing,
        InvestigationStatus::Completed,
        InvestigationStatus::Failed,
    ];
    for from in all {
        assert_eq!(from.transition(WebhookType::Progress), InvestigationStatus::Processing);
        assert_eq!(from.transition(WebhookType::Completion), InvestigationStatus::Completed);
        assert_eq!(from.transition(WebhookType::Error), InvestigationStatus::Failed);
        assert_eq!(from.transition(WebhookType::MetadataReady), InvestigationStatus::Processing);
        assert_eq!(from.transition(WebhookType::Log), from);
    }
}

#[test]
fn status_tags_round_trip() {
    let all = [
        (InvestigationStatus::Pending, "pending"),
        (InvestigationStatus::Processing, "processing"),
        (InvestigationStatus::Completed, "complete"),
        (InvestigationStatus::Failed, "failed"),
    ];
    for (status, tag) in all {
        assert_eq!(status.as_str(), tag);
        assert_eq!(InvestigationStatus::from_tag(tag), Some(status));
    }
    assert_eq!(InvestigationStatus::from_tag("Pending"), None);
    assert_eq!(InvestigationStatus::from_tag(""), None);
}
