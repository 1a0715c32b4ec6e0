//! A case's status and metadata, and the merge of partial updates into it.

use crate::text::same_text;
use crate::webhook_mappings::WebhookType;
use vstd::prelude::*;

verus! {

/// Where a case stands in its lifecycle.
#[derive(Clone, Copy, Debug, PartialEq, Eq, Structural)]
pub enum InvestigationStatus {
    Pending,
    Processing,
    Completed,
    Failed,
}

impl InvestigationStatus {
    /// The status that a case in status `self` has after a webhook of type
    /// `tag`. The tag alone decides, except that `Log` leaves the status as
    /// it was.
    pub open spec fn after(self, tag: WebhookType) -> InvestigationStatus {
        match tag {
            WebhookType::Progress => InvestigationStatus::Processing,
            WebhookType::Completion => InvestigationStatus::Completed,
            WebhookType::Error => InvestigationStatus::Failed,
            WebhookType::MetadataReady => InvestigationStatus::Processing,
            WebhookType::Log => self,
        }
    }

    /// The status after a webhook of type `tag`.
    pub fn transition(self, tag: WebhookType) -> (r: InvestigationStatus)
        ensures
            r == self.after(tag),
    {
        match tag {
            WebhookType::Progress => InvestigationStatus::Processing,
            WebhookType::Completion => InvestigationStatus::Completed,
            WebhookType::Error => InvestigationStatus::Failed,
            WebhookType::MetadataReady => InvestigationStatus::Processing,
            WebhookType::Log => self,
        }
    }

    /// The tag that names this status in a payload.
    pub open spec fn tag(self) -> Seq<char> {
        match self {
            InvestigationStatus::Pending => "pending"@,
            InvestigationStatus::Processing => "processing"@,
            InvestigationStatus::Completed => "complete"@,
            InvestigationStatus::Failed => "failed"@,
        }
    }

    /// The status that `tag` names, if it is one of the four tags.
    pub open spec fn of_tag(tag: Seq<char>) -> Option<InvestigationStatus> {
        if tag == "pending"@ {
            Some(InvestigationStatus::Pending)
        } else if tag == "processing"@ {
            Some(InvestigationStatus::Processing)
        } else if tag == "complete"@ {
            Some(InvestigationStatus::Completed)
        } else if tag == "failed"@ {
            Some(InvestigationStatus::Failed)
        } else {
            None
        }
    }

    pub fn as_str(&self) -> (r: &'static str)
        ensures
            r@ == self.tag(),
    {
        match self {
            InvestigationStatus::Pending => "pending",
            InvestigationStatus::Processing => "processing",
            InvestigationStatus::Completed => "complete",
            InvestigationStatus::Failed => "failed",
        }
    }

    pub fn from_tag(tag: &str) -> (r: Option<Self>)
        ensures
            r == Self::of_tag(tag@),
    {
        if same_text(tag, "pending") {
            Some(InvestigationStatus::Pending)
        } else if same_text(tag, "processing") {
            Some(InvestigationStatus::Processing)
        } else if same_text(tag, "complete") {
            Some(InvestigationStatus::Completed)
        } else if same_text(tag, "failed") {
            Some(InvestigationStatus::Failed)
        } else {
            None
        }
    }
}

/// The transition table: whatever the status before, `Progress` and
/// `MetadataReady` give `Processing`, `Completion` gives `Completed`, `Error`
/// gives `Failed`, and `Log` changes nothing.
pub proof fn lemma_transition_table(from: InvestigationStatus)
    ensures
        from.after(WebhookType::Progress) == InvestigationStatus::Processing,
        from.after(WebhookType::Completion) == InvestigationStatus::Completed,
        from.after(WebhookType::Error) == InvestigationStatus::Failed,
        from.after(WebhookType::MetadataReady) == InvestigationStatus::Processing,
        from.after(WebhookType::Log) == from,
{
}

/// No webhook puts a case into `Pending` that was not there: a case becomes
/// `Pending` by being opened or by a retry, and in no other way.
pub proof fn lemma_no_webhook_reenters_pending(from: InvestigationStatus, tag: WebhookType)
    ensures
        from.after(tag) == InvestigationStatus::Pending ==> from == InvestigationStatus::Pending
            && tag == WebhookType::Log,
{
}

/// The characters of an optional string.
pub open spec fn text_view(text: Option<String>) -> Option<Seq<char>> {
    match text {
        Some(s) => Some(s@),
        None => None,
    }
}

fn clone_text(text: &Option<String>) -> (r: Option<String>)
    ensures
        r == *text,
{
    match text {
        Some(s) => Some(s.clone()),
        None => None,
    }
}

/// What the analysis found out about the subject's activity.
#[derive(Debug)]
pub struct AnalysisSummary {
    pub robust_summary: Option<String>,
    pub short_summary: Option<String>,
    pub transaction_count: u64,
    pub is_bot: bool,
}

pub struct AnalysisView {
    pub robust_summary: Option<Seq<char>>,
    pub short_summary: Option<Seq<char>>,
    pub transaction_count: u64,
    pub is_bot: bool,
}

impl View for AnalysisSummary {
    type V = AnalysisView;

    open spec fn view(&self) -> AnalysisView {
        AnalysisView {
            robust_summary: text_view(self.robust_summary),
            short_summary: text_view(self.short_summary),
            transaction_count: self.transaction_count,
            is_bot: self.is_bot,
        }
    }
}

impl Clone for AnalysisSummary {
    fn clone(&self) -> (r: Self)
        ensures
            r == *self,
    {
        AnalysisSummary {
            robust_summary: clone_text(&self.robust_summary),
            short_summary: clone_text(&self.short_summary),
            transaction_count: self.transaction_count,
            is_bot: self.is_bot,
        }
    }
}

/// The subject's holdings, as decimal numerals kept in text form.
#[derive(Debug)]
pub struct FinancialSummary {
    pub total_usd_value: String,
    pub near_balance: String,
    pub defi_value: String,
}

pub struct FinancialView {
    pub total_usd_value: Seq<char>,
    pub near_balance: Seq<char>,
    pub defi_value: Seq<char>,
}

impl View for FinancialSummary {
    type V = FinancialView;

    open spec fn view(&self) -> FinancialView {
        FinancialView {
            total_usd_value: self.total_usd_value@,
            near_balance: self.near_balance@,
            defi_value: self.defi_value@,
        }
    }
}

impl Clone for FinancialSummary {
    fn clone(&self) -> (r: Self)
        ensures
            r == *self,
    {
        FinancialSummary {
            total_usd_value: self.total_usd_value.clone(),
            near_balance: self.near_balance.clone(),
            defi_value: self.defi_value.clone(),
        }
    }
}

/// The fields of a case that an update may carry. A field that is `None` is
/// absent from the update.
#[derive(Debug)]
pub struct PartialMetadata {
    /// The status that the sender reports. It is carried for the caller's
    /// information: a merge never applies it.
    pub status: Option<InvestigationStatus>,
    pub total_usd_value: Option<String>,
    pub near_balance: Option<String>,
    pub defi_value: Option<String>,
    pub robust_summary: Option<String>,
    pub short_summary: Option<String>,
    pub transaction_count: Option<u64>,
    pub is_bot: Option<bool>,
}

pub struct PartialView {
    pub status: Option<InvestigationStatus>,
    pub total_usd_value: Option<Seq<char>>,
    pub near_balance: Option<Seq<char>>,
    pub defi_value: Option<Seq<char>>,
    pub robust_summary: Option<Seq<char>>,
    pub short_summary: Option<Seq<char>>,
    pub transaction_count: Option<u64>,
    pub is_bot: Option<bool>,
}

impl PartialView {
    /// The update that carries nothing.
    pub open spec fn empty() -> PartialView {
        PartialView {
            status: None,
            total_usd_value: None,
            near_balance: None,
            defi_value: None,
            robust_summary: None,
            short_summary: None,
            transaction_count: None,
            is_bot: None,
        }
    }

    /// Whether the two updates have no metadata field in common.
    pub open spec fn disjoint_from(self, other: PartialView) -> bool {
        &&& !(self.total_usd_value is Some && other.total_usd_value is Some)
        &&& !(self.near_balance is Some && other.near_balance is Some)
        &&& !(self.defi_value is Some && other.defi_value is Some)
        &&& !(self.robust_summary is Some && other.robust_summary is Some)
        &&& !(self.short_summary is Some && other.short_summary is Some)
        &&& !(self.transaction_count is Some && other.transaction_count is Some)
        &&& !(self.is_bot is Some && other.is_bot is Some)
    }
}

impl View for PartialMetadata {
    type V = PartialView;

    open spec fn view(&self) -> PartialView {
        PartialView {
            status: self.status,
            total_usd_value: text_view(self.total_usd_value),
            near_balance: text_view(self.near_balance),
            defi_value: text_view(self.defi_value),
            robust_summary: text_view(self.robust_summary),
            short_summary: text_view(self.short_summary),
            transaction_count: self.transaction_count,
            is_bot: self.is_bot,
        }
    }
}

impl PartialMetadata {
    /// The update that carries nothing.
    pub fn empty() -> (r: Self)
        ensures
            r@ == PartialView::empty(),
    {
        PartialMetadata {
            status: None,
            total_usd_value: None,
            near_balance: None,
            defi_value: None,
            robust_summary: None,
            short_summary: None,
            transaction_count: None,
            is_bot: None,
        }
    }
}

/// Everything the engine keeps about one case.
#[derive(Debug)]
pub struct InvestigationMetadata {
    pub case_number: u64,
    pub target_account: String,
    pub requester: String,
    pub investigation_date: u64,
    pub last_updated: u64,
    pub status: InvestigationStatus,
    pub financial_summary: FinancialSummary,
    pub analysis_summary: AnalysisSummary,
}

pub struct MetadataView {
    pub case_number: u64,
    pub target_account: Seq<char>,
    pub requester: Seq<char>,
    pub investigation_date: u64,
    pub last_updated: u64,
    pub status: InvestigationStatus,
    pub financial_summary: FinancialView,
    pub analysis_summary: AnalysisView,
}

/// The field of an update if it is there, the existing one if not.
pub open spec fn pick<T>(update: Option<T>, existing: T) -> T {
    match update {
        Some(v) => v,
        None => existing,
    }
}

impl MetadataView {
    /// The metadata of a case that has just been opened: status `Pending`,
    /// every amount "0", no summary, no transaction, not a bot.
    pub open spec fn seeded(
        case_number: u64,
        target_account: Seq<char>,
        requester: Seq<char>,
        now: u64,
    ) -> MetadataView {
        MetadataView {
            case_number,
            target_account,
            requester,
            investigation_date: now,
            last_updated: now,
            status: InvestigationStatus::Pending,
            financial_summary: FinancialView {
                total_usd_value: "0"@,
                near_balance: "0"@,
                defi_value: "0"@,
            },
            analysis_summary: AnalysisView {
                robust_summary: None,
                short_summary: None,
                transaction_count: 0,
                is_bot: false,
            },
        }
    }

    /// The metadata after the update `p` has been merged in at time `now`:
    /// each field that `p` carries replaces the existing one, every other
    /// field stays, and `last_updated` becomes `now`. Identity, dates of
    /// creation and status are never touched.
    pub open spec fn merged(self, p: PartialView, now: u64) -> MetadataView {
        MetadataView {
            last_updated: now,
            financial_summary: FinancialView {
                total_usd_value: pick(p.total_usd_value, self.financial_summary.total_usd_value),
                near_balance: pick(p.near_balance, self.financial_summary.near_balance),
                defi_value: pick(p.defi_value, self.financial_summary.defi_value),
            },
            analysis_summary: AnalysisView {
                robust_summary: match p.robust_summary {
                    Some(v) => Some(v),
                    None => self.analysis_summary.robust_summary,
                },
                short_summary: match p.short_summary {
                    Some(v) => Some(v),
                    None => self.analysis_summary.short_summary,
                },
                transaction_count: pick(
                    p.transaction_count,
                    self.analysis_summary.transaction_count,
                ),
                is_bot: pick(p.is_bot, self.analysis_summary.is_bot),
            },
            ..self
        }
    }

    /// Whether `other` is metadata of the same case: the same number, the
    /// same two identities, the same date of creation.
    pub open spec fn same_case(self, other: MetadataView) -> bool {
        &&& self.case_number == other.case_number
        &&& self.target_account == other.target_account
        &&& self.requester == other.requester
        &&& self.investigation_date == other.investigation_date
    }

    /// The same metadata in another status.
    pub open spec fn with_status(self, status: InvestigationStatus) -> MetadataView {
        MetadataView { status, ..self }
    }

    /// The same metadata, last touched at `now`.
    pub open spec fn touched(self, now: u64) -> MetadataView {
        MetadataView { last_updated: now, ..self }
    }

    /// The summary to show: the robust one if there is one, else the short one.
    pub open spec fn summary(self) -> Option<Seq<char>> {
        match self.analysis_summary.robust_summary {
            Some(s) => Some(s),
            None => self.analysis_summary.short_summary,
        }
    }
}

impl View for InvestigationMetadata {
    type V = MetadataView;

    open spec fn view(&self) -> MetadataView {
        MetadataView {
            case_number: self.case_number,
            target_account: self.target_account@,
            requester: self.requester@,
            investigation_date: self.investigation_date,
            last_updated: self.last_updated,
            status: self.status,
            financial_summary: self.financial_summary@,
            analysis_summary: self.analysis_summary@,
        }
    }
}

impl Clone for InvestigationMetadata {
    fn clone(&self) -> (r: Self)
        ensures
            r == *self,
    {
        InvestigationMetadata {
            case_number: self.case_number,
            target_account: self.target_account.clone(),
            requester: self.requester.clone(),
            investigation_date: self.investigation_date,
            last_updated: self.last_updated,
            status: self.status,
            financial_summary: self.financial_summary.clone(),
            analysis_summary: self.analysis_summary.clone(),
        }
    }
}

impl InvestigationMetadata {
    /// The metadata of a case opened at time `now`.
    pub fn new(case_number: u64, target_account: String, requester: String, now: u64) -> (r: Self)
        ensures
            r@ == MetadataView::seeded(case_number, target_account@, requester@, now),
    {
        InvestigationMetadata {
            case_number,
            target_account,
            requester,
            investigation_date: now,
            last_updated: now,
            status: InvestigationStatus::Pending,
            financial_summary: FinancialSummary {
                total_usd_value: String::from_str("0"),
                near_balance: String::from_str("0"),
                defi_value: String::from_str("0"),
            },
            analysis_summary: AnalysisSummary {
                robust_summary: None,
                short_summary: None,
                transaction_count: 0,
                is_bot: false,
            },
        }
    }

    /// Merges the fields that `update` carries into this metadata and sets
    /// `last_updated` to `now`. Fields that `update` does not carry stay as
    /// they are, and so do the case's identity and its status.
    pub fn merge(&mut self, update: &PartialMetadata, now: u64)
        ensures
            final(self)@ == old(self)@.merged(update@, now),
    {
        if let Some(v) = &update.total_usd_value {
            self.financial_summary.total_usd_value = v.clone();
        }
        if let Some(v) = &update.near_balance {
            self.financial_summary.near_balance = v.clone();
        }
        if let Some(v) = &update.defi_value {
            self.financial_summary.defi_value = v.clone();
        }
        if let Some(v) = &update.robust_summary {
            self.analysis_summary.robust_summary = Some(v.clone());
        }
        if let Some(v) = &update.short_summary {
            self.analysis_summary.short_summary = Some(v.clone());
        }
        if let Some(count) = update.transaction_count {
            self.analysis_summary.transaction_count = count;
        }
        if let Some(is_bot) = update.is_bot {
            self.analysis_summary.is_bot = is_bot;
        }
        self.last_updated = now;
    }

    /// The summary to show: the robust one if there is one, else the short one.
    pub fn summary(&self) -> (r: Option<String>)
        ensures
            text_view(r) == self@.summary(),
    {
        match &self.analysis_summary.robust_summary {
            Some(s) => Some(s.clone()),
            None => clone_text(&self.analysis_summary.short_summary),
        }
    }
}

/// Merging the empty update changes nothing but `last_updated`; merged at the
/// time the metadata was last touched, it changes nothing at all.
pub proof fn lemma_merge_empty(m: MetadataView, now: u64)
    ensures
        m.merged(PartialView::empty(), now) == m.touched(now),
        now == m.last_updated ==> m.merged(PartialView::empty(), now) == m,
{
}

/// Merging the same update twice gives what merging it once gives; the time
/// of the first merge leaves no trace.
pub proof fn lemma_merge_idempotent(m: MetadataView, p: PartialView, earlier: u64, now: u64)
    ensures
        m.merged(p, now).merged(p, now) == m.merged(p, now),
        m.merged(p, earlier).merged(p, now) == m.merged(p, now),
{
}

/// Two updates that have no field in common can be merged in either order:
/// both apply, and neither loses a field to the other.
pub proof fn lemma_merge_disjoint_commutes(m: MetadataView, p: PartialView, q: PartialView, now: u64)
    requires
        p.disjoint_from(q),
    ensures
        m.merged(p, now).merged(q, now) == m.merged(q, now).merged(p, now),
{
}

/// A merge leaves alone what no update may change: the case number, the two
/// identities, the date of creation and the status.
pub proof fn lemma_merge_keeps_identity(m: MetadataView, p: PartialView, now: u64)
    ensures
        m.merged(p, now).case_number == m.case_number,
        m.merged(p, now).target_account == m.target_account,
        m.merged(p, now).requester == m.requester,
        m.merged(p, now).investigation_date == m.investigation_date,
        m.merged(p, now).status == m.status,
{
}

/// What a caller gets back when asking for a case to be opened.
#[derive(Debug)]
pub struct InvestigationResponse {
    pub request_id: String,
    pub status: InvestigationStatus,
    pub message: Option<String>,
}

} // verus!
