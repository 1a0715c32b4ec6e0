//! The case registry and its state machine: one owned state object, and the
//! calls that open a case, apply a webhook, retry a failed mint and migrate
//! the schema.

use crate::enumeration::{in_status, on_account, page, page_of, select_account, select_status};
use crate::error::{ContractError, ErrorView};
use crate::events::InvestigationEvent;
use crate::investigation::{
    text_view, InvestigationMetadata, InvestigationResponse, InvestigationStatus, MetadataView,
    PartialMetadata, PartialView,
};
use crate::json::decoded;
use crate::metadata::{
    case_title, create_token_metadata, lemma_title_text_injective, title_text, MetadataUpdate,
    TokenMetadata, TokenMetadataView,
};
use crate::text::same_text;
use crate::webhook_mappings::WebhookType;
use vstd::prelude::*;

verus! {

/// What opening a case costs, in yoctoNEAR: 0.01 NEAR.
pub const REQUIRED_DEPOSIT: u128 = 10_000_000_000_000_000_000_000;

/// The note on the answer to a request for a case that is already open.
pub const ALREADY_EXISTS: &'static str = "Investigation already exists";

/// The schema version of a fresh contract, and the one a migration starts from.
pub const FIRST_VERSION: u32 = 1;

/// The reason given when a webhook is rejected because its type carries
/// nothing for the case.
pub const NO_METADATA_UPDATE: &'static str = "Webhook type does not update metadata";

/// One case as the engine keeps it.
#[derive(Debug)]
pub struct CaseRecord {
    /// The id of the case's record in the registry.
    pub token_id: String,
    pub metadata: InvestigationMetadata,
    /// The metadata as it was when minting the record failed, kept until a
    /// retry succeeds.
    pub failed_mint: Option<InvestigationMetadata>,
}

pub struct CaseView {
    pub token_id: Seq<char>,
    pub metadata: MetadataView,
    pub failed_mint: Option<MetadataView>,
}

/// The view of an optional metadata snapshot.
pub open spec fn snapshot_view(snapshot: Option<InvestigationMetadata>) -> Option<MetadataView> {
    match snapshot {
        Some(m) => Some(m@),
        None => None,
    }
}

impl View for CaseRecord {
    type V = CaseView;

    open spec fn view(&self) -> CaseView {
        CaseView {
            token_id: self.token_id@,
            metadata: self.metadata@,
            failed_mint: snapshot_view(self.failed_mint),
        }
    }
}

impl Clone for CaseRecord {
    fn clone(&self) -> (r: Self)
        ensures
            r == *self,
    {
        CaseRecord {
            token_id: self.token_id.clone(),
            metadata: self.metadata.clone(),
            failed_mint: match &self.failed_mint {
                Some(m) => Some(m.clone()),
                None => None,
            },
        }
    }
}

impl CaseView {
    /// The case after a webhook of type `tag` with the update `update` at
    /// time `now`: the status is what the transition table gives, the update
    /// is merged in where the type asks for it, and the case counts as
    /// touched at `now` either way.
    pub open spec fn after_webhook(self, tag: WebhookType, update: PartialView, now: u64)
        -> CaseView {
        let base = if tag.merges() {
            self.metadata.merged(update, now)
        } else {
            self.metadata.touched(now)
        };
        CaseView { metadata: base.with_status(self.metadata.status.after(tag)), ..self }
    }

    /// The case after minting its record failed at time `now`: the metadata
    /// as it stood is buffered, and the case is `Failed`.
    pub open spec fn after_failed_mint(self, now: u64) -> CaseView {
        CaseView {
            metadata: self.metadata.with_status(InvestigationStatus::Failed).touched(now),
            failed_mint: Some(self.metadata),
            ..self
        }
    }

    /// The case after a retry at time `now`: the buffered metadata is the
    /// case's again, `Pending`, and the buffer is empty.
    pub open spec fn after_retry(self, now: u64) -> CaseView {
        CaseView {
            metadata: self.failed_mint.unwrap().with_status(InvestigationStatus::Pending).touched(
                now,
            ),
            failed_mint: None,
            ..self
        }
    }
}

/// The views of a list of cases.
pub open spec fn records_view(records: Seq<CaseRecord>) -> Seq<CaseView> {
    records.map_values(|c: CaseRecord| c@)
}

/// The view of an optional case.
pub open spec fn record_view(record: Option<CaseRecord>) -> Option<CaseView> {
    match record {
        Some(c) => Some(c@),
        None => None,
    }
}

/// A record that the host is to create in the registry.
#[derive(Debug)]
pub struct MintRequest {
    pub token_id: String,
    pub owner_id: String,
    pub metadata: TokenMetadata,
    /// The case as the engine holds it; the host serialises it into the
    /// token's `extra`.
    pub investigation: InvestigationMetadata,
}

pub struct MintView {
    pub token_id: Seq<char>,
    pub owner_id: Seq<char>,
    pub metadata: TokenMetadataView,
    pub investigation: MetadataView,
}

impl View for MintRequest {
    type V = MintView;

    open spec fn view(&self) -> MintView {
        MintView {
            token_id: self.token_id@,
            owner_id: self.owner_id@,
            metadata: self.metadata@,
            investigation: self.investigation@,
        }
    }
}

impl MintView {
    /// The request to mint the record of the case `m` at time `now`.
    pub open spec fn for_case(m: MetadataView, now: u64) -> MintView {
        MintView {
            token_id: title_text(m.case_number as nat, m.target_account),
            owner_id: m.target_account,
            metadata: TokenMetadataView::for_case(m, now),
            investigation: m,
        }
    }
}

/// The outcome of a request to open a case.
#[derive(Debug)]
pub struct InvestigationStart {
    pub response: InvestigationResponse,
    /// The record to create, when a case was opened.
    pub mint: Option<MintRequest>,
    /// What to hand back to the requester of the deposit, in yoctoNEAR.
    pub refund: u128,
    pub event: Option<InvestigationEvent>,
}

/// The engine's state.
pub struct Contract {
    owner_id: String,
    version: u32,
    case_number_counter: u64,
    cases: Vec<CaseRecord>,
}

/// The state as contracts speak of it. `cases` holds every case ever opened,
/// in the order in which they were opened.
pub struct ContractView {
    pub owner_id: Seq<char>,
    pub version: u32,
    pub case_number_counter: u64,
    pub cases: Seq<CaseView>,
}

impl ContractView {
    /// Whether a case is open on `account`.
    pub open spec fn has_account(self, account: Seq<char>) -> bool {
        exists|i: int|
            0 <= i < self.cases.len() && (#[trigger] self.cases[i]).metadata.target_account
                == account
    }

    /// The place in `cases` of the case on `account`.
    pub open spec fn account_index(self, account: Seq<char>) -> int {
        choose|i: int|
            0 <= i < self.cases.len() && (#[trigger] self.cases[i]).metadata.target_account
                == account
    }

    /// Whether a case has the token id `token`.
    pub open spec fn has_token(self, token: Seq<char>) -> bool {
        exists|i: int| 0 <= i < self.cases.len() && (#[trigger] self.cases[i]).token_id == token
    }

    /// The place in `cases` of the case with token id `token`.
    pub open spec fn token_index(self, token: Seq<char>) -> int {
        choose|i: int| 0 <= i < self.cases.len() && (#[trigger] self.cases[i]).token_id == token
    }

    /// What holds of the case at place `i`: it has number `i + 1`, its token
    /// id is the title written from its number and subject, and a buffered
    /// snapshot is metadata of this very case.
    pub open spec fn case_wf(self, i: int) -> bool {
        let c = self.cases[i];
        &&& c.metadata.case_number == i + 1
        &&& c.token_id == title_text((i + 1) as nat, c.metadata.target_account)
        &&& c.failed_mint matches Some(f) ==> f.same_case(c.metadata)
    }

    /// The invariant of the state: the counter counts the cases, their
    /// numbers run from 1 without a gap, and no two cases share a subject.
    pub open spec fn wf(self) -> bool {
        &&& self.cases.len() == self.case_number_counter
        &&& forall|i: int| 0 <= i < self.cases.len() ==> #[trigger] self.case_wf(i)
        &&& forall|i: int, j: int|
            0 <= i < j < self.cases.len() ==> (#[trigger] self.cases[i]).metadata.target_account
                != (#[trigger] self.cases[j]).metadata.target_account
    }

    /// The state of a fresh contract owned by `owner_id`.
    pub open spec fn fresh(owner_id: Seq<char>) -> ContractView {
        ContractView {
            owner_id,
            version: FIRST_VERSION,
            case_number_counter: 0,
            cases: Seq::empty(),
        }
    }

    /// Why a request to open a case on `target` with `deposit` attached is
    /// refused, if it is: there is no case on `target` yet and the deposit
    /// falls short.
    pub open spec fn start_error(self, target: Seq<char>, deposit: u128) -> Option<ErrorView> {
        if !self.has_account(target) && deposit < REQUIRED_DEPOSIT {
            Some(ErrorView::InsufficientPayment)
        } else {
            None
        }
    }

    /// Whether a request to open a case on `target` opens a new one.
    pub open spec fn start_opens(self, target: Seq<char>, deposit: u128) -> bool {
        !self.has_account(target) && deposit >= REQUIRED_DEPOSIT
    }

    /// The token id that an accepted request to open a case on `target`
    /// answers with: that of the case on `target` if there is one, else that
    /// of the case it opens.
    pub open spec fn start_token(self, target: Seq<char>) -> Seq<char> {
        if self.has_account(target) {
            self.cases[self.account_index(target)].token_id
        } else {
            title_text((self.case_number_counter + 1) as nat, target)
        }
    }

    /// The metadata of the case that a request of `requester` at time `now`
    /// opens on `target`.
    pub open spec fn start_seed(self, target: Seq<char>, requester: Seq<char>, now: u64)
        -> MetadataView {
        MetadataView::seeded((self.case_number_counter + 1) as u64, target, requester, now)
    }

    /// The state after a request to open a case on `target`. Where the
    /// request opens a case, the counter goes up by one and the new case,
    /// numbered by the new counter and `Pending`, comes last. Otherwise
    /// nothing changes.
    pub open spec fn after_start(
        self,
        target: Seq<char>,
        requester: Seq<char>,
        deposit: u128,
        now: u64,
    ) -> ContractView {
        if self.start_opens(target, deposit) {
            ContractView {
                case_number_counter: (self.case_number_counter + 1) as u64,
                cases: self.cases.push(
                    CaseView {
                        token_id: self.start_token(target),
                        metadata: self.start_seed(target, requester, now),
                        failed_mint: None,
                    },
                ),
                ..self
            }
        } else {
            self
        }
    }
}

impl ContractView {
    /// The same state with the case at place `i` replaced.
    pub open spec fn with_case(self, i: int, case: CaseView) -> ContractView {
        ContractView { cases: self.cases.update(i, case), ..self }
    }

    /// The case with token id `token`.
    pub open spec fn case_of(self, token: Seq<char>) -> CaseView {
        self.cases[self.token_index(token)]
    }

    /// Why a webhook is refused, if it is. The checks come in this order:
    /// the caller must be the administrator; the type must not be `Log`; the
    /// payload must have decoded (`update` is `None` where it did not); a
    /// case must have the token id.
    pub open spec fn webhook_error(
        self,
        caller: Seq<char>,
        token: Seq<char>,
        tag: WebhookType,
        update: Option<PartialView>,
    ) -> Option<ErrorView> {
        if caller != self.owner_id {
            Some(ErrorView::Unauthorized)
        } else if tag == WebhookType::Log {
            Some(ErrorView::Rejected(NO_METADATA_UPDATE@))
        } else if update is None {
            Some(ErrorView::DeserializationFailed)
        } else if !self.has_token(token) {
            Some(ErrorView::NotFound)
        } else {
            None
        }
    }

    /// The state after a webhook: unchanged where the webhook is refused,
    /// else with the one case changed as [`CaseView::after_webhook`] says.
    pub open spec fn after_webhook(
        self,
        caller: Seq<char>,
        token: Seq<char>,
        tag: WebhookType,
        update: Option<PartialView>,
        now: u64,
    ) -> ContractView {
        if self.webhook_error(caller, token, tag, update) is Some {
            self
        } else {
            self.with_case(
                self.token_index(token),
                self.case_of(token).after_webhook(tag, update.unwrap(), now),
            )
        }
    }

    /// Why a report of a failed mint is refused, if it is: no case has the
    /// token id.
    pub open spec fn failed_mint_error(self, token: Seq<char>) -> Option<ErrorView> {
        if !self.has_token(token) {
            Some(ErrorView::NotFound)
        } else {
            None
        }
    }

    /// The state after a report that minting the record `token` failed.
    pub open spec fn after_failed_mint(self, token: Seq<char>, now: u64) -> ContractView {
        if self.failed_mint_error(token) is Some {
            self
        } else {
            self.with_case(self.token_index(token), self.case_of(token).after_failed_mint(now))
        }
    }

    /// Why a retry is refused, if it is: the caller is not the
    /// administrator, or no failed mint is buffered under the token id.
    pub open spec fn retry_error(self, caller: Seq<char>, token: Seq<char>) -> Option<ErrorView> {
        if caller != self.owner_id {
            Some(ErrorView::Unauthorized)
        } else if !self.has_token(token) || self.case_of(token).failed_mint is None {
            Some(ErrorView::NotFound)
        } else {
            None
        }
    }

    /// The state after a retry.
    pub open spec fn after_retry(self, caller: Seq<char>, token: Seq<char>, now: u64)
        -> ContractView {
        if self.retry_error(caller, token) is Some {
            self
        } else {
            self.with_case(self.token_index(token), self.case_of(token).after_retry(now))
        }
    }

    /// Why a migration is refused, if it is: the caller is not the
    /// administrator, or the schema is not at the first version.
    pub open spec fn migrate_error(self, caller: Seq<char>) -> Option<ErrorView> {
        if caller != self.owner_id {
            Some(ErrorView::Unauthorized)
        } else if self.version != FIRST_VERSION {
            Some(ErrorView::VersionMismatch)
        } else {
            None
        }
    }

    /// The state after a migration: the version one higher, all else as it
    /// was.
    pub open spec fn after_migrate(self, caller: Seq<char>) -> ContractView {
        if self.migrate_error(caller) is Some {
            self
        } else {
            ContractView { version: (self.version + 1) as u32, ..self }
        }
    }
}

impl ContractView {
    /// The registry of subjects: each subject with a case, mapped to the
    /// token id of its case.
    pub open spec fn investigated_accounts(self) -> Map<Seq<char>, Seq<char>> {
        Map::new(
            |account: Seq<char>| self.has_account(account),
            |account: Seq<char>| self.cases[self.account_index(account)].token_id,
        )
    }

    /// The status of each case, by token id.
    pub open spec fn investigation_status(self) -> Map<Seq<char>, InvestigationStatus> {
        Map::new(
            |token: Seq<char>| self.has_token(token),
            |token: Seq<char>| self.case_of(token).metadata.status,
        )
    }

    /// The metadata of each case, by token id.
    pub open spec fn investigation_data(self) -> Map<Seq<char>, MetadataView> {
        Map::new(
            |token: Seq<char>| self.has_token(token),
            |token: Seq<char>| self.case_of(token).metadata,
        )
    }

    /// The failed-mint buffer: the snapshot of each case whose mint failed and
    /// has not been retried, by token id.
    pub open spec fn failed_mints(self) -> Map<Seq<char>, MetadataView> {
        Map::new(
            |token: Seq<char>| self.has_token(token) && self.case_of(token).failed_mint is Some,
            |token: Seq<char>| self.case_of(token).failed_mint.unwrap(),
        )
    }

    /// The status of the case `token`, if there is such a case.
    pub open spec fn status_of(self, token: Seq<char>) -> Option<InvestigationStatus> {
        if self.has_token(token) {
            Some(self.case_of(token).metadata.status)
        } else {
            None
        }
    }

    /// The metadata of the case `token`, if there is such a case.
    pub open spec fn metadata_of(self, token: Seq<char>) -> Option<MetadataView> {
        if self.has_token(token) {
            Some(self.case_of(token).metadata)
        } else {
            None
        }
    }

    /// The case on `account`, if there is one.
    pub open spec fn case_on(self, account: Seq<char>) -> Option<CaseView> {
        if self.has_account(account) {
            Some(self.cases[self.account_index(account)])
        } else {
            None
        }
    }
}

impl View for Contract {
    type V = ContractView;

    closed spec fn view(&self) -> ContractView {
        ContractView {
            owner_id: self.owner_id@,
            version: self.version,
            case_number_counter: self.case_number_counter,
            cases: records_view(self.cases@),
        }
    }
}

impl Contract {
    /// A contract with no case, at the first schema version, administered by
    /// `owner_id`.
    pub fn new(owner_id: String) -> (r: Self)
        ensures
            r@ == ContractView::fresh(owner_id@),
            r@.wf(),
    {
        let r = Contract { owner_id, version: FIRST_VERSION, case_number_counter: 0, cases: Vec::new() };
        assert(r@.cases =~= Seq::empty());
        r
    }

    /// Puts a state together from its parts, as a host does that has kept
    /// them in storage. The parts are checked: the result is `None` exactly
    /// where they do not make a well-formed state.
    pub fn from_parts(
        owner_id: String,
        version: u32,
        case_number_counter: u64,
        cases: Vec<CaseRecord>,
    ) -> (r: Option<Contract>)
        ensures
            match r {
                Some(c) => c@.wf() && c@ == (ContractView {
                    owner_id: owner_id@,
                    version,
                    case_number_counter,
                    cases: records_view(cases@),
                }),
                None => !(ContractView {
                    owner_id: owner_id@,
                    version,
                    case_number_counter,
                    cases: records_view(cases@),
                }).wf(),
            },
    {
        let contract = Contract { owner_id, version, case_number_counter, cases };
        if contract.is_well_formed() {
            Some(contract)
        } else {
            None
        }
    }

    fn is_well_formed(&self) -> (r: bool)
        ensures
            r == self@.wf(),
    {
        let count = self.cases.len();
        if count as u64 != self.case_number_counter {
            return false;
        }
        let mut i: usize = 0;
        while i < count
            invariant
                i <= count,
                count == self.cases.len(),
                count == self.case_number_counter,
                forall|k: int| 0 <= k < i ==> #[trigger] self@.case_wf(k),
                forall|a: int, b: int|
                    0 <= a < b < i ==> (#[trigger] self@.cases[a]).metadata.target_account != (
                    #[trigger] self@.cases[b]).metadata.target_account,
            decreases count - i,
        {
            let case = &self.cases[i];
            assert(case@ == self@.cases[i as int]);
            let number = i as u64 + 1;
            if case.metadata.case_number != number {
                assert(!self@.case_wf(i as int));
                return false;
            }
            let title = case_title(number, case.metadata.target_account.as_str());
            if !same_text(case.token_id.as_str(), title.as_str()) {
                assert(!self@.case_wf(i as int));
                return false;
            }
            match &case.failed_mint {
                Some(snapshot) => {
                    if snapshot.case_number != number || !same_text(
                        snapshot.target_account.as_str(),
                        case.metadata.target_account.as_str(),
                    ) || !same_text(snapshot.requester.as_str(), case.metadata.requester.as_str())
                        || snapshot.investigation_date != case.metadata.investigation_date {
                        assert(!self@.case_wf(i as int));
                        return false;
                    }
                },
                None => {},
            }
            assert(self@.case_wf(i as int));
            let mut j: usize = 0;
            while j < i
                invariant
                    j <= i < count,
                    count == self.cases.len(),
                    forall|a: int|
                        0 <= a < j ==> (#[trigger] self@.cases[a]).metadata.target_account
                            != self@.cases[i as int].metadata.target_account,
                decreases i - j,
            {
                if same_text(
                    self.cases[j].metadata.target_account.as_str(),
                    self.cases[i].metadata.target_account.as_str(),
                ) {
                    assert(self@.cases[j as int].metadata.target_account
                        == self@.cases[i as int].metadata.target_account);
                    return false;
                }
                j += 1;
            }
            i += 1;
        }
        true
    }

    /// Every case, in the order in which they were opened.
    pub fn cases(&self) -> (r: &Vec<CaseRecord>)
        ensures
            records_view(r@) == self@.cases,
    {
        &self.cases
    }

    /// The administrator.
    pub fn owner_id(&self) -> (r: &str)
        ensures
            r@ == self@.owner_id,
    {
        self.owner_id.as_str()
    }

    /// The number of the case opened last, 0 if none was.
    pub fn case_number_counter(&self) -> (r: u64)
        ensures
            r == self@.case_number_counter,
    {
        self.case_number_counter
    }

    /// The version of the persisted schema.
    pub fn version(&self) -> (r: u32)
        ensures
            r == self@.version,
    {
        self.version
    }

    fn find_account(&self, account: &str) -> (r: Option<usize>)
        requires
            self@.wf(),
        ensures
            r is Some == self@.has_account(account@),
            r matches Some(i) ==> i == self@.account_index(account@) && i < self.cases.len(),
    {
        let mut i: usize = 0;
        while i < self.cases.len()
            invariant
                self@.wf(),
                i <= self.cases.len(),
                forall|k: int|
                    0 <= k < i ==> (#[trigger] self@.cases[k]).metadata.target_account
                        != account@,
            decreases self.cases.len() - i,
        {
            if same_text(self.cases[i].metadata.target_account.as_str(), account) {
                assert(self@.cases[i as int].metadata.target_account == account@);
                return Some(i);
            }
            i += 1;
        }
        None
    }

    fn find_token(&self, token: &str) -> (r: Option<usize>)
        requires
            self@.wf(),
        ensures
            r is Some == self@.has_token(token@),
            r matches Some(i) ==> i == self@.token_index(token@) && i < self.cases.len(),
    {
        let mut i: usize = 0;
        while i < self.cases.len()
            invariant
                self@.wf(),
                i <= self.cases.len(),
                forall|k: int| 0 <= k < i ==> (#[trigger] self@.cases[k]).token_id != token@,
            decreases self.cases.len() - i,
        {
            if same_text(self.cases[i].token_id.as_str(), token) {
                assert(self@.cases[i as int].token_id == token@);
                proof {
                    lemma_tokens_distinct(self@, i as int, self@.token_index(token@));
                }
                return Some(i);
            }
            i += 1;
        }
        None
    }

    /// Opens a case on `target_account` for `requester`, who attached
    /// `deposit` yoctoNEAR, at time `now`.
    ///
    /// If a case on `target_account` exists, the answer names it, with its
    /// status and a note, and nothing else happens: no state changes and no
    /// deposit is asked for or handed back. Otherwise the deposit is checked
    /// before anything is changed; if it suffices, the next case number is
    /// taken, the case is registered as `Pending`, and the outcome holds the
    /// record to mint, the part of the deposit to refund and the event.
    pub fn start_investigation(
        &mut self,
        target_account: &str,
        requester: &str,
        deposit: u128,
        now: u64,
    ) -> (r: Result<InvestigationStart, ContractError>)
        requires
            old(self)@.wf(),
            old(self)@.case_number_counter < u64::MAX,
        ensures
            final(self)@.wf(),
            final(self)@ == old(self)@.after_start(target_account@, requester@, deposit, now),
            match r {
                Err(e) => old(self)@.start_error(target_account@, deposit) == Some(e@),
                Ok(out) => {
                    &&& old(self)@.start_error(target_account@, deposit) is None
                    &&& out.response.request_id@ == old(self)@.start_token(target_account@)
                    &&& if old(self)@.has_account(target_account@) {
                        &&& out.response.status == old(self)@.cases[old(self)@.account_index(
                            target_account@,
                        )].metadata.status
                        &&& text_view(out.response.message) == Some(ALREADY_EXISTS@)
                        &&& out.mint is None
                        &&& out.refund == 0
                        &&& out.event is None
                    } else {
                        &&& out.response.status == InvestigationStatus::Pending
                        &&& out.response.message is None
                        &&& out.mint matches Some(m) && m@ == MintView::for_case(
                            old(self)@.start_seed(target_account@, requester@, now),
                            now,
                        )
                        &&& out.refund == deposit - REQUIRED_DEPOSIT
                        &&& out.event matches Some(
                            InvestigationEvent::Started {
                                target_account: subject,
                                token_id,
                                case_number,
                                timestamp,
                            },
                        ) && subject@ == target_account@ && token_id@ == old(self)@.start_token(
                            target_account@,
                        ) && case_number == old(self)@.case_number_counter + 1 && timestamp == now
                    }
                },
            },
    {
        match self.find_account(target_account) {
            Some(i) => {
                let case = &self.cases[i];
                assert(case@ == self@.cases[i as int]);
                return Ok(
                    InvestigationStart {
                        response: InvestigationResponse {
                            request_id: case.token_id.clone(),
                            status: case.metadata.status,
                            message: Some(String::from_str(ALREADY_EXISTS)),
                        },
                        mint: None,
                        refund: 0,
                        event: None,
                    },
                );
            },
            None => {},
        }
        if deposit < REQUIRED_DEPOSIT {
            return Err(ContractError::InsufficientPayment);
        }
        let case_number = self.case_number_counter + 1;
        let token_id = case_title(case_number, target_account);
        let metadata = InvestigationMetadata::new(
            case_number,
            target_account.to_owned(),
            requester.to_owned(),
            now,
        );
        let mint = MintRequest {
            token_id: token_id.clone(),
            owner_id: target_account.to_owned(),
            metadata: create_token_metadata(&metadata, now),
            investigation: metadata.clone(),
        };
        let event = InvestigationEvent::Started {
            target_account: target_account.to_owned(),
            token_id: token_id.clone(),
            case_number,
            timestamp: now,
        };
        let response = InvestigationResponse {
            request_id: token_id.clone(),
            status: InvestigationStatus::Pending,
            message: None,
        };
        let ghost before = self@;
        self.case_number_counter = case_number;
        self.cases.push(CaseRecord { token_id, metadata, failed_mint: None });
        proof {
            let after = before.after_start(target_account@, requester@, deposit, now);
            assert(self@.cases =~= after.cases);
            assert forall|i: int| 0 <= i < after.cases.len() implies #[trigger] after.case_wf(
                i,
            ) by {
                if i < before.cases.len() {
                    assert(before.case_wf(i));
                }
            }
        }
        Ok(
            InvestigationStart {
                response,
                mint: Some(mint),
                refund: deposit - REQUIRED_DEPOSIT,
                event: Some(event),
            },
        )
    }

    /// Applies a webhook whose payload has been decoded into `update`.
    ///
    /// The caller must be the administrator, else the call is `Unauthorized`.
    /// A `Log` webhook is `Rejected`: it carries nothing for the case. An
    /// unknown token id is `NotFound`. Otherwise the case's status becomes
    /// what the transition table gives for the type, `update` is merged into
    /// its metadata if the type asks for a merge, and `last_updated` becomes
    /// `now`. The event tells the old and the new status.
    pub fn apply_webhook(
        &mut self,
        caller: &str,
        token_id: &str,
        webhook_type: WebhookType,
        update: &PartialMetadata,
        now: u64,
    ) -> (r: Result<InvestigationEvent, ContractError>)
        requires
            old(self)@.wf(),
        ensures
            final(self)@.wf(),
            final(self)@ == old(self)@.after_webhook(
                caller@,
                token_id@,
                webhook_type,
                Some(update@),
                now,
            ),
            match r {
                Err(e) => old(self)@.webhook_error(caller@, token_id@, webhook_type, Some(update@))
                    == Some(e@),
                Ok(event) => {
                    &&& old(self)@.webhook_error(caller@, token_id@, webhook_type, Some(update@))
                        is None
                    &&& event matches InvestigationEvent::StatusChanged {
                        token_id: token,
                        old_status,
                        new_status,
                        timestamp,
                    }
                    &&& token@ == token_id@
                    &&& old_status@ == old(self)@.case_of(token_id@).metadata.status.tag()
                    &&& new_status@ == old(self)@.case_of(token_id@).metadata.status.after(
                        webhook_type,
                    ).tag()
                    &&& timestamp == now
                },
            },
    {
        if !same_text(caller, self.owner_id.as_str()) {
            return Err(ContractError::Unauthorized);
        }
        if webhook_type == WebhookType::Log {
            return Err(ContractError::Rejected(String::from_str(NO_METADATA_UPDATE)));
        }
        let i = match self.find_token(token_id) {
            Some(i) => i,
            None => {
                return Err(ContractError::NotFound);
            },
        };
        let ghost before = self@;
        let mut case = self.cases[i].clone();
        assert(case@ == before.cases[i as int]);
        let old_status = case.metadata.status;
        let new_status = old_status.transition(webhook_type);
        if webhook_type.requires_metadata_update() {
            case.metadata.merge(update, now);
        } else {
            case.metadata.last_updated = now;
        }
        case.metadata.status = new_status;
        assert(case@ == before.cases[i as int].after_webhook(webhook_type, update@, now));
        self.cases.set(i, case);
        proof {
            let after = before.after_webhook(caller@, token_id@, webhook_type, Some(update@), now);
            assert(self@.cases =~= after.cases);
            assert(before.case_wf(i as int));
            lemma_with_case_wf(
                before,
                i as int,
                before.cases[i as int].after_webhook(webhook_type, update@, now),
            );
        }
        Ok(
            InvestigationEvent::StatusChanged {
                token_id: token_id.to_owned(),
                old_status: String::from_str(old_status.as_str()),
                new_status: String::from_str(new_status.as_str()),
                timestamp: now,
            },
        )
    }

    /// Applies the webhook `metadata_update` of type `webhook_type` to the
    /// case `token_id`, for `caller`, at time `now`.
    ///
    /// The payload is the update's `extra`: a JSON document that carries the
    /// fields to merge. The call is refused, in this order, if the caller is
    /// not the administrator (`Unauthorized`), if the type is `Log`
    /// (`Rejected`), if the payload is no JSON document
    /// (`DeserializationFailed`), or if no case has the token id
    /// (`NotFound`). Otherwise it does what [`Contract::apply_webhook`] does
    /// with the decoded payload.
    pub fn update_investigation_metadata(
        &mut self,
        caller: &str,
        token_id: &str,
        metadata_update: &MetadataUpdate,
        webhook_type: WebhookType,
        now: u64,
    ) -> (r: Result<InvestigationEvent, ContractError>)
        requires
            old(self)@.wf(),
        ensures
            final(self)@.wf(),
            final(self)@ == old(self)@.after_webhook(
                caller@,
                token_id@,
                webhook_type,
                decoded(metadata_update.extra@),
                now,
            ),
            match r {
                Err(e) => old(self)@.webhook_error(
                    caller@,
                    token_id@,
                    webhook_type,
                    decoded(metadata_update.extra@),
                ) == Some(e@),
                Ok(event) => {
                    &&& old(self)@.webhook_error(
                        caller@,
                        token_id@,
                        webhook_type,
                        decoded(metadata_update.extra@),
                    ) is None
                    &&& event matches InvestigationEvent::StatusChanged {
                        token_id: token,
                        old_status,
                        new_status,
                        timestamp,
                    }
                    &&& token@ == token_id@
                    &&& old_status@ == old(self)@.case_of(token_id@).metadata.status.tag()
                    &&& new_status@ == old(self)@.case_of(token_id@).metadata.status.after(
                        webhook_type,
                    ).tag()
                    &&& timestamp == now
                },
            },
    {
        if !same_text(caller, self.owner_id.as_str()) {
            return Err(ContractError::Unauthorized);
        }
        if webhook_type == WebhookType::Log {
            return Err(ContractError::Rejected(String::from_str(NO_METADATA_UPDATE)));
        }
        match PartialMetadata::from_json(metadata_update.extra.as_str()) {
            Ok(update) => self.apply_webhook(caller, token_id, webhook_type, &update, now),
            Err(e) => Err(e),
        }
    }

    /// Records that minting the record `token_id` failed, with the registry's
    /// `error`, at time `now`.
    ///
    /// The case's metadata as it stands goes into the failed-mint buffer,
    /// where a retry finds it, and the case becomes `Failed`. An unknown
    /// token id is `NotFound`.
    pub fn record_failed_mint(&mut self, token_id: &str, error: &str, now: u64) -> (r: Result<
        InvestigationEvent,
        ContractError,
    >)
        requires
            old(self)@.wf(),
        ensures
            final(self)@.wf(),
            final(self)@ == old(self)@.after_failed_mint(token_id@, now),
            match r {
                Err(e) => old(self)@.failed_mint_error(token_id@) == Some(e@),
                Ok(event) => {
                    &&& old(self)@.failed_mint_error(token_id@) is None
                    &&& event matches InvestigationEvent::Failed {
                        token_id: token,
                        error: reason,
                        timestamp,
                    }
                    &&& token@ == token_id@
                    &&& reason@ == error@
                    &&& timestamp == now
                },
            },
    {
        let i = match self.find_token(token_id) {
            Some(i) => i,
            None => {
                return Err(ContractError::NotFound);
            },
        };
        let ghost before = self@;
        let mut case = self.cases[i].clone();
        assert(case@ == before.cases[i as int]);
        case.failed_mint = Some(case.metadata.clone());
        case.metadata.status = InvestigationStatus::Failed;
        case.metadata.last_updated = now;
        assert(case@ == before.cases[i as int].after_failed_mint(now));
        self.cases.set(i, case);
        proof {
            assert(before.case_wf(i as int));
            assert(self@.cases =~= before.after_failed_mint(token_id@, now).cases);
            lemma_with_case_wf(before, i as int, before.cases[i as int].after_failed_mint(now));
        }
        Ok(
            InvestigationEvent::Failed {
                token_id: token_id.to_owned(),
                error: error.to_owned(),
                timestamp: now,
            },
        )
    }

    /// Retries the failed mint of the record `token_id`, for `caller`, at
    /// time `now`.
    ///
    /// The caller must be the administrator (`Unauthorized`), and a failed
    /// mint must be buffered under the token id (`NotFound`). Then the
    /// buffered metadata becomes the case's again, with status `Pending`, the
    /// buffer entry is removed, and the result is the record to mint for the
    /// case's subject.
    pub fn retry_investigation(&mut self, caller: &str, token_id: &str, now: u64) -> (r: Result<
        MintRequest,
        ContractError,
    >)
        requires
            old(self)@.wf(),
        ensures
            final(self)@.wf(),
            final(self)@ == old(self)@.after_retry(caller@, token_id@, now),
            match r {
                Err(e) => old(self)@.retry_error(caller@, token_id@) == Some(e@),
                Ok(mint) => {
                    &&& old(self)@.retry_error(caller@, token_id@) is None
                    &&& mint@ == MintView::for_case(final(self)@.case_of(token_id@).metadata, now)
                    &&& mint@.token_id == token_id@
                },
            },
    {
        if !same_text(caller, self.owner_id.as_str()) {
            return Err(ContractError::Unauthorized);
        }
        let i = match self.find_token(token_id) {
            Some(i) => i,
            None => {
                return Err(ContractError::NotFound);
            },
        };
        let ghost before = self@;
        let mut metadata = match &self.cases[i].failed_mint {
            Some(snapshot) => snapshot.clone(),
            None => {
                return Err(ContractError::NotFound);
            },
        };
        metadata.status = InvestigationStatus::Pending;
        metadata.last_updated = now;
        let mint = MintRequest {
            token_id: self.cases[i].token_id.clone(),
            owner_id: metadata.target_account.clone(),
            metadata: create_token_metadata(&metadata, now),
            investigation: metadata.clone(),
        };
        let case = CaseRecord {
            token_id: self.cases[i].token_id.clone(),
            metadata,
            failed_mint: None,
        };
        assert(case@ == before.cases[i as int].after_retry(now));
        self.cases.set(i, case);
        proof {
            assert(before.case_wf(i as int));
            assert(self@.cases =~= before.after_retry(caller@, token_id@, now).cases);
            lemma_with_case_wf(before, i as int, before.cases[i as int].after_retry(now));
            assert(self@.cases[i as int].token_id == token_id@);
            lemma_tokens_distinct(self@, i as int, self@.token_index(token_id@));
        }
        Ok(mint)
    }

    /// Moves the persisted schema from the first version to the next, for
    /// `caller`, at time `now`.
    ///
    /// The caller must be the administrator (`Unauthorized`), and the schema
    /// must be at the first version (`VersionMismatch`): a second migration
    /// is refused. The cases and the counter are kept as they are.
    pub fn migrate(&mut self, caller: &str, now: u64) -> (r: Result<
        InvestigationEvent,
        ContractError,
    >)
        requires
            old(self)@.wf(),
        ensures
            final(self)@.wf(),
            final(self)@ == old(self)@.after_migrate(caller@),
            match r {
                Err(e) => old(self)@.migrate_error(caller@) == Some(e@),
                Ok(event) => {
                    &&& old(self)@.migrate_error(caller@) is None
                    &&& event matches InvestigationEvent::ContractMigrated {
                        old_version,
                        new_version,
                        timestamp,
                    }
                    &&& old_version == old(self)@.version
                    &&& new_version == old(self)@.version + 1
                    &&& timestamp == now
                },
            },
    {
        if !same_text(caller, self.owner_id.as_str()) {
            return Err(ContractError::Unauthorized);
        }
        if self.version != FIRST_VERSION {
            return Err(ContractError::VersionMismatch);
        }
        let old_version = self.version;
        self.version = old_version + 1;
        proof {
            assert forall|i: int| 0 <= i < self@.cases.len() implies #[trigger] self@.case_wf(
                i,
            ) by {
                assert(old(self)@.case_wf(i));
            }
        }
        Ok(
            InvestigationEvent::ContractMigrated {
                old_version,
                new_version: old_version + 1,
                timestamp: now,
            },
        )
    }
}

impl Contract {
    /// The status of the case `token_id`.
    pub fn get_investigation_status(&self, token_id: &str) -> (r: Option<InvestigationStatus>)
        requires
            self@.wf(),
        ensures
            r == self@.status_of(token_id@),
    {
        match self.find_token(token_id) {
            Some(i) => {
                assert(self.cases[i as int]@ == self@.cases[i as int]);
                Some(self.cases[i].metadata.status)
            },
            None => None,
        }
    }

    /// The case on `account_id`.
    pub fn get_investigation_by_account(&self, account_id: &str) -> (r: Option<CaseRecord>)
        requires
            self@.wf(),
        ensures
            record_view(r) == self@.case_on(account_id@),
    {
        match self.find_account(account_id) {
            Some(i) => {
                assert(self.cases[i as int]@ == self@.cases[i as int]);
                Some(self.cases[i].clone())
            },
            None => None,
        }
    }

    /// The metadata of the case `token_id`.
    pub fn get_investigation_metadata(&self, token_id: &str) -> (r: Option<InvestigationMetadata>)
        requires
            self@.wf(),
        ensures
            snapshot_view(r) == self@.metadata_of(token_id@),
    {
        match self.find_token(token_id) {
            Some(i) => {
                assert(self.cases[i as int]@ == self@.cases[i as int]);
                Some(self.cases[i].metadata.clone())
            },
            None => None,
        }
    }

    /// One page of all cases, in the order in which they were opened: at
    /// most `limit` of them, and never more than
    /// [`MAX_LIMIT`](crate::enumeration::MAX_LIMIT), from place `from_index`
    /// on.
    pub fn get_all_investigations(&self, from_index: Option<u128>, limit: Option<u64>) -> (r: Vec<
        CaseRecord,
    >)
        ensures
            records_view(r@) == page_of(self@.cases, from_index, limit),
    {
        page(&self.cases, from_index, limit)
    }

    /// One page of the cases on `account_id`.
    pub fn get_investigations_by_account(
        &self,
        account_id: &str,
        from_index: Option<u128>,
        limit: Option<u64>,
    ) -> (r: Vec<CaseRecord>)
        ensures
            records_view(r@) == page_of(
                self@.cases.filter(on_account(account_id@)),
                from_index,
                limit,
            ),
    {
        let matching = select_account(&self.cases, account_id);
        page(&matching, from_index, limit)
    }

    /// All cases in `status`, in the order in which they were opened.
    pub fn get_investigations_by_status(&self, status: InvestigationStatus) -> (r: Vec<CaseRecord>)
        ensures
            records_view(r@) == self@.cases.filter(in_status(status)),
    {
        select_status(&self.cases, status)
    }
}

/// Replacing a case by one with the same number, subject and token id, whose
/// buffered snapshot (if any) is metadata of that case, keeps the state well
/// formed.
pub proof fn lemma_with_case_wf(c: ContractView, i: int, case: CaseView)
    requires
        c.wf(),
        0 <= i < c.cases.len(),
        case.token_id == c.cases[i].token_id,
        case.metadata.case_number == c.cases[i].metadata.case_number,
        case.metadata.target_account == c.cases[i].metadata.target_account,
        case.failed_mint matches Some(f) ==> f.same_case(case.metadata),
    ensures
        c.with_case(i, case).wf(),
{
    let after = c.with_case(i, case);
    assert(c.case_wf(i));
    assert forall|k: int| 0 <= k < after.cases.len() implies #[trigger] after.case_wf(k) by {
        assert(c.case_wf(k));
    }
    assert forall|a: int, b: int| 0 <= a < b < after.cases.len() implies (
    #[trigger] after.cases[a]).metadata.target_account != (
    #[trigger] after.cases[b]).metadata.target_account by {
        assert(c.cases[a].metadata.target_account != c.cases[b].metadata.target_account);
    }
}

/// No two cases share a token id.
pub proof fn lemma_tokens_distinct(c: ContractView, i: int, j: int)
    requires
        c.wf(),
        0 <= i < c.cases.len(),
        0 <= j < c.cases.len(),
        c.cases[i].token_id == c.cases[j].token_id,
    ensures
        i == j,
{
    assert(c.case_wf(i));
    assert(c.case_wf(j));
    lemma_title_text_injective(
        (i + 1) as nat,
        c.cases[i].metadata.target_account,
        (j + 1) as nat,
        c.cases[j].metadata.target_account,
    );
}

} // verus!
