//! What holds of every state of the engine, and across its calls.
//!
//! The statements are about [`ContractView`], the state as the contracts of
//! [`Contract`](crate::contract::Contract) speak of it: each call's contract
//! says that the state after it is the one that the functions used here give.

use crate::contract::{
    lemma_tokens_distinct, lemma_with_case_wf, ContractView, FIRST_VERSION,
};
use crate::error::ErrorView;
use crate::investigation::{InvestigationStatus, PartialView};
use crate::webhook_mappings::WebhookType;
use vstd::prelude::*;

verus! {

/// One request to open a case.
pub struct StartCall {
    pub target: Seq<char>,
    pub requester: Seq<char>,
    pub deposit: u128,
    pub now: u64,
}

/// One call that may change the state, with what the host supplies for it.
/// The update of a webhook is `None` where its payload did not decode.
pub enum Call {
    Start(StartCall),
    Webhook {
        caller: Seq<char>,
        token: Seq<char>,
        webhook_type: WebhookType,
        update: Option<PartialView>,
        now: u64,
    },
    FailedMint { token: Seq<char>, now: u64 },
    Retry { caller: Seq<char>, token: Seq<char>, now: u64 },
    Migrate { caller: Seq<char> },
}

impl ContractView {
    /// The state after `call`.
    pub open spec fn after(self, call: Call) -> ContractView {
        match call {
            Call::Start(start) => self.after_start(
                start.target,
                start.requester,
                start.deposit,
                start.now,
            ),
            Call::Webhook { caller, token, webhook_type, update, now } => self.after_webhook(
                caller,
                token,
                webhook_type,
                update,
                now,
            ),
            Call::FailedMint { token, now } => self.after_failed_mint(token, now),
            Call::Retry { caller, token, now } => self.after_retry(caller, token, now),
            Call::Migrate { caller } => self.after_migrate(caller),
        }
    }

    /// The state after the calls `calls`, made one after the other.
    pub open spec fn after_all(self, calls: Seq<Call>) -> ContractView
        decreases calls.len(),
    {
        if calls.len() == 0 {
            self
        } else {
            self.after_all(calls.drop_last()).after(calls.last())
        }
    }
}

/// Whether every case of `before` is still a case of `after`, at its place
/// and with its token id, number, subject, requester and date of creation,
/// and the administrator is the same.
pub open spec fn keeps_cases(before: ContractView, after: ContractView) -> bool {
    &&& before.owner_id == after.owner_id
    &&& before.cases.len() <= after.cases.len()
    &&& before.case_number_counter <= after.case_number_counter
    &&& forall|i: int|
        0 <= i < before.cases.len() ==> {
            &&& (#[trigger] after.cases[i]).token_id == before.cases[i].token_id
            &&& after.cases[i].metadata.same_case(before.cases[i].metadata)
        }
}

/// Case numbers are the places in the list of cases, counted from 1, and the
/// counter is the number of the last case: numbers rise strictly, without a
/// gap and without a repeat.
pub proof fn lemma_case_numbers(c: ContractView, i: int, j: int)
    requires
        c.wf(),
        0 <= i < j < c.cases.len(),
    ensures
        c.cases.len() == c.case_number_counter,
        c.cases[i].metadata.case_number == i + 1,
        c.cases[j].metadata.case_number == j + 1,
        c.cases[i].metadata.case_number < c.cases[j].metadata.case_number,
{
    assert(c.case_wf(i));
    assert(c.case_wf(j));
}

/// No two cases share a subject, nor a token id: a subject has at most one
/// case, and a token id names at most one.
pub proof fn lemma_one_case_per_subject(c: ContractView, i: int, j: int)
    requires
        c.wf(),
        0 <= i < c.cases.len(),
        0 <= j < c.cases.len(),
        i != j,
    ensures
        c.cases[i].metadata.target_account != c.cases[j].metadata.target_account,
        c.cases[i].token_id != c.cases[j].token_id,
{
    if i < j {
        assert(c.cases[i].metadata.target_account != c.cases[j].metadata.target_account);
    } else {
        assert(c.cases[j].metadata.target_account != c.cases[i].metadata.target_account);
    }
    if c.cases[i].token_id == c.cases[j].token_id {
        lemma_tokens_distinct(c, i, j);
    }
}

/// The maps of the state agree with each other. A subject's token id leads
/// to metadata about that subject, and to no other subject's; status and
/// metadata are known of the same token ids, and the status map holds the
/// status that the metadata holds; only a known case has a failed mint
/// buffered.
pub proof fn lemma_maps_agree(c: ContractView)
    requires
        c.wf(),
    ensures
        forall|i: int|
            0 <= i < c.cases.len() ==> {
                let case = #[trigger] c.cases[i];
                &&& c.investigated_accounts().contains_key(case.metadata.target_account)
                &&& c.investigated_accounts()[case.metadata.target_account] == case.token_id
                &&& c.investigation_data().contains_key(case.token_id)
                &&& c.investigation_data()[case.token_id] == case.metadata
                &&& c.investigation_status()[case.token_id] == case.metadata.status
                &&& c.failed_mints().contains_key(case.token_id) == case.failed_mint is Some
            },
        forall|account: Seq<char>| #[trigger]
            c.investigated_accounts().contains_key(account) ==> {
                let token = c.investigated_accounts()[account];
                &&& c.investigation_data().contains_key(token)
                &&& c.investigation_data()[token].target_account == account
            },
        forall|a: Seq<char>, b: Seq<char>|
            #![trigger c.investigated_accounts()[a], c.investigated_accounts()[b]]
            c.investigated_accounts().contains_key(a) && c.investigated_accounts().contains_key(b)
                && c.investigated_accounts()[a] == c.investigated_accounts()[b] ==> a == b,
        c.investigation_status().dom() == c.investigation_data().dom(),
        forall|token: Seq<char>| #[trigger]
            c.investigation_data().contains_key(token) ==> c.investigation_status()[token]
                == c.investigation_data()[token].status,
        forall|token: Seq<char>| #[trigger]
            c.failed_mints().contains_key(token) ==> c.investigation_data().contains_key(token)
                && c.failed_mints()[token].same_case(c.investigation_data()[token]),
{
    assert forall|i: int| 0 <= i < c.cases.len() implies {
        let case = #[trigger] c.cases[i];
        &&& c.investigated_accounts().contains_key(case.metadata.target_account)
        &&& c.investigated_accounts()[case.metadata.target_account] == case.token_id
        &&& c.investigation_data().contains_key(case.token_id)
        &&& c.investigation_data()[case.token_id] == case.metadata
        &&& c.investigation_status()[case.token_id] == case.metadata.status
        &&& c.failed_mints().contains_key(case.token_id) == case.failed_mint is Some
    } by {
        let case = c.cases[i];
        assert(c.has_account(case.metadata.target_account));
        assert(c.has_token(case.token_id));
        let by_account = c.account_index(case.metadata.target_account);
        let by_token = c.token_index(case.token_id);
        if by_account != i {
            lemma_one_case_per_subject(c, by_account, i);
        }
        lemma_tokens_distinct(c, by_token, i);
    }
    assert forall|account: Seq<char>| #[trigger]
        c.investigated_accounts().contains_key(account) implies {
        let token = c.investigated_accounts()[account];
        &&& c.investigation_data().contains_key(token)
        &&& c.investigation_data()[token].target_account == account
    } by {
        let i = c.account_index(account);
        assert(c.cases[i].metadata.target_account == account);
    }
    assert forall|a: Seq<char>, b: Seq<char>|
        c.investigated_accounts().contains_key(a) && c.investigated_accounts().contains_key(b)
            && c.investigated_accounts()[a] == c.investigated_accounts()[b] implies a == b by {
        let i = c.account_index(a);
        let j = c.account_index(b);
        lemma_tokens_distinct(c, i, j);
    }
    assert(c.investigation_status().dom() =~= c.investigation_data().dom());
    assert forall|token: Seq<char>| #[trigger]
        c.failed_mints().contains_key(token) implies c.investigation_data().contains_key(token)
        && c.failed_mints()[token].same_case(c.investigation_data()[token]) by {
        assert(c.case_wf(c.token_index(token)));
    }
}

/// A request to open a case keeps the state well formed. It either changes
/// nothing or appends one case, which gets the next number.
pub proof fn lemma_start_keeps_wf(
    c: ContractView,
    target: Seq<char>,
    requester: Seq<char>,
    deposit: u128,
    now: u64,
)
    requires
        c.wf(),
        c.case_number_counter < u64::MAX,
    ensures
        c.after_start(target, requester, deposit, now).wf(),
        c.start_opens(target, deposit) ==> c.after_start(
            target,
            requester,
            deposit,
            now,
        ).case_number_counter == c.case_number_counter + 1 && c.after_start(
            target,
            requester,
            deposit,
            now,
        ).cases.last().metadata.case_number == c.case_number_counter + 1,
        !c.start_opens(target, deposit) ==> c.after_start(target, requester, deposit, now) == c,
{
    let after = c.after_start(target, requester, deposit, now);
    if c.start_opens(target, deposit) {
        assert forall|i: int| 0 <= i < after.cases.len() implies #[trigger] after.case_wf(i) by {
            if i < c.cases.len() {
                assert(c.case_wf(i));
            }
        }
        assert forall|a: int, b: int| 0 <= a < b < after.cases.len() implies (
        #[trigger] after.cases[a]).metadata.target_account != (
        #[trigger] after.cases[b]).metadata.target_account by {
            if b == c.cases.len() {
                if c.cases[a].metadata.target_account == target {
                    assert(c.has_account(target));
                }
            } else {
                assert(c.cases[a].metadata.target_account != c.cases[b].metadata.target_account);
            }
        }
    }
}

/// Once a request to open a case on a subject has been accepted, a second
/// request for the same subject, by whomever and with whatever deposit, is
/// accepted too, answers with the same token id, and changes nothing: the
/// counter stays where it was.
pub proof fn lemma_start_twice(c: ContractView, first: StartCall, second: StartCall)
    requires
        c.wf(),
        c.case_number_counter < u64::MAX,
        c.start_error(first.target, first.deposit) is None,
        second.target == first.target,
    ensures
        ({
            let opened = c.after_start(first.target, first.requester, first.deposit, first.now);
            &&& opened.has_account(first.target)
            &&& opened.start_error(second.target, second.deposit) is None
            &&& opened.start_token(second.target) == c.start_token(first.target)
            &&& opened.after_start(second.target, second.requester, second.deposit, second.now)
                == opened
        }),
{
    let target = first.target;
    let opened = c.after_start(target, first.requester, first.deposit, first.now);
    lemma_start_keeps_wf(c, target, first.requester, first.deposit, first.now);
    if !c.has_account(target) {
        let last = c.cases.len() as int;
        assert(opened.cases[last].metadata.target_account == target);
        assert(opened.has_account(target));
        let found = opened.account_index(target);
        if found != last {
            lemma_one_case_per_subject(opened, found, last);
        }
    }
}

/// Every call keeps the state well formed. It deletes no case and changes no
/// case's token id, number, subject, requester or date of creation; it adds
/// at most one case and raises the counter by at most one.
pub proof fn lemma_call_keeps_wf(c: ContractView, call: Call)
    requires
        c.wf(),
        c.case_number_counter < u64::MAX,
    ensures
        c.after(call).wf(),
        keeps_cases(c, c.after(call)),
        c.after(call).case_number_counter <= c.case_number_counter + 1,
{
    match call {
        Call::Start(start) => {
            lemma_start_keeps_wf(c, start.target, start.requester, start.deposit, start.now);
        },
        Call::Webhook { caller, token, webhook_type, update, now } => {
            if c.webhook_error(caller, token, webhook_type, update) is None {
                let i = c.token_index(token);
                assert(c.case_wf(i));
                lemma_with_case_wf(
                    c,
                    i,
                    c.case_of(token).after_webhook(webhook_type, update.unwrap(), now),
                );
            }
        },
        Call::FailedMint { token, now } => {
            if c.failed_mint_error(token) is None {
                let i = c.token_index(token);
                assert(c.case_wf(i));
                lemma_with_case_wf(c, i, c.case_of(token).after_failed_mint(now));
            }
        },
        Call::Retry { caller, token, now } => {
            if c.retry_error(caller, token) is None {
                let i = c.token_index(token);
                assert(c.case_wf(i));
                lemma_with_case_wf(c, i, c.case_of(token).after_retry(now));
            }
        },
        Call::Migrate { caller } => {
            let after = c.after_migrate(caller);
            assert forall|i: int| 0 <= i < after.cases.len() implies #[trigger] after.case_wf(
                i,
            ) by {
                assert(c.case_wf(i));
            }
        },
    }
}

/// Over any run of calls, the state stays well formed, the cases that were
/// there stay, and each new case gets the number after the last one: the
/// numbers of all cases rise strictly, from 1, with no gap and no repeat.
pub proof fn lemma_numbering_is_monotonic(c: ContractView, calls: Seq<Call>)
    requires
        c.wf(),
        c.case_number_counter + calls.len() <= u64::MAX,
    ensures
        ({
            let end = c.after_all(calls);
            &&& end.wf()
            &&& keeps_cases(c, end)
            &&& end.case_number_counter <= c.case_number_counter + calls.len()
            &&& end.cases.len() == end.case_number_counter
            &&& forall|i: int|
                0 <= i < end.cases.len() ==> (#[trigger] end.cases[i]).metadata.case_number == i
                    + 1
            &&& forall|i: int, j: int|
                0 <= i < j < end.cases.len() ==> (#[trigger] end.cases[i]).metadata.case_number < (
                #[trigger] end.cases[j]).metadata.case_number
        }),
    decreases calls.len(),
{
    let end = c.after_all(calls);
    if calls.len() > 0 {
        let before = c.after_all(calls.drop_last());
        lemma_numbering_is_monotonic(c, calls.drop_last());
        lemma_call_keeps_wf(before, calls.last());
        assert forall|i: int| 0 <= i < c.cases.len() implies {
            &&& (#[trigger] end.cases[i]).token_id == c.cases[i].token_id
            &&& end.cases[i].metadata.same_case(c.cases[i].metadata)
        } by {
            assert(before.cases[i].token_id == c.cases[i].token_id);
        }
    }
    assert forall|i: int| 0 <= i < end.cases.len() implies (
    #[trigger] end.cases[i]).metadata.case_number == i + 1 by {
        assert(end.case_wf(i));
    }
}

/// Every state that a fresh contract can get into is well formed: at any
/// time a subject has at most one case, a token id names at most one, and
/// the case numbers are 1, 2, 3 and so on up to the counter.
pub proof fn lemma_every_state_is_wf(owner_id: Seq<char>, calls: Seq<Call>)
    requires
        calls.len() <= u64::MAX,
    ensures
        ContractView::fresh(owner_id).after_all(calls).wf(),
{
    lemma_numbering_is_monotonic(ContractView::fresh(owner_id), calls);
}

/// An accepted webhook puts the case into the status that the transition
/// table gives for its type, whatever the status was; a `Log` webhook is
/// never accepted and changes nothing.
pub proof fn lemma_webhook_follows_table(
    c: ContractView,
    caller: Seq<char>,
    token: Seq<char>,
    tag: WebhookType,
    update: Option<PartialView>,
    now: u64,
)
    requires
        c.wf(),
    ensures
        ({
            let after = c.after_webhook(caller, token, tag, update, now);
            &&& after.wf()
            &&& tag == WebhookType::Log ==> after == c
            &&& c.webhook_error(caller, token, tag, update) is None ==> after.status_of(token)
                == Some(c.case_of(token).metadata.status.after(tag)) && after.status_of(token)
                != Some(InvestigationStatus::Pending)
            &&& c.webhook_error(caller, token, tag, update) is Some ==> after == c
        }),
{
    if c.webhook_error(caller, token, tag, update) is None {
        let i = c.token_index(token);
        let case = c.case_of(token).after_webhook(tag, update.unwrap(), now);
        let after = c.with_case(i, case);
        assert(c.case_wf(i));
        lemma_with_case_wf(c, i, case);
        assert(after.cases[i].token_id == token);
        lemma_tokens_distinct(after, i, after.token_index(token));
    }
}

/// A webhook that is delivered twice does no harm: applying it a second time,
/// at the same time, leaves the state as the first delivery left it.
pub proof fn lemma_webhook_replay_is_safe(
    c: ContractView,
    caller: Seq<char>,
    token: Seq<char>,
    tag: WebhookType,
    update: Option<PartialView>,
    now: u64,
)
    requires
        c.wf(),
    ensures
        ({
            let once = c.after_webhook(caller, token, tag, update, now);
            once.after_webhook(caller, token, tag, update, now) == once
        }),
{
    if c.webhook_error(caller, token, tag, update) is None {
        let i = c.token_index(token);
        let case = c.case_of(token).after_webhook(tag, update.unwrap(), now);
        let once = c.with_case(i, case);
        assert(c.case_wf(i));
        lemma_with_case_wf(c, i, case);
        assert(once.cases[i].token_id == token);
        lemma_tokens_distinct(once, i, once.token_index(token));
        let twice = once.after_webhook(caller, token, tag, update, now);
        assert(case.after_webhook(tag, update.unwrap(), now) == case);
        assert(twice.cases =~= once.cases);
    }
}

/// A retry works once: after an accepted retry of a token id, a second retry
/// of the same token id finds nothing buffered, is refused with `NotFound`,
/// and changes nothing.
pub proof fn lemma_retry_is_single_use(
    c: ContractView,
    caller: Seq<char>,
    token: Seq<char>,
    now: u64,
    later: u64,
)
    requires
        c.wf(),
        c.retry_error(caller, token) is None,
    ensures
        ({
            let after = c.after_retry(caller, token, now);
            &&& after.wf()
            &&& after.status_of(token) == Some(InvestigationStatus::Pending)
            &&& after.case_of(token).failed_mint is None
            &&& !after.failed_mints().contains_key(token)
            &&& after.retry_error(caller, token) == Some(ErrorView::NotFound)
            &&& after.after_retry(caller, token, later) == after
        }),
{
    let i = c.token_index(token);
    let case = c.case_of(token).after_retry(now);
    let after = c.with_case(i, case);
    assert(c.case_wf(i));
    lemma_with_case_wf(c, i, case);
    assert(after.cases[i].token_id == token);
    lemma_tokens_distinct(after, i, after.token_index(token));
}

/// A failed mint can be retried: once the failure of a case's mint has been
/// recorded, the case is `Failed` and its metadata is buffered; a retry by
/// the administrator is then accepted, puts the metadata back as it was but
/// for status `Pending` and the time, and empties the buffer.
pub proof fn lemma_failed_mint_then_retry(
    c: ContractView,
    token: Seq<char>,
    failed_at: u64,
    retried_at: u64,
)
    requires
        c.wf(),
        c.has_token(token),
    ensures
        ({
            let failed = c.after_failed_mint(token, failed_at);
            let retried = failed.after_retry(c.owner_id, token, retried_at);
            &&& failed.wf()
            &&& failed.status_of(token) == Some(InvestigationStatus::Failed)
            &&& failed.case_of(token).failed_mint == Some(c.case_of(token).metadata)
            &&& failed.failed_mints().contains_key(token)
            &&& failed.failed_mints()[token] == c.case_of(token).metadata
            &&& failed.retry_error(c.owner_id, token) is None
            &&& retried.wf()
            &&& retried.case_of(token).metadata == c.case_of(token).metadata.with_status(
                InvestigationStatus::Pending,
            ).touched(retried_at)
            &&& retried.case_of(token).failed_mint is None
            &&& !retried.failed_mints().contains_key(token)
            &&& retried.investigation_status()[token] == InvestigationStatus::Pending
        }),
{
    let i = c.token_index(token);
    let broken = c.case_of(token).after_failed_mint(failed_at);
    let failed = c.with_case(i, broken);
    assert(c.case_wf(i));
    lemma_with_case_wf(c, i, broken);
    assert(failed.cases[i].token_id == token);
    lemma_tokens_distinct(failed, i, failed.token_index(token));
    let mended = failed.case_of(token).after_retry(retried_at);
    let retried = failed.with_case(i, mended);
    assert(failed.case_wf(i));
    lemma_with_case_wf(failed, i, mended);
    assert(retried.cases[i].token_id == token);
    lemma_tokens_distinct(retried, i, retried.token_index(token));
}

/// A migration happens once: it raises the version by exactly one and keeps
/// the counter and the cases; after it, a second migration is refused with
/// `VersionMismatch`.
pub proof fn lemma_migrate_once(c: ContractView, caller: Seq<char>)
    requires
        c.migrate_error(caller) is None,
    ensures
        ({
            let after = c.after_migrate(caller);
            &&& after.version == c.version + 1
            &&& after.version == FIRST_VERSION + 1
            &&& after.case_number_counter == c.case_number_counter
            &&& after.cases == c.cases
            &&& after.owner_id == c.owner_id
            &&& after.migrate_error(caller) == Some(ErrorView::VersionMismatch)
            &&& after.after_migrate(caller) == after
        }),
{
}

} // verus!
