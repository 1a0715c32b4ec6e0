//! Bounded pages over the list of cases.

use crate::contract::{records_view, CaseRecord, CaseView};
use crate::investigation::InvestigationStatus;
use crate::text::same_text;
use vstd::prelude::*;

verus! {

/// The largest page that a query hands out.
pub const MAX_LIMIT: u64 = 100;

/// The size of the page that a query asking for `limit` gets: what it asks
/// for, but no more than [`MAX_LIMIT`], and [`MAX_LIMIT`] if it does not say.
pub open spec fn effective_limit(limit: Option<u64>) -> u64 {
    match limit {
        Some(n) => if n < MAX_LIMIT {
            n
        } else {
            MAX_LIMIT
        },
        None => MAX_LIMIT,
    }
}

/// The size of the page that a query asking for `limit` gets.
pub fn page_limit(limit: Option<u64>) -> (r: u64)
    ensures
        r == effective_limit(limit),
        r <= MAX_LIMIT,
{
    match limit {
        Some(n) => if n < MAX_LIMIT {
            n
        } else {
            MAX_LIMIT
        },
        None => MAX_LIMIT,
    }
}

/// Where the page that starts at `from_index` begins in a list of `len`
/// entries: at `from_index`, at the start if none is given, at the end if it
/// lies beyond.
pub open spec fn page_start(len: nat, from_index: Option<u128>) -> int {
    match from_index {
        Some(n) => if n < len {
            n as int
        } else {
            len as int
        },
        None => 0,
    }
}

/// Where that page ends: after [`effective_limit`] entries, or at the end of
/// the list if that comes first.
pub open spec fn page_end(len: nat, from_index: Option<u128>, limit: Option<u64>) -> int {
    let stop = page_start(len, from_index) + effective_limit(limit);
    if stop < len {
        stop
    } else {
        len as int
    }
}

/// The page of `all` that starts at `from_index` and holds at most `limit`
/// entries, in the order of `all`.
pub open spec fn page_of<T>(all: Seq<T>, from_index: Option<u128>, limit: Option<u64>) -> Seq<T> {
    all.subrange(page_start(all.len(), from_index), page_end(all.len(), from_index, limit))
}

/// Whether a case is on `account`.
pub open spec fn on_account(account: Seq<char>) -> spec_fn(CaseView) -> bool {
    |c: CaseView| c.metadata.target_account == account
}

/// Whether a case is in `status`.
pub open spec fn in_status(status: InvestigationStatus) -> spec_fn(CaseView) -> bool {
    |c: CaseView| c.metadata.status == status
}

/// A page is never longer than [`MAX_LIMIT`].
pub proof fn lemma_page_is_bounded<T>(all: Seq<T>, from_index: Option<u128>, limit: Option<u64>)
    ensures
        page_of(all, from_index, limit).len() <= effective_limit(limit) <= MAX_LIMIT,
{
}

/// Copies out one page of `all`.
pub fn page(all: &Vec<CaseRecord>, from_index: Option<u128>, limit: Option<u64>) -> (r: Vec<
    CaseRecord,
>)
    ensures
        records_view(r@) == page_of(records_view(all@), from_index, limit),
        r@.len() <= MAX_LIMIT,
{
    let len = all.len();
    let start: usize = match from_index {
        Some(n) => if n < len as u128 {
            n as usize
        } else {
            len
        },
        None => 0,
    };
    let size = page_limit(limit);
    let end: usize = if size < (len - start) as u64 {
        start + size as usize
    } else {
        len
    };
    let mut out: Vec<CaseRecord> = Vec::new();
    let mut i = start;
    while i < end
        invariant
            start <= i <= end <= all.len(),
            records_view(out@) == records_view(all@).subrange(start as int, i as int),
        decreases end - i,
    {
        let ghost copied = records_view(out@);
        out.push(all[i].clone());
        assert(records_view(out@) =~= copied.push(all[i as int]@));
        assert(copied.push(all[i as int]@) =~= records_view(all@).subrange(start as int, i + 1));
        i += 1;
    }
    assert(records_view(out@).len() == out@.len());
    out
}

/// Copies out the cases on `account`, in order.
pub fn select_account(all: &Vec<CaseRecord>, account: &str) -> (r: Vec<CaseRecord>)
    ensures
        records_view(r@) == records_view(all@).filter(on_account(account@)),
{
    let mut out: Vec<CaseRecord> = Vec::new();
    let mut i: usize = 0;
    assert(records_view(all@).take(0) =~= Seq::empty());
    assert(records_view(out@) =~= Seq::empty());
    proof {
        reveal(Seq::filter);
    }
    while i < all.len()
        invariant
            i <= all.len(),
            records_view(out@) == records_view(all@).take(i as int).filter(on_account(account@)),
        decreases all.len() - i,
    {
        let ghost seen = records_view(all@).take(i as int);
        let ghost next = records_view(all@)[i as int];
        proof {
            seen.lemma_filter_push(next, on_account(account@));
            assert(records_view(all@).take(i + 1) =~= seen.push(next));
        }
        if same_text(all[i].metadata.target_account.as_str(), account) {
            let ghost copied = records_view(out@);
            out.push(all[i].clone());
            assert(records_view(out@) =~= copied.push(next));
        }
        i += 1;
    }
    assert(records_view(all@).take(all.len() as int) =~= records_view(all@));
    out
}

/// Copies out the cases in `status`, in order.
pub fn select_status(all: &Vec<CaseRecord>, status: InvestigationStatus) -> (r: Vec<CaseRecord>)
    ensures
        records_view(r@) == records_view(all@).filter(in_status(status)),
{
    let mut out: Vec<CaseRecord> = Vec::new();
    let mut i: usize = 0;
    assert(records_view(all@).take(0) =~= Seq::empty());
    assert(records_view(out@) =~= Seq::empty());
    proof {
        reveal(Seq::filter);
    }
    while i < all.len()
        invariant
            i <= all.len(),
            records_view(out@) == records_view(all@).take(i as int).filter(in_status(status)),
        decreases all.len() - i,
    {
        let ghost seen = records_view(all@).take(i as int);
        let ghost next = records_view(all@)[i as int];
        proof {
            seen.lemma_filter_push(next, in_status(status));
            assert(records_view(all@).take(i + 1) =~= seen.push(next));
        }
        if all[i].metadata.status == status {
            let ghost copied = records_view(out@);
            out.push(all[i].clone());
            assert(records_view(out@) =~= copied.push(next));
        }
        i += 1;
    }
    assert(records_view(all@).take(all.len() as int) =~= records_view(all@));
    out
}

} // verus!
