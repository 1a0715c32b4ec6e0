//! Reading the free-text summary of an analysis.
//!
//! A summary is a run of `key: value` pairs separated by `;`. White space around a
//! key or a value do not count. Each key of a fixed vocabulary routes its
//! value into one field; a pair with any other key is left out, and so is a
//! piece with no `:` in it. Reading never fails.

use crate::investigation::{text_view, PartialMetadata, PartialView};
use crate::text::{
    all_digits, chars_of, decimal_text, decimal_value, find_from, first_index, is_digit,
    lemma_decimal_round_trip, lemma_decimal_text_digits, lemma_extend_grows, lemma_first_index_is,
    lemma_value_from_zero, lemma_value_of_concat, lemma_without_absent, read_digits, same_text,
    slice_string, strip_char, trim_range, trimmed, without,
};
use vstd::prelude::*;

verus! {

/// The token that may stand before the first key of a summary.
pub const BANNER: &'static str = "Summary";

/// What the bot flag holds once the summary has said "Not a Bot".
pub const NOT_A_BOT: &'static str = "false";

/// The word that sends a key outside the vocabulary to the trading field.
pub const TRADING: &'static str = "trading";

/// The fields that a summary can fill.
#[derive(Clone, Copy, Debug, PartialEq, Eq, Structural)]
pub enum SummaryField {
    AccountId,
    Created,
    LastUpdated,
    TransactionCount,
    TotalUsdValue,
    DefiValue,
    NearBalance,
    UsdcBalance,
    NekoBalance,
    IsBot,
    EthAddress,
    TopInteractions,
    NftActivity,
    CrossChain,
    TradingActivity,
}

/// What was read out of a summary. A field is `None` where the summary has no
/// pair for it.
#[derive(Debug)]
pub struct ParsedSummary {
    pub account_id: Option<String>,
    pub created: Option<String>,
    pub last_updated: Option<String>,
    pub transaction_count: Option<String>,
    pub total_usd_value: Option<String>,
    pub defi_value: Option<String>,
    pub near_balance: Option<String>,
    pub usdc_balance: Option<String>,
    pub neko_balance: Option<String>,
    pub is_bot: Option<String>,
    pub eth_address: Option<String>,
    pub top_interactions: Option<String>,
    pub nft_activity: Option<String>,
    pub cross_chain: Option<String>,
    pub trading_activity: Option<String>,
    /// The summary as it came.
    pub raw: String,
}

pub struct SummaryView {
    pub account_id: Option<Seq<char>>,
    pub created: Option<Seq<char>>,
    pub last_updated: Option<Seq<char>>,
    pub transaction_count: Option<Seq<char>>,
    pub total_usd_value: Option<Seq<char>>,
    pub defi_value: Option<Seq<char>>,
    pub near_balance: Option<Seq<char>>,
    pub usdc_balance: Option<Seq<char>>,
    pub neko_balance: Option<Seq<char>>,
    pub is_bot: Option<Seq<char>>,
    pub eth_address: Option<Seq<char>>,
    pub top_interactions: Option<Seq<char>>,
    pub nft_activity: Option<Seq<char>>,
    pub cross_chain: Option<Seq<char>>,
    pub trading_activity: Option<Seq<char>>,
    pub raw: Seq<char>,
}

impl View for ParsedSummary {
    type V = SummaryView;

    open spec fn view(&self) -> SummaryView {
        SummaryView {
            account_id: text_view(self.account_id),
            created: text_view(self.created),
            last_updated: text_view(self.last_updated),
            transaction_count: text_view(self.transaction_count),
            total_usd_value: text_view(self.total_usd_value),
            defi_value: text_view(self.defi_value),
            near_balance: text_view(self.near_balance),
            usdc_balance: text_view(self.usdc_balance),
            neko_balance: text_view(self.neko_balance),
            is_bot: text_view(self.is_bot),
            eth_address: text_view(self.eth_address),
            top_interactions: text_view(self.top_interactions),
            nft_activity: text_view(self.nft_activity),
            cross_chain: text_view(self.cross_chain),
            trading_activity: text_view(self.trading_activity),
            raw: self.raw@,
        }
    }
}

/// The code of `c`, with a capital ASCII letter counted as its small one.
pub open spec fn folded(c: char) -> u32 {
    let n = c as u32;
    if 65 <= n <= 90 {
        (n + 32) as u32
    } else {
        n
    }
}

/// Whether `pattern` stands in `s` at place `at`, letter case aside.
pub open spec fn matches_at(s: Seq<char>, at: int, pattern: Seq<char>) -> bool {
    &&& 0 <= at
    &&& at + pattern.len() <= s.len()
    &&& forall|k: int| 0 <= k < pattern.len() ==> folded(#[trigger] s[at + k]) == folded(pattern[k])
}

/// Whether `pattern` stands somewhere in `s`, letter case aside.
pub open spec fn mentions(s: Seq<char>, pattern: Seq<char>) -> bool {
    exists|at: int| #[trigger] matches_at(s, at, pattern)
}

/// Whether `s` begins with `prefix`.
pub open spec fn begins_with(s: Seq<char>, prefix: Seq<char>) -> bool {
    prefix.len() <= s.len() && s.take(prefix.len() as int) == prefix
}

impl SummaryField {
    /// The field that the key `key` routes to. The keys of the vocabulary
    /// are matched letter for letter. Any other key goes to the trading
    /// field if it mentions [`TRADING`], letter case aside, and nowhere if it
    /// does not.
    pub open spec fn of_key(key: Seq<char>) -> Option<SummaryField> {
        if key == "Account ID"@ {
            Some(SummaryField::AccountId)
        } else if key == "Created"@ {
            Some(SummaryField::Created)
        } else if key == "Last Updated"@ {
            Some(SummaryField::LastUpdated)
        } else if key == "Transaction Count"@ {
            Some(SummaryField::TransactionCount)
        } else if key == "Total USD Value"@ {
            Some(SummaryField::TotalUsdValue)
        } else if key == "DeFi Value"@ {
            Some(SummaryField::DefiValue)
        } else if key == "NEAR Balance"@ {
            Some(SummaryField::NearBalance)
        } else if key == "USDC Balance"@ {
            Some(SummaryField::UsdcBalance)
        } else if key == "NEKO Balance"@ {
            Some(SummaryField::NekoBalance)
        } else if key == "Not a Bot"@ {
            Some(SummaryField::IsBot)
        } else if key == "Ethereum Address"@ {
            Some(SummaryField::EthAddress)
        } else if key == "Top Interactions"@ {
            Some(SummaryField::TopInteractions)
        } else if key == "NFT Activity"@ {
            Some(SummaryField::NftActivity)
        } else if key == "Cross-Chain"@ {
            Some(SummaryField::CrossChain)
        } else if key == "Trading Activity"@ {
            Some(SummaryField::TradingActivity)
        } else if mentions(key, TRADING@) {
            Some(SummaryField::TradingActivity)
        } else {
            None
        }
    }

    /// The field that the key `key` routes to.
    pub fn from_key(key: &str) -> (r: Option<SummaryField>)
        ensures
            r == Self::of_key(key@),
    {
        if same_text(key, "Account ID") {
            Some(SummaryField::AccountId)
        } else if same_text(key, "Created") {
            Some(SummaryField::Created)
        } else if same_text(key, "Last Updated") {
            Some(SummaryField::LastUpdated)
        } else if same_text(key, "Transaction Count") {
            Some(SummaryField::TransactionCount)
        } else if same_text(key, "Total USD Value") {
            Some(SummaryField::TotalUsdValue)
        } else if same_text(key, "DeFi Value") {
            Some(SummaryField::DefiValue)
        } else if same_text(key, "NEAR Balance") {
            Some(SummaryField::NearBalance)
        } else if same_text(key, "USDC Balance") {
            Some(SummaryField::UsdcBalance)
        } else if same_text(key, "NEKO Balance") {
            Some(SummaryField::NekoBalance)
        } else if same_text(key, "Not a Bot") {
            Some(SummaryField::IsBot)
        } else if same_text(key, "Ethereum Address") {
            Some(SummaryField::EthAddress)
        } else if same_text(key, "Top Interactions") {
            Some(SummaryField::TopInteractions)
        } else if same_text(key, "NFT Activity") {
            Some(SummaryField::NftActivity)
        } else if same_text(key, "Cross-Chain") {
            Some(SummaryField::CrossChain)
        } else if same_text(key, "Trading Activity") {
            Some(SummaryField::TradingActivity)
        } else {
            let letters = chars_of(key);
            let pattern = chars_of(TRADING);
            if contains_ignoring_case(&letters, &pattern) {
                Some(SummaryField::TradingActivity)
            } else {
                None
            }
        }
    }
}

fn fold_case(c: char) -> (r: u32)
    ensures
        r == folded(c),
{
    let n = c as u32;
    if 65 <= n && n <= 90 {
        n + 32
    } else {
        n
    }
}

fn matches_here(text: &Vec<char>, at: usize, pattern: &Vec<char>) -> (r: bool)
    requires
        at + pattern.len() <= text.len(),
    ensures
        r == matches_at(text@, at as int, pattern@),
{
    let mut k: usize = 0;
    while k < pattern.len()
        invariant
            k <= pattern.len(),
            at + pattern.len() <= text.len(),
            forall|j: int| 0 <= j < k ==> folded(#[trigger] text@[at + j]) == folded(pattern@[j]),
        decreases pattern.len() - k,
    {
        if fold_case(text[at + k]) != fold_case(pattern[k]) {
            assert(folded(text@[at + k]) != folded(pattern@[k as int]));
            return false;
        }
        k += 1;
    }
    true
}

/// Whether `pattern` stands somewhere in `text`, letter case aside.
pub fn contains_ignoring_case(text: &Vec<char>, pattern: &Vec<char>) -> (r: bool)
    ensures
        r == mentions(text@, pattern@),
{
    if pattern.len() > text.len() {
        return false;
    }
    let last = text.len() - pattern.len();
    let mut at: usize = 0;
    while at <= last
        invariant
            at <= last + 1,
            last + pattern.len() == text.len(),
            forall|k: int| 0 <= k < at ==> !#[trigger] matches_at(text@, k, pattern@),
        decreases last + 1 - at,
    {
        if matches_here(text, at, pattern) {
            return true;
        }
        at += 1;
    }
    false
}

impl SummaryView {
    /// The summary of `raw` before any pair has been read.
    pub open spec fn blank(raw: Seq<char>) -> SummaryView {
        SummaryView {
            account_id: None,
            created: None,
            last_updated: None,
            transaction_count: None,
            total_usd_value: None,
            defi_value: None,
            near_balance: None,
            usdc_balance: None,
            neko_balance: None,
            is_bot: None,
            eth_address: None,
            top_interactions: None,
            nft_activity: None,
            cross_chain: None,
            trading_activity: None,
            raw,
        }
    }

    /// The summary with `value` put into `field`, over what was there. The
    /// bot flag takes no value: it becomes [`NOT_A_BOT`].
    pub open spec fn with(self, field: SummaryField, value: Seq<char>) -> SummaryView {
        match field {
            SummaryField::AccountId => SummaryView { account_id: Some(value), ..self },
            SummaryField::Created => SummaryView { created: Some(value), ..self },
            SummaryField::LastUpdated => SummaryView { last_updated: Some(value), ..self },
            SummaryField::TransactionCount => SummaryView {
                transaction_count: Some(value),
                ..self
            },
            SummaryField::TotalUsdValue => SummaryView { total_usd_value: Some(value), ..self },
            SummaryField::DefiValue => SummaryView { defi_value: Some(value), ..self },
            SummaryField::NearBalance => SummaryView { near_balance: Some(value), ..self },
            SummaryField::UsdcBalance => SummaryView { usdc_balance: Some(value), ..self },
            SummaryField::NekoBalance => SummaryView { neko_balance: Some(value), ..self },
            SummaryField::IsBot => SummaryView { is_bot: Some(NOT_A_BOT@), ..self },
            SummaryField::EthAddress => SummaryView { eth_address: Some(value), ..self },
            SummaryField::TopInteractions => SummaryView { top_interactions: Some(value), ..self },
            SummaryField::NftActivity => SummaryView { nft_activity: Some(value), ..self },
            SummaryField::CrossChain => SummaryView { cross_chain: Some(value), ..self },
            SummaryField::TradingActivity => SummaryView { trading_activity: Some(value), ..self },
        }
    }

    /// The update that the summary amounts to: the amounts as they are
    /// written, the transaction count as a number, and the bot flag, which a
    /// summary can only set to "not a bot".
    pub open spec fn as_update(self) -> PartialView {
        PartialView {
            total_usd_value: self.total_usd_value,
            near_balance: self.near_balance,
            defi_value: self.defi_value,
            transaction_count: match self.transaction_count {
                Some(text) => Some(count_of(text)),
                None => None,
            },
            is_bot: match self.is_bot {
                Some(_) => Some(false),
                None => None,
            },
            ..PartialView::empty()
        }
    }
}

/// The key and the value of a piece of a summary: what stands before its
/// first `:` and what stands after it, each without the white space around it.
/// `None` if the piece has no `:`.
pub open spec fn split_pair(piece: Seq<char>) -> Option<(Seq<char>, Seq<char>)> {
    let colon = first_index(piece, ':');
    if colon < piece.len() {
        Some((trimmed(piece.take(colon)), trimmed(piece.skip(colon + 1))))
    } else {
        None
    }
}

/// `key` without the banner: if it begins with [`BANNER`], what follows,
/// without the white space around it.
pub open spec fn without_banner(key: Seq<char>) -> Seq<char> {
    if begins_with(key, BANNER@) {
        trimmed(key.skip(BANNER@.len() as int))
    } else {
        key
    }
}

/// The summary after one more piece has been read. `first` says whether no
/// pair has been read before: only the first key may carry the banner.
pub open spec fn absorbed(summary: SummaryView, piece: Seq<char>, first: bool) -> SummaryView {
    match split_pair(piece) {
        Some((key, value)) => {
            let key = if first {
                without_banner(key)
            } else {
                key
            };
            match SummaryField::of_key(key) {
                Some(field) => summary.with(field, value),
                None => summary,
            }
        },
        None => summary,
    }
}

/// The summary after all the pieces of `text` have been read, from left to
/// right: a later pair for a field replaces an earlier one.
pub open spec fn absorbed_all(summary: SummaryView, text: Seq<char>, first: bool) -> SummaryView
    decreases text.len(),
{
    let end = first_index(text, ';');
    let piece = text.take(end);
    let next = absorbed(summary, piece, first);
    if 0 <= end < text.len() {
        absorbed_all(next, text.skip(end + 1), first && split_pair(piece) is None)
    } else {
        next
    }
}

/// What reading the summary `text` gives.
pub open spec fn parsed(text: Seq<char>) -> SummaryView {
    absorbed_all(SummaryView::blank(text), text, true)
}

/// Reading keeps the text as it came.
pub proof fn lemma_parse_keeps_raw(text: Seq<char>)
    ensures
        parsed(text).raw == text,
{
    lemma_absorbing_keeps_raw(SummaryView::blank(text), text, true);
}

proof fn lemma_absorbing_keeps_raw(summary: SummaryView, text: Seq<char>, first: bool)
    ensures
        absorbed_all(summary, text, first).raw == summary.raw,
    decreases text.len(),
{
    let end = first_index(text, ';');
    let piece = text.take(end);
    let next = absorbed(summary, piece, first);
    if 0 <= end < text.len() {
        lemma_absorbing_keeps_raw(next, text.skip(end + 1), first && split_pair(piece) is None);
    }
}

/// What is not understood is left out: a piece without a `:`, and a pair
/// whose key routes to no field, leave the summary as it was.
pub proof fn lemma_unknown_key_is_left_out(summary: SummaryView, piece: Seq<char>, first: bool)
    ensures
        split_pair(piece) is None ==> absorbed(summary, piece, first) == summary,
        split_pair(piece) matches Some(pair) ==> {
            let key = if first {
                without_banner(pair.0)
            } else {
                pair.0
            };
            SummaryField::of_key(key) is None ==> absorbed(summary, piece, first) == summary
        },
{
}

/// A pair for one field leaves every other field alone.
pub proof fn lemma_fields_are_independent(
    summary: SummaryView,
    field: SummaryField,
    value: Seq<char>,
)
    ensures
        summary.with(field, value).raw == summary.raw,
        field != SummaryField::AccountId ==> summary.with(field, value).account_id
            == summary.account_id,
        field != SummaryField::Created ==> summary.with(field, value).created == summary.created,
        field != SummaryField::LastUpdated ==> summary.with(field, value).last_updated
            == summary.last_updated,
        field != SummaryField::TransactionCount ==> summary.with(field, value).transaction_count
            == summary.transaction_count,
        field != SummaryField::TotalUsdValue ==> summary.with(field, value).total_usd_value
            == summary.total_usd_value,
        field != SummaryField::DefiValue ==> summary.with(field, value).defi_value
            == summary.defi_value,
        field != SummaryField::NearBalance ==> summary.with(field, value).near_balance
            == summary.near_balance,
        field != SummaryField::UsdcBalance ==> summary.with(field, value).usdc_balance
            == summary.usdc_balance,
        field != SummaryField::NekoBalance ==> summary.with(field, value).neko_balance
            == summary.neko_balance,
        field != SummaryField::IsBot ==> summary.with(field, value).is_bot == summary.is_bot,
        field != SummaryField::EthAddress ==> summary.with(field, value).eth_address
            == summary.eth_address,
        field != SummaryField::TopInteractions ==> summary.with(field, value).top_interactions
            == summary.top_interactions,
        field != SummaryField::NftActivity ==> summary.with(field, value).nft_activity
            == summary.nft_activity,
        field != SummaryField::CrossChain ==> summary.with(field, value).cross_chain
            == summary.cross_chain,
        field != SummaryField::TradingActivity ==> summary.with(field, value).trading_activity
            == summary.trading_activity,
{
}

impl ParsedSummary {
    fn blank(raw: String) -> (r: ParsedSummary)
        ensures
            r@ == SummaryView::blank(raw@),
    {
        ParsedSummary {
            account_id: None,
            created: None,
            last_updated: None,
            transaction_count: None,
            total_usd_value: None,
            defi_value: None,
            near_balance: None,
            usdc_balance: None,
            neko_balance: None,
            is_bot: None,
            eth_address: None,
            top_interactions: None,
            nft_activity: None,
            cross_chain: None,
            trading_activity: None,
            raw,
        }
    }

    /// Puts `value` into `field`, over what was there.
    pub fn set(&mut self, field: SummaryField, value: String)
        ensures
            final(self)@ == old(self)@.with(field, value@),
    {
        match field {
            SummaryField::AccountId => {
                self.account_id = Some(value);
            },
            SummaryField::Created => {
                self.created = Some(value);
            },
            SummaryField::LastUpdated => {
                self.last_updated = Some(value);
            },
            SummaryField::TransactionCount => {
                self.transaction_count = Some(value);
            },
            SummaryField::TotalUsdValue => {
                self.total_usd_value = Some(value);
            },
            SummaryField::DefiValue => {
                self.defi_value = Some(value);
            },
            SummaryField::NearBalance => {
                self.near_balance = Some(value);
            },
            SummaryField::UsdcBalance => {
                self.usdc_balance = Some(value);
            },
            SummaryField::NekoBalance => {
                self.neko_balance = Some(value);
            },
            SummaryField::IsBot => {
                self.is_bot = Some(String::from_str(NOT_A_BOT));
            },
            SummaryField::EthAddress => {
                self.eth_address = Some(value);
            },
            SummaryField::TopInteractions => {
                self.top_interactions = Some(value);
            },
            SummaryField::NftActivity => {
                self.nft_activity = Some(value);
            },
            SummaryField::CrossChain => {
                self.cross_chain = Some(value);
            },
            SummaryField::TradingActivity => {
                self.trading_activity = Some(value);
            },
        }
    }

    /// The transaction count as a number; 0 where the summary has none or
    /// it cannot be read.
    pub fn transactions(&self) -> (r: u64)
        ensures
            r == match self@.transaction_count {
                Some(text) => count_of(text),
                None => 0,
            },
    {
        match &self.transaction_count {
            Some(text) => normalize_count(text.as_str()),
            None => 0,
        }
    }

    /// The total value in USD as a number; zero where the summary has none
    /// or it cannot be read.
    pub fn total_usd(&self) -> (r: Decimal)
        ensures
            r == match self@.total_usd_value {
                Some(text) => currency_of(text),
                None => Decimal::zero(),
            },
    {
        match &self.total_usd_value {
            Some(text) => normalize_currency(text.as_str()),
            None => Decimal { digits: 0, scale: 0 },
        }
    }

    /// The update to merge into a case for this summary.
    pub fn to_update(&self) -> (r: PartialMetadata)
        ensures
            r@ == self@.as_update(),
    {
        PartialMetadata {
            status: None,
            total_usd_value: copy_text(&self.total_usd_value),
            near_balance: copy_text(&self.near_balance),
            defi_value: copy_text(&self.defi_value),
            robust_summary: None,
            short_summary: None,
            transaction_count: match &self.transaction_count {
                Some(text) => Some(normalize_count(text.as_str())),
                None => None,
            },
            is_bot: match &self.is_bot {
                Some(_) => Some(false),
                None => None,
            },
        }
    }
}

fn copy_text(text: &Option<String>) -> (r: Option<String>)
    ensures
        r == *text,
{
    match text {
        Some(s) => Some(s.clone()),
        None => None,
    }
}

fn starts_with(chars: &Vec<char>, from: usize, to: usize, prefix: &Vec<char>) -> (r: bool)
    requires
        from <= to <= chars.len(),
    ensures
        r == begins_with(chars@.subrange(from as int, to as int), prefix@),
{
    if prefix.len() > to - from {
        return false;
    }
    let ghost s = chars@.subrange(from as int, to as int);
    let mut k: usize = 0;
    while k < prefix.len()
        invariant
            k <= prefix.len() <= to - from,
            from <= to <= chars.len(),
            s == chars@.subrange(from as int, to as int),
            forall|j: int| 0 <= j < k ==> chars@[from + j] == prefix@[j],
        decreases prefix.len() - k,
    {
        if chars[from + k] != prefix[k] {
            assert(s.take(prefix.len() as int)[k as int] != prefix@[k as int]);
            return false;
        }
        k += 1;
    }
    assert(s.take(prefix.len() as int) =~= prefix@);
    true
}

fn absorb(
    summary: &mut ParsedSummary,
    text: &str,
    chars: &Vec<char>,
    from: usize,
    to: usize,
    first: bool,
    banner: &Vec<char>,
) -> (is_pair: bool)
    requires
        chars@ == text@,
        banner@ == BANNER@,
        from <= to <= chars.len(),
    ensures
        final(summary)@ == absorbed(old(summary)@, chars@.subrange(from as int, to as int), first),
        is_pair == split_pair(chars@.subrange(from as int, to as int)) is Some,
{
    let ghost piece = chars@.subrange(from as int, to as int);
    let colon = find_from(chars, from, to, ':');
    if colon >= to {
        return false;
    }
    assert(piece.take(colon - from) =~= chars@.subrange(from as int, colon as int));
    assert(piece.skip(colon - from + 1) =~= chars@.subrange(colon + 1, to as int));
    let (key_from, key_to) = trim_range(chars, from, colon);
    let (value_from, value_to) = trim_range(chars, colon + 1, to);
    let (key_from, key_to) = if first && starts_with(chars, key_from, key_to, banner) {
        assert(chars@.subrange(key_from as int, key_to as int).skip(banner@.len() as int)
            =~= chars@.subrange(key_from + banner@.len(), key_to as int));
        trim_range(chars, key_from + banner.len(), key_to)
    } else {
        (key_from, key_to)
    };
    let key = slice_string(text, key_from, key_to);
    match SummaryField::from_key(key.as_str()) {
        Some(field) => {
            let value = slice_string(text, value_from, value_to);
            summary.set(field, value);
        },
        None => {},
    }
    true
}

/// Reads a summary. Every text is read: what is not understood is left out.
pub fn parse_summary(text: &str) -> (r: ParsedSummary)
    ensures
        r@ == parsed(text@),
{
    let chars = chars_of(text);
    let banner = chars_of(BANNER);
    let mut summary = ParsedSummary::blank(text.to_owned());
    let mut pos: usize = 0;
    let mut first = true;
    let mut done = false;
    assert(chars@.skip(0) =~= chars@);
    while !done
        invariant
            chars@ == text@,
            banner@ == BANNER@,
            pos <= chars.len(),
            done ==> summary@ == parsed(text@),
            !done ==> parsed(text@) == absorbed_all(summary@, chars@.skip(pos as int), first),
        decreases chars.len() - pos + (if done { 0int } else { 1int }),
    {
        let ghost rest = chars@.skip(pos as int);
        let end = find_from(&chars, pos, chars.len(), ';');
        assert(chars@.subrange(pos as int, chars.len() as int) =~= rest);
        assert(rest.take(end - pos) =~= chars@.subrange(pos as int, end as int));
        let is_pair = absorb(&mut summary, text, &chars, pos, end, first, &banner);
        if end < chars.len() {
            assert(rest.skip(end - pos + 1) =~= chars@.skip(end + 1));
            pos = end + 1;
            first = first && !is_pair;
        } else {
            done = true;
        }
    }
    summary
}

/// A non-negative decimal number: `digits` with the point `scale` places
/// from the right, so `digits` 567890 at `scale` 2 is 5678.90.
#[derive(Clone, Copy, Debug, PartialEq, Eq, Structural)]
pub struct Decimal {
    pub digits: u128,
    pub scale: u32,
}

impl Decimal {
    /// The number zero, with no place after the point.
    pub open spec fn zero() -> Decimal {
        Decimal { digits: 0, scale: 0 }
    }
}

/// The number that a count stands for. White space around it and thousands
/// separators in it do not count; what is left must be digits, at least one,
/// and fit 64 bits. Anything else stands for 0.
pub open spec fn count_of(text: Seq<char>) -> u64 {
    let t = without(trimmed(text), ',');
    if t.len() > 0 && all_digits(t) && decimal_value(t) <= u64::MAX {
        decimal_value(t) as u64
    } else {
        0
    }
}

/// Whether `c` is a currency symbol that may stand before an amount.
pub open spec fn is_currency_symbol(c: char) -> bool {
    c == '$' || c == '€' || c == '£' || c == '¥'
}

/// `s` without the currency symbol it starts with, if it starts with one.
pub open spec fn without_symbol(s: Seq<char>) -> Seq<char> {
    if s.len() > 0 && is_currency_symbol(s[0]) {
        s.drop_first()
    } else {
        s
    }
}

/// The number that an amount of money stands for. White space around it, one
/// currency symbol before it and thousands separators in it do not count;
/// what is left must be digits with at most one point among them, at least
/// one digit, and fit 128 bits without the point. Anything else stands for
/// zero.
pub open spec fn currency_of(text: Seq<char>) -> Decimal {
    let t = without(without_symbol(trimmed(text)), ',');
    let point = first_index(t, '.');
    let whole = t.take(point);
    let fraction = if 0 <= point < t.len() {
        t.skip(point + 1)
    } else {
        Seq::empty()
    };
    if whole.len() + fraction.len() > 0 && all_digits(whole) && all_digits(fraction)
        && decimal_value(whole + fraction) <= u128::MAX && fraction.len() <= u32::MAX {
        Decimal { digits: decimal_value(whole + fraction) as u128, scale: fraction.len() as u32 }
    } else {
        Decimal::zero()
    }
}

/// A plain numeral is read as the number it writes, as a count and as an
/// amount.
pub proof fn lemma_numeral_is_read(n: nat)
    requires
        n <= u64::MAX,
    ensures
        count_of(decimal_text(n)) == n,
        currency_of(decimal_text(n)) == (Decimal { digits: n as u128, scale: 0 }),
{
    let d = decimal_text(n);
    lemma_decimal_text_digits(n);
    lemma_decimal_round_trip(n);
    assert(is_digit(d[0]));
    assert(is_digit(d.last()));
    assert(trimmed(d) == d);
    assert(without_symbol(d) == d);
    assert forall|i: int| 0 <= i < d.len() implies d[i] != ',' by {
        assert(is_digit(d[i]));
    }
    lemma_without_absent(d, ',');
    assert forall|i: int| 0 <= i < d.len() implies d[i] != '.' by {
        assert(is_digit(d[i]));
    }
    lemma_first_index_is(d, '.', d.len() as int);
    assert(d.take(d.len() as int) =~= d);
    assert(d + Seq::<char>::empty() =~= d);
}

/// Reads a count such as "1,234". What cannot be read counts as 0.
pub fn normalize_count(text: &str) -> (r: u64)
    ensures
        r == count_of(text@),
{
    let chars = chars_of(text);
    let (from, to) = trim_range(&chars, 0, chars.len());
    assert(chars@.subrange(0, chars.len() as int) =~= chars@);
    let digits = strip_char(&chars, from, to, ',');
    if digits.len() == 0 {
        return 0;
    }
    proof {
        assert(digits@.subrange(0, digits.len() as int) =~= digits@);
        lemma_value_from_zero(digits@);
    }
    match read_digits(&digits, 0, digits.len(), 0) {
        Some(value) => if value <= u64::MAX as u128 {
            value as u64
        } else {
            0
        },
        None => 0,
    }
}

fn is_symbol(c: char) -> (r: bool)
    ensures
        r == is_currency_symbol(c),
{
    c == '$' || c == '€' || c == '£' || c == '¥'
}

/// Reads an amount of money such as "$5,678.90". What cannot be read counts
/// as zero.
pub fn normalize_currency(text: &str) -> (r: Decimal)
    ensures
        r == currency_of(text@),
{
    let chars = chars_of(text);
    let (from, to) = trim_range(&chars, 0, chars.len());
    assert(chars@.subrange(0, chars.len() as int) =~= chars@);
    let from = if from < to && is_symbol(chars[from]) {
        assert(chars@.subrange(from as int, to as int).drop_first() =~= chars@.subrange(
            from + 1,
            to as int,
        ));
        from + 1
    } else {
        from
    };
    let t = strip_char(&chars, from, to, ',');
    let point = find_from(&t, 0, t.len(), '.');
    let ghost whole = t@.take(point as int);
    let ghost fraction = if point < t.len() {
        t@.skip(point + 1)
    } else {
        Seq::empty()
    };
    proof {
        assert(t@.subrange(0, t.len() as int) =~= t@);
        assert(t@.subrange(0, point as int) =~= whole);
        lemma_value_from_zero(whole);
        lemma_value_of_concat(whole, fraction);
        lemma_extend_grows(decimal_value(whole), fraction);
    }
    let zero = Decimal { digits: 0, scale: 0 };
    let units = match read_digits(&t, 0, point, 0) {
        Some(units) => units,
        None => {
            return zero;
        },
    };
    if point >= t.len() {
        assert(whole + fraction =~= whole);
        if point == 0 {
            return zero;
        }
        return Decimal { digits: units, scale: 0 };
    }
    assert(t@.subrange(point + 1, t.len() as int) =~= fraction);
    let places = t.len() - point - 1;
    if t.len() == 1 || places > u32::MAX as usize {
        return zero;
    }
    match read_digits(&t, point + 1, t.len(), units) {
        Some(digits) => Decimal { digits, scale: places as u32 },
        None => zero,
    }
}

} // verus!
