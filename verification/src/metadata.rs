//! The metadata that the record registry stores with each token.

use crate::investigation::{text_view, InvestigationMetadata, MetadataView};
use crate::text::{
    decimal_string, decimal_text, is_digit, lemma_decimal_round_trip, lemma_decimal_text_digits,
};
use vstd::prelude::*;

verus! {

/// The picture shown for a case record.
pub const DEFAULT_NFT_IMAGE_URL: &'static str =
    "https://gateway.pinata.cloud/ipfs/QmSNycrd5gWH7QAFKBVvKaT58c5S6B1tq9ScHP7thxvLWM";

/// The description of a case that has no summary yet.
pub const IN_PROGRESS: &'static str = "Investigation in progress...";

/// The title of the record for case `case_number` on `account`. It is also the
/// record's token id.
pub open spec fn title_text(case_number: nat, account: Seq<char>) -> Seq<char> {
    "Case File #"@ + decimal_text(case_number) + ": "@ + account
}

/// Writes the title, and token id, of case `case_number` on `account`.
pub fn case_title(case_number: u64, account: &str) -> (r: String)
    ensures
        r@ == title_text(case_number as nat, account@),
{
    let mut title = String::from_str("Case File #");
    let number = decimal_string(case_number);
    title.append(number.as_str());
    title.append(": ");
    title.append(account);
    title
}

/// A title determines the case number and the account it was written for: two
/// cases never share a token id.
pub proof fn lemma_title_text_injective(n1: nat, a1: Seq<char>, n2: nat, a2: Seq<char>)
    requires
        title_text(n1, a1) == title_text(n2, a2),
    ensures
        n1 == n2,
        a1 == a2,
{
    reveal_strlit("Case File #");
    reveal_strlit(": ");
    let head = "Case File #"@;
    let sep = ": "@;
    let d1 = decimal_text(n1);
    let d2 = decimal_text(n2);
    let t1 = title_text(n1, a1);
    let t2 = title_text(n2, a2);
    let l1 = d1.len() as int;
    let l2 = d2.len() as int;
    lemma_decimal_text_digits(n1);
    lemma_decimal_text_digits(n2);
    assert(head.len() == 11);
    assert(sep.len() == 2);
    assert(sep[0] == ':');
    assert(t1[11 + l1] == ':');
    assert(t2[11 + l2] == ':');
    if l1 < l2 {
        assert(t2[11 + l1] == d2[l1]);
        assert(is_digit(d2[l1]));
        assert(false);
    }
    if l2 < l1 {
        assert(t1[11 + l2] == d1[l2]);
        assert(is_digit(d1[l2]));
        assert(false);
    }
    assert forall|k: int| 0 <= k < d1.len() implies d1[k] == d2[k] by {
        assert(t1[11 + k] == d1[k]);
        assert(t2[11 + k] == d2[k]);
    }
    assert(d1 =~= d2);
    lemma_decimal_round_trip(n1);
    lemma_decimal_round_trip(n2);
    assert forall|k: int| 0 <= k < a1.len() implies k < a2.len() && a1[k] == a2[k] by {
        assert(t1[13 + l1 + k] == a1[k]);
        assert(t1.len() == 13 + l1 + a1.len());
        assert(t2.len() == 13 + l2 + a2.len());
        assert(t2[13 + l2 + k] == a2[k]);
    }
    assert(t1.len() == 13 + l1 + a1.len());
    assert(t2.len() == 13 + l2 + a2.len());
    assert(a1 =~= a2);
}

/// Token metadata in the shape of the token standard. Times are decimal
/// numerals of nanoseconds.
#[derive(Debug)]
pub struct TokenMetadata {
    pub title: Option<String>,
    pub description: Option<String>,
    pub media: Option<String>,
    pub media_hash: Option<Vec<u8>>,
    pub copies: Option<u64>,
    pub issued_at: Option<String>,
    pub expires_at: Option<String>,
    pub starts_at: Option<String>,
    pub updated_at: Option<String>,
    pub extra: Option<String>,
    pub reference: Option<String>,
    pub reference_hash: Option<Vec<u8>>,
}

pub struct TokenMetadataView {
    pub title: Option<Seq<char>>,
    pub description: Option<Seq<char>>,
    pub media: Option<Seq<char>>,
    pub media_hash: Option<Seq<u8>>,
    pub copies: Option<u64>,
    pub issued_at: Option<Seq<char>>,
    pub expires_at: Option<Seq<char>>,
    pub starts_at: Option<Seq<char>>,
    pub updated_at: Option<Seq<char>>,
    pub extra: Option<Seq<char>>,
    pub reference: Option<Seq<char>>,
    pub reference_hash: Option<Seq<u8>>,
}

/// The bytes of an optional hash.
pub open spec fn bytes_view(bytes: Option<Vec<u8>>) -> Option<Seq<u8>> {
    match bytes {
        Some(b) => Some(b@),
        None => None,
    }
}

impl View for TokenMetadata {
    type V = TokenMetadataView;

    open spec fn view(&self) -> TokenMetadataView {
        TokenMetadataView {
            title: text_view(self.title),
            description: text_view(self.description),
            media: text_view(self.media),
            media_hash: bytes_view(self.media_hash),
            copies: self.copies,
            issued_at: text_view(self.issued_at),
            expires_at: text_view(self.expires_at),
            starts_at: text_view(self.starts_at),
            updated_at: text_view(self.updated_at),
            extra: text_view(self.extra),
            reference: text_view(self.reference),
            reference_hash: bytes_view(self.reference_hash),
        }
    }
}

impl TokenMetadataView {
    /// Token metadata with no field set.
    pub open spec fn blank() -> TokenMetadataView {
        TokenMetadataView {
            title: None,
            description: None,
            media: None,
            media_hash: None,
            copies: None,
            issued_at: None,
            expires_at: None,
            starts_at: None,
            updated_at: None,
            extra: None,
            reference: None,
            reference_hash: None,
        }
    }

    /// The token metadata of the record for the case `m`, written at time
    /// `now`: titled after the case, described by its summary if it has one,
    /// one copy, issued and updated at `now`. `extra` is left for the host,
    /// which puts the serialised case there.
    pub open spec fn for_case(m: MetadataView, now: u64) -> TokenMetadataView {
        TokenMetadataView {
            title: Some(title_text(m.case_number as nat, m.target_account)),
            description: Some(
                match m.summary() {
                    Some(s) => s,
                    None => IN_PROGRESS@,
                },
            ),
            media: Some(DEFAULT_NFT_IMAGE_URL@),
            copies: Some(1),
            issued_at: Some(decimal_text(now as nat)),
            updated_at: Some(decimal_text(now as nat)),
            ..TokenMetadataView::blank()
        }
    }
}

/// The token metadata of the record for `investigation`, written at time
/// `now`.
pub fn create_token_metadata(investigation: &InvestigationMetadata, now: u64) -> (r: TokenMetadata)
    ensures
        r@ == TokenMetadataView::for_case(investigation@, now),
{
    let description = match investigation.summary() {
        Some(s) => s,
        None => String::from_str(IN_PROGRESS),
    };
    TokenMetadata {
        title: Some(case_title(investigation.case_number, investigation.target_account.as_str())),
        description: Some(description),
        media: Some(String::from_str(DEFAULT_NFT_IMAGE_URL)),
        media_hash: None,
        copies: Some(1),
        issued_at: Some(decimal_string(now)),
        expires_at: None,
        starts_at: None,
        updated_at: Some(decimal_string(now)),
        extra: None,
        reference: None,
        reference_hash: None,
    }
}

/// An update to a token's metadata as a webhook delivers it: a new
/// description, if any, and the JSON text for `extra`.
#[derive(Debug)]
pub struct MetadataUpdate {
    pub description: Option<String>,
    pub extra: String,
}

impl MetadataUpdate {
    /// The token metadata that this update amounts to at time `now`: the
    /// description and `extra` of the update, `updated_at` set, nothing else.
    /// It never fails.
    pub fn to_token_metadata(&self, now: u64) -> (r: Result<TokenMetadata, String>)
        ensures
            r matches Ok(t) && t@ == (TokenMetadataView {
                description: text_view(self.description),
                updated_at: Some(decimal_text(now as nat)),
                extra: Some(self.extra@),
                ..TokenMetadataView::blank()
            }),
    {
        let description = match &self.description {
            Some(d) => Some(d.clone()),
            None => None,
        };
        Ok(
            TokenMetadata {
                title: None,
                description,
                media: None,
                media_hash: None,
                copies: None,
                issued_at: None,
                expires_at: None,
                starts_at: None,
                updated_at: Some(decimal_string(now)),
                extra: Some(self.extra.clone()),
                reference: None,
                reference_hash: None,
            },
        )
    }
}

} // verus!
