//! Classification of inbound webhook calls.

use crate::text::same_text;
use vstd::prelude::*;

verus! {

/// What an inbound report is about.
#[derive(Clone, Copy, Debug, PartialEq, Eq, Structural)]
pub enum WebhookType {
    Progress,
    Completion,
    Error,
    MetadataReady,
    Log,
}

/// What `str::to_lowercase` makes of a text.
pub uninterp spec fn lowercase_text(text: Seq<char>) -> Seq<char>;

/// `str::to_lowercase`: the lowercase equivalent of `s` as a new string.
/// The result is named, not described: it follows the Unicode case tables.
#[verifier::external_body]
fn lowercase(s: &str) -> (r: String)
    ensures
        r@ == lowercase_text(s@),
{
    s.to_lowercase()
}

impl WebhookType {
    /// The tag that names this type on the wire.
    pub open spec fn tag(self) -> Seq<char> {
        match self {
            WebhookType::Progress => "progress"@,
            WebhookType::Completion => "completion"@,
            WebhookType::Error => "error"@,
            WebhookType::MetadataReady => "metadata_ready"@,
            WebhookType::Log => "log"@,
        }
    }

    /// The type that `tag` names, if it is one of the five tags, letter for letter.
    pub open spec fn of_tag(tag: Seq<char>) -> Option<WebhookType> {
        if tag == "progress"@ {
            Some(WebhookType::Progress)
        } else if tag == "completion"@ {
            Some(WebhookType::Completion)
        } else if tag == "error"@ {
            Some(WebhookType::Error)
        } else if tag == "metadata_ready"@ {
            Some(WebhookType::MetadataReady)
        } else if tag == "log"@ {
            Some(WebhookType::Log)
        } else {
            None
        }
    }

    /// Whether a webhook of this type ends the analysis: it reports the
    /// completion or the error.
    pub open spec fn ends_analysis(self) -> bool {
        self == WebhookType::Completion || self == WebhookType::Error
    }

    /// Whether a webhook of this type carries fields to merge into the case.
    pub open spec fn merges(self) -> bool {
        self == WebhookType::Completion || self == WebhookType::MetadataReady || self
            == WebhookType::Progress
    }

    pub fn as_str(&self) -> (r: &'static str)
        ensures
            r@ == self.tag(),
    {
        match self {
            WebhookType::Progress => "progress",
            WebhookType::Completion => "completion",
            WebhookType::Error => "error",
            WebhookType::MetadataReady => "metadata_ready",
            WebhookType::Log => "log",
        }
    }

    /// Reads a tag that is already in lower case.
    pub fn from_tag(tag: &str) -> (r: Option<Self>)
        ensures
            r == Self::of_tag(tag@),
    {
        if same_text(tag, "progress") {
            Some(WebhookType::Progress)
        } else if same_text(tag, "completion") {
            Some(WebhookType::Completion)
        } else if same_text(tag, "error") {
            Some(WebhookType::Error)
        } else if same_text(tag, "metadata_ready") {
            Some(WebhookType::MetadataReady)
        } else if same_text(tag, "log") {
            Some(WebhookType::Log)
        } else {
            None
        }
    }

    /// Reads a tag in any letter case: the text is put in lower case and then
    /// read by [`WebhookType::from_tag`].
    pub fn from_str(s: &str) -> (r: Option<Self>)
        ensures
            r == Self::of_tag(lowercase_text(s@)),
    {
        let lowered = lowercase(s);
        Self::from_tag(lowered.as_str())
    }

    /// Whether a webhook of this type ends the analysis.
    pub fn is_terminal(&self) -> (r: bool)
        ensures
            r == self.ends_analysis(),
    {
        match self {
            WebhookType::Completion => true,
            WebhookType::Error => true,
            _ => false,
        }
    }

    /// Whether a webhook of this type carries fields to merge into the case.
    pub fn requires_metadata_update(&self) -> (r: bool)
        ensures
            r == self.merges(),
    {
        match self {
            WebhookType::Completion => true,
            WebhookType::MetadataReady => true,
            WebhookType::Progress => true,
            _ => false,
        }
    }
}

/// The five tags are pairwise different, so reading a tag that a type wrote
/// gives that type back.
pub proof fn lemma_tag_round_trip(t: WebhookType)
    ensures
        WebhookType::of_tag(t.tag()) == Some(t),
{
    reveal_strlit("progress");
    reveal_strlit("completion");
    reveal_strlit("error");
    reveal_strlit("metadata_ready");
    reveal_strlit("log");
    assert("progress"@.len() == 8);
    assert("completion"@.len() == 10);
    assert("error"@.len() == 5);
    assert("metadata_ready"@.len() == 14);
    assert("log"@.len() == 3);
}

/// The answer handed back to whoever delivered a webhook.
pub struct WebhookResponse {
    pub success: bool,
    pub message: Option<String>,
}

impl WebhookResponse {
    pub fn success() -> (r: Self)
        ensures
            r.success,
            r.message is None,
    {
        WebhookResponse { success: true, message: None }
    }

    pub fn error(message: String) -> (r: Self)
        ensures
            !r.success,
            r.message == Some(message),
    {
        WebhookResponse { success: false, message: Some(message) }
    }
}

} // verus!
