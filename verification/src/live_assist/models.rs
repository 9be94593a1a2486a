//! Records of live assist: exchanges, their status and timings, and the
//! profile and identity choices offered while assisting.
use vstd::prelude::*;

verus! {

#[derive(Debug, Clone, Copy, PartialEq, Eq, Structural)]
pub enum AssistDataClass {
    Private,
    Standard,
}

#[derive(Debug, Clone, Copy, PartialEq, Eq, Structural)]
pub enum AssistExchangeKind {
    NewQuestion,
    FollowUp,
}

#[derive(Debug, Clone, Copy, PartialEq, Eq, Structural)]
pub enum AssistExchangeStatus {
    Capturing,
    Transcribing,
    TranscriptOnly,
    Requesting,
    Streaming,
    Complete,
    Interrupted,
    Failed,
}

#[derive(Debug, Clone, Copy, PartialEq, Eq, Structural)]
pub struct AssistTimings {
    pub capture_ms: Option<u64>,
    pub transcription_ms: Option<u64>,
    pub request_to_first_token_ms: Option<u64>,
    pub request_to_complete_ms: Option<u64>,
    pub stop_to_first_delta_ms: Option<u64>,
    pub first_delta_at_unix_ms: Option<u64>,
    pub first_delta_to_paint_ms: Option<u64>,
    pub stop_to_visible_text_ms: Option<u64>,
}

impl Default for AssistTimings {
    fn default() -> (r: AssistTimings)
        ensures
            r.capture_ms is None && r.transcription_ms is None && r.request_to_first_token_ms is None
                && r.request_to_complete_ms is None && r.stop_to_first_delta_ms is None
                && r.first_delta_at_unix_ms is None && r.first_delta_to_paint_ms is None
                && r.stop_to_visible_text_ms is None,
    {
        AssistTimings {
            capture_ms: None,
            transcription_ms: None,
            request_to_first_token_ms: None,
            request_to_complete_ms: None,
            stop_to_first_delta_ms: None,
            first_delta_at_unix_ms: None,
            first_delta_to_paint_ms: None,
            stop_to_visible_text_ms: None,
        }
    }
}

/// One question and its assisted answer.
#[derive(Debug, Clone, PartialEq, Eq)]
pub struct AssistExchange {
    pub id: u128,
    pub ordinal: u32,
    pub kind: AssistExchangeKind,
    pub parent_exchange_id: Option<u128>,
    pub context_generation: u64,
    pub data_class: AssistDataClass,
    pub status: AssistExchangeStatus,
    pub question: String,
    pub answer: String,
    pub answer_word_count: Option<u32>,
    pub answer_format_warnings: Vec<String>,
    pub dismissed_authority_rule_ids: Vec<String>,
    pub detail: String,
    pub detail_status: Option<AssistExchangeStatus>,
    pub detail_truncated: bool,
    pub detail_error: Option<String>,
    pub error: Option<String>,
    pub profile_id: Option<u128>,
    pub profile_version_hash: Option<String>,
    pub playbook_id: Option<u128>,
    pub identity_id: Option<u128>,
    pub identity_version_hash: Option<String>,
    pub generation_id: u64,
    pub build_revision: String,
    pub created_at: String,
    pub timings: AssistTimings,
}

#[derive(Debug, Clone, PartialEq, Eq)]
pub struct AuthorityEvidenceItem {
    pub record_id: u128,
    pub title: String,
    pub label: String,
    pub revision: String,
    pub updated_at: String,
    pub excerpt: Option<String>,
}

#[derive(Debug, Clone, PartialEq, Eq)]
pub struct AssistProfileChoice {
    pub profile_id: u128,
    pub profile_version_hash: String,
    pub profile_name: String,
    pub playbooks: Vec<AssistPlaybookChoice>,
}

#[derive(Debug, Clone, PartialEq, Eq)]
pub struct AssistPlaybookChoice {
    pub id: u128,
    pub name: String,
}

#[derive(Debug, Clone, PartialEq, Eq)]
pub struct AssistIdentityChoice {
    pub identity_id: u128,
    pub identity_version_hash: String,
    pub identity_name: String,
    pub role_title: String,
}

} // verus!
