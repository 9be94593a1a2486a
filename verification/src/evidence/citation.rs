//! Citation envelopes: a pinned reference from derived output to evidence.
use vstd::prelude::*;

verus! {

pub const CITATION_SCHEMA_VERSION: u32 = 1;

pub const CITATION_TEXT_NORMALIZATION: &'static str = "citation-text-v1";

pub const EVIDENCE_RESOLVER_CAPABILITY: &'static str =
    "evidence-resolver-v1/citation-text-v1/audio-segment-boundaries-v1";

#[derive(Debug, Clone, Copy, PartialEq, Eq, Structural)]
pub enum EvidenceArtifactKind {
    Recording,
    Document,
}

#[derive(Debug, Clone, PartialEq, Eq)]
pub struct EvidenceArtifactReference {
    pub id: u128,
    pub kind: EvidenceArtifactKind,
    pub version_hash: String,
}

#[derive(Debug, Clone, PartialEq, Eq)]
pub enum EvidenceLocator {
    AudioTimeline { start_ms: u64, end_ms: u64 },
    DocumentPassage {
        page_index: u64,
        section_path: Vec<String>,
        start_byte: u64,
        end_byte: u64,
    },
}

#[derive(Debug, Clone, PartialEq, Eq)]
pub struct CitationSnapshot {
    pub text: String,
    pub normalization: String,
    pub content_hash: String,
}

#[derive(Debug, Clone, PartialEq, Eq)]
pub struct CitationResolutionProvenance {
    pub transcript_version_hash: String,
    pub segment_ids: Vec<u128>,
}

#[derive(Debug, Clone, PartialEq, Eq)]
pub struct CitationEnvelope {
    pub schema_version: u32,
    pub citation_id: u128,
    pub artifact: EvidenceArtifactReference,
    pub locator: EvidenceLocator,
    pub snapshot: CitationSnapshot,
    pub resolution: CitationResolutionProvenance,
}

#[derive(Debug, Clone, Copy, PartialEq, Eq, Structural)]
pub enum CitationResolutionStatus {
    Verified,
    Superseded,
    EvidenceChanged,
    SourceMissing,
    ArtifactMismatch,
    VersionMissing,
    Unresolvable,
}

/// What is known of the recording a citation points at.
#[derive(Debug, Clone, PartialEq, Eq)]
pub enum RecordingSourceState {
    Available { actual_version_hash: String },
    Missing,
    VersionMissing,
}

} // verus!
