//! Provenance of derived artifacts: which citations may be stored, when a
//! stored citation is still intact, and which derived artifacts a new
//! transcript version invalidates, and why.
use vstd::prelude::*;

use crate::ids;

use crate::canonical;
use crate::canonical::write_uuid_text;
use crate::digest;
use crate::digest::hash_with_domain;
use crate::expert_profiles::hashing::HashError;
use crate::text::{str_eq, string_from};
use vstd::utf8;

use super::citation::{
    CitationEnvelope, CitationResolutionStatus, EvidenceLocator, RecordingSourceState,
};
use super::models::TranscriptVersionContent;
use super::repository::{EvidenceRepositoryError, StoredTranscriptVersion};
use super::resolver;
use super::resolver::{
    build_audio_citation_for_interval, canonical_envelope_payload, hash_citation_envelope,
    resolve_current_citation,
};

verus! {

pub const DERIVED_ARTIFACT_HASH_DOMAIN: &'static str = "meeting-assistant-derived-artifact-v1\0";

#[derive(Debug, Clone, Copy, PartialEq, Eq, Structural)]
pub enum DerivedArtifactKind {
    Summary,
    Intelligence,
}

impl DerivedArtifactKind {
    pub fn as_db_str(self) -> (r: &'static str)
        ensures
            r@ == (match self {
                DerivedArtifactKind::Summary => "summary"@,
                DerivedArtifactKind::Intelligence => "intelligence"@,
            }),
    {
        match self {
            DerivedArtifactKind::Summary => "summary",
            DerivedArtifactKind::Intelligence => "intelligence",
        }
    }
}

#[derive(Debug, Clone, Copy, PartialEq, Eq, Structural)]
pub enum CitationRole {
    Supporting,
    Context,
}

impl CitationRole {
    pub fn as_db_str(self) -> (r: &'static str)
        ensures
            r@ == (match self {
                CitationRole::Supporting => "supporting"@,
                CitationRole::Context => "context"@,
            }),
    {
        match self {
            CitationRole::Supporting => "supporting",
            CitationRole::Context => "context",
        }
    }
}

#[derive(Debug, Clone, PartialEq, Eq)]
pub struct DerivedArtifactSpec {
    pub id: u128,
    pub version_hash: String,
    pub meeting_id: String,
    pub kind: DerivedArtifactKind,
    pub content_payload: Vec<u8>,
}

#[derive(Debug, Clone, Copy, PartialEq, Eq, Structural)]
pub struct CitationDependency {
    pub citation_id: u128,
    pub role: CitationRole,
}

#[derive(Debug, Clone, PartialEq, Eq)]
pub struct StoredEvidenceCitation {
    pub id: String,
    pub citation_digest: String,
    pub recording_artifact_id: String,
    pub recording_version_hash: String,
    pub transcript_version_hash: String,
    pub locator_type: String,
    pub created_at: String,
}

/// A stored citation as read back, with its canonical envelope payload.
#[derive(Debug, Clone, PartialEq, Eq)]
pub struct StoredCitationRow {
    pub id: String,
    pub citation_digest: String,
    pub recording_artifact_id: String,
    pub recording_version_hash: String,
    pub transcript_version_hash: String,
    pub locator_type: String,
    pub envelope_payload: Vec<u8>,
    pub created_at: String,
}

#[derive(Debug, Clone, PartialEq, Eq)]
pub struct TranscriptInstallOutcome {
    pub transcript: StoredTranscriptVersion,
    pub invalidations_created: u64,
}

#[derive(Debug, Clone, PartialEq, Eq)]
pub enum ProvenanceRepositoryError {
    Evidence(EvidenceRepositoryError),
    Hash(HashError),
    /// A failure of the database or of reading stored JSON, with its message.
    Database(String),
    CitationNotVerified,
    CitationIntegrity,
    DerivedArtifactIntegrity,
    MeetingNotFound(String),
    CitationNotFound(u128),
}

/// A citation ready to be stored: its identity digest, its canonical
/// payload and the name of its locator.
#[derive(Debug, Clone, PartialEq, Eq)]
pub struct PreparedCitation {
    pub digest: String,
    pub payload: Vec<u8>,
    pub locator_type: &'static str,
}

/// Why a derived artifact stops being trustworthy after a new transcript
/// version is installed, with the span digests before and after.
#[derive(Debug, Clone, PartialEq, Eq)]
pub struct Invalidation {
    pub reason: &'static str,
    pub old_span_hash: String,
    pub new_span_hash: Option<String>,
}

/// The provenance store; its operations are the steps below.
pub struct ProvenanceRepository;

pub open spec fn derived_artifact_digest(payload: Seq<u8>) -> Seq<char> {
    digest::domain_digest(utf8::encode_utf8(DERIVED_ARTIFACT_HASH_DOMAIN@), payload)
}

/// The version digest of a derived artifact's content.
pub fn hash_derived_artifact_payload(payload: &[u8]) -> (r: String)
    ensures
        r@ == derived_artifact_digest(payload@),
        digest::is_sha256_digest(r@),
{
    hash_with_domain(DERIVED_ARTIFACT_HASH_DOMAIN, payload)
}

pub open spec fn locator_type_name(l: EvidenceLocator) -> Seq<char> {
    match l {
        EvidenceLocator::AudioTimeline { .. } => "audio_timeline"@,
        EvidenceLocator::DocumentPassage { .. } => "document_passage"@,
    }
}

pub fn locator_type(l: &EvidenceLocator) -> (r: &'static str)
    ensures
        r@ == locator_type_name(*l),
{
    match l {
        EvidenceLocator::AudioTimeline { .. } => "audio_timeline",
        EvidenceLocator::DocumentPassage { .. } => "document_passage",
    }
}

/// The reason to record for a citation that no longer verifies, if any:
/// only changed evidence, a missing version and an unresolvable citation
/// invalidate what was derived from it.
pub open spec fn invalidation_reason_name(s: CitationResolutionStatus) -> Option<Seq<char>> {
    match s {
        CitationResolutionStatus::EvidenceChanged => Some("evidence_changed"@),
        CitationResolutionStatus::VersionMissing => Some("version_missing"@),
        CitationResolutionStatus::Unresolvable => Some("unresolvable"@),
        _ => None,
    }
}

pub fn invalidation_reason(s: CitationResolutionStatus) -> (r: Option<&'static str>)
    ensures
        match invalidation_reason_name(s) {
            Some(n) => r matches Some(x) && x@ == n,
            None => r is None,
        },
{
    match s {
        CitationResolutionStatus::EvidenceChanged => Some("evidence_changed"),
        CitationResolutionStatus::VersionMissing => Some("version_missing"),
        CitationResolutionStatus::Unresolvable => Some("unresolvable"),
        _ => None,
    }
}

/// A stored citation row agrees with the envelope parsed from its payload.
pub open spec fn citation_row_agrees(row: StoredCitationRow, c: CitationEnvelope, digest: Seq<char>) -> bool {
    &&& digest == row.citation_digest@
    &&& canonical::uuid_text(c.citation_id) == row.id@
    &&& canonical::uuid_text(c.artifact.id) == row.recording_artifact_id@
    &&& c.artifact.version_hash@ == row.recording_version_hash@
    &&& c.resolution.transcript_version_hash@ == row.transcript_version_hash@
}

pub open spec fn stored_citation_of(row: StoredCitationRow) -> StoredEvidenceCitation {
    StoredEvidenceCitation {
        id: row.id,
        citation_digest: row.citation_digest,
        recording_artifact_id: row.recording_artifact_id,
        recording_version_hash: row.recording_version_hash,
        transcript_version_hash: row.transcript_version_hash,
        locator_type: row.locator_type,
        created_at: row.created_at,
    }
}

fn uuid_string(id: u128) -> (r: String)
    ensures
        r@ == canonical::uuid_text(id),
{
    let mut out = String::new();
    write_uuid_text(&mut out, id);
    proof {
        assert(out@ =~= canonical::uuid_text(id));
    }
    out
}


impl StoredCitationRow {
    /// The public record of this row, without its payload.
    pub fn public(&self) -> (r: StoredEvidenceCitation)
        ensures
            r == stored_citation_of(*self),
    {
        StoredEvidenceCitation {
            id: self.id.clone(),
            citation_digest: self.citation_digest.clone(),
            recording_artifact_id: self.recording_artifact_id.clone(),
            recording_version_hash: self.recording_version_hash.clone(),
            transcript_version_hash: self.transcript_version_hash.clone(),
            locator_type: self.locator_type.clone(),
            created_at: self.created_at.clone(),
        }
    }
}

impl ProvenanceRepository {
    /// A citation may be stored only once it verifies against the current
    /// recording and transcript; then its digest, payload and locator name
    /// are computed.
    pub fn prepare_verified_citation(
        citation: &CitationEnvelope,
        recording_duration_ms: u64,
        source_state: &RecordingSourceState,
        pinned_transcript: &TranscriptVersionContent,
        active_transcript: &TranscriptVersionContent,
    ) -> (r: Result<PreparedCitation, ProvenanceRepositoryError>)
        ensures
            resolver::current_status(
                *citation,
                recording_duration_ms,
                *source_state,
                Some(*pinned_transcript),
                Some(*active_transcript),
            ) != CitationResolutionStatus::Verified ==> r == Err::<
                PreparedCitation,
                ProvenanceRepositoryError,
            >(ProvenanceRepositoryError::CitationNotVerified),
            resolver::current_status(
                *citation,
                recording_duration_ms,
                *source_state,
                Some(*pinned_transcript),
                Some(*active_transcript),
            ) == CitationResolutionStatus::Verified ==> match resolver::envelope_hash_rule(
                *citation,
            ) {
                Err(p) => r matches Err(
                    ProvenanceRepositoryError::Hash(HashError::UnsafeInteger { path }),
                ) && path@ == p,
                Ok(d) => r matches Ok(prepared) && prepared.digest@ == d
                    && resolver::envelope_payload_rule(*citation) == Ok::<Seq<u8>, Seq<char>>(
                    prepared.payload@,
                ) && prepared.locator_type@ == locator_type_name(citation.locator),
            },
    {
        let status = resolve_current_citation(
            citation,
            recording_duration_ms,
            source_state,
            Some(pinned_transcript),
            Some(active_transcript),
        );
        if status != CitationResolutionStatus::Verified {
            return Err(ProvenanceRepositoryError::CitationNotVerified);
        }
        let digest = match hash_citation_envelope(citation) {
            Ok(d) => d,
            Err(e) => {
                return Err(ProvenanceRepositoryError::Hash(e));
            },
        };
        let payload = match canonical_envelope_payload(citation) {
            Ok(p) => p,
            Err(e) => {
                return Err(ProvenanceRepositoryError::Hash(e));
            },
        };
        Ok(PreparedCitation { digest, payload, locator_type: locator_type(&citation.locator) })
    }

    /// The record of a newly stored citation.
    pub fn new_citation_record(citation: &CitationEnvelope, prepared: &PreparedCitation, now: String) -> (r:
        StoredEvidenceCitation)
        ensures
            r.id@ == canonical::uuid_text(citation.citation_id),
            r.citation_digest == prepared.digest,
            r.recording_artifact_id@ == canonical::uuid_text(citation.artifact.id),
            r.recording_version_hash == citation.artifact.version_hash,
            r.transcript_version_hash == citation.resolution.transcript_version_hash,
            r.locator_type@ == prepared.locator_type@,
            r.created_at == now,
    {
        StoredEvidenceCitation {
            id: uuid_string(citation.citation_id),
            citation_digest: prepared.digest.clone(),
            recording_artifact_id: uuid_string(citation.artifact.id),
            recording_version_hash: citation.artifact.version_hash.clone(),
            transcript_version_hash: citation.resolution.transcript_version_hash.clone(),
            locator_type: string_from(prepared.locator_type),
            created_at: now,
        }
    }

    /// Checks a stored citation row against the envelope parsed from its
    /// payload: the envelope must hash to the row's digest and agree with
    /// its id, recording and transcript columns.
    pub fn verify_citation_row(row: &StoredCitationRow, citation: &CitationEnvelope) -> (r: Result<
        (),
        ProvenanceRepositoryError,
    >)
        ensures
            match resolver::envelope_hash_rule(*citation) {
                Err(p) => r matches Err(
                    ProvenanceRepositoryError::Hash(HashError::UnsafeInteger { path }),
                ) && path@ == p,
                Ok(d) => if citation_row_agrees(*row, *citation, d) {
                    r is Ok
                } else {
                    r == Err::<(), ProvenanceRepositoryError>(
                        ProvenanceRepositoryError::CitationIntegrity,
                    )
                },
            },
    {
        let digest = match hash_citation_envelope(citation) {
            Ok(d) => d,
            Err(e) => {
                return Err(ProvenanceRepositoryError::Hash(e));
            },
        };
        let id = uuid_string(citation.citation_id);
        let artifact_id = uuid_string(citation.artifact.id);
        if !str_eq(digest.as_str(), row.citation_digest.as_str()) || !str_eq(
            id.as_str(),
            row.id.as_str(),
        ) || !str_eq(artifact_id.as_str(), row.recording_artifact_id.as_str()) || !str_eq(
            citation.artifact.version_hash.as_str(),
            row.recording_version_hash.as_str(),
        ) || !str_eq(
            citation.resolution.transcript_version_hash.as_str(),
            row.transcript_version_hash.as_str(),
        ) {
            return Err(ProvenanceRepositoryError::CitationIntegrity);
        }
        Ok(())
    }

    /// A derived artifact may be registered only when its content hashes to
    /// the version digest it claims.
    pub fn check_derived_artifact(artifact: &DerivedArtifactSpec) -> (r: Result<
        (),
        ProvenanceRepositoryError,
    >)
        ensures
            derived_artifact_digest(artifact.content_payload@) == artifact.version_hash@ <==> r is Ok,
            r is Err ==> r == Err::<(), ProvenanceRepositoryError>(
                ProvenanceRepositoryError::DerivedArtifactIntegrity,
            ),
    {
        let digest = hash_derived_artifact_payload(artifact.content_payload.as_slice());
        if !str_eq(digest.as_str(), artifact.version_hash.as_str()) {
            return Err(ProvenanceRepositoryError::DerivedArtifactIntegrity);
        }
        Ok(())
    }

    /// The duration read back from the store: a negative value counts as zero.
    pub fn stored_duration(duration_ms: i64) -> (r: u64)
        ensures
            r == if duration_ms < 0 {
                0
            } else {
                duration_ms as u64
            },
    {
        if duration_ms < 0 {
            0
        } else {
            duration_ms as u64
        }
    }

    /// Decides, for one citation that a derived artifact depends on, whether
    /// installing `content` invalidates it.  The stored envelope must still
    /// hash to its digest; then it is resolved against the pinned transcript
    /// and the new one, on the recording version that `content` interprets.
    /// A verified or merely superseded citation invalidates nothing.
    pub fn invalidation_for(
        citation: &CitationEnvelope,
        stored_digest: &str,
        pinned: &TranscriptVersionContent,
        content: &TranscriptVersionContent,
        duration_ms: u64,
    ) -> (r: Result<Option<Invalidation>, ProvenanceRepositoryError>)
        ensures
            match resolver::envelope_hash_rule(*citation) {
                Err(p) => r matches Err(
                    ProvenanceRepositoryError::Hash(HashError::UnsafeInteger { path }),
                ) && path@ == p,
                Ok(d) => if d != stored_digest@ {
                    r == Err::<Option<Invalidation>, ProvenanceRepositoryError>(
                        ProvenanceRepositoryError::CitationIntegrity,
                    )
                } else {
                    let status = resolver::current_status(
                        *citation,
                        duration_ms,
                        RecordingSourceState::Available {
                            actual_version_hash: content.recording_version_hash,
                        },
                        Some(*pinned),
                        Some(*content),
                    );
                    match invalidation_reason_name(status) {
                        None => r == Ok::<Option<Invalidation>, ProvenanceRepositoryError>(None),
                        Some(reason) => r matches Ok(Some(inv)) && inv.reason@ == reason
                            && inv.old_span_hash == citation.snapshot.content_hash && (
                        citation.locator is DocumentPassage ==> inv.new_span_hash is None),
                    }
                },
            },
    {
        let digest = match hash_citation_envelope(citation) {
            Ok(d) => d,
            Err(e) => {
                return Err(ProvenanceRepositoryError::Hash(e));
            },
        };
        if !str_eq(digest.as_str(), stored_digest) {
            return Err(ProvenanceRepositoryError::CitationIntegrity);
        }
        let source_state = RecordingSourceState::Available {
            actual_version_hash: content.recording_version_hash.clone(),
        };
        let status = resolve_current_citation(
            citation,
            duration_ms,
            &source_state,
            Some(pinned),
            Some(content),
        );
        let reason = match invalidation_reason(status) {
            Some(reason) => reason,
            None => {
                return Ok(None);
            },
        };
        let new_span_hash = match &citation.locator {
            EvidenceLocator::AudioTimeline { start_ms, end_ms } => {
                match build_audio_citation_for_interval(
                    ids::random_id(),
                    content,
                    duration_ms,
                    *start_ms,
                    *end_ms,
                ) {
                    Ok(resolved) => Some(resolved.snapshot.content_hash),
                    Err(_) => None,
                }
            },
            EvidenceLocator::DocumentPassage { .. } => None,
        };
        Ok(
            Some(
                Invalidation {
                    reason,
                    old_span_hash: citation.snapshot.content_hash.clone(),
                    new_span_hash,
                },
            ),
        )
    }
}

} // verus!
