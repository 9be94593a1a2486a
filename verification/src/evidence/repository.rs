//! The rules of the evidence store: when a recording identity or version may
//! be reused, when a transcript version fits its recording, and when a stored
//! transcript row still matches its content.  The queries themselves run
//! outside the library; each step here decides on what they returned.
use vstd::prelude::*;

use crate::canonical;
use crate::canonical::write_uuid_text;
use crate::expert_profiles::hashing::HashError;
use crate::text::{str_eq, string_from};

use super::hashing;
use super::hashing::{canonical_transcript_payload, hash_transcript_version};
use super::models;
use super::models::{
    EvidenceValidationError, RecordingArtifactKind, RecordingVersionSpec, TranscriptVersionContent,
    TranscriptVersionSegment,
};

verus! {

/// The evidence store; its operations are the steps below.
pub struct EvidenceRepository;

#[derive(Debug, Clone, PartialEq, Eq)]
pub enum EvidenceRepositoryError {
    Validation(EvidenceValidationError),
    Hash(HashError),
    /// A failure of the database, with its message.
    Database(String),
    MeetingNotFound(String),
    ArtifactNotFound(u128),
    RecordingVersionNotFound { artifact_id: u128, version_hash: String },
    ArtifactIdentityConflict,
    RecordingVersionConflict,
    SegmentBeyondRecording { index: usize },
    StoredContentIntegrity { kind: &'static str },
}

#[derive(Debug, Clone, PartialEq, Eq)]
pub struct StoredRecordingArtifact {
    pub id: String,
    pub meeting_id: Option<String>,
    pub kind: String,
    pub created_at: String,
}

#[derive(Debug, Clone, PartialEq, Eq)]
pub struct StoredRecordingVersion {
    pub artifact_id: String,
    pub version_hash: String,
    pub byte_length: i64,
    pub media_type: String,
    pub duration_ms: i64,
    pub created_at: String,
}

#[derive(Debug, Clone, PartialEq, Eq)]
pub struct StoredRecordingLocation {
    pub artifact_id: String,
    pub version_hash: String,
    pub path: String,
    pub state: String,
    pub last_verified_at: Option<String>,
}

#[derive(Debug, Clone, PartialEq, Eq)]
pub struct StoredTranscriptVersion {
    pub id: String,
    pub recording_artifact_id: String,
    pub recording_version_hash: String,
    pub version_hash: String,
    pub schema_version: i64,
    pub language: Option<String>,
    pub engine: String,
    pub model: String,
    pub configuration_hash: Option<String>,
    pub created_at: String,
}

/// A stored transcript version as read back, with its canonical payload.
#[derive(Debug, Clone, PartialEq, Eq)]
pub struct TranscriptVersionRow {
    pub id: String,
    pub recording_artifact_id: String,
    pub recording_version_hash: String,
    pub version_hash: String,
    pub schema_version: i64,
    pub language: Option<String>,
    pub engine: String,
    pub model: String,
    pub configuration_hash: Option<String>,
    pub content_payload: Vec<u8>,
    pub created_at: String,
}

pub open spec fn kind_text(kind: RecordingArtifactKind) -> Seq<char> {
    match kind {
        RecordingArtifactKind::Captured => "captured"@,
        RecordingArtifactKind::Imported => "imported"@,
    }
}

/// An existing recording row is the one being enrolled: same id, same
/// meeting and same kind.
pub open spec fn artifact_matches(
    e: StoredRecordingArtifact,
    artifact_id: u128,
    meeting_id: Seq<char>,
    kind: RecordingArtifactKind,
) -> bool {
    &&& e.id@ == canonical::uuid_text(artifact_id)
    &&& canonical::opt_view(e.meeting_id) == Some(meeting_id)
    &&& e.kind@ == kind_text(kind)
}

/// An existing recording version agrees with the one being enrolled.
pub open spec fn version_matches(
    e: StoredRecordingVersion,
    version: RecordingVersionSpec,
    byte_length: i64,
    duration_ms: i64,
) -> bool {
    &&& e.byte_length == byte_length
    &&& e.media_type@ == version.media_type@
    &&& e.duration_ms == duration_ms
}

/// The index of the first of the first `n` segments that ends after
/// `allowed_end`.
pub open spec fn first_beyond(segs: Seq<TranscriptVersionSegment>, allowed_end: int, n: int) -> Option<
    int,
>
    decreases n,
{
    if n <= 0 {
        None
    } else {
        match first_beyond(segs, allowed_end, n - 1) {
            Some(i) => Some(i),
            None => if segs[n - 1].end_ms > allowed_end {
                Some(n - 1)
            } else {
                None
            },
        }
    }
}

/// The last millisecond at which a segment may end: one past the recorded
/// duration, a negative duration counting as zero.
pub open spec fn allowed_end(recording_duration: i64) -> int {
    if recording_duration < 0 {
        1
    } else {
        recording_duration + 1
    }
}

/// A stored transcript row agrees with its parsed content and digest.
pub open spec fn row_agrees(row: TranscriptVersionRow, c: TranscriptVersionContent, digest: Seq<char>) -> bool {
    &&& digest == row.version_hash@
    &&& canonical::uuid_text(c.recording_artifact_id) == row.recording_artifact_id@
    &&& c.recording_version_hash@ == row.recording_version_hash@
    &&& c.schema_version as int == row.schema_version as int
    &&& canonical::opt_view(c.language) == canonical::opt_view(row.language)
    &&& c.engine@ == row.engine@
    &&& c.model@ == row.model@
    &&& canonical::opt_view(c.configuration_hash) == canonical::opt_view(row.configuration_hash)
}

/// The public record of a stored transcript row.
pub open spec fn stored_of(row: TranscriptVersionRow) -> StoredTranscriptVersion {
    StoredTranscriptVersion {
        id: row.id,
        recording_artifact_id: row.recording_artifact_id,
        recording_version_hash: row.recording_version_hash,
        version_hash: row.version_hash,
        schema_version: row.schema_version,
        language: row.language,
        engine: row.engine,
        model: row.model,
        configuration_hash: row.configuration_hash,
        created_at: row.created_at,
    }
}

fn uuid_string(id: u128) -> (r: String)
    ensures
        r@ == canonical::uuid_text(id),
{
    let mut out = String::new();
    write_uuid_text(&mut out, id);
    proof {
        assert(out@ =~= canonical::uuid_text(id));
    }
    out
}

fn opt_str_eq(a: &Option<String>, b: &Option<String>) -> (r: bool)
    ensures
        r == (canonical::opt_view(*a) == canonical::opt_view(*b)),
{
    match (a, b) {
        (Some(x), Some(y)) => str_eq(x.as_str(), y.as_str()),
        (None, None) => true,
        _ => false,
    }
}

fn clone_opt(o: &Option<String>) -> (r: Option<String>)
    ensures
        r == *o,
{
    match o {
        Some(s) => Some(s.clone()),
        None => None,
    }
}

impl TranscriptVersionRow {
    /// The public record of this row, without its payload.
    pub fn stored(&self) -> (r: StoredTranscriptVersion)
        ensures
            r == stored_of(*self),
    {
        StoredTranscriptVersion {
            id: self.id.clone(),
            recording_artifact_id: self.recording_artifact_id.clone(),
            recording_version_hash: self.recording_version_hash.clone(),
            version_hash: self.version_hash.clone(),
            schema_version: self.schema_version,
            language: clone_opt(&self.language),
            engine: self.engine.clone(),
            model: self.model.clone(),
            configuration_hash: clone_opt(&self.configuration_hash),
            created_at: self.created_at.clone(),
        }
    }
}

impl EvidenceRepository {
    /// The byte length and duration of a recording version as database
    /// integers, once the version has been validated.
    pub fn recording_columns(version: &RecordingVersionSpec) -> (r: Result<
        (i64, i64),
        EvidenceRepositoryError,
    >)
        ensures
            match models::recording_spec_rule(*version) {
                Err(e) => r == Err::<(i64, i64), EvidenceRepositoryError>(
                    EvidenceRepositoryError::Validation(e),
                ),
                Ok(()) => r == Ok::<(i64, i64), EvidenceRepositoryError>(
                    (version.byte_length as i64, version.duration_ms as i64),
                ),
            },
    {
        match version.validate() {
            Err(e) => {
                return Err(EvidenceRepositoryError::Validation(e));
            },
            Ok(()) => {},
        }
        if version.byte_length > 0x7fff_ffff_ffff_ffffu64 {
            return Err(
                EvidenceRepositoryError::Validation(
                    EvidenceValidationError::UnsafeInteger { field: "recording byte length" },
                ),
            );
        }
        if version.duration_ms > 0x7fff_ffff_ffff_ffffu64 {
            return Err(
                EvidenceRepositoryError::Validation(
                    EvidenceValidationError::UnsafeInteger { field: "recording duration" },
                ),
            );
        }
        Ok((version.byte_length as i64, version.duration_ms as i64))
    }

    /// Decides on the recording row found for this id or meeting: it is
    /// reused when it is the same recording, refused when it is another, and
    /// a new row (to be inserted, `true`) is made when none exists.
    pub fn reconcile_artifact(
        existing: Option<StoredRecordingArtifact>,
        artifact_id: u128,
        meeting_id: &str,
        kind: RecordingArtifactKind,
        now: &str,
    ) -> (r: Result<(StoredRecordingArtifact, bool), EvidenceRepositoryError>)
        ensures
            match existing {
                Some(e) => if artifact_matches(e, artifact_id, meeting_id@, kind) {
                    r == Ok::<(StoredRecordingArtifact, bool), EvidenceRepositoryError>((e, false))
                } else {
                    r == Err::<(StoredRecordingArtifact, bool), EvidenceRepositoryError>(
                        EvidenceRepositoryError::ArtifactIdentityConflict,
                    )
                },
                None => r matches Ok((a, true)) && artifact_matches(a, artifact_id, meeting_id@, kind)
                    && a.created_at@ == now@,
            },
    {
        match existing {
            Some(e) => {
                let id = uuid_string(artifact_id);
                let same_meeting = match &e.meeting_id {
                    Some(m) => str_eq(m.as_str(), meeting_id),
                    None => false,
                };
                if !str_eq(e.id.as_str(), id.as_str()) || !same_meeting || !str_eq(
                    e.kind.as_str(),
                    kind.as_db_str(),
                ) {
                    return Err(EvidenceRepositoryError::ArtifactIdentityConflict);
                }
                Ok((e, false))
            },
            None => {
                let a = StoredRecordingArtifact {
                    id: uuid_string(artifact_id),
                    meeting_id: Some(string_from(meeting_id)),
                    kind: string_from(kind.as_db_str()),
                    created_at: string_from(now),
                };
                Ok((a, true))
            },
        }
    }

    /// Decides on the version row found for this recording and digest: it is
    /// reused when its metadata agrees, refused when it differs, and a new
    /// row (to be inserted, `true`) is made when none exists.
    pub fn reconcile_version(
        existing: Option<StoredRecordingVersion>,
        artifact_id: u128,
        version: &RecordingVersionSpec,
        byte_length: i64,
        duration_ms: i64,
        now: &str,
    ) -> (r: Result<(StoredRecordingVersion, bool), EvidenceRepositoryError>)
        ensures
            match existing {
                Some(e) => if version_matches(e, *version, byte_length, duration_ms) {
                    r == Ok::<(StoredRecordingVersion, bool), EvidenceRepositoryError>((e, false))
                } else {
                    r == Err::<(StoredRecordingVersion, bool), EvidenceRepositoryError>(
                        EvidenceRepositoryError::RecordingVersionConflict,
                    )
                },
                None => r matches Ok((v, true)) && v.artifact_id@ == canonical::uuid_text(
                    artifact_id,
                ) && v.version_hash == version.version_hash && v.byte_length == byte_length
                    && v.media_type == version.media_type && v.duration_ms == duration_ms
                    && v.created_at@ == now@,
            },
    {
        match existing {
            Some(e) => {
                if e.byte_length != byte_length || !str_eq(
                    e.media_type.as_str(),
                    version.media_type.as_str(),
                ) || e.duration_ms != duration_ms {
                    return Err(EvidenceRepositoryError::RecordingVersionConflict);
                }
                Ok((e, false))
            },
            None => {
                let v = StoredRecordingVersion {
                    artifact_id: uuid_string(artifact_id),
                    version_hash: version.version_hash.clone(),
                    byte_length,
                    media_type: version.media_type.clone(),
                    duration_ms,
                    created_at: string_from(now),
                };
                Ok((v, true))
            },
        }
    }

    /// Checks that no segment of a transcript ends more than a millisecond
    /// after the recording it interprets.
    pub fn check_segments_within(content: &TranscriptVersionContent, recording_duration: i64) -> (r:
        Result<(), EvidenceRepositoryError>)
        ensures
            match first_beyond(
                content.segments@,
                allowed_end(recording_duration),
                content.segments@.len() as int,
            ) {
                Some(i) => r == Err::<(), EvidenceRepositoryError>(
                    EvidenceRepositoryError::SegmentBeyondRecording { index: i as usize },
                ),
                None => r is Ok,
            },
    {
        let base: u64 = if recording_duration < 0 {
            0
        } else {
            recording_duration as u64
        };
        let allowed: u64 = base.saturating_add(1);
        assert(allowed == allowed_end(recording_duration));
        let mut i: usize = 0;
        while i < content.segments.len()
            invariant
                0 <= i <= content.segments@.len(),
                allowed == allowed_end(recording_duration),
                first_beyond(content.segments@, allowed as int, i as int) is None,
            decreases content.segments.len() - i,
        {
            if content.segments[i].end_ms > allowed {
                proof {
                    lemma_first_beyond_settles(
                        content.segments@,
                        allowed as int,
                        i + 1,
                        content.segments@.len() as int,
                    );
                }
                return Err(EvidenceRepositoryError::SegmentBeyondRecording { index: i });
            }
            i += 1;
        }
        Ok(())
    }

    /// Validates a transcript version and computes its digest and canonical
    /// payload, in that order.
    pub fn prepare_transcript(content: &TranscriptVersionContent) -> (r: Result<
        (String, Vec<u8>),
        EvidenceRepositoryError,
    >)
        ensures
            models::transcript_rule(*content) matches Err(e) ==> r == Err::<
                (String, Vec<u8>),
                EvidenceRepositoryError,
            >(EvidenceRepositoryError::Validation(e)),
            models::transcript_rule(*content) is Ok ==> match hashing::transcript_hash_rule(
                *content,
            ) {
                Err(p) => r matches Err(
                    EvidenceRepositoryError::Hash(HashError::UnsafeInteger { path }),
                ) && path@ == p,
                Ok(d) => r matches Ok((h, payload)) && h@ == d && hashing::transcript_payload_rule(
                    *content,
                ) == Ok::<Seq<u8>, Seq<char>>(payload@),
            },
    {
        match content.validate() {
            Err(e) => {
                return Err(EvidenceRepositoryError::Validation(e));
            },
            Ok(()) => {},
        }
        let version_hash = match hash_transcript_version(content) {
            Ok(h) => h,
            Err(e) => {
                return Err(EvidenceRepositoryError::Hash(e));
            },
        };
        match canonical_transcript_payload(content) {
            Ok(payload) => Ok((version_hash, payload)),
            Err(e) => Err(EvidenceRepositoryError::Hash(e)),
        }
    }

    /// The record of a newly installed transcript version.
    pub fn new_transcript_record(
        transcript_version_id: u128,
        content: &TranscriptVersionContent,
        version_hash: String,
        now: String,
    ) -> (r: StoredTranscriptVersion)
        ensures
            r.id@ == canonical::uuid_text(transcript_version_id),
            r.recording_artifact_id@ == canonical::uuid_text(content.recording_artifact_id),
            r.recording_version_hash == content.recording_version_hash,
            r.version_hash == version_hash,
            r.schema_version == content.schema_version as i64,
            r.language == content.language,
            r.engine == content.engine,
            r.model == content.model,
            r.configuration_hash == content.configuration_hash,
            r.created_at == now,
    {
        StoredTranscriptVersion {
            id: uuid_string(transcript_version_id),
            recording_artifact_id: uuid_string(content.recording_artifact_id),
            recording_version_hash: content.recording_version_hash.clone(),
            version_hash,
            schema_version: content.schema_version as i64,
            language: clone_opt(&content.language),
            engine: content.engine.clone(),
            model: content.model.clone(),
            configuration_hash: clone_opt(&content.configuration_hash),
            created_at: now,
        }
    }

    /// Checks a stored transcript row against the content parsed from its
    /// payload: the content must be valid, hash to the row's digest and agree
    /// with every column; then the row's public record is returned.
    pub fn verify_transcript_row(row: &TranscriptVersionRow, content: &TranscriptVersionContent) -> (r:
        Result<StoredTranscriptVersion, EvidenceRepositoryError>)
        ensures
            models::transcript_rule(*content) matches Err(e) ==> r == Err::<
                StoredTranscriptVersion,
                EvidenceRepositoryError,
            >(EvidenceRepositoryError::Validation(e)),
            models::transcript_rule(*content) is Ok ==> match hashing::transcript_hash_rule(
                *content,
            ) {
                Err(p) => r matches Err(
                    EvidenceRepositoryError::Hash(HashError::UnsafeInteger { path }),
                ) && path@ == p,
                Ok(d) => if row_agrees(*row, *content, d) {
                    r == Ok::<StoredTranscriptVersion, EvidenceRepositoryError>(stored_of(*row))
                } else {
                    r == Err::<StoredTranscriptVersion, EvidenceRepositoryError>(
                        EvidenceRepositoryError::StoredContentIntegrity {
                            kind: "transcript version",
                        },
                    )
                },
            },
    {
        match content.validate() {
            Err(e) => {
                return Err(EvidenceRepositoryError::Validation(e));
            },
            Ok(()) => {},
        }
        let digest = match hash_transcript_version(content) {
            Ok(h) => h,
            Err(e) => {
                return Err(EvidenceRepositoryError::Hash(e));
            },
        };
        let artifact_id = uuid_string(content.recording_artifact_id);
        if !str_eq(digest.as_str(), row.version_hash.as_str()) || !str_eq(
            artifact_id.as_str(),
            row.recording_artifact_id.as_str(),
        ) || !str_eq(content.recording_version_hash.as_str(), row.recording_version_hash.as_str())
            || content.schema_version as i64 != row.schema_version || !opt_str_eq(
            &content.language,
            &row.language,
        ) || !str_eq(content.engine.as_str(), row.engine.as_str()) || !str_eq(
            content.model.as_str(),
            row.model.as_str(),
        ) || !opt_str_eq(&content.configuration_hash, &row.configuration_hash) {
            return Err(EvidenceRepositoryError::StoredContentIntegrity { kind: "transcript version" });
        }
        Ok(row.stored())
    }
}

proof fn lemma_first_beyond_settles(segs: Seq<TranscriptVersionSegment>, a: int, n: int, m: int)
    requires
        0 <= n <= m,
        first_beyond(segs, a, n) is Some,
    ensures
        first_beyond(segs, a, m) == first_beyond(segs, a, n),
    decreases m - n,
{
    if n < m {
        lemma_first_beyond_settles(segs, a, n, m - 1);
    }
}

} // verus!
