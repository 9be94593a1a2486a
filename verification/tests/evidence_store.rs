use meeting_assistant::evidence::citation::{
    CitationResolutionStatus, EvidenceLocator, RecordingSourceState,
};
use meeting_assistant::evidence::enrollment::{
    check_unchanged, feed_recording, recording_content_hash, recording_hasher, stable_recording_hash,
    FileFingerprint, ModifiedTime,
    enrollment_identity, media_type_for_extension, RecordingEnrollmentError,
};
use meeting_assistant::evidence::hashing::{canonical_transcript_payload, hash_transcript_version};
use meeting_assistant::evidence::models::{
    EvidenceValidationError, RecordingArtifactKind, RecordingVersionSpec,
    TranscriptVersionContent, TranscriptVersionSegment, TRANSCRIPT_VERSION_SCHEMA,
};
use meeting_assistant::evidence::provenance::{
    hash_derived_artifact_payload, invalidation_reason, locator_type, CitationRole,
    DerivedArtifactKind, DerivedArtifactSpec, ProvenanceRepository, ProvenanceRepositoryError,
    StoredCitationRow,
};
use meeting_assistant::evidence::repository::{
    EvidenceRepository, EvidenceRepositoryError, StoredRecordingArtifact, StoredRecordingVersion,
    TranscriptVersionRow,
};
use meeting_assistant::evidence::resolver::{
    build_audio_citation_for_interval, build_audio_citation_from_segments, hash_citation_envelope,
};
use uuid::Uuid;

const RECORDING_HASH: &str =
    "sha256:aaaaaaaaaaaaaaaaaaaaaaaaaaaaaaaaaaaaaaaaaaaaaaaaaaaaaaaaaaaaaaaa";

fn segment(start_ms: u64, end_ms: u64, text: &str) -> TranscriptVersionSegment {
    TranscriptVersionSegment {
        segment_id: Uuid::new_v4().as_u128(),
        start_ms,
        end_ms,
        text: text.to_owned(),
        speaker: None,
        source: None,
    }
}

fn recording_version() -> RecordingVersionSpec {
    RecordingVersionSpec {
        version_hash: RECORDING_HASH.to_string(),
        byte_length: 42_000,
        media_type: "audio/mp4".to_string(),
        duration_ms: 60_000,
    }
}

fn transcript(artifact_id: u128, model: &str) -> TranscriptVersionContent {
    TranscriptVersionContent {
        schema_version: TRANSCRIPT_VERSION_SCHEMA,
        recording_artifact_id: artifact_id,
        recording_version_hash: RECORDING_HASH.to_string(),
        language: Some("en".to_string()),
        engine: "whisper".to_string(),
        model: model.to_string(),
        configuration_hash: None,
        segments: vec![
            segment(1_000, 4_000, "The team approved the launch plan."),
            segment(4_000, 8_000, "Priya owns the rollout."),
        ],
    }
}

#[test]
fn citation_digest_is_not_a_model_authored_marker() {
    let transcript = TranscriptVersionContent {
        schema_version: TRANSCRIPT_VERSION_SCHEMA,
        recording_artifact_id: Uuid::new_v4().as_u128(),
        recording_version_hash: RECORDING_HASH.to_owned(),
        language: None,
        engine: "fixture".to_owned(),
        model: "fixture".to_owned(),
        configuration_hash: None,
        segments: vec![segment(0, 1_000, "Decision text")],
    };
    let citation = build_audio_citation_from_segments(
        Uuid::new_v4().as_u128(),
        &transcript,
        1_000,
        &[transcript.segments[0].segment_id],
    )
    .unwrap();
    let digest = hash_citation_envelope(&citation).unwrap();
    assert_ne!(digest, "E000001");
}

#[test]
fn digests_are_canonical_lowercase_sha256_values() {
    let mut version = recording_version();
    version.version_hash =
        "sha256:AAAAAAAAAAAAAAAAAAAAAAAAAAAAAAAAAAAAAAAAAAAAAAAAAAAAAAAAAAAAAAAA".to_string();
    assert!(matches!(
        version.validate(),
        Err(EvidenceValidationError::InvalidDigest { .. })
    ));
}

#[test]
fn recording_columns_follow_validation() {
    assert_eq!(
        EvidenceRepository::recording_columns(&recording_version()),
        Ok((42_000, 60_000))
    );
    let mut empty = recording_version();
    empty.duration_ms = 0;
    assert_eq!(
        EvidenceRepository::recording_columns(&empty),
        Err(EvidenceRepositoryError::Validation(
            EvidenceValidationError::EmptyRecording
        ))
    );
}

#[test]
fn an_existing_recording_is_reused_only_under_the_same_identity() {
    let id = Uuid::new_v4();
    let existing = StoredRecordingArtifact {
        id: id.to_string(),
        meeting_id: Some("meeting-1".to_string()),
        kind: "captured".to_string(),
        created_at: "2026-01-01T00:00:00Z".to_string(),
    };
    let reused = EvidenceRepository::reconcile_artifact(
        Some(existing.clone()),
        id.as_u128(),
        "meeting-1",
        RecordingArtifactKind::Captured,
        "later",
    )
    .unwrap();
    assert_eq!(reused, (existing.clone(), false));

    assert_eq!(
        EvidenceRepository::reconcile_artifact(
            Some(existing.clone()),
            id.as_u128(),
            "meeting-1",
            RecordingArtifactKind::Imported,
            "later",
        ),
        Err(EvidenceRepositoryError::ArtifactIdentityConflict)
    );
    assert_eq!(
        EvidenceRepository::reconcile_artifact(
            Some(existing),
            Uuid::new_v4().as_u128(),
            "meeting-1",
            RecordingArtifactKind::Captured,
            "later",
        ),
        Err(EvidenceRepositoryError::ArtifactIdentityConflict)
    );

    let (created, insert) = EvidenceRepository::reconcile_artifact(
        None,
        id.as_u128(),
        "meeting-2",
        RecordingArtifactKind::Imported,
        "now",
    )
    .unwrap();
    assert!(insert);
    assert_eq!(created.id, id.to_string());
    assert_eq!(created.meeting_id.as_deref(), Some("meeting-2"));
    assert_eq!(created.kind, "imported");
    assert_eq!(created.created_at, "now");
}

#[test]
fn a_recording_version_with_other_metadata_conflicts() {
    let id = Uuid::new_v4();
    let version = recording_version();
    let stored = StoredRecordingVersion {
        artifact_id: id.to_string(),
        version_hash: RECORDING_HASH.to_string(),
        byte_length: 42_000,
        media_type: "audio/mp4".to_string(),
        duration_ms: 60_000,
        created_at: "earlier".to_string(),
    };
    assert_eq!(
        EvidenceRepository::reconcile_version(
            Some(stored.clone()),
            id.as_u128(),
            &version,
            42_000,
            60_000,
            "now"
        ),
        Ok((stored.clone(), false))
    );
    assert_eq!(
        EvidenceRepository::reconcile_version(
            Some(stored),
            id.as_u128(),
            &version,
            42_000,
            61_000,
            "now"
        ),
        Err(EvidenceRepositoryError::RecordingVersionConflict)
    );
    let (created, insert) =
        EvidenceRepository::reconcile_version(None, id.as_u128(), &version, 42_000, 60_000, "now")
            .unwrap();
    assert!(insert);
    assert_eq!(created.artifact_id, id.to_string());
    assert_eq!(created.created_at, "now");
}

#[test]
fn segment_beyond_recording_is_reported_by_index() {
    let content = transcript(Uuid::new_v4().as_u128(), "base");
    assert!(EvidenceRepository::check_segments_within(&content, 8_000).is_ok());
    assert!(EvidenceRepository::check_segments_within(&content, 7_999).is_ok());
    assert_eq!(
        EvidenceRepository::check_segments_within(&content, 7_998),
        Err(EvidenceRepositoryError::SegmentBeyondRecording { index: 1 })
    );
    assert_eq!(
        EvidenceRepository::check_segments_within(&content, -5),
        Err(EvidenceRepositoryError::SegmentBeyondRecording { index: 0 })
    );
}

fn row_for(content: &TranscriptVersionContent, id: Uuid) -> TranscriptVersionRow {
    let (version_hash, payload) = EvidenceRepository::prepare_transcript(content).unwrap();
    TranscriptVersionRow {
        id: id.to_string(),
        recording_artifact_id: Uuid::from_u128(content.recording_artifact_id).to_string(),
        recording_version_hash: content.recording_version_hash.clone(),
        version_hash,
        schema_version: content.schema_version as i64,
        language: content.language.clone(),
        engine: content.engine.clone(),
        model: content.model.clone(),
        configuration_hash: content.configuration_hash.clone(),
        content_payload: payload,
        created_at: "now".to_string(),
    }
}

#[test]
fn stored_transcript_rows_are_checked_against_their_content() {
    let content = transcript(Uuid::new_v4().as_u128(), "base");
    let (version_hash, payload) = EvidenceRepository::prepare_transcript(&content).unwrap();
    assert_eq!(version_hash, hash_transcript_version(&content).unwrap());
    assert_eq!(payload, canonical_transcript_payload(&content).unwrap());

    let id = Uuid::new_v4();
    let row = row_for(&content, id);
    let stored = EvidenceRepository::verify_transcript_row(&row, &content).unwrap();
    assert_eq!(stored, row.stored());
    assert_eq!(stored.id, id.to_string());

    let other = transcript(content.recording_artifact_id, "other-model");
    assert_eq!(
        EvidenceRepository::verify_transcript_row(&row, &other),
        Err(EvidenceRepositoryError::StoredContentIntegrity {
            kind: "transcript version"
        })
    );

    let record = EvidenceRepository::new_transcript_record(
        id.as_u128(),
        &content,
        row.version_hash.clone(),
        "now".to_string(),
    );
    assert_eq!(record, stored);
}

#[test]
fn only_verified_citations_are_prepared_for_storage() {
    let pinned = transcript(Uuid::new_v4().as_u128(), "base");
    let citation =
        build_audio_citation_for_interval(Uuid::new_v4().as_u128(), &pinned, 60_000, 1_000, 2_000)
            .unwrap();
    let available = RecordingSourceState::Available {
        actual_version_hash: RECORDING_HASH.to_string(),
    };
    let prepared =
        ProvenanceRepository::prepare_verified_citation(&citation, 60_000, &available, &pinned, &pinned)
            .unwrap();
    assert_eq!(prepared.digest, hash_citation_envelope(&citation).unwrap());
    assert_eq!(prepared.locator_type, "audio_timeline");
    let payload = String::from_utf8(prepared.payload.clone()).unwrap();
    assert!(payload.starts_with("{\"artifact\":{\"id\":"));
    assert!(payload.contains("\"citation_id\":"));

    let record =
        ProvenanceRepository::new_citation_record(&citation, &prepared, "now".to_string());
    assert_eq!(record.id, Uuid::from_u128(citation.citation_id).to_string());
    assert_eq!(record.citation_digest, prepared.digest);

    let row = StoredCitationRow {
        id: record.id.clone(),
        citation_digest: record.citation_digest.clone(),
        recording_artifact_id: record.recording_artifact_id.clone(),
        recording_version_hash: record.recording_version_hash.clone(),
        transcript_version_hash: record.transcript_version_hash.clone(),
        locator_type: record.locator_type.clone(),
        envelope_payload: prepared.payload.clone(),
        created_at: record.created_at.clone(),
    };
    assert_eq!(row.public(), record);
    assert!(ProvenanceRepository::verify_citation_row(&row, &citation).is_ok());
    let mut tampered = citation.clone();
    tampered.snapshot.text = "different".to_string();
    assert_eq!(
        ProvenanceRepository::verify_citation_row(&row, &tampered),
        Err(ProvenanceRepositoryError::CitationIntegrity)
    );

    assert_eq!(
        ProvenanceRepository::prepare_verified_citation(
            &citation,
            60_000,
            &RecordingSourceState::Missing,
            &pinned,
            &pinned
        ),
        Err(ProvenanceRepositoryError::CitationNotVerified)
    );
}

#[test]
fn changed_span_invalidates_and_superseded_evidence_does_not() {
    let pinned = transcript(Uuid::new_v4().as_u128(), "base");
    let citation =
        build_audio_citation_for_interval(Uuid::new_v4().as_u128(), &pinned, 60_000, 1_000, 2_000)
            .unwrap();
    let digest = hash_citation_envelope(&citation).unwrap();

    let mut same_text = pinned.clone();
    same_text.model = "base-v2".to_string();
    assert_eq!(
        ProvenanceRepository::invalidation_for(&citation, &digest, &pinned, &same_text, 60_000),
        Ok(None)
    );

    let mut changed = pinned.clone();
    changed.model = "base-v2".to_string();
    changed.segments[0].text = "The team rejected the launch plan.".to_string();
    let invalidation =
        ProvenanceRepository::invalidation_for(&citation, &digest, &pinned, &changed, 60_000)
            .unwrap()
            .unwrap();
    assert_eq!(invalidation.reason, "evidence_changed");
    assert_eq!(invalidation.old_span_hash, citation.snapshot.content_hash);
    let new_span = invalidation.new_span_hash.unwrap();
    assert_ne!(new_span, citation.snapshot.content_hash);

    assert_eq!(
        ProvenanceRepository::invalidation_for(&citation, "sha256:other", &pinned, &changed, 60_000),
        Err(ProvenanceRepositoryError::CitationIntegrity)
    );
}

#[test]
fn provenance_names_and_reasons_are_closed() {
    assert_eq!(DerivedArtifactKind::Summary.as_db_str(), "summary");
    assert_eq!(DerivedArtifactKind::Intelligence.as_db_str(), "intelligence");
    assert_eq!(CitationRole::Supporting.as_db_str(), "supporting");
    assert_eq!(CitationRole::Context.as_db_str(), "context");
    assert_eq!(
        invalidation_reason(CitationResolutionStatus::EvidenceChanged),
        Some("evidence_changed")
    );
    assert_eq!(
        invalidation_reason(CitationResolutionStatus::VersionMissing),
        Some("version_missing")
    );
    assert_eq!(
        invalidation_reason(CitationResolutionStatus::Unresolvable),
        Some("unresolvable")
    );
    assert_eq!(invalidation_reason(CitationResolutionStatus::Verified), None);
    assert_eq!(invalidation_reason(CitationResolutionStatus::Superseded), None);
    assert_eq!(
        locator_type(&EvidenceLocator::DocumentPassage {
            page_index: 0,
            section_path: vec![],
            start_byte: 0,
            end_byte: 1
        }),
        "document_passage"
    );
}

#[test]
fn derived_artifact_content_must_match_its_version_hash() {
    let payload = b"summary body".to_vec();
    let digest = hash_derived_artifact_payload(&payload);
    assert!(digest.starts_with("sha256:"));
    assert_eq!(digest.len(), 71);
    let artifact = DerivedArtifactSpec {
        id: Uuid::new_v4().as_u128(),
        version_hash: digest.clone(),
        meeting_id: "meeting-1".to_string(),
        kind: DerivedArtifactKind::Summary,
        content_payload: payload.clone(),
    };
    assert!(ProvenanceRepository::check_derived_artifact(&artifact).is_ok());
    let mut tampered = artifact.clone();
    tampered.content_payload = b"other body".to_vec();
    assert_eq!(
        ProvenanceRepository::check_derived_artifact(&tampered),
        Err(ProvenanceRepositoryError::DerivedArtifactIntegrity)
    );
    assert_eq!(ProvenanceRepository::stored_duration(-3), 0);
    assert_eq!(ProvenanceRepository::stored_duration(1_500), 1_500);
}

#[test]
fn enrollment_keeps_an_existing_identity_and_names_media_types() {
    let id = Uuid::new_v4();
    let existing = StoredRecordingArtifact {
        id: id.to_string(),
        meeting_id: Some("meeting-1".to_string()),
        kind: "imported".to_string(),
        created_at: "earlier".to_string(),
    };
    assert_eq!(
        enrollment_identity(Some(&existing), RecordingArtifactKind::Captured),
        Ok((id.as_u128(), RecordingArtifactKind::Imported))
    );
    let mut bad_kind = existing.clone();
    bad_kind.kind = "streamed".to_string();
    assert_eq!(
        enrollment_identity(Some(&bad_kind), RecordingArtifactKind::Captured),
        Err(RecordingEnrollmentError::InvalidArtifactKind)
    );
    let mut bad_id = existing;
    bad_id.id = "not-a-uuid".to_string();
    assert_eq!(
        enrollment_identity(Some(&bad_id), RecordingArtifactKind::Captured),
        Err(RecordingEnrollmentError::InvalidArtifactId)
    );
    let (_, kind) = enrollment_identity(None, RecordingArtifactKind::Captured).unwrap();
    assert_eq!(kind, RecordingArtifactKind::Captured);

    assert_eq!(media_type_for_extension(Some("WAV")), "audio/wav");
    assert_eq!(media_type_for_extension(Some("mp3")), "audio/mpeg");
    assert_eq!(media_type_for_extension(Some("m4a")), "audio/mp4");
    assert_eq!(media_type_for_extension(Some("MP4")), "audio/mp4");
    assert_eq!(media_type_for_extension(Some("webm")), "audio/webm");
    assert_eq!(media_type_for_extension(Some("oga")), "audio/ogg");
    assert_eq!(media_type_for_extension(Some("flac")), "audio/flac");
    assert_eq!(media_type_for_extension(Some("txt")), "application/octet-stream");
    assert_eq!(media_type_for_extension(None), "application/octet-stream");
}

const ABC_SHA256: &str = "sha256:ba7816bf8f01cfea414140de5dae2223b00361a396177a9cb410ff61f20015ad";

#[test]
fn a_recording_hash_is_the_sha256_of_its_bytes() {
    assert_eq!(recording_content_hash(b"abc"), ABC_SHA256);
    let fingerprint = FileFingerprint {
        byte_length: 3,
        modified: Some(ModifiedTime { after_epoch: true, seconds: 1_700_000_000, nanos: 5 }),
    };
    let mut hasher = recording_hasher();
    feed_recording(&mut hasher, b"a");
    feed_recording(&mut hasher, b"");
    feed_recording(&mut hasher, b"bc");
    assert_eq!(stable_recording_hash(hasher, &fingerprint, &fingerprint).unwrap(), ABC_SHA256);
}

#[test]
fn a_recording_that_changed_while_read_is_refused() {
    let before = FileFingerprint {
        byte_length: 3,
        modified: Some(ModifiedTime { after_epoch: true, seconds: 1_700_000_000, nanos: 5 }),
    };
    let touched = FileFingerprint {
        modified: Some(ModifiedTime { after_epoch: true, seconds: 1_700_000_000, nanos: 6 }),
        ..before
    };
    let grown = FileFingerprint { byte_length: 4, ..before };
    let unknown_time = FileFingerprint { modified: None, ..before };
    assert_eq!(check_unchanged(&before, &before), Ok(()));
    assert_eq!(check_unchanged(&before, &touched), Err(RecordingEnrollmentError::SourceChanged));
    assert_eq!(check_unchanged(&before, &grown), Err(RecordingEnrollmentError::SourceChanged));
    assert_eq!(check_unchanged(&before, &unknown_time), Err(RecordingEnrollmentError::SourceChanged));
    let mut hasher = recording_hasher();
    feed_recording(&mut hasher, b"abc");
    assert_eq!(
        stable_recording_hash(hasher, &before, &grown),
        Err(RecordingEnrollmentError::SourceChanged)
    );
}
