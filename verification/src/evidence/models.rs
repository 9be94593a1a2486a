//! Immutable recording and transcript-version records and their validation.
use vstd::prelude::*;

use crate::digest;
use crate::digest::is_canonical_digest;
use crate::text;
use crate::text::str_is_blank;

verus! {

pub const TRANSCRIPT_VERSION_SCHEMA: u32 = 1;

pub const MAX_CANONICAL_INTEGER: u64 = 9_007_199_254_740_992;

#[derive(Debug, Clone, Copy, PartialEq, Eq, Structural)]
pub enum RecordingArtifactKind {
    Captured,
    Imported,
}

impl RecordingArtifactKind {
    pub fn as_db_str(self) -> (r: &'static str)
        ensures
            r@ == (match self {
                RecordingArtifactKind::Captured => "captured"@,
                RecordingArtifactKind::Imported => "imported"@,
            }),
    {
        match self {
            RecordingArtifactKind::Captured => "captured",
            RecordingArtifactKind::Imported => "imported",
        }
    }
}

#[derive(Debug, Clone, PartialEq, Eq)]
pub struct RecordingVersionSpec {
    pub version_hash: String,
    pub byte_length: u64,
    pub media_type: String,
    pub duration_ms: u64,
}

/// One timed segment of a transcript interpretation; ids are 128-bit UUIDs.
#[derive(Debug, Clone, PartialEq, Eq)]
pub struct TranscriptVersionSegment {
    pub segment_id: u128,
    pub start_ms: u64,
    pub end_ms: u64,
    pub text: String,
    pub speaker: Option<String>,
    pub source: Option<String>,
}

#[derive(Debug, Clone, PartialEq, Eq)]
pub struct TranscriptVersionContent {
    pub schema_version: u32,
    pub recording_artifact_id: u128,
    pub recording_version_hash: String,
    pub language: Option<String>,
    pub engine: String,
    pub model: String,
    pub configuration_hash: Option<String>,
    pub segments: Vec<TranscriptVersionSegment>,
}

#[derive(Debug, Clone, PartialEq, Eq)]
pub enum EvidenceValidationError {
    UnsupportedSchemaVersion { actual: u32 },
    EmptyField { field: &'static str },
    InvalidDigest { field: &'static str },
    UnsafeInteger { field: &'static str },
    EmptyRecording,
    EmptyTranscript,
    EmptySegment { index: usize },
    InvalidSegmentBounds { index: usize, start_ms: u64, end_ms: u64 },
    SegmentOrder { index: usize },
    DuplicateSegment(u128),
}

impl EvidenceValidationError {
    pub open spec fn spec_message(&self) -> Seq<char> {
        match self {
            EvidenceValidationError::UnsupportedSchemaVersion { actual } =>
                "unsupported transcript schema version "@ + crate::canonical::decimal(*actual as nat),
            EvidenceValidationError::EmptyField { field } => field@ + " must not be empty"@,
            EvidenceValidationError::InvalidDigest { field } => field@ + " must be a sha256 digest"@,
            EvidenceValidationError::UnsafeInteger { field } => field@
                + " exceeds the canonical safe-integer range"@,
            EvidenceValidationError::EmptyRecording => "recording duration must be greater than zero"@,
            EvidenceValidationError::EmptyTranscript =>
                "a transcript version must contain at least one segment"@,
            EvidenceValidationError::EmptySegment { index } => "segment "@
                + crate::canonical::decimal(*index as nat) + " has an empty text value"@,
            EvidenceValidationError::InvalidSegmentBounds { index, start_ms, end_ms } => "segment "@
                + crate::canonical::decimal(*index as nat) + " has invalid half-open bounds ["@
                + crate::canonical::decimal(*start_ms as nat) + ", "@ + crate::canonical::decimal(
                *end_ms as nat,
            ) + ")"@,
            EvidenceValidationError::SegmentOrder { index } => "segment "@ + crate::canonical::decimal(
                *index as nat,
            ) + " is out of timeline order"@,
            EvidenceValidationError::DuplicateSegment(id) => "segment id "@
                + crate::canonical::uuid_text(*id) + " appears more than once"@,
        }
    }

    /// The human-readable message of the error.
    pub fn message(&self) -> (r: String)
        ensures
            r@ == self.spec_message(),
    {
        let mut out = String::new();
        match self {
            EvidenceValidationError::UnsupportedSchemaVersion { actual } => {
                crate::text::push_str(&mut out, "unsupported transcript schema version ");
                crate::canonical::write_decimal(&mut out, *actual as u64);
            },
            EvidenceValidationError::EmptyField { field } => {
                crate::text::push_str(&mut out, field);
                crate::text::push_str(&mut out, " must not be empty");
            },
            EvidenceValidationError::InvalidDigest { field } => {
                crate::text::push_str(&mut out, field);
                crate::text::push_str(&mut out, " must be a sha256 digest");
            },
            EvidenceValidationError::UnsafeInteger { field } => {
                crate::text::push_str(&mut out, field);
                crate::text::push_str(&mut out, " exceeds the canonical safe-integer range");
            },
            EvidenceValidationError::EmptyRecording => {
                crate::text::push_str(&mut out, "recording duration must be greater than zero");
            },
            EvidenceValidationError::EmptyTranscript => {
                crate::text::push_str(
                    &mut out,
                    "a transcript version must contain at least one segment",
                );
            },
            EvidenceValidationError::EmptySegment { index } => {
                crate::text::push_str(&mut out, "segment ");
                crate::canonical::write_decimal(&mut out, *index as u64);
                crate::text::push_str(&mut out, " has an empty text value");
            },
            EvidenceValidationError::InvalidSegmentBounds { index, start_ms, end_ms } => {
                crate::text::push_str(&mut out, "segment ");
                crate::canonical::write_decimal(&mut out, *index as u64);
                crate::text::push_str(&mut out, " has invalid half-open bounds [");
                crate::canonical::write_decimal(&mut out, *start_ms);
                crate::text::push_str(&mut out, ", ");
                crate::canonical::write_decimal(&mut out, *end_ms);
                crate::text::push_str(&mut out, ")");
            },
            EvidenceValidationError::SegmentOrder { index } => {
                crate::text::push_str(&mut out, "segment ");
                crate::canonical::write_decimal(&mut out, *index as u64);
                crate::text::push_str(&mut out, " is out of timeline order");
            },
            EvidenceValidationError::DuplicateSegment(id) => {
                crate::text::push_str(&mut out, "segment id ");
                crate::canonical::write_uuid_text(&mut out, *id);
                crate::text::push_str(&mut out, " appears more than once");
            },
        }
        proof {
            assert(out@ =~= self.spec_message());
        }
        out
    }
}

pub open spec fn digest_rule(field: &'static str, digest: Seq<char>) -> Result<
    (),
    EvidenceValidationError,
> {
    if digest::is_sha256_digest(digest) {
        Ok(())
    } else {
        Err(EvidenceValidationError::InvalidDigest { field })
    }
}

pub open spec fn nonempty_rule(field: &'static str, value: Seq<char>) -> Result<
    (),
    EvidenceValidationError,
> {
    if text::is_blank(value) {
        Err(EvidenceValidationError::EmptyField { field })
    } else {
        Ok(())
    }
}

pub open spec fn safe_integer_rule(field: &'static str, value: u64) -> Result<
    (),
    EvidenceValidationError,
> {
    if value > MAX_CANONICAL_INTEGER {
        Err(EvidenceValidationError::UnsafeInteger { field })
    } else {
        Ok(())
    }
}

/// Accepts exactly `sha256:` followed by 64 lower-case hexadecimal digits.
pub fn validate_digest(field: &'static str, digest: &str) -> (r: Result<
    (),
    EvidenceValidationError,
>)
    ensures
        r == digest_rule(field, digest@),
{
    if is_canonical_digest(digest) {
        Ok(())
    } else {
        Err(EvidenceValidationError::InvalidDigest { field })
    }
}

pub fn validate_nonempty(field: &'static str, value: &str) -> (r: Result<
    (),
    EvidenceValidationError,
>)
    ensures
        r == nonempty_rule(field, value@),
{
    if str_is_blank(value) {
        Err(EvidenceValidationError::EmptyField { field })
    } else {
        Ok(())
    }
}

pub fn validate_safe_integer(field: &'static str, value: u64) -> (r: Result<
    (),
    EvidenceValidationError,
>)
    ensures
        r == safe_integer_rule(field, value),
{
    if value > MAX_CANONICAL_INTEGER {
        Err(EvidenceValidationError::UnsafeInteger { field })
    } else {
        Ok(())
    }
}

/// The rules a recording version must meet, checked in this order.
pub open spec fn recording_spec_rule(r: RecordingVersionSpec) -> Result<(), EvidenceValidationError> {
    if digest_rule("recording version hash", r.version_hash@) is Err {
        digest_rule("recording version hash", r.version_hash@)
    } else if nonempty_rule("media type", r.media_type@) is Err {
        nonempty_rule("media type", r.media_type@)
    } else if safe_integer_rule("recording byte length", r.byte_length) is Err {
        safe_integer_rule("recording byte length", r.byte_length)
    } else if safe_integer_rule("recording duration", r.duration_ms) is Err {
        safe_integer_rule("recording duration", r.duration_ms)
    } else if r.duration_ms == 0 {
        Err(EvidenceValidationError::EmptyRecording)
    } else {
        Ok(())
    }
}

impl RecordingVersionSpec {
    pub fn validate(&self) -> (r: Result<(), EvidenceValidationError>)
        ensures
            r == recording_spec_rule(*self),
    {
        validate_digest("recording version hash", self.version_hash.as_str())?;
        validate_nonempty("media type", self.media_type.as_str())?;
        validate_safe_integer("recording byte length", self.byte_length)?;
        validate_safe_integer("recording duration", self.duration_ms)?;
        if self.duration_ms == 0 {
            return Err(EvidenceValidationError::EmptyRecording);
        }
        Ok(())
    }
}

/// The first rule that segment `i` breaks, given the segments before it.
pub open spec fn segment_rule(segs: Seq<TranscriptVersionSegment>, i: int) -> Option<
    EvidenceValidationError,
> {
    let s = segs[i];
    if s.start_ms > MAX_CANONICAL_INTEGER {
        Some(EvidenceValidationError::UnsafeInteger { field: "segment start" })
    } else if s.end_ms > MAX_CANONICAL_INTEGER {
        Some(EvidenceValidationError::UnsafeInteger { field: "segment end" })
    } else if s.end_ms <= s.start_ms {
        Some(
            EvidenceValidationError::InvalidSegmentBounds {
                index: i as usize,
                start_ms: s.start_ms,
                end_ms: s.end_ms,
            },
        )
    } else if i > 0 && s.start_ms < segs[i - 1].start_ms {
        Some(EvidenceValidationError::SegmentOrder { index: i as usize })
    } else if text::is_blank(s.text@) {
        Some(EvidenceValidationError::EmptySegment { index: i as usize })
    } else if exists|j: int| 0 <= j < i && #[trigger] segs[j].segment_id == s.segment_id {
        Some(EvidenceValidationError::DuplicateSegment(s.segment_id))
    } else {
        None
    }
}

/// The first rule broken by any of the first `n` segments, in timeline order.
pub open spec fn first_segment_error(segs: Seq<TranscriptVersionSegment>, n: int) -> Option<
    EvidenceValidationError,
>
    decreases n,
{
    if n <= 0 {
        None
    } else {
        match first_segment_error(segs, n - 1) {
            Some(e) => Some(e),
            None => segment_rule(segs, n - 1),
        }
    }
}

pub open spec fn opt_digest_rule(field: &'static str, value: Option<String>) -> Result<
    (),
    EvidenceValidationError,
> {
    match value {
        Some(v) => digest_rule(field, v@),
        None => Ok(()),
    }
}

pub open spec fn opt_nonempty_rule(field: &'static str, value: Option<String>) -> Result<
    (),
    EvidenceValidationError,
> {
    match value {
        Some(v) => nonempty_rule(field, v@),
        None => Ok(()),
    }
}

/// The rules a transcript version must meet, checked in this order; the
/// segment rules are checked segment by segment.
pub open spec fn transcript_rule(t: TranscriptVersionContent) -> Result<
    (),
    EvidenceValidationError,
> {
    if t.schema_version != TRANSCRIPT_VERSION_SCHEMA {
        Err(EvidenceValidationError::UnsupportedSchemaVersion { actual: t.schema_version })
    } else if digest_rule("recording version hash", t.recording_version_hash@) is Err {
        digest_rule("recording version hash", t.recording_version_hash@)
    } else if opt_digest_rule("transcription configuration hash", t.configuration_hash) is Err {
        opt_digest_rule("transcription configuration hash", t.configuration_hash)
    } else if opt_nonempty_rule("language", t.language) is Err {
        opt_nonempty_rule("language", t.language)
    } else if nonempty_rule("transcription engine", t.engine@) is Err {
        nonempty_rule("transcription engine", t.engine@)
    } else if nonempty_rule("transcription model", t.model@) is Err {
        nonempty_rule("transcription model", t.model@)
    } else if t.segments@.len() == 0 {
        Err(EvidenceValidationError::EmptyTranscript)
    } else {
        match first_segment_error(t.segments@, t.segments@.len() as int) {
            Some(e) => Err(e),
            None => Ok(()),
        }
    }
}

/// A transcript version that passes validation.
pub open spec fn transcript_is_valid(t: TranscriptVersionContent) -> bool {
    transcript_rule(t) is Ok
}

/// Facts that validation establishes about every segment.
pub proof fn lemma_valid_transcript_segments(t: TranscriptVersionContent)
    requires
        transcript_is_valid(t),
    ensures
        t.segments@.len() > 0,
        forall|i: int|
            0 <= i < t.segments@.len() ==> {
                &&& #[trigger] t.segments@[i].start_ms < t.segments@[i].end_ms
                &&& t.segments@[i].end_ms <= MAX_CANONICAL_INTEGER
                &&& !text::is_blank(t.segments@[i].text@)
            },
        forall|i: int, j: int|
            0 <= i <= j < t.segments@.len() ==> #[trigger] t.segments@[i].start_ms
                <= #[trigger] t.segments@[j].start_ms,
        forall|i: int, j: int|
            0 <= i < j < t.segments@.len() ==> #[trigger] t.segments@[i].segment_id
                != #[trigger] t.segments@[j].segment_id,
{
    let segs = t.segments@;
    lemma_no_segment_error_prefix(segs, segs.len() as int);
    assert forall|i: int| 0 <= i < segs.len() implies {
        &&& #[trigger] segs[i].start_ms < segs[i].end_ms
        &&& segs[i].end_ms <= MAX_CANONICAL_INTEGER
        &&& !text::is_blank(segs[i].text@)
    } by {
        assert(segment_rule(segs, i) is None);
    }
    assert forall|i: int, j: int| 0 <= i <= j < segs.len() implies #[trigger] segs[i].start_ms
        <= #[trigger] segs[j].start_ms by {
        lemma_sorted_starts(segs, i, j);
    }
    assert forall|i: int, j: int| 0 <= i < j < segs.len() implies #[trigger] segs[i].segment_id
        != #[trigger] segs[j].segment_id by {
        assert(segment_rule(segs, j) is None);
    }
}

proof fn lemma_no_segment_error_prefix(segs: Seq<TranscriptVersionSegment>, n: int)
    requires
        0 <= n <= segs.len(),
        first_segment_error(segs, n) is None,
    ensures
        forall|i: int| 0 <= i < n ==> #[trigger] segment_rule(segs, i) is None,
    decreases n,
{
    if n > 0 {
        lemma_no_segment_error_prefix(segs, n - 1);
    }
}

proof fn lemma_first_error_stable(segs: Seq<TranscriptVersionSegment>, n: int, m: int)
    requires
        0 <= n <= m,
        first_segment_error(segs, n) is Some,
    ensures
        first_segment_error(segs, m) == first_segment_error(segs, n),
    decreases m - n,
{
    if n < m {
        lemma_first_error_stable(segs, n, m - 1);
    }
}

proof fn lemma_sorted_starts(segs: Seq<TranscriptVersionSegment>, i: int, j: int)
    requires
        0 <= i <= j < segs.len(),
        forall|k: int| 0 <= k < segs.len() ==> #[trigger] segment_rule(segs, k) is None,
    ensures
        segs[i].start_ms <= segs[j].start_ms,
    decreases j - i,
{
    if i < j {
        lemma_sorted_starts(segs, i, j - 1);
        assert(segment_rule(segs, j) is None);
    }
}

fn check_segment(segs: &Vec<TranscriptVersionSegment>, i: usize) -> (r: Option<
    EvidenceValidationError,
>)
    requires
        i < segs@.len(),
    ensures
        r == segment_rule(segs@, i as int),
{
    let s = &segs[i];
    if s.start_ms > MAX_CANONICAL_INTEGER {
        return Some(EvidenceValidationError::UnsafeInteger { field: "segment start" });
    }
    if s.end_ms > MAX_CANONICAL_INTEGER {
        return Some(EvidenceValidationError::UnsafeInteger { field: "segment end" });
    }
    if s.end_ms <= s.start_ms {
        return Some(
            EvidenceValidationError::InvalidSegmentBounds {
                index: i,
                start_ms: s.start_ms,
                end_ms: s.end_ms,
            },
        );
    }
    if i > 0 && s.start_ms < segs[i - 1].start_ms {
        return Some(EvidenceValidationError::SegmentOrder { index: i });
    }
    if str_is_blank(s.text.as_str()) {
        return Some(EvidenceValidationError::EmptySegment { index: i });
    }
    let mut j: usize = 0;
    while j < i
        invariant
            i < segs@.len(),
            s == &segs@[i as int],
            s.start_ms <= MAX_CANONICAL_INTEGER,
            s.end_ms <= MAX_CANONICAL_INTEGER,
            s.end_ms > s.start_ms,
            !(i > 0 && s.start_ms < segs@[i - 1].start_ms),
            !text::is_blank(s.text@),
            0 <= j <= i,
            forall|k: int| 0 <= k < j ==> #[trigger] segs@[k].segment_id != s.segment_id,
        decreases i - j,
    {
        if segs[j].segment_id == s.segment_id {
            assert(0 <= j < i && segs@[j as int].segment_id == segs@[i as int].segment_id);
            assert(!text::is_blank(segs@[i as int].text@));
            assert(exists|k: int| 0 <= k < i && #[trigger] segs@[k].segment_id == segs@[i as int].segment_id);
            return Some(EvidenceValidationError::DuplicateSegment(s.segment_id));
        }
        j += 1;
    }
    None
}

impl TranscriptVersionContent {
    pub fn validate(&self) -> (r: Result<(), EvidenceValidationError>)
        ensures
            r == transcript_rule(*self),
    {
        if self.schema_version != TRANSCRIPT_VERSION_SCHEMA {
            return Err(
                EvidenceValidationError::UnsupportedSchemaVersion { actual: self.schema_version },
            );
        }
        validate_digest("recording version hash", self.recording_version_hash.as_str())?;
        if let Some(hash) = &self.configuration_hash {
            validate_digest("transcription configuration hash", hash.as_str())?;
        }
        if let Some(language) = &self.language {
            validate_nonempty("language", language.as_str())?;
        }
        validate_nonempty("transcription engine", self.engine.as_str())?;
        validate_nonempty("transcription model", self.model.as_str())?;
        if self.segments.len() == 0 {
            return Err(EvidenceValidationError::EmptyTranscript);
        }
        let mut i: usize = 0;
        while i < self.segments.len()
            invariant
                0 <= i <= self.segments@.len(),
                first_segment_error(self.segments@, i as int) is None,
                transcript_rule(*self) == (match first_segment_error(
                    self.segments@,
                    self.segments@.len() as int,
                ) {
                    Some(e) => Err(e),
                    None => Ok(()),
                }),
            decreases self.segments.len() - i,
        {
            if let Some(e) = check_segment(&self.segments, i) {
                proof {
                    lemma_first_error_stable(
                        self.segments@,
                        i + 1,
                        self.segments@.len() as int,
                    );
                }
                return Err(e);
            }
            i += 1;
        }
        Ok(())
    }
}

} // verus!
