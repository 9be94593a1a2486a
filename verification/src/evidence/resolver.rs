//! Building citations from transcript segments and resolving them later
//! against the recording and transcript versions that exist then.
use vstd::prelude::*;

use crate::canonical;
use crate::canonical::{write_decimal, write_raw, write_string, write_string_array, write_uuid, write_uuid_array};
use crate::digest;
use crate::digest::hash_with_domain;
use crate::expert_profiles::hashing::{HashError, MAX_JCS_SAFE_INTEGER};
use crate::text;
use crate::text::{push_char, push_str, replace_str, trim_string};
use vstd::utf8;

use super::citation::{
    CitationEnvelope, CitationResolutionProvenance, CitationResolutionStatus, CitationSnapshot,
    EvidenceArtifactKind, EvidenceArtifactReference, EvidenceLocator, RecordingSourceState,
    CITATION_SCHEMA_VERSION, CITATION_TEXT_NORMALIZATION,
};
use super::hashing;
use super::hashing::hash_transcript_version;
use super::models;
use super::models::{
    EvidenceValidationError, TranscriptVersionContent, TranscriptVersionSegment,
    MAX_CANONICAL_INTEGER,
};

verus! {

pub const CITATION_TEXT_HASH_DOMAIN: &'static str = "meeting-assistant-citation-text-v1\0";

pub const CITATION_ENVELOPE_HASH_DOMAIN: &'static str = "meeting-assistant-citation-envelope-v1\0";

#[derive(Debug, Clone, PartialEq, Eq)]
pub enum EvidenceResolverError {
    Validation(EvidenceValidationError),
    Hash(HashError),
    InvalidAudioBounds { start_ms: u64, end_ms: u64 },
    InvalidSeconds,
    BeyondRecording,
    NoOverlappingSegments,
    NoncontiguousSegments,
    AmbiguousSegmentSelection,
    SegmentNotFound(u128),
    DocumentResolutionUnavailable,
}

/// The contiguous audio span covered by a selection of segments.
#[derive(Debug, Clone, PartialEq, Eq)]
pub struct ResolvedAudioSpan {
    pub start_ms: u64,
    pub end_ms: u64,
    pub text: String,
    pub segment_ids: Vec<u128>,
}

// ----------------------------------------------------------------------------
// Text normalisation
// ----------------------------------------------------------------------------
/// What Unicode Normalization Form C gives for a string.
pub uninterp spec fn nfc_normalized(s: Seq<char>) -> Seq<char>;

/// Calls `unicode_normalization::UnicodeNormalization::nfc` and collects the
/// characters.  The result is named by `nfc_normalized`, and, as the crate
/// documents, it is in Normalization Form C, so normalizing it again gives it
/// back.  Nothing more is claimed of it.
#[verifier::external_body]
fn nfc(text: &str) -> (r: String)
    ensures
        r@ == nfc_normalized(text@),
        nfc_normalized(r@) == r@,
{
    unicode_normalization::UnicodeNormalization::nfc(text).collect()
}

/// `citation-text-v1`: NFC, line endings folded to `\n`, outer whitespace trimmed.
pub open spec fn normalized_citation_text(s: Seq<char>) -> Seq<char> {
    text::trim(text::replace_all(text::replace_all(nfc_normalized(s), seq!['\r', '\n'], seq!['\n']), seq!['\r'], seq!['\n']))
}

/// The digest of a citation snapshot's text.
pub open spec fn citation_text_digest(s: Seq<char>) -> Seq<char> {
    digest::domain_digest(utf8::encode_utf8(CITATION_TEXT_HASH_DOMAIN@), utf8::encode_utf8(normalized_citation_text(s)))
}

/// Citation-text normal form is a fixed point: normalizing the normal form
/// of a text again gives it back, whenever that normal form is itself in
/// Unicode Normalization Form C.
pub proof fn lemma_normalized_citation_text_idempotent(s: Seq<char>)
    requires
        nfc_normalized(normalized_citation_text(s)) == normalized_citation_text(s),
    ensures
        normalized_citation_text(normalized_citation_text(s)) == normalized_citation_text(s),
{
    let crlf = seq!['\r', '\n'];
    let lf = seq!['\n'];
    let cr = seq!['\r'];
    let f1 = text::replace_all(nfc_normalized(s), crlf, lf);
    let f2 = text::replace_all(f1, cr, lf);
    let t = text::trim(f2);
    assert(!lf.contains('\r'));
    assert forall|i: int| !#[trigger] text::occurs_at(lf, cr, i) by {
        if text::occurs_at(lf, cr, i) {
            assert(lf[i] == lf.subrange(i, i + 1)[0]);
        }
    }
    assert forall|i: int| !#[trigger] text::occurs_at(f2, cr, i) by {
        text::lemma_replace_all_removes(f1, cr, lf, i);
    }
    assert forall|i: int| 0 <= i < t.len() implies #[trigger] t[i] != '\r' by {
        text::lemma_trim_chars(f2, i);
        let j = choose|j: int| 0 <= j < f2.len() && f2[j] == t[i];
        if f2[j] == '\r' {
            assert(f2.subrange(j, j + 1) =~= cr);
            assert(text::occurs_at(f2, cr, j));
        }
    }
    assert forall|i: int| !#[trigger] text::occurs_at(t, crlf, i) by {
        if text::occurs_at(t, crlf, i) {
            assert(t[i] == t.subrange(i, i + 2)[0]);
        }
    }
    assert forall|i: int| !#[trigger] text::occurs_at(t, cr, i) by {
        if text::occurs_at(t, cr, i) {
            assert(t[i] == t.subrange(i, i + 1)[0]);
        }
    }
    text::lemma_replace_all_absent(t, crlf, lf);
    text::lemma_replace_all_absent(t, cr, lf);
    text::lemma_trim_idempotent(f2);
}

/// A text and its citation-text normal form have the same digest, whenever
/// that normal form is in Unicode Normalization Form C.
pub proof fn lemma_citation_digest_of_normal_form(s: Seq<char>)
    requires
        nfc_normalized(normalized_citation_text(s)) == normalized_citation_text(s),
    ensures
        citation_text_digest(normalized_citation_text(s)) == citation_text_digest(s),
{
    lemma_normalized_citation_text_idempotent(s);
}

pub fn normalize_citation_text(text: &str) -> (r: String)
    ensures
        r@ == normalized_citation_text(text@),
{
    let nfc_text = nfc(text);
    let mut crlf = String::new();
    push_char(&mut crlf, '\r');
    push_char(&mut crlf, '\n');
    let mut lf = String::new();
    push_char(&mut lf, '\n');
    let mut cr = String::new();
    push_char(&mut cr, '\r');
    proof {
        assert(crlf@ =~= seq!['\r', '\n']);
        assert(lf@ =~= seq!['\n']);
        assert(cr@ =~= seq!['\r']);
    }
    let folded = replace_str(nfc_text.as_str(), crlf.as_str(), lf.as_str());
    let folded = replace_str(folded.as_str(), cr.as_str(), lf.as_str());
    trim_string(folded.as_str())
}

pub fn hash_citation_text(text: &str) -> (r: String)
    ensures
        r@ == citation_text_digest(text@),
        digest::is_sha256_digest(r@),
{
    let normalized = normalize_citation_text(text);
    hash_with_domain(CITATION_TEXT_HASH_DOMAIN, normalized.as_str().as_bytes())
}

// ----------------------------------------------------------------------------
// Segment selection
// ----------------------------------------------------------------------------
/// Half-open overlap of a segment with `[a, b)`.
pub open spec fn overlaps(s: TranscriptVersionSegment, a: int, b: int) -> bool {
    s.start_ms < b && s.end_ms > a
}

/// Indices, in order, of the first `n` segments that overlap `[a, b)`.
pub open spec fn overlap_prefix(segs: Seq<TranscriptVersionSegment>, a: int, b: int, n: int) -> Seq<
    usize,
>
    decreases n,
{
    if n <= 0 {
        Seq::empty()
    } else if overlaps(segs[n - 1], a, b) {
        overlap_prefix(segs, a, b, n - 1).push((n - 1) as usize)
    } else {
        overlap_prefix(segs, a, b, n - 1)
    }
}

/// Indices, in timeline order, of all segments overlapping `[a, b)`.
pub open spec fn overlapping(segs: Seq<TranscriptVersionSegment>, a: int, b: int) -> Seq<usize> {
    overlap_prefix(segs, a, b, segs.len() as int)
}

/// A selection: non-empty, in range.
pub open spec fn selection_ok(segs: Seq<TranscriptVersionSegment>, sel: Seq<usize>) -> bool {
    sel.len() > 0 && forall|k: int| 0 <= k < sel.len() ==> #[trigger] sel[k] < segs.len()
}

pub open spec fn sel_max_end(segs: Seq<TranscriptVersionSegment>, sel: Seq<usize>) -> int
    decreases sel.len(),
{
    if sel.len() <= 1 {
        segs[sel[0] as int].end_ms as int
    } else {
        let prev = sel_max_end(segs, sel.drop_last());
        let e = segs[sel.last() as int].end_ms as int;
        if e > prev {
            e
        } else {
            prev
        }
    }
}

/// The selected segments' texts joined by `\n`.
pub open spec fn sel_text(segs: Seq<TranscriptVersionSegment>, sel: Seq<usize>) -> Seq<char>
    decreases sel.len(),
{
    if sel.len() == 0 {
        Seq::empty()
    } else if sel.len() == 1 {
        segs[sel[0] as int].text@
    } else {
        sel_text(segs, sel.drop_last()) + seq!['\n'] + segs[sel.last() as int].text@
    }
}

pub open spec fn sel_ids(segs: Seq<TranscriptVersionSegment>, sel: Seq<usize>) -> Seq<u128> {
    sel.map_values(|i: usize| segs[i as int].segment_id)
}

/// A span value equals the span of a selection.
pub open spec fn span_matches(
    span: ResolvedAudioSpan,
    segs: Seq<TranscriptVersionSegment>,
    sel: Seq<usize>,
) -> bool {
    &&& span.start_ms == segs[sel[0] as int].start_ms
    &&& span.end_ms == sel_max_end(segs, sel)
    &&& span.text@ == sel_text(segs, sel)
    &&& span.segment_ids@ == sel_ids(segs, sel)
}

proof fn lemma_overlap_prefix_facts(segs: Seq<TranscriptVersionSegment>, a: int, b: int, n: int)
    requires
        0 <= n <= segs.len(),
        segs.len() <= usize::MAX,
    ensures
        forall|k: int|
            0 <= k < overlap_prefix(segs, a, b, n).len() ==> #[trigger] overlap_prefix(
                segs,
                a,
                b,
                n,
            )[k] < n,
        forall|k: int|
            0 <= k < overlap_prefix(segs, a, b, n).len() ==> overlaps(
                segs[#[trigger] overlap_prefix(segs, a, b, n)[k] as int],
                a,
                b,
            ),
        forall|k: int, l: int|
            0 <= k < l < overlap_prefix(segs, a, b, n).len() ==> #[trigger] overlap_prefix(
                segs,
                a,
                b,
                n,
            )[k] < #[trigger] overlap_prefix(segs, a, b, n)[l],
        forall|i: int|
            0 <= i < n && overlaps(segs[i], a, b) ==> #[trigger] overlap_prefix(
                segs,
                a,
                b,
                n,
            ).contains(i as usize),
    decreases n,
{
    if n > 0 {
        lemma_overlap_prefix_facts(segs, a, b, n - 1);
        let prev = overlap_prefix(segs, a, b, n - 1);
        let cur = overlap_prefix(segs, a, b, n);
        if overlaps(segs[n - 1], a, b) {
            assert(cur == prev.push((n - 1) as usize));
            assert forall|k: int| 0 <= k < cur.len() implies #[trigger] cur[k] < n && overlaps(
                segs[cur[k] as int],
                a,
                b,
            ) by {
                if k < prev.len() {
                    assert(cur[k] == prev[k]);
                }
            }
            assert forall|k: int, l: int| 0 <= k < l < cur.len() implies #[trigger] cur[k]
                < #[trigger] cur[l] by {
                assert(cur[k] == prev[k]);
                if l < prev.len() {
                    assert(cur[l] == prev[l]);
                }
            }
        } else {
            assert(cur == prev);
        }
        assert forall|i: int| 0 <= i < n && overlaps(segs[i], a, b) implies #[trigger] cur.contains(
            i as usize,
        ) by {
            if i < n - 1 {
                assert(prev.contains(i as usize));
                let w = choose|w: int| 0 <= w < prev.len() && prev[w] == i as usize;
                assert(cur[w] == i as usize);
            } else {
                assert(cur[cur.len() - 1] == i as usize);
            }
        }
    }
}

/// Facts about the overlap selection of a whole transcript.
pub proof fn lemma_overlapping_facts(segs: Seq<TranscriptVersionSegment>, a: int, b: int)
    requires
        segs.len() <= usize::MAX,
    ensures
        forall|k: int|
            0 <= k < overlapping(segs, a, b).len() ==> #[trigger] overlapping(segs, a, b)[k]
                < segs.len(),
        forall|k: int|
            0 <= k < overlapping(segs, a, b).len() ==> overlaps(
                segs[#[trigger] overlapping(segs, a, b)[k] as int],
                a,
                b,
            ),
        forall|k: int, l: int|
            0 <= k < l < overlapping(segs, a, b).len() ==> #[trigger] overlapping(segs, a, b)[k]
                < #[trigger] overlapping(segs, a, b)[l],
        forall|i: int|
            0 <= i < segs.len() && overlaps(segs[i], a, b) ==> #[trigger] overlapping(
                segs,
                a,
                b,
            ).contains(i as usize),
{
    lemma_overlap_prefix_facts(segs, a, b, segs.len() as int);
}

/// Indices of the segments overlapping `[a, b)`.
fn overlapping_indices(segs: &Vec<TranscriptVersionSegment>, a: u64, b: u64) -> (r: Vec<usize>)
    ensures
        r@ == overlapping(segs@, a as int, b as int),
{
    let mut out: Vec<usize> = Vec::new();
    let mut i: usize = 0;
    while i < segs.len()
        invariant
            0 <= i <= segs@.len(),
            out@ == overlap_prefix(segs@, a as int, b as int, i as int),
        decreases segs.len() - i,
    {
        if segs[i].start_ms < b && segs[i].end_ms > a {
            out.push(i);
        }
        i += 1;
    }
    out
}

/// The span covered by a non-empty, in-range selection.
fn resolved_span(segs: &Vec<TranscriptVersionSegment>, sel: &Vec<usize>) -> (r: ResolvedAudioSpan)
    requires
        selection_ok(segs@, sel@),
    ensures
        span_matches(r, segs@, sel@),
{
    let first = sel[0];
    let start_ms = segs[first].start_ms;
    let mut end_ms = segs[first].end_ms;
    let mut text = String::new();
    push_str(&mut text, segs[first].text.as_str());
    let mut ids: Vec<u128> = Vec::new();
    ids.push(segs[first].segment_id);
    let mut k: usize = 1;
    proof {
        assert(sel@.subrange(0, 1).drop_last() =~= Seq::<usize>::empty());
        assert(text@ =~= sel_text(segs@, sel@.subrange(0, 1)));
        assert(ids@ =~= sel_ids(segs@, sel@.subrange(0, 1)));
    }
    while k < sel.len()
        invariant
            selection_ok(segs@, sel@),
            1 <= k <= sel@.len(),
            end_ms == sel_max_end(segs@, sel@.subrange(0, k as int)),
            text@ == sel_text(segs@, sel@.subrange(0, k as int)),
            ids@ == sel_ids(segs@, sel@.subrange(0, k as int)),
        decreases sel.len() - k,
    {
        let idx = sel[k];
        assert(idx < segs@.len());
        let seg = &segs[idx];
        if seg.end_ms > end_ms {
            end_ms = seg.end_ms;
        }
        push_char(&mut text, '\n');
        push_str(&mut text, seg.text.as_str());
        ids.push(seg.segment_id);
        proof {
            let next = sel@.subrange(0, k + 1);
            assert(next.drop_last() =~= sel@.subrange(0, k as int));
            assert(next.last() == idx);
            assert(text@ =~= sel_text(segs@, next));
            assert(ids@ =~= sel_ids(segs@, next));
        }
        k += 1;
    }
    proof {
        assert(sel@.subrange(0, sel@.len() as int) =~= sel@);
    }
    ResolvedAudioSpan { start_ms, end_ms, text, segment_ids: ids }
}

// ----------------------------------------------------------------------------
// Bounds and locator resolution
// ----------------------------------------------------------------------------
pub open spec fn audio_bounds_rule(start_ms: u64, end_ms: u64, duration_ms: u64) -> Result<
    (),
    EvidenceResolverError,
> {
    if end_ms <= start_ms || end_ms > MAX_CANONICAL_INTEGER {
        Err(EvidenceResolverError::InvalidAudioBounds { start_ms, end_ms })
    } else if end_ms > duration_ms + 1 {
        Err(EvidenceResolverError::BeyondRecording)
    } else {
        Ok(())
    }
}

/// Half-open bounds inside the recording; one millisecond of rounding slack
/// is tolerated at the end.
pub fn validate_audio_bounds(start_ms: u64, end_ms: u64, recording_duration_ms: u64) -> (r: Result<
    (),
    EvidenceResolverError,
>)
    ensures
        r == audio_bounds_rule(start_ms, end_ms, recording_duration_ms),
{
    if end_ms <= start_ms || end_ms > MAX_CANONICAL_INTEGER {
        return Err(EvidenceResolverError::InvalidAudioBounds { start_ms, end_ms });
    }
    if end_ms > recording_duration_ms.saturating_add(1) {
        return Err(EvidenceResolverError::BeyondRecording);
    }
    Ok(())
}

/// Which segments a locator selects in a transcript, or why it cannot.
pub open spec fn locator_rule(
    t: TranscriptVersionContent,
    locator: EvidenceLocator,
    duration_ms: u64,
) -> Result<Seq<usize>, EvidenceResolverError> {
    match models::transcript_rule(t) {
        Err(e) => Err(EvidenceResolverError::Validation(e)),
        Ok(_) => match locator {
            EvidenceLocator::DocumentPassage { .. } => Err(
                EvidenceResolverError::DocumentResolutionUnavailable,
            ),
            EvidenceLocator::AudioTimeline { start_ms, end_ms } => match audio_bounds_rule(
                start_ms,
                end_ms,
                duration_ms,
            ) {
                Err(e) => Err(e),
                Ok(_) => {
                    let sel = overlapping(t.segments@, start_ms as int, end_ms as int);
                    if sel.len() == 0 {
                        Err(EvidenceResolverError::NoOverlappingSegments)
                    } else {
                        Ok(sel)
                    }
                },
            },
        },
    }
}

fn resolve_audio_locator(
    transcript: &TranscriptVersionContent,
    locator: &EvidenceLocator,
    recording_duration_ms: u64,
) -> (r: Result<ResolvedAudioSpan, EvidenceResolverError>)
    ensures
        match locator_rule(*transcript, *locator, recording_duration_ms) {
            Ok(sel) => r matches Ok(span) && span_matches(span, transcript.segments@, sel),
            Err(e) => r == Err::<ResolvedAudioSpan, EvidenceResolverError>(e),
        },
{
    match transcript.validate() {
        Err(e) => {
            return Err(EvidenceResolverError::Validation(e));
        },
        Ok(_) => {},
    }
    let (start_ms, end_ms) = match locator {
        EvidenceLocator::AudioTimeline { start_ms, end_ms } => (*start_ms, *end_ms),
        EvidenceLocator::DocumentPassage { .. } => {
            return Err(EvidenceResolverError::DocumentResolutionUnavailable);
        },
    };
    validate_audio_bounds(start_ms, end_ms, recording_duration_ms)?;
    let sel = overlapping_indices(&transcript.segments, start_ms, end_ms);
    if sel.len() == 0 {
        return Err(EvidenceResolverError::NoOverlappingSegments);
    }
    let nsegs = transcript.segments.len();
    proof {
        assert(nsegs == transcript.segments@.len());
        lemma_overlapping_facts(transcript.segments@, start_ms as int, end_ms as int);
    }
    Ok(resolved_span(&transcript.segments, &sel))
}


// ----------------------------------------------------------------------------
// Building a citation from explicit segments
// ----------------------------------------------------------------------------
pub open spec fn position_prefix(segs: Seq<TranscriptVersionSegment>, id: u128, n: int) -> Option<
    usize,
>
    decreases n,
{
    if n <= 0 {
        None
    } else {
        match position_prefix(segs, id, n - 1) {
            Some(p) => Some(p),
            None => if segs[n - 1].segment_id == id {
                Some((n - 1) as usize)
            } else {
                None
            },
        }
    }
}

/// The index of the first segment with the given id.
pub open spec fn position_of(segs: Seq<TranscriptVersionSegment>, id: u128) -> Option<usize> {
    position_prefix(segs, id, segs.len() as int)
}

/// The first of the first `n` requested ids that no segment carries.
pub open spec fn first_missing(segs: Seq<TranscriptVersionSegment>, ids: Seq<u128>, n: int) -> Option<
    u128,
>
    decreases n,
{
    if n <= 0 {
        None
    } else {
        match first_missing(segs, ids, n - 1) {
            Some(m) => Some(m),
            None => if position_of(segs, ids[n - 1]) is None {
                Some(ids[n - 1])
            } else {
                None
            },
        }
    }
}

pub open spec fn index_seq(segs: Seq<TranscriptVersionSegment>, ids: Seq<u128>) -> Seq<usize> {
    ids.map_values(|id: u128| position_of(segs, id)->0)
}

pub open spec fn contiguous(idx: Seq<usize>) -> bool {
    forall|k: int| 0 <= k < idx.len() - 1 ==> #[trigger] idx[k + 1] == idx[k] + 1
}

/// Which segments an explicit id selection covers, or why it is refused.
pub open spec fn from_segments_rule(
    t: TranscriptVersionContent,
    duration_ms: u64,
    ids: Seq<u128>,
) -> Result<Seq<usize>, EvidenceResolverError> {
    let segs = t.segments@;
    match models::transcript_rule(t) {
        Err(e) => Err(EvidenceResolverError::Validation(e)),
        Ok(_) => if ids.len() == 0 {
            Err(EvidenceResolverError::NoOverlappingSegments)
        } else {
            match first_missing(segs, ids, ids.len() as int) {
                Some(m) => Err(EvidenceResolverError::SegmentNotFound(m)),
                None => {
                    let idx = index_seq(segs, ids);
                    if !contiguous(idx) {
                        Err(EvidenceResolverError::NoncontiguousSegments)
                    } else {
                        let start = segs[idx[0] as int].start_ms;
                        let end = sel_max_end(segs, idx) as u64;
                        match audio_bounds_rule(start, end, duration_ms) {
                            Err(e) => Err(e),
                            Ok(_) => if sel_ids(segs, overlapping(segs, start as int, end as int))
                                != ids {
                                Err(EvidenceResolverError::AmbiguousSegmentSelection)
                            } else {
                                Ok(idx)
                            },
                        }
                    }
                },
            }
        },
    }
}

/// The envelope built for a selection of segments of a transcript.
pub open spec fn citation_matches(
    c: CitationEnvelope,
    citation_id: u128,
    t: TranscriptVersionContent,
    sel: Seq<usize>,
) -> bool {
    let segs = t.segments@;
    let text = normalized_citation_text(sel_text(segs, sel));
    &&& c.schema_version == CITATION_SCHEMA_VERSION
    &&& c.citation_id == citation_id
    &&& c.artifact.id == t.recording_artifact_id
    &&& c.artifact.kind == EvidenceArtifactKind::Recording
    &&& c.artifact.version_hash@ == t.recording_version_hash@
    &&& c.locator == EvidenceLocator::AudioTimeline {
        start_ms: segs[sel[0] as int].start_ms,
        end_ms: sel_max_end(segs, sel) as u64,
    }
    &&& c.snapshot.text@ == text
    &&& c.snapshot.normalization@ == CITATION_TEXT_NORMALIZATION@
    &&& c.snapshot.content_hash@ == citation_text_digest(text)
    &&& digest::is_sha256_digest(c.snapshot.content_hash@)
    &&& digest::is_sha256_digest(c.resolution.transcript_version_hash@)
    &&& hashing::transcript_hash_rule(t) == Ok::<Seq<char>, Seq<char>>(c.resolution.transcript_version_hash@)
    &&& c.resolution.segment_ids@ == sel_ids(segs, sel)
}

/// `r` is what building a citation from the segment ids `ids` returns.
pub open spec fn from_segments_outcome(
    t: TranscriptVersionContent,
    duration_ms: u64,
    citation_id: u128,
    ids: Seq<u128>,
    r: Result<CitationEnvelope, EvidenceResolverError>,
) -> bool {
    match from_segments_rule(t, duration_ms, ids) {
        Ok(sel) => r matches Ok(c) && citation_matches(c, citation_id, t, sel),
        Err(e) => r == Err::<CitationEnvelope, EvidenceResolverError>(e),
    }
}

proof fn lemma_position_prefix(segs: Seq<TranscriptVersionSegment>, id: u128, n: int)
    requires
        0 <= n <= segs.len(),
        segs.len() <= usize::MAX,
    ensures
        match position_prefix(segs, id, n) {
            Some(p) => p < n && segs[p as int].segment_id == id && forall|j: int|
                0 <= j < p ==> #[trigger] segs[j].segment_id != id,
            None => forall|j: int| 0 <= j < n ==> #[trigger] segs[j].segment_id != id,
        },
    decreases n,
{
    if n > 0 {
        lemma_position_prefix(segs, id, n - 1);
    }
}

fn find_position(segs: &Vec<TranscriptVersionSegment>, id: u128) -> (r: Option<usize>)
    ensures
        r == position_of(segs@, id),
{
    let mut j: usize = 0;
    while j < segs.len()
        invariant
            0 <= j <= segs@.len(),
            position_prefix(segs@, id, j as int) is None,
        decreases segs.len() - j,
    {
        if segs[j].segment_id == id {
            proof {
                lemma_position_stable(segs@, id, j + 1, segs@.len() as int);
            }
            return Some(j);
        }
        j += 1;
    }
    None
}

proof fn lemma_position_stable(segs: Seq<TranscriptVersionSegment>, id: u128, n: int, m: int)
    requires
        0 <= n <= m,
        position_prefix(segs, id, n) is Some,
    ensures
        position_prefix(segs, id, m) == position_prefix(segs, id, n),
    decreases m - n,
{
    if n < m {
        lemma_position_stable(segs, id, n, m - 1);
    }
}

proof fn lemma_missing_stable(segs: Seq<TranscriptVersionSegment>, ids: Seq<u128>, n: int, m: int)
    requires
        0 <= n <= m,
        first_missing(segs, ids, n) is Some,
    ensures
        first_missing(segs, ids, m) == first_missing(segs, ids, n),
    decreases m - n,
{
    if n < m {
        lemma_missing_stable(segs, ids, n, m - 1);
    }
}

proof fn lemma_no_missing_prefix(segs: Seq<TranscriptVersionSegment>, ids: Seq<u128>, n: int)
    requires
        0 <= n <= ids.len(),
        first_missing(segs, ids, n) is None,
    ensures
        forall|k: int| 0 <= k < n ==> #[trigger] position_of(segs, ids[k]) is Some,
    decreases n,
{
    if n > 0 {
        lemma_no_missing_prefix(segs, ids, n - 1);
    }
}

/// A valid transcript has no integer beyond the canonical range.
pub proof fn lemma_valid_transcript_hashes(t: TranscriptVersionContent)
    requires
        models::transcript_rule(t) is Ok,
    ensures
        hashing::transcript_hash_rule(t) is Ok,
{
    models::lemma_valid_transcript_segments(t);
    lemma_no_unsafe(t.segments@, t.segments@.len() as int);
}

proof fn lemma_no_unsafe(segs: Seq<TranscriptVersionSegment>, n: int)
    requires
        0 <= n <= segs.len(),
        forall|i: int|
            0 <= i < segs.len() ==> {
                &&& #[trigger] segs[i].start_ms < segs[i].end_ms
                &&& segs[i].end_ms <= MAX_CANONICAL_INTEGER
            },
    ensures
        super::hashing::first_unsafe_path(segs, n) is None,
    decreases n,
{
    if n > 0 {
        lemma_no_unsafe(segs, n - 1);
        assert(segs[n - 1].start_ms < segs[n - 1].end_ms);
    }
}

/// A citation for an explicit, ordered, contiguous run of transcript segments.
pub fn build_audio_citation_from_segments(
    citation_id: u128,
    transcript: &TranscriptVersionContent,
    recording_duration_ms: u64,
    selected_segment_ids: &[u128],
) -> (r: Result<CitationEnvelope, EvidenceResolverError>)
    ensures
        from_segments_outcome(
            *transcript,
            recording_duration_ms,
            citation_id,
            selected_segment_ids@,
            r,
        ),
{
    let segs = &transcript.segments;
    let ghost ids = selected_segment_ids@;
    match transcript.validate() {
        Err(e) => {
            return Err(EvidenceResolverError::Validation(e));
        },
        Ok(_) => {},
    }
    if selected_segment_ids.len() == 0 {
        return Err(EvidenceResolverError::NoOverlappingSegments);
    }
    let mut indices: Vec<usize> = Vec::new();
    let mut k: usize = 0;
    while k < selected_segment_ids.len()
        invariant
            segs == &transcript.segments,
            ids == selected_segment_ids@,
            models::transcript_rule(*transcript) is Ok,
            ids.len() > 0,
            0 <= k <= ids.len(),
            first_missing(segs@, ids, k as int) is None,
            indices@ == index_seq(segs@, ids).subrange(0, k as int),
        decreases selected_segment_ids.len() - k,
    {
        let id = selected_segment_ids[k];
        match find_position(segs, id) {
            None => {
                proof {
                    lemma_missing_stable(segs@, ids, k + 1, ids.len() as int);
                }
                return Err(EvidenceResolverError::SegmentNotFound(id));
            },
            Some(p) => {
                indices.push(p);
                proof {
                    assert(indices@ =~= index_seq(segs@, ids).subrange(0, k + 1));
                }
            },
        }
        k += 1;
    }
    proof {
        assert(indices@ =~= index_seq(segs@, ids));
        lemma_no_missing_prefix(segs@, ids, ids.len() as int);
        assert(segs@.len() == segs.len());
        assert forall|i: int| 0 <= i < indices@.len() implies #[trigger] indices@[i] < segs@.len() by {
            lemma_position_prefix(segs@, ids[i], segs@.len() as int);
            assert(position_of(segs@, ids[i]) is Some);
        }
    }
    let mut w: usize = 0;
    while w < indices.len() - 1
        invariant
            segs == &transcript.segments,
            ids == selected_segment_ids@,
            models::transcript_rule(*transcript) is Ok,
            ids.len() > 0,
            first_missing(segs@, ids, ids.len() as int) is None,
            indices@ == index_seq(segs@, ids),
            forall|i: int| 0 <= i < indices@.len() ==> #[trigger] indices@[i] < segs@.len(),
            0 <= w <= indices@.len() - 1,
            indices@.len() >= 1,
            forall|q: int| 0 <= q < w ==> #[trigger] indices@[q + 1] == indices@[q] + 1,
        decreases indices.len() - w,
    {
        if indices[w] == usize::MAX || indices[w + 1] != indices[w] + 1 {
            proof {
                assert(indices@[w + 1] != indices@[w as int] + 1);
                assert(!contiguous(indices@));
            }
            return Err(EvidenceResolverError::NoncontiguousSegments);
        }
        w += 1;
    }
    proof {
        assert(contiguous(indices@));
    }
    let span = resolved_span(segs, &indices);
    validate_audio_bounds(span.start_ms, span.end_ms, recording_duration_ms)?;
    let all = overlapping_indices(segs, span.start_ms, span.end_ms);
    let mut same = all.len() == selected_segment_ids.len();
    let mut q: usize = 0;
    while same && q < all.len()
        invariant
            0 <= q <= all@.len(),
            same ==> all@.len() == ids.len(),
            same ==> forall|x: int| 0 <= x < q ==> segs@[#[trigger] all@[x] as int].segment_id == ids[x],
            !same ==> sel_ids(segs@, all@) != ids,
            all@ == overlapping(segs@, span.start_ms as int, span.end_ms as int),
            segs@.len() <= usize::MAX,
            segs == &transcript.segments,
            ids == selected_segment_ids@,
        decreases all.len() - q,
    {
        proof {
            lemma_overlapping_facts(segs@, span.start_ms as int, span.end_ms as int);
        }
        if segs[all[q]].segment_id != selected_segment_ids[q] {
            same = false;
            proof {
                assert(sel_ids(segs@, all@)[q as int] != ids[q as int]);
            }
        }
        q += 1;
    }
    proof {
        if same {
            assert(sel_ids(segs@, all@) =~= ids);
        }
    }
    if !same {
        return Err(EvidenceResolverError::AmbiguousSegmentSelection);
    }
    let normalized_text = normalize_citation_text(span.text.as_str());
    let transcript_version_hash = match hash_transcript_version(transcript) {
        Ok(h) => h,
        Err(e) => {
            proof {
                lemma_valid_transcript_hashes(*transcript);
            }
            return Err(EvidenceResolverError::Hash(e));
        },
    };
    let content_hash = hash_citation_text(normalized_text.as_str());
    let version_hash = transcript.recording_version_hash.clone();
    let normalization = crate::text::string_from(CITATION_TEXT_NORMALIZATION);
    Ok(
        CitationEnvelope {
            schema_version: CITATION_SCHEMA_VERSION,
            citation_id,
            artifact: EvidenceArtifactReference {
                id: transcript.recording_artifact_id,
                kind: EvidenceArtifactKind::Recording,
                version_hash,
            },
            locator: EvidenceLocator::AudioTimeline { start_ms: span.start_ms, end_ms: span.end_ms },
            snapshot: CitationSnapshot { text: normalized_text, normalization, content_hash },
            resolution: CitationResolutionProvenance {
                transcript_version_hash,
                segment_ids: span.segment_ids,
            },
        },
    )
}


// ----------------------------------------------------------------------------
// Building a citation from a requested interval
// ----------------------------------------------------------------------------
/// One widening step: the hull of the segments overlapping `[a, b)`.
pub open spec fn interval_step(segs: Seq<TranscriptVersionSegment>, a: int, b: int) -> Option<
    (int, int),
> {
    let sel = overlapping(segs, a, b);
    if sel.len() == 0 {
        None
    } else {
        Some((segs[sel[0] as int].start_ms as int, sel_max_end(segs, sel)))
    }
}

/// The interval after `k` widening steps; it stays put once it is a fixed
/// point, and is `None` once no segment overlaps it.
pub open spec fn interval_iter(segs: Seq<TranscriptVersionSegment>, a: int, b: int, k: nat) -> Option<
    (int, int),
>
    decreases k,
{
    if k == 0 {
        Some((a, b))
    } else {
        match interval_iter(segs, a, b, (k - 1) as nat) {
            None => None,
            Some(p) => if interval_step(segs, p.0, p.1) == Some(p) {
                Some(p)
            } else {
                interval_step(segs, p.0, p.1)
            },
        }
    }
}

/// The outcome of the widening after `k` steps: no evidence, or a fixed
/// interval whose overlapping segments are cited.
pub open spec fn interval_outcome(
    t: TranscriptVersionContent,
    duration_ms: u64,
    citation_id: u128,
    a: int,
    b: int,
    k: nat,
    r: Result<CitationEnvelope, EvidenceResolverError>,
) -> bool {
    let segs = t.segments@;
    match interval_iter(segs, a, b, k) {
        None => r == Err::<CitationEnvelope, EvidenceResolverError>(
            EvidenceResolverError::NoOverlappingSegments,
        ),
        Some(p) => interval_step(segs, p.0, p.1) == Some(p) && from_segments_outcome(
            t,
            duration_ms,
            citation_id,
            sel_ids(segs, overlapping(segs, p.0, p.1)),
            r,
        ),
    }
}

/// Once the widening has stopped (no evidence, or a fixed point), later steps agree.
pub proof fn lemma_interval_iter_settles(
    segs: Seq<TranscriptVersionSegment>,
    a: int,
    b: int,
    k: nat,
    m: nat,
)
    requires
        k <= m,
        interval_iter(segs, a, b, k) is None || ({
            let p = interval_iter(segs, a, b, k)->0;
            interval_step(segs, p.0, p.1) == Some(p)
        }),
    ensures
        interval_iter(segs, a, b, m) == interval_iter(segs, a, b, k),
    decreases m - k,
{
    if k < m {
        lemma_interval_iter_settles(segs, a, b, k, (m - 1) as nat);
    }
}

proof fn lemma_sel_max_end(segs: Seq<TranscriptVersionSegment>, sel: Seq<usize>)
    requires
        sel.len() > 0,
    ensures
        forall|w: int| 0 <= w < sel.len() ==> segs[#[trigger] sel[w] as int].end_ms <= sel_max_end(segs, sel),
        exists|w: int| 0 <= w < sel.len() && segs[#[trigger] sel[w] as int].end_ms == sel_max_end(segs, sel),
    decreases sel.len(),
{
    if sel.len() > 1 {
        lemma_sel_max_end(segs, sel.drop_last());
        let prev = sel.drop_last();
        assert forall|w: int| 0 <= w < sel.len() implies segs[#[trigger] sel[w] as int].end_ms
            <= sel_max_end(segs, sel) by {
            if w < sel.len() - 1 {
                assert(sel[w] == prev[w]);
            }
        }
        if segs[sel.last() as int].end_ms as int > sel_max_end(segs, prev) {
            assert(segs[sel[sel.len() - 1] as int].end_ms == sel_max_end(segs, sel));
        } else {
            let w = choose|w: int| 0 <= w < prev.len() && segs[#[trigger] prev[w] as int].end_ms
                == sel_max_end(segs, prev);
            assert(sel[w] == prev[w]);
        }
    } else {
        assert(segs[sel[0] as int].end_ms == sel_max_end(segs, sel));
    }
}

fn max_end(segs: &Vec<TranscriptVersionSegment>, sel: &Vec<usize>) -> (r: u64)
    requires
        selection_ok(segs@, sel@),
    ensures
        r == sel_max_end(segs@, sel@),
{
    let mut end_ms = segs[sel[0]].end_ms;
    let mut k: usize = 1;
    while k < sel.len()
        invariant
            selection_ok(segs@, sel@),
            1 <= k <= sel@.len(),
            end_ms == sel_max_end(segs@, sel@.subrange(0, k as int)),
        decreases sel.len() - k,
    {
        let idx = sel[k];
        assert(idx < segs@.len());
        if segs[idx].end_ms > end_ms {
            end_ms = segs[idx].end_ms;
        }
        proof {
            let next = sel@.subrange(0, k + 1);
            assert(next.drop_last() =~= sel@.subrange(0, k as int));
        }
        k += 1;
    }
    proof {
        assert(sel@.subrange(0, sel@.len() as int) =~= sel@);
    }
    end_ms
}

fn ids_of(segs: &Vec<TranscriptVersionSegment>, sel: &Vec<usize>) -> (r: Vec<u128>)
    requires
        forall|k: int| 0 <= k < sel@.len() ==> #[trigger] sel@[k] < segs@.len(),
    ensures
        r@ == sel_ids(segs@, sel@),
{
    let mut out: Vec<u128> = Vec::new();
    let mut k: usize = 0;
    while k < sel.len()
        invariant
            forall|q: int| 0 <= q < sel@.len() ==> #[trigger] sel@[q] < segs@.len(),
            0 <= k <= sel@.len(),
            out@ == sel_ids(segs@, sel@.subrange(0, k as int)),
        decreases sel.len() - k,
    {
        let idx = sel[k];
        assert(idx < segs@.len());
        out.push(segs[idx].segment_id);
        proof {
            assert(out@ =~= sel_ids(segs@, sel@.subrange(0, k + 1)));
        }
        k += 1;
    }
    proof {
        assert(sel@.subrange(0, sel@.len() as int) =~= sel@);
    }
    out
}

/// A citation for the whole segments around a requested interval: the
/// interval is widened to the hull of the segments it overlaps until it no
/// longer changes, and those segments are cited.
pub fn build_audio_citation_for_interval(
    citation_id: u128,
    transcript: &TranscriptVersionContent,
    recording_duration_ms: u64,
    requested_start_ms: u64,
    requested_end_ms: u64,
) -> (r: Result<CitationEnvelope, EvidenceResolverError>)
    ensures
        match models::transcript_rule(*transcript) {
            Err(e) => r == Err::<CitationEnvelope, EvidenceResolverError>(
                EvidenceResolverError::Validation(e),
            ),
            Ok(_) => match audio_bounds_rule(
                requested_start_ms,
                requested_end_ms,
                recording_duration_ms,
            ) {
                Err(e) => r == Err::<CitationEnvelope, EvidenceResolverError>(e),
                Ok(_) => exists|k: nat|
                    interval_outcome(
                        *transcript,
                        recording_duration_ms,
                        citation_id,
                        requested_start_ms as int,
                        requested_end_ms as int,
                        k,
                        r,
                    ),
            },
        },
{
    match transcript.validate() {
        Err(e) => {
            return Err(EvidenceResolverError::Validation(e));
        },
        Ok(_) => {},
    }
    validate_audio_bounds(requested_start_ms, requested_end_ms, recording_duration_ms)?;
    let segs = &transcript.segments;
    let ghost a = requested_start_ms as int;
    let ghost b = requested_end_ms as int;
    let nsegs = segs.len();
    proof {
        assert(nsegs == segs@.len());
        models::lemma_valid_transcript_segments(*transcript);
    }
    let mut closed_start = requested_start_ms;
    let mut closed_end = requested_end_ms;
    let ghost mut k: nat = 0;
    let mut sel: Vec<usize> = Vec::new();
    loop
        invariant
            segs == &transcript.segments,
            nsegs == segs@.len(),
            models::transcript_rule(*transcript) is Ok,
            audio_bounds_rule(requested_start_ms, requested_end_ms, recording_duration_ms) is Ok,
            a == requested_start_ms as int,
            b == requested_end_ms as int,
            forall|i: int|
                0 <= i < segs@.len() ==> {
                    &&& #[trigger] segs@[i].start_ms < segs@[i].end_ms
                    &&& segs@[i].end_ms <= MAX_CANONICAL_INTEGER
                },
            forall|i: int, j: int|
                0 <= i <= j < segs@.len() ==> #[trigger] segs@[i].start_ms
                    <= #[trigger] segs@[j].start_ms,
            interval_iter(segs@, a, b, k) == Some((closed_start as int, closed_end as int)),
            closed_start < closed_end <= MAX_CANONICAL_INTEGER,
            k > 0 ==> exists|j: int| 0 <= j < segs@.len() && #[trigger] segs@[j].start_ms == closed_start,
            k > 0 ==> exists|m: int| 0 <= m < segs@.len() && #[trigger] segs@[m].end_ms == closed_end,
        ensures
            sel@ == overlapping(segs@, closed_start as int, closed_end as int),
            interval_iter(segs@, a, b, k) == Some((closed_start as int, closed_end as int)),
            interval_step(segs@, closed_start as int, closed_end as int) == Some(
                (closed_start as int, closed_end as int),
            ),
            forall|q: int| 0 <= q < sel@.len() ==> #[trigger] sel@[q] < segs@.len(),
        decreases (if k == 0 {
            3 * MAX_CANONICAL_INTEGER
        } else {
            0
        }) + closed_start + MAX_CANONICAL_INTEGER - closed_end,
    {
        sel = overlapping_indices(segs, closed_start, closed_end);
        proof {
            lemma_overlapping_facts(segs@, closed_start as int, closed_end as int);
        }
        if sel.len() == 0 {
            proof {
                assert(interval_iter(segs@, a, b, k + 1) is None);
                assert(interval_outcome(
                    *transcript,
                    recording_duration_ms,
                    citation_id,
                    a,
                    b,
                    k + 1,
                    Err(EvidenceResolverError::NoOverlappingSegments),
                ));
            }
            return Err(EvidenceResolverError::NoOverlappingSegments);
        }
        let next_start = segs[sel[0]].start_ms;
        let next_end = max_end(segs, &sel);
        proof {
            lemma_sel_max_end(segs@, sel@);
            assert(sel@[0] < segs@.len());
            if k > 0 {
                let j = choose|j: int| 0 <= j < segs@.len() && #[trigger] segs@[j].start_ms == closed_start;
                assert(overlaps(segs@[j], closed_start as int, closed_end as int));
                assert(sel@.contains(j as usize));
                let wj = choose|w: int| 0 <= w < sel@.len() && sel@[w] == j as usize;
                if wj > 0 {
                    assert(sel@[0] < sel@[wj]);
                }
                assert(segs@[sel@[0] as int].start_ms <= segs@[j].start_ms);
                let m = choose|m: int| 0 <= m < segs@.len() && #[trigger] segs@[m].end_ms == closed_end;
                assert(overlaps(segs@[m], closed_start as int, closed_end as int));
                assert(sel@.contains(m as usize));
                let wm = choose|w: int| 0 <= w < sel@.len() && sel@[w] == m as usize;
                assert(segs@[sel@[wm] as int].end_ms <= next_end);
            }
        }
        if next_start == closed_start && next_end == closed_end {
            break;
        }
        proof {
            assert(interval_iter(segs@, a, b, k + 1) == Some((next_start as int, next_end as int)));
            k = k + 1;
        }
        closed_start = next_start;
        closed_end = next_end;
    }
    let ids = ids_of(segs, &sel);
    let r = build_audio_citation_from_segments(
        citation_id,
        transcript,
        recording_duration_ms,
        ids.as_slice(),
    );
    proof {
        assert(interval_outcome(
            *transcript,
            recording_duration_ms,
            citation_id,
            a,
            b,
            k,
            r,
        ));
    }
    r
}

// ----------------------------------------------------------------------------
// Envelope identity digest
// ----------------------------------------------------------------------------
pub open spec fn artifact_kind_name(k: EvidenceArtifactKind) -> Seq<char> {
    match k {
        EvidenceArtifactKind::Recording => "recording"@,
        EvidenceArtifactKind::Document => "document"@,
    }
}

pub open spec fn artifact_json(a: EvidenceArtifactReference) -> Seq<char> {
    "{\"id\":"@ + canonical::json_uuid(a.id) + ",\"kind\":"@ + canonical::json_string(
        artifact_kind_name(a.kind),
    ) + ",\"version_hash\":"@ + canonical::json_string(a.version_hash@) + "}"@
}

/// A locator as a tagged record, keys in ascending order.
pub open spec fn locator_json(l: EvidenceLocator) -> Seq<char> {
    match l {
        EvidenceLocator::AudioTimeline { start_ms, end_ms } => "{\"end_ms\":"@ + canonical::decimal(
            end_ms as nat,
        ) + ",\"start_ms\":"@ + canonical::decimal(start_ms as nat) + ",\"type\":\"audio_timeline\"}"@,
        EvidenceLocator::DocumentPassage { page_index, section_path, start_byte, end_byte } =>
            "{\"end_byte\":"@ + canonical::decimal(end_byte as nat) + ",\"page_index\":"@
            + canonical::decimal(page_index as nat) + ",\"section_path\":"@
            + canonical::json_string_array(canonical::string_views(section_path@))
            + ",\"start_byte\":"@ + canonical::decimal(start_byte as nat)
            + ",\"type\":\"document_passage\"}"@,
    }
}

pub open spec fn resolution_json(r: CitationResolutionProvenance) -> Seq<char> {
    "{\"segment_ids\":"@ + canonical::json_uuid_array(r.segment_ids@) + ",\"transcript_version_hash\":"@
        + canonical::json_string(r.transcript_version_hash@) + "}"@
}

pub open spec fn snapshot_json(s: CitationSnapshot) -> Seq<char> {
    "{\"content_hash\":"@ + canonical::json_string(s.content_hash@) + ",\"normalization\":"@
        + canonical::json_string(s.normalization@) + ",\"text\":"@ + canonical::json_string(s.text@)
        + "}"@
}

/// The canonical JSON of the part of an envelope that identifies the
/// evidence: everything but the citation's own random id.
pub open spec fn envelope_identity_json(c: CitationEnvelope) -> Seq<char> {
    "{\"artifact\":"@ + artifact_json(c.artifact) + ",\"locator\":"@ + locator_json(c.locator)
        + ",\"resolution\":"@ + resolution_json(c.resolution) + ",\"schema_version\":"@
        + canonical::decimal(c.schema_version as nat) + ",\"snapshot\":"@ + snapshot_json(c.snapshot)
        + "}"@
}

/// The path of the first locator integer beyond the canonical safe range,
/// visiting keys in ascending order.
pub open spec fn locator_unsafe_path(l: EvidenceLocator) -> Option<Seq<char>> {
    match l {
        EvidenceLocator::AudioTimeline { start_ms, end_ms } => if end_ms > MAX_JCS_SAFE_INTEGER {
            Some("$.locator.end_ms"@)
        } else if start_ms > MAX_JCS_SAFE_INTEGER {
            Some("$.locator.start_ms"@)
        } else {
            None
        },
        EvidenceLocator::DocumentPassage { page_index, start_byte, end_byte, .. } => if end_byte
            > MAX_JCS_SAFE_INTEGER {
            Some("$.locator.end_byte"@)
        } else if page_index > MAX_JCS_SAFE_INTEGER {
            Some("$.locator.page_index"@)
        } else if start_byte > MAX_JCS_SAFE_INTEGER {
            Some("$.locator.start_byte"@)
        } else {
            None
        },
    }
}

/// The identity digest of an envelope, or the path of the integer that
/// cannot be hashed canonically.
pub open spec fn envelope_hash_rule(c: CitationEnvelope) -> Result<Seq<char>, Seq<char>> {
    match locator_unsafe_path(c.locator) {
        Some(p) => Err(p),
        None => Ok(
            digest::domain_digest(
                utf8::encode_utf8(CITATION_ENVELOPE_HASH_DOMAIN@),
                utf8::encode_utf8(envelope_identity_json(c)),
            ),
        ),
    }
}

fn write_locator(out: &mut String, l: &EvidenceLocator)
    ensures
        final(out)@ == old(out)@ + locator_json(*l),
{
    let ghost start = out@;
    match l {
        EvidenceLocator::AudioTimeline { start_ms, end_ms } => {
            write_raw(out, "{\"end_ms\":");
            write_decimal(out, *end_ms);
            write_raw(out, ",\"start_ms\":");
            write_decimal(out, *start_ms);
            write_raw(out, ",\"type\":\"audio_timeline\"}");
        },
        EvidenceLocator::DocumentPassage { page_index, section_path, start_byte, end_byte } => {
            write_raw(out, "{\"end_byte\":");
            write_decimal(out, *end_byte);
            write_raw(out, ",\"page_index\":");
            write_decimal(out, *page_index);
            write_raw(out, ",\"section_path\":");
            write_string_array(out, section_path);
            write_raw(out, ",\"start_byte\":");
            write_decimal(out, *start_byte);
            write_raw(out, ",\"type\":\"document_passage\"}");
        },
    }
    proof {
        assert(out@ =~= start + locator_json(*l));
    }
}

fn write_artifact(out: &mut String, a: &EvidenceArtifactReference)
    ensures
        final(out)@ == old(out)@ + artifact_json(*a),
{
    let ghost start = out@;
    write_raw(out, "{\"id\":");
    write_uuid(out, a.id);
    write_raw(out, ",\"kind\":");
    match a.kind {
        EvidenceArtifactKind::Recording => write_string(out, "recording"),
        EvidenceArtifactKind::Document => write_string(out, "document"),
    }
    write_raw(out, ",\"version_hash\":");
    write_string(out, a.version_hash.as_str());
    write_raw(out, "}");
    proof {
        assert(out@ =~= start + artifact_json(*a));
    }
}

fn write_resolution(out: &mut String, r: &CitationResolutionProvenance)
    ensures
        final(out)@ == old(out)@ + resolution_json(*r),
{
    let ghost start = out@;
    write_raw(out, "{\"segment_ids\":");
    write_uuid_array(out, &r.segment_ids);
    write_raw(out, ",\"transcript_version_hash\":");
    write_string(out, r.transcript_version_hash.as_str());
    write_raw(out, "}");
    proof {
        assert(out@ =~= start + resolution_json(*r));
    }
}

fn write_snapshot(out: &mut String, s: &CitationSnapshot)
    ensures
        final(out)@ == old(out)@ + snapshot_json(*s),
{
    let ghost start = out@;
    write_raw(out, "{\"content_hash\":");
    write_string(out, s.content_hash.as_str());
    write_raw(out, ",\"normalization\":");
    write_string(out, s.normalization.as_str());
    write_raw(out, ",\"text\":");
    write_string(out, s.text.as_str());
    write_raw(out, "}");
    proof {
        assert(out@ =~= start + snapshot_json(*s));
    }
}

fn envelope_identity_text(c: &CitationEnvelope) -> (r: String)
    ensures
        r@ == envelope_identity_json(*c),
{
    let mut out = String::new();
    write_raw(&mut out, "{\"artifact\":");
    write_artifact(&mut out, &c.artifact);
    write_raw(&mut out, ",\"locator\":");
    write_locator(&mut out, &c.locator);
    write_raw(&mut out, ",\"resolution\":");
    write_resolution(&mut out, &c.resolution);
    write_raw(&mut out, ",\"schema_version\":");
    write_decimal(&mut out, c.schema_version as u64);
    write_raw(&mut out, ",\"snapshot\":");
    write_snapshot(&mut out, &c.snapshot);
    write_raw(&mut out, "}");
    proof {
        assert(out@ =~= envelope_identity_json(*c));
    }
    out
}

fn locator_path_text(field: &str) -> (r: String)
    ensures
        r@ == "$.locator."@ + field@,
{
    let mut out = String::new();
    write_raw(&mut out, "$.locator.");
    write_raw(&mut out, field);
    out
}

fn check_locator_integers(l: &EvidenceLocator) -> (r: Result<(), HashError>)
    ensures
        match locator_unsafe_path(*l) {
            Some(p) => r matches Err(HashError::UnsafeInteger { path }) && path@ == p,
            None => r is Ok,
        },
{
    proof {
        reveal_strlit("$.locator.");
        reveal_strlit("end_ms");
        reveal_strlit("start_ms");
        reveal_strlit("end_byte");
        reveal_strlit("page_index");
        reveal_strlit("start_byte");
        reveal_strlit("$.locator.end_ms");
        reveal_strlit("$.locator.start_ms");
        reveal_strlit("$.locator.end_byte");
        reveal_strlit("$.locator.page_index");
        reveal_strlit("$.locator.start_byte");
    }
    match l {
        EvidenceLocator::AudioTimeline { start_ms, end_ms } => {
            if *end_ms > MAX_JCS_SAFE_INTEGER {
                let path = locator_path_text("end_ms");
                assert(path@ =~= "$.locator.end_ms"@);
                return Err(HashError::UnsafeInteger { path });
            }
            if *start_ms > MAX_JCS_SAFE_INTEGER {
                let path = locator_path_text("start_ms");
                assert(path@ =~= "$.locator.start_ms"@);
                return Err(HashError::UnsafeInteger { path });
            }
        },
        EvidenceLocator::DocumentPassage { page_index, start_byte, end_byte, .. } => {
            if *end_byte > MAX_JCS_SAFE_INTEGER {
                let path = locator_path_text("end_byte");
                assert(path@ =~= "$.locator.end_byte"@);
                return Err(HashError::UnsafeInteger { path });
            }
            if *page_index > MAX_JCS_SAFE_INTEGER {
                let path = locator_path_text("page_index");
                assert(path@ =~= "$.locator.page_index"@);
                return Err(HashError::UnsafeInteger { path });
            }
            if *start_byte > MAX_JCS_SAFE_INTEGER {
                let path = locator_path_text("start_byte");
                assert(path@ =~= "$.locator.start_byte"@);
                return Err(HashError::UnsafeInteger { path });
            }
        },
    }
    Ok(())
}

/// The identity digest of a citation: domain-separated SHA-256 of the
/// canonical JSON of everything in the envelope but its citation id.
pub fn hash_citation_envelope(citation: &CitationEnvelope) -> (r: Result<String, HashError>)
    ensures
        match envelope_hash_rule(*citation) {
            Ok(d) => r matches Ok(s) && s@ == d && digest::is_sha256_digest(s@),
            Err(p) => r matches Err(HashError::UnsafeInteger { path }) && path@ == p,
        },
{
    check_locator_integers(&citation.locator)?;
    let text = envelope_identity_text(citation);
    Ok(hash_with_domain(CITATION_ENVELOPE_HASH_DOMAIN, text.as_str().as_bytes()))
}

/// The canonical JSON of a whole envelope, its citation id included.
pub open spec fn envelope_json(c: CitationEnvelope) -> Seq<char> {
    "{\"artifact\":"@ + artifact_json(c.artifact) + ",\"citation_id\":"@ + canonical::json_uuid(
        c.citation_id,
    ) + ",\"locator\":"@ + locator_json(c.locator) + ",\"resolution\":"@ + resolution_json(
        c.resolution,
    ) + ",\"schema_version\":"@ + canonical::decimal(c.schema_version as nat) + ",\"snapshot\":"@
        + snapshot_json(c.snapshot) + "}"@
}

/// The stored form of an envelope: UTF-8 of its canonical JSON, or the path
/// of the integer that cannot be written canonically.
pub open spec fn envelope_payload_rule(c: CitationEnvelope) -> Result<Seq<u8>, Seq<char>> {
    match locator_unsafe_path(c.locator) {
        Some(p) => Err(p),
        None => Ok(utf8::encode_utf8(envelope_json(c))),
    }
}

fn envelope_text(c: &CitationEnvelope) -> (r: String)
    ensures
        r@ == envelope_json(*c),
{
    let mut out = String::new();
    write_raw(&mut out, "{\"artifact\":");
    write_artifact(&mut out, &c.artifact);
    write_raw(&mut out, ",\"citation_id\":");
    write_uuid(&mut out, c.citation_id);
    write_raw(&mut out, ",\"locator\":");
    write_locator(&mut out, &c.locator);
    write_raw(&mut out, ",\"resolution\":");
    write_resolution(&mut out, &c.resolution);
    write_raw(&mut out, ",\"schema_version\":");
    write_decimal(&mut out, c.schema_version as u64);
    write_raw(&mut out, ",\"snapshot\":");
    write_snapshot(&mut out, &c.snapshot);
    write_raw(&mut out, "}");
    proof {
        assert(out@ =~= envelope_json(*c));
    }
    out
}

/// The canonical JSON bytes of a whole envelope, as they are stored.
pub fn canonical_envelope_payload(citation: &CitationEnvelope) -> (r: Result<Vec<u8>, HashError>)
    ensures
        match envelope_payload_rule(*citation) {
            Ok(bytes) => r matches Ok(v) && v@ == bytes,
            Err(p) => r matches Err(HashError::UnsafeInteger { path }) && path@ == p,
        },
{
    check_locator_integers(&citation.locator)?;
    let text = envelope_text(citation);
    let mut bytes: Vec<u8> = Vec::new();
    bytes.extend_from_slice(text.as_str().as_bytes());
    proof {
        assert(bytes@ =~= utf8::encode_utf8(text@));
    }
    Ok(bytes)
}

// ----------------------------------------------------------------------------
// Resolution
// ----------------------------------------------------------------------------
/// The envelope's own fields are coherent: known schema and normalisation,
/// canonical digests, and a content hash that matches its snapshot text.
pub open spec fn envelope_well_formed(c: CitationEnvelope) -> bool {
    &&& c.schema_version == CITATION_SCHEMA_VERSION
    &&& c.snapshot.normalization@ == CITATION_TEXT_NORMALIZATION@
    &&& digest::is_sha256_digest(c.artifact.version_hash@)
    &&& digest::is_sha256_digest(c.snapshot.content_hash@)
    &&& digest::is_sha256_digest(c.resolution.transcript_version_hash@)
    &&& citation_text_digest(c.snapshot.text@) == c.snapshot.content_hash@
}

/// What the pinned transcript version says of the envelope.
pub open spec fn pinned_status(
    c: CitationEnvelope,
    duration_ms: u64,
    p: TranscriptVersionContent,
) -> CitationResolutionStatus {
    match hashing::transcript_hash_rule(p) {
        Err(_) => CitationResolutionStatus::Unresolvable,
        Ok(h) => if p.recording_artifact_id != c.artifact.id || p.recording_version_hash@
            != c.artifact.version_hash@ || h != c.resolution.transcript_version_hash@ {
            CitationResolutionStatus::VersionMissing
        } else {
            match locator_rule(p, c.locator, duration_ms) {
                Err(_) => CitationResolutionStatus::Unresolvable,
                Ok(sel) => if sel_ids(p.segments@, sel) == c.resolution.segment_ids@
                    && citation_text_digest(sel_text(p.segments@, sel)) == c.snapshot.content_hash@ {
                    CitationResolutionStatus::Verified
                } else {
                    CitationResolutionStatus::Unresolvable
                },
            }
        },
    }
}

/// The status of a citation against the version of the evidence it pinned.
pub open spec fn historical_status(
    c: CitationEnvelope,
    duration_ms: u64,
    source: RecordingSourceState,
    pinned: Option<TranscriptVersionContent>,
) -> CitationResolutionStatus {
    if !envelope_well_formed(c) || c.artifact.kind != EvidenceArtifactKind::Recording {
        CitationResolutionStatus::Unresolvable
    } else {
        match source {
            RecordingSourceState::Missing => CitationResolutionStatus::SourceMissing,
            RecordingSourceState::VersionMissing => CitationResolutionStatus::VersionMissing,
            RecordingSourceState::Available { actual_version_hash } => if actual_version_hash@
                != c.artifact.version_hash@ {
                CitationResolutionStatus::ArtifactMismatch
            } else {
                match pinned {
                    None => CitationResolutionStatus::VersionMissing,
                    Some(p) => pinned_status(c, duration_ms, p),
                }
            },
        }
    }
}

/// The status of a historically verified citation against the active
/// transcript version.
pub open spec fn active_status(
    c: CitationEnvelope,
    duration_ms: u64,
    pinned: TranscriptVersionContent,
    active: TranscriptVersionContent,
) -> CitationResolutionStatus {
    match (hashing::transcript_hash_rule(pinned), hashing::transcript_hash_rule(active)) {
        (Err(_), _) => CitationResolutionStatus::Unresolvable,
        (_, Err(_)) => CitationResolutionStatus::Unresolvable,
        (Ok(ph), Ok(ah)) => if ah == ph {
            CitationResolutionStatus::Verified
        } else if active.recording_artifact_id != c.artifact.id || active.recording_version_hash@
            != c.artifact.version_hash@ {
            CitationResolutionStatus::VersionMissing
        } else {
            match locator_rule(active, c.locator, duration_ms) {
                Err(_) => CitationResolutionStatus::Unresolvable,
                Ok(sel) => if citation_text_digest(sel_text(active.segments@, sel))
                    == c.snapshot.content_hash@ {
                    CitationResolutionStatus::Superseded
                } else {
                    CitationResolutionStatus::EvidenceChanged
                },
            }
        },
    }
}

/// The status of a citation against the active evidence.
pub open spec fn current_status(
    c: CitationEnvelope,
    duration_ms: u64,
    source: RecordingSourceState,
    pinned: Option<TranscriptVersionContent>,
    active: Option<TranscriptVersionContent>,
) -> CitationResolutionStatus {
    let historical = historical_status(c, duration_ms, source, pinned);
    if historical != CitationResolutionStatus::Verified {
        historical
    } else {
        match (pinned, active) {
            (Some(p), Some(a)) => active_status(c, duration_ms, p, a),
            _ => CitationResolutionStatus::VersionMissing,
        }
    }
}

pub open spec fn opt_content(o: Option<&TranscriptVersionContent>) -> Option<TranscriptVersionContent> {
    match o {
        Some(t) => Some(*t),
        None => None,
    }
}

fn ids_equal(a: &Vec<u128>, b: &Vec<u128>) -> (r: bool)
    ensures
        r == (a@ == b@),
{
    if a.len() != b.len() {
        return false;
    }
    let mut i: usize = 0;
    while i < a.len()
        invariant
            a@.len() == b@.len(),
            0 <= i <= a@.len(),
            forall|k: int| 0 <= k < i ==> a@[k] == b@[k],
        decreases a.len() - i,
    {
        if a[i] != b[i] {
            return false;
        }
        i += 1;
    }
    proof {
        assert(a@ =~= b@);
    }
    true
}

fn envelope_is_well_formed(c: &CitationEnvelope) -> (r: bool)
    ensures
        r == envelope_well_formed(*c),
{
    if c.schema_version != CITATION_SCHEMA_VERSION {
        return false;
    }
    if !text::str_eq(c.snapshot.normalization.as_str(), CITATION_TEXT_NORMALIZATION) {
        return false;
    }
    if !digest::is_canonical_digest(c.artifact.version_hash.as_str()) {
        return false;
    }
    if !digest::is_canonical_digest(c.snapshot.content_hash.as_str()) {
        return false;
    }
    if !digest::is_canonical_digest(c.resolution.transcript_version_hash.as_str()) {
        return false;
    }
    let text_hash = hash_citation_text(c.snapshot.text.as_str());
    text::str_eq(text_hash.as_str(), c.snapshot.content_hash.as_str())
}

/// Resolves a citation against the recording and the transcript version it
/// pinned: `Verified` only when every pinned digest and the cited text still
/// match.
pub fn resolve_historical_citation(
    citation: &CitationEnvelope,
    recording_duration_ms: u64,
    source_state: &RecordingSourceState,
    pinned_transcript: Option<&TranscriptVersionContent>,
) -> (r: CitationResolutionStatus)
    ensures
        r == historical_status(
            *citation,
            recording_duration_ms,
            *source_state,
            opt_content(pinned_transcript),
        ),
{
    if !envelope_is_well_formed(citation) {
        return CitationResolutionStatus::Unresolvable;
    }
    if citation.artifact.kind != EvidenceArtifactKind::Recording {
        return CitationResolutionStatus::Unresolvable;
    }
    match source_state {
        RecordingSourceState::Missing => {
            return CitationResolutionStatus::SourceMissing;
        },
        RecordingSourceState::VersionMissing => {
            return CitationResolutionStatus::VersionMissing;
        },
        RecordingSourceState::Available { actual_version_hash } => {
            if !text::str_eq(actual_version_hash.as_str(), citation.artifact.version_hash.as_str()) {
                return CitationResolutionStatus::ArtifactMismatch;
            }
        },
    }
    let pinned = match pinned_transcript {
        Some(p) => p,
        None => {
            return CitationResolutionStatus::VersionMissing;
        },
    };
    let pinned_hash = match hash_transcript_version(pinned) {
        Ok(h) => h,
        Err(_) => {
            return CitationResolutionStatus::Unresolvable;
        },
    };
    if pinned.recording_artifact_id != citation.artifact.id || !text::str_eq(
        pinned.recording_version_hash.as_str(),
        citation.artifact.version_hash.as_str(),
    ) || !text::str_eq(pinned_hash.as_str(), citation.resolution.transcript_version_hash.as_str()) {
        return CitationResolutionStatus::VersionMissing;
    }
    let span = match resolve_audio_locator(pinned, &citation.locator, recording_duration_ms) {
        Ok(s) => s,
        Err(_) => {
            return CitationResolutionStatus::Unresolvable;
        },
    };
    if !ids_equal(&span.segment_ids, &citation.resolution.segment_ids) {
        return CitationResolutionStatus::Unresolvable;
    }
    let span_hash = hash_citation_text(span.text.as_str());
    if !text::str_eq(span_hash.as_str(), citation.snapshot.content_hash.as_str()) {
        return CitationResolutionStatus::Unresolvable;
    }
    CitationResolutionStatus::Verified
}

/// Resolves a citation against the active transcript version: a verified
/// citation is `Superseded` when a newer version still carries the cited
/// text, and `EvidenceChanged` when it does not.
pub fn resolve_current_citation(
    citation: &CitationEnvelope,
    recording_duration_ms: u64,
    source_state: &RecordingSourceState,
    pinned_transcript: Option<&TranscriptVersionContent>,
    active_transcript: Option<&TranscriptVersionContent>,
) -> (r: CitationResolutionStatus)
    ensures
        r == current_status(
            *citation,
            recording_duration_ms,
            *source_state,
            opt_content(pinned_transcript),
            opt_content(active_transcript),
        ),
{
    let historical = resolve_historical_citation(
        citation,
        recording_duration_ms,
        source_state,
        pinned_transcript,
    );
    if historical != CitationResolutionStatus::Verified {
        return historical;
    }
    let pinned = match pinned_transcript {
        Some(p) => p,
        None => {
            return CitationResolutionStatus::VersionMissing;
        },
    };
    let active = match active_transcript {
        Some(a) => a,
        None => {
            return CitationResolutionStatus::VersionMissing;
        },
    };
    let pinned_hash = match hash_transcript_version(pinned) {
        Ok(h) => h,
        Err(_) => {
            return CitationResolutionStatus::Unresolvable;
        },
    };
    let active_hash = match hash_transcript_version(active) {
        Ok(h) => h,
        Err(_) => {
            return CitationResolutionStatus::Unresolvable;
        },
    };
    if text::str_eq(active_hash.as_str(), pinned_hash.as_str()) {
        return CitationResolutionStatus::Verified;
    }
    if active.recording_artifact_id != citation.artifact.id || !text::str_eq(
        active.recording_version_hash.as_str(),
        citation.artifact.version_hash.as_str(),
    ) {
        return CitationResolutionStatus::VersionMissing;
    }
    let span = match resolve_audio_locator(active, &citation.locator, recording_duration_ms) {
        Ok(s) => s,
        Err(_) => {
            return CitationResolutionStatus::Unresolvable;
        },
    };
    let span_hash = hash_citation_text(span.text.as_str());
    if text::str_eq(span_hash.as_str(), citation.snapshot.content_hash.as_str()) {
        CitationResolutionStatus::Superseded
    } else {
        CitationResolutionStatus::EvidenceChanged
    }
}

// ----------------------------------------------------------------------------
// Laws
// ----------------------------------------------------------------------------
/// The identity digest of an envelope does not depend on its citation id:
/// two envelopes that differ only there hash alike.
pub proof fn lemma_envelope_digest_ignores_citation_id(c1: CitationEnvelope, c2: CitationEnvelope)
    requires
        c1.schema_version == c2.schema_version,
        c1.artifact == c2.artifact,
        c1.locator == c2.locator,
        c1.snapshot == c2.snapshot,
        c1.resolution == c2.resolution,
    ensures
        envelope_hash_rule(c1) == envelope_hash_rule(c2),
{
}

/// Resolving against the active evidence only ever refines a `Verified`
/// historical result; every other historical status is returned as is.
pub proof fn lemma_current_refines_historical(
    c: CitationEnvelope,
    duration_ms: u64,
    source: RecordingSourceState,
    pinned: Option<TranscriptVersionContent>,
    active: Option<TranscriptVersionContent>,
)
    ensures
        historical_status(c, duration_ms, source, pinned) != CitationResolutionStatus::Verified
            ==> current_status(c, duration_ms, source, pinned, active) == historical_status(
            c,
            duration_ms,
            source,
            pinned,
        ),
        current_status(c, duration_ms, source, pinned, active) == CitationResolutionStatus::Verified
            ==> historical_status(c, duration_ms, source, pinned)
            == CitationResolutionStatus::Verified,
{
}

/// In a transcript whose segment ids are unique, a selection of in-range
/// indices is fixed by the ids it selects.
proof fn lemma_selection_fixed_by_ids(
    segs: Seq<TranscriptVersionSegment>,
    s1: Seq<usize>,
    s2: Seq<usize>,
)
    requires
        forall|i: int, j: int|
            0 <= i < j < segs.len() ==> #[trigger] segs[i].segment_id != #[trigger] segs[j].segment_id,
        forall|k: int| 0 <= k < s1.len() ==> #[trigger] s1[k] < segs.len(),
        forall|k: int| 0 <= k < s2.len() ==> #[trigger] s2[k] < segs.len(),
        sel_ids(segs, s1) == sel_ids(segs, s2),
    ensures
        s1 == s2,
{
    assert(s1.len() == sel_ids(segs, s1).len());
    assert forall|k: int| 0 <= k < s1.len() implies s1[k] == s2[k] by {
        assert(sel_ids(segs, s1)[k] == sel_ids(segs, s2)[k]);
        assert(s1[k] < segs.len());
        assert(s2[k] < segs.len());
        assert(sel_ids(segs, s1)[k] == segs[s1[k] as int].segment_id);
        assert(sel_ids(segs, s2)[k] == segs[s2[k] as int].segment_id);
        let a = s1[k] as int;
        let b = s2[k] as int;
        if a < b {
            assert(segs[a].segment_id != segs[b].segment_id);
        } else if b < a {
            assert(segs[b].segment_id != segs[a].segment_id);
        }
    }
    assert(s1 =~= s2);
}

/// A citation built from a transcript's segments resolves as `Verified`
/// against that transcript and its recording version, historically and as
/// the active version, whenever its snapshot text is in Unicode
/// Normalization Form C.
pub proof fn lemma_built_citation_verifies(
    t: TranscriptVersionContent,
    duration_ms: u64,
    citation_id: u128,
    ids: Seq<u128>,
    c: CitationEnvelope,
    source: RecordingSourceState,
)
    requires
        t.segments@.len() <= usize::MAX,
        from_segments_outcome(
            t,
            duration_ms,
            citation_id,
            ids,
            Ok::<CitationEnvelope, EvidenceResolverError>(c),
        ),
        nfc_normalized(c.snapshot.text@) == c.snapshot.text@,
        source matches RecordingSourceState::Available { actual_version_hash }
            && actual_version_hash@ == t.recording_version_hash@,
    ensures
        historical_status(c, duration_ms, source, Some(t)) == CitationResolutionStatus::Verified,
        current_status(c, duration_ms, source, Some(t), Some(t))
            == CitationResolutionStatus::Verified,
{
    let segs = t.segments@;
    let idx = from_segments_rule(t, duration_ms, ids)->Ok_0;
    lemma_normalized_citation_text_idempotent(sel_text(segs, idx));
    models::lemma_valid_transcript_segments(t);
    lemma_valid_transcript_hashes(t);
    lemma_no_missing_prefix(segs, ids, ids.len() as int);
    assert forall|k: int| 0 <= k < idx.len() implies #[trigger] idx[k] < segs.len()
        && segs[idx[k] as int].segment_id == ids[k] by {
        assert(position_of(segs, ids[k]) is Some);
        lemma_position_prefix(segs, ids[k], segs.len() as int);
    }
    assert(sel_ids(segs, idx) =~= ids);
    let start = segs[idx[0] as int].start_ms;
    let end = sel_max_end(segs, idx) as u64;
    let sel = overlapping(segs, start as int, end as int);
    lemma_overlapping_facts(segs, start as int, end as int);
    assert(sel_ids(segs, sel) == ids);
    assert(sel.len() == ids.len());
    lemma_selection_fixed_by_ids(segs, sel, idx);
    assert(digest::is_sha256_digest(t.recording_version_hash@));
    assert(envelope_well_formed(c));
    assert(locator_rule(t, c.locator, duration_ms) == Ok::<Seq<usize>, EvidenceResolverError>(sel));
    assert(pinned_status(c, duration_ms, t) == CitationResolutionStatus::Verified);
}


/// How the state of the recording decides the historical status of a
/// citation.  A citation that is not a well-formed recording citation is
/// unresolvable.  For one that is: a missing recording gives
/// `SourceMissing`, a recording whose pinned version is gone gives
/// `VersionMissing`, an available recording of another version gives
/// `ArtifactMismatch`, and the right version without its pinned transcript
/// gives `VersionMissing`.  `SourceMissing` comes from a missing recording
/// only, and `ArtifactMismatch` from a version mismatch only.
pub proof fn lemma_historical_status_by_source(
    c: CitationEnvelope,
    duration_ms: u64,
    source: RecordingSourceState,
    pinned: Option<TranscriptVersionContent>,
)
    ensures
        !(envelope_well_formed(c) && c.artifact.kind == EvidenceArtifactKind::Recording) ==> historical_status(
            c,
            duration_ms,
            source,
            pinned,
        ) == CitationResolutionStatus::Unresolvable,
        envelope_well_formed(c) && c.artifact.kind == EvidenceArtifactKind::Recording ==> {
            &&& source is Missing ==> historical_status(c, duration_ms, source, pinned)
                == CitationResolutionStatus::SourceMissing
            &&& source is VersionMissing ==> historical_status(c, duration_ms, source, pinned)
                == CitationResolutionStatus::VersionMissing
            &&& (source matches RecordingSourceState::Available { actual_version_hash }
                && actual_version_hash@ != c.artifact.version_hash@) ==> historical_status(
                c,
                duration_ms,
                source,
                pinned,
            ) == CitationResolutionStatus::ArtifactMismatch
            &&& (source matches RecordingSourceState::Available { actual_version_hash }
                && actual_version_hash@ == c.artifact.version_hash@ && pinned is None) ==> historical_status(
                c,
                duration_ms,
                source,
                pinned,
            ) == CitationResolutionStatus::VersionMissing
        },
        historical_status(c, duration_ms, source, pinned) == CitationResolutionStatus::SourceMissing
            ==> source is Missing,
        historical_status(c, duration_ms, source, pinned) == CitationResolutionStatus::ArtifactMismatch
            ==> (source matches RecordingSourceState::Available { actual_version_hash }
            && actual_version_hash@ != c.artifact.version_hash@),
{
}

} // verus!
