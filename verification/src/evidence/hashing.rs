//! Canonical payload and content digest of a transcript version.
use vstd::prelude::*;

use crate::canonical;
use crate::canonical::{write_decimal, write_opt_string, write_raw, write_string, write_uuid};
use crate::digest;
use crate::digest::hash_with_domain;
use crate::expert_profiles::hashing::{HashError, MAX_JCS_SAFE_INTEGER};
use vstd::utf8;

use super::models::{TranscriptVersionContent, TranscriptVersionSegment};

verus! {

pub const TRANSCRIPT_VERSION_HASH_DOMAIN: &'static str = "meeting-assistant-transcript-version-v1\0";

/// Canonical JSON text of one segment (keys in ascending order).
pub open spec fn segment_json(s: TranscriptVersionSegment) -> Seq<char> {
    "{\"end_ms\":"@ + canonical::decimal(s.end_ms as nat) + ",\"segment_id\":"@ + canonical::json_uuid(s.segment_id)
        + ",\"source\":"@ + canonical::json_opt_string(canonical::opt_view(s.source)) + ",\"speaker\":"@
        + canonical::json_opt_string(canonical::opt_view(s.speaker)) + ",\"start_ms\":"@ + canonical::decimal(s.start_ms as nat)
        + ",\"text\":"@ + canonical::json_string(s.text@) + "}"@
}

pub open spec fn segment_items(segs: Seq<TranscriptVersionSegment>) -> Seq<char>
    decreases segs.len(),
{
    if segs.len() == 0 {
        Seq::empty()
    } else if segs.len() == 1 {
        segment_json(segs[0])
    } else {
        segment_items(segs.drop_last()) + ","@ + segment_json(segs.last())
    }
}

/// Canonical JSON text of a transcript version (keys in ascending order).
pub open spec fn transcript_json(t: TranscriptVersionContent) -> Seq<char> {
    "{\"configuration_hash\":"@ + canonical::json_opt_string(canonical::opt_view(t.configuration_hash))
        + ",\"engine\":"@ + canonical::json_string(t.engine@) + ",\"language\":"@ + canonical::json_opt_string(
        canonical::opt_view(t.language),
    ) + ",\"model\":"@ + canonical::json_string(t.model@) + ",\"recording_artifact_id\":"@ + canonical::json_uuid(
        t.recording_artifact_id,
    ) + ",\"recording_version_hash\":"@ + canonical::json_string(t.recording_version_hash@)
        + ",\"schema_version\":"@ + canonical::decimal(t.schema_version as nat) + ",\"segments\":["@
        + segment_items(t.segments@) + "]}"@
}

/// The JSON path of the first integer of segment `i` beyond the safe range
/// (keys are visited in ascending order, so `end_ms` before `start_ms`).
pub open spec fn segment_unsafe_path(segs: Seq<TranscriptVersionSegment>, i: int) -> Option<
    Seq<char>,
> {
    if segs[i].end_ms > MAX_JCS_SAFE_INTEGER {
        Some("$.segments["@ + canonical::decimal(i as nat) + "].end_ms"@)
    } else if segs[i].start_ms > MAX_JCS_SAFE_INTEGER {
        Some("$.segments["@ + canonical::decimal(i as nat) + "].start_ms"@)
    } else {
        None
    }
}

pub open spec fn first_unsafe_path(segs: Seq<TranscriptVersionSegment>, n: int) -> Option<
    Seq<char>,
>
    decreases n,
{
    if n <= 0 {
        None
    } else {
        match first_unsafe_path(segs, n - 1) {
            Some(p) => Some(p),
            None => segment_unsafe_path(segs, n - 1),
        }
    }
}

proof fn lemma_first_unsafe_stable(segs: Seq<TranscriptVersionSegment>, n: int, m: int)
    requires
        0 <= n <= m,
        first_unsafe_path(segs, n) is Some,
    ensures
        first_unsafe_path(segs, m) == first_unsafe_path(segs, n),
    decreases m - n,
{
    if n < m {
        lemma_first_unsafe_stable(segs, n, m - 1);
    }
}

fn write_segment(out: &mut String, s: &TranscriptVersionSegment)
    ensures
        final(out)@ == old(out)@ + segment_json(*s),
{
    let ghost start = out@;
    write_raw(out, "{\"end_ms\":");
    write_decimal(out, s.end_ms);
    write_raw(out, ",\"segment_id\":");
    write_uuid(out, s.segment_id);
    write_raw(out, ",\"source\":");
    write_opt_string(out, &s.source);
    write_raw(out, ",\"speaker\":");
    write_opt_string(out, &s.speaker);
    write_raw(out, ",\"start_ms\":");
    write_decimal(out, s.start_ms);
    write_raw(out, ",\"text\":");
    write_string(out, s.text.as_str());
    write_raw(out, "}");
    proof {
        assert(out@ =~= start + segment_json(*s));
    }
}

/// The canonical JSON text of a transcript version.
pub fn transcript_json_text(t: &TranscriptVersionContent) -> (r: String)
    ensures
        r@ == transcript_json(*t),
{
    let mut out = String::new();
    write_raw(&mut out, "{\"configuration_hash\":");
    write_opt_string(&mut out, &t.configuration_hash);
    write_raw(&mut out, ",\"engine\":");
    write_string(&mut out, t.engine.as_str());
    write_raw(&mut out, ",\"language\":");
    write_opt_string(&mut out, &t.language);
    write_raw(&mut out, ",\"model\":");
    write_string(&mut out, t.model.as_str());
    write_raw(&mut out, ",\"recording_artifact_id\":");
    write_uuid(&mut out, t.recording_artifact_id);
    write_raw(&mut out, ",\"recording_version_hash\":");
    write_string(&mut out, t.recording_version_hash.as_str());
    write_raw(&mut out, ",\"schema_version\":");
    write_decimal(&mut out, t.schema_version as u64);
    write_raw(&mut out, ",\"segments\":[");
    let ghost head = out@;
    let segs = &t.segments;
    let mut i: usize = 0;
    proof {
        assert(segs@.subrange(0, 0) =~= Seq::<TranscriptVersionSegment>::empty());
        assert(out@ =~= head + segment_items(segs@.subrange(0, 0)));
    }
    while i < segs.len()
        invariant
            segs == &t.segments,
            0 <= i <= segs@.len(),
            out@ == head + segment_items(segs@.subrange(0, i as int)),
        decreases segs.len() - i,
    {
        if i > 0 {
            write_raw(&mut out, ",");
        }
        write_segment(&mut out, &segs[i]);
        proof {
            let next = segs@.subrange(0, i + 1);
            assert(next.drop_last() =~= segs@.subrange(0, i as int));
            assert(out@ =~= head + segment_items(next));
        }
        i += 1;
    }
    write_raw(&mut out, "]}");
    proof {
        assert(segs@.subrange(0, segs@.len() as int) =~= segs@);
        assert(out@ =~= transcript_json(*t));
    }
    out
}

fn unsafe_path_text(i: usize, field: &str) -> (r: String)
    ensures
        r@ == "$.segments["@ + canonical::decimal(i as nat) + field@,
{
    let mut out = String::new();
    write_raw(&mut out, "$.segments[");
    write_decimal(&mut out, i as u64);
    write_raw(&mut out, field);
    proof {
        assert(out@ =~= "$.segments["@ + canonical::decimal(i as nat) + field@);
    }
    out
}

/// Rejects a transcript holding an integer beyond the canonical safe range.
fn check_safe_integers(t: &TranscriptVersionContent) -> (r: Result<(), HashError>)
    ensures
        match first_unsafe_path(t.segments@, t.segments@.len() as int) {
            Some(p) => r matches Err(HashError::UnsafeInteger { path }) && path@ == p,
            None => r is Ok,
        },
{
    let segs = &t.segments;
    let mut i: usize = 0;
    while i < segs.len()
        invariant
            segs == &t.segments,
            0 <= i <= segs@.len(),
            first_unsafe_path(segs@, i as int) is None,
        decreases segs.len() - i,
    {
        let s = &segs[i];
        if s.end_ms > MAX_JCS_SAFE_INTEGER {
            let path = unsafe_path_text(i, "].end_ms");
            proof {
                lemma_first_unsafe_stable(segs@, i + 1, segs@.len() as int);
            }
            return Err(HashError::UnsafeInteger { path });
        }
        if s.start_ms > MAX_JCS_SAFE_INTEGER {
            let path = unsafe_path_text(i, "].start_ms");
            proof {
                lemma_first_unsafe_stable(segs@, i + 1, segs@.len() as int);
            }
            return Err(HashError::UnsafeInteger { path });
        }
        i += 1;
    }
    Ok(())
}

/// The canonical payload of a transcript version: UTF-8 of its canonical JSON.
pub open spec fn transcript_payload_rule(t: TranscriptVersionContent) -> Result<
    Seq<u8>,
    Seq<char>,
> {
    match first_unsafe_path(t.segments@, t.segments@.len() as int) {
        Some(p) => Err(p),
        None => Ok(utf8::encode_utf8(transcript_json(t))),
    }
}

/// The content digest of a transcript version, or the path of the first
/// integer that cannot be represented canonically.
pub open spec fn transcript_hash_rule(t: TranscriptVersionContent) -> Result<Seq<char>, Seq<char>> {
    match transcript_payload_rule(t) {
        Ok(bytes) => Ok(digest::domain_digest(utf8::encode_utf8(TRANSCRIPT_VERSION_HASH_DOMAIN@), bytes)),
        Err(p) => Err(p),
    }
}

pub fn canonical_transcript_payload(transcript: &TranscriptVersionContent) -> (r: Result<
    Vec<u8>,
    HashError,
>)
    ensures
        match transcript_payload_rule(*transcript) {
            Ok(bytes) => r matches Ok(v) && v@ == bytes,
            Err(p) => r matches Err(HashError::UnsafeInteger { path }) && path@ == p,
        },
{
    check_safe_integers(transcript)?;
    let text = transcript_json_text(transcript);
    let mut bytes: Vec<u8> = Vec::new();
    bytes.extend_from_slice(text.as_str().as_bytes());
    proof {
        assert(bytes@ =~= utf8::encode_utf8(text@));
    }
    Ok(bytes)
}

pub fn hash_transcript_version(transcript: &TranscriptVersionContent) -> (r: Result<
    String,
    HashError,
>)
    ensures
        match transcript_hash_rule(*transcript) {
            Ok(d) => r matches Ok(s) && s@ == d && digest::is_sha256_digest(s@),
            Err(p) => r matches Err(HashError::UnsafeInteger { path }) && path@ == p,
        },
{
    let payload = canonical_transcript_payload(transcript)?;
    Ok(hash_with_domain(TRANSCRIPT_VERSION_HASH_DOMAIN, payload.as_slice()))
}

} // verus!
