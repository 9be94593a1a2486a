//! Enrolling a recording file: its version hash, taken over its bytes and
//! refused when the file changed while it was read, which identity it is
//! stored under, and which media type its extension names.  Reading the file
//! happens outside the library.
use vstd::prelude::*;

use crate::digest;
use crate::digest::Sha256Stream;
use crate::ids;
use crate::text;
use crate::text::{str_eq, string_from, to_ascii_lowercase};

use super::models::RecordingArtifactKind;
use super::repository::{EvidenceRepositoryError, StoredRecordingArtifact, StoredRecordingVersion};

verus! {

#[derive(Debug, Clone, PartialEq, Eq)]
pub struct EnrolledRecording {
    pub artifact: StoredRecordingArtifact,
    pub version: StoredRecordingVersion,
}

#[derive(Debug, Clone, PartialEq, Eq)]
pub enum RecordingEnrollmentError {
    Repository(EvidenceRepositoryError),
    /// A failure to read the file, with its message.
    Io(String),
    HashTask(String),
    SourceChanged,
    InvalidArtifactId,
    InvalidArtifactKind,
}

/// When a file was last modified, as its signed distance from the Unix
/// epoch: `after_epoch` tells the side, `seconds` and `nanos` the distance.
#[derive(Debug, Clone, Copy, PartialEq, Eq, Structural)]
pub struct ModifiedTime {
    pub after_epoch: bool,
    pub seconds: u64,
    pub nanos: u32,
}

/// What is compared before and after a file is hashed: its length and,
/// where the platform reports it, its modification time.
#[derive(Debug, Clone, Copy, PartialEq, Eq, Structural)]
pub struct FileFingerprint {
    pub byte_length: u64,
    pub modified: Option<ModifiedTime>,
}

/// A file whose fingerprint is the same after it was read as before is
/// taken to be unchanged; otherwise enrollment refuses it.
pub fn check_unchanged(before: &FileFingerprint, after: &FileFingerprint) -> (r: Result<(), RecordingEnrollmentError>)
    ensures
        (r is Ok) == (*before == *after),
        r is Err ==> r == Err::<(), RecordingEnrollmentError>(RecordingEnrollmentError::SourceChanged),
{
    let same_time = match (before.modified, after.modified) {
        (None, None) => true,
        (Some(a), Some(b)) => a.after_epoch == b.after_epoch && a.seconds == b.seconds && a.nanos == b.nanos,
        _ => false,
    };
    if before.byte_length == after.byte_length && same_time {
        Ok(())
    } else {
        Err(RecordingEnrollmentError::SourceChanged)
    }
}

/// A hasher for a recording's bytes, fed nothing yet.
pub fn recording_hasher() -> (h: Sha256Stream)
    ensures
        digest::sha256_fed(h) == Seq::<u8>::empty(),
{
    digest::sha256_stream()
}

/// Feeds the next piece of a recording's bytes to its hasher.
pub fn feed_recording(h: &mut Sha256Stream, chunk: &[u8])
    ensures
        digest::sha256_fed(*final(h)) == digest::sha256_fed(*old(h)) + chunk@,
{
    digest::sha256_feed(h, chunk)
}

/// The version hash of a recording whose bytes are `content`: `sha256:` and
/// the hexadecimal SHA-256 of the bytes, with no domain label.
pub fn recording_content_hash(content: &[u8]) -> (r: String)
    ensures
        r@ == digest::digest_text(digest::sha256_spec(content@)),
        digest::is_sha256_digest(r@),
{
    digest::content_digest(content)
}

/// The version hash of a recording read in pieces: refused when the file
/// changed while it was read, and otherwise the hash of every byte fed,
/// the same text that `recording_content_hash` gives for those bytes.
pub fn stable_recording_hash(hasher: Sha256Stream, before: &FileFingerprint, after: &FileFingerprint) -> (r:
    Result<String, RecordingEnrollmentError>)
    ensures
        (r is Ok) == (*before == *after),
        r matches Err(e) ==> e == RecordingEnrollmentError::SourceChanged,
        r matches Ok(h) ==> h@ == digest::digest_text(digest::sha256_spec(digest::sha256_fed(hasher)))
            && digest::is_sha256_digest(h@),
{
    match check_unchanged(before, after) {
        Err(e) => Err(e),
        Ok(()) => Ok(digest::finish_digest(hasher)),
    }
}

/// The kind named by a stored kind column.
pub open spec fn stored_kind(s: Seq<char>) -> Option<RecordingArtifactKind> {
    if s == "captured"@ {
        Some(RecordingArtifactKind::Captured)
    } else if s == "imported"@ {
        Some(RecordingArtifactKind::Imported)
    } else {
        None
    }
}

/// A meeting that already has a recording keeps its identity and kind; the
/// stored id must be a UUID and the stored kind a known one.
pub fn existing_identity(artifact: &StoredRecordingArtifact) -> (r: Result<
    (u128, RecordingArtifactKind),
    RecordingEnrollmentError,
>)
    ensures
        match ids::parsed_uuid(artifact.id@) {
            None => r == Err::<(u128, RecordingArtifactKind), RecordingEnrollmentError>(
                RecordingEnrollmentError::InvalidArtifactId,
            ),
            Some(id) => match stored_kind(artifact.kind@) {
                None => r == Err::<(u128, RecordingArtifactKind), RecordingEnrollmentError>(
                    RecordingEnrollmentError::InvalidArtifactKind,
                ),
                Some(kind) => r == Ok::<(u128, RecordingArtifactKind), RecordingEnrollmentError>(
                    (id, kind),
                ),
            },
        },
{
    let id = match ids::parse_uuid(artifact.id.as_str()) {
        Some(id) => id,
        None => {
            return Err(RecordingEnrollmentError::InvalidArtifactId);
        },
    };
    proof {
        reveal_strlit("captured");
        reveal_strlit("imported");
    }
    let kind = if str_eq(artifact.kind.as_str(), "captured") {
        RecordingArtifactKind::Captured
    } else if str_eq(artifact.kind.as_str(), "imported") {
        RecordingArtifactKind::Imported
    } else {
        return Err(RecordingEnrollmentError::InvalidArtifactKind);
    };
    Ok((id, kind))
}

/// The identity to enroll a recording under: that of the meeting's existing
/// recording, or a fresh random id with the requested kind.
pub fn enrollment_identity(existing: Option<&StoredRecordingArtifact>, kind: RecordingArtifactKind) -> (r:
    Result<(u128, RecordingArtifactKind), RecordingEnrollmentError>)
    ensures
        match existing {
            Some(a) => match ids::parsed_uuid(a.id@) {
                None => r == Err::<(u128, RecordingArtifactKind), RecordingEnrollmentError>(
                    RecordingEnrollmentError::InvalidArtifactId,
                ),
                Some(id) => match stored_kind(a.kind@) {
                    None => r == Err::<(u128, RecordingArtifactKind), RecordingEnrollmentError>(
                        RecordingEnrollmentError::InvalidArtifactKind,
                    ),
                    Some(k) => r == Ok::<(u128, RecordingArtifactKind), RecordingEnrollmentError>(
                        (id, k),
                    ),
                },
            },
            None => r matches Ok((_, k)) && k == kind,
        },
{
    match existing {
        Some(a) => existing_identity(a),
        None => Ok((ids::random_id(), kind)),
    }
}

/// The media type named by a lower-cased file extension.
pub open spec fn media_type_for(ext: Option<Seq<char>>) -> Seq<char> {
    match ext {
        Some(e) => if e == "wav"@ {
            "audio/wav"@
        } else if e == "mp3"@ {
            "audio/mpeg"@
        } else if e == "m4a"@ || e == "mp4"@ {
            "audio/mp4"@
        } else if e == "webm"@ {
            "audio/webm"@
        } else if e == "ogg"@ || e == "oga"@ {
            "audio/ogg"@
        } else if e == "flac"@ {
            "audio/flac"@
        } else {
            "application/octet-stream"@
        },
        None => "application/octet-stream"@,
    }
}

/// The media type of a recording file, from its extension in any letter
/// case; an unknown or absent extension gives a generic byte stream.
pub fn media_type_for_extension(extension: Option<&str>) -> (r: String)
    ensures
        r@ == media_type_for(
            match extension {
                Some(e) => Some(text::ascii_lower(e@)),
                None => None,
            },
        ),
{
    proof {
        reveal_strlit("wav");
        reveal_strlit("mp3");
        reveal_strlit("m4a");
        reveal_strlit("mp4");
        reveal_strlit("webm");
        reveal_strlit("ogg");
        reveal_strlit("oga");
        reveal_strlit("flac");
    }
    let name: &str = match extension {
        Some(e) => {
            let lower = to_ascii_lowercase(e);
            let l = lower.as_str();
            if str_eq(l, "wav") {
                "audio/wav"
            } else if str_eq(l, "mp3") {
                "audio/mpeg"
            } else if str_eq(l, "m4a") || str_eq(l, "mp4") {
                "audio/mp4"
            } else if str_eq(l, "webm") {
                "audio/webm"
            } else if str_eq(l, "ogg") || str_eq(l, "oga") {
                "audio/ogg"
            } else if str_eq(l, "flac") {
                "audio/flac"
            } else {
                "application/octet-stream"
            }
        },
        None => "application/octet-stream",
    };
    string_from(name)
}

} // verus!
