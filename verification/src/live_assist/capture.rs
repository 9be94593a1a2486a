//! The sample arithmetic of the live-assist capture ring: where a capture
//! starts, with its pre-roll, and whether the ring still holds it.  The
//! samples themselves stay with the audio stream outside the library.
use vstd::prelude::*;

verus! {

pub const BUFFER_SECONDS: usize = 60;

pub const PRE_ROLL_SECONDS: usize = 4;

/// Where a capture was signalled: the index of the next sample, and the
/// monotonic millisecond at which it was signalled.
#[derive(Debug, Clone, Copy, PartialEq, Eq, Structural)]
pub struct CaptureMarker {
    pub signal_sample_index: u64,
    pub signal_at_ms: u64,
}

#[derive(Debug, Clone, Copy, PartialEq, Eq, Structural)]
pub enum CaptureError {
    NotReceiving,
    NotConfigured,
    BeyondRetention,
    EmptyClip,
}

/// How many mono samples the ring keeps at a sample rate.
pub fn ring_capacity(sample_rate: u32) -> (r: u64)
    ensures
        r == sample_rate * BUFFER_SECONDS,
{
    let seconds = BUFFER_SECONDS as u64;
    assert(seconds == 60);
    sample_rate as u64 * seconds
}

/// A capture can only be signalled on a configured stream that has
/// delivered samples; it starts at the next sample.
pub fn capture_marker(sample_rate: u32, has_received: bool, total_samples: u64, now_ms: u64) -> (r:
    Result<CaptureMarker, CaptureError>)
    ensures
        (sample_rate == 0 || !has_received) ==> r == Err::<CaptureMarker, CaptureError>(
            CaptureError::NotReceiving,
        ),
        !(sample_rate == 0 || !has_received) ==> r == Ok::<CaptureMarker, CaptureError>(
            CaptureMarker { signal_sample_index: total_samples, signal_at_ms: now_ms },
        ),
{
    if sample_rate == 0 || !has_received {
        return Err(CaptureError::NotReceiving);
    }
    Ok(CaptureMarker { signal_sample_index: total_samples, signal_at_ms: now_ms })
}

pub open spec fn sat_sub(a: int, b: int) -> int {
    if a >= b {
        a - b
    } else {
        0
    }
}

/// The offset in the ring of the first sample of a clip: the pre-roll before
/// the signal, when the ring still holds it.  The ring holds the last
/// `buffered` of `total_samples` samples.
pub fn clip_start_offset(marker: CaptureMarker, sample_rate: u32, total_samples: u64, buffered: u64) -> (r:
    Result<u64, CaptureError>)
    ensures
        sample_rate == 0 ==> r == Err::<u64, CaptureError>(CaptureError::NotConfigured),
        sample_rate != 0 ==> ({
            let ring_start = sat_sub(total_samples as int, buffered as int);
            let start = sat_sub(
                marker.signal_sample_index as int,
                sample_rate * PRE_ROLL_SECONDS as int,
            );
            &&& start < ring_start ==> r == Err::<u64, CaptureError>(CaptureError::BeyondRetention)
            &&& start >= ring_start ==> r == Ok::<u64, CaptureError>((start - ring_start) as u64)
        }),
{
    if sample_rate == 0 {
        return Err(CaptureError::NotConfigured);
    }
    let ring_start = total_samples.saturating_sub(buffered);
    let seconds = PRE_ROLL_SECONDS as u64;
    assert(seconds == 4);
    let pre_roll: u64 = sample_rate as u64 * seconds;
    let requested_start = marker.signal_sample_index.saturating_sub(pre_roll);
    if requested_start < ring_start {
        return Err(CaptureError::BeyondRetention);
    }
    Ok(requested_start - ring_start)
}

/// How long a capture lasted, in milliseconds, by the monotonic clock.
pub fn capture_ms(marker: CaptureMarker, now_ms: u64) -> (r: u64)
    ensures
        r == sat_sub(now_ms as int, marker.signal_at_ms as int),
{
    now_ms.saturating_sub(marker.signal_at_ms)
}

} // verus!
