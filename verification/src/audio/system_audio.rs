//! The payloads of the events that report other applications starting and
//! stopping system audio.
use vstd::prelude::*;

verus! {

/// The applications that started playing audio.
#[derive(Debug, Clone, PartialEq, Eq)]
pub struct SystemAudioStartedPayload {
    pub apps: Vec<String>,
}

/// System audio stopped.
#[derive(Debug, Clone, Copy, PartialEq, Eq, Structural)]
pub struct SystemAudioStoppedPayload;

} // verus!
