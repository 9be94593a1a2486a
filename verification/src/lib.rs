//! Verified core of a local-first meeting assistant: immutable evidence
//! records, citation resolution, expert-profile validation and rendering,
//! and the live-assist decision logic.
pub mod text;
pub mod digest;
pub mod canonical;
pub mod ids;
pub mod app_paths;
pub mod audio;
pub mod onboarding;
pub mod evidence;
pub mod expert_profiles;
pub mod live_assist;
