//! Live assist: streaming answers from a configured chat provider while a
//! meeting runs, under explicit privacy and context rules.
pub mod provider;
pub mod provider_settings;
pub mod credential_store;
pub mod models;
pub mod session;
pub mod capture;
pub mod voice_harness;
pub mod harness_workload;
pub mod profile_choices;
