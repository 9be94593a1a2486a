//! Expert profiles: versioned, validated configuration that shapes generated
//! meeting output, with evaluation plans and deterministic rendering.
pub mod models;
pub mod hashing;
pub mod validation;
pub mod rendering;
pub mod presets;
pub mod commands;
pub mod evaluation;
pub mod safety_gate;
pub mod generation;
pub mod bundle;
pub mod repository;
