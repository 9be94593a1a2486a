//! Immutable local evidence: recording identities, versioned transcript
//! interpretations, citations that resolve against them, and provenance.
pub mod models;
pub mod hashing;
pub mod citation;
pub mod resolver;
pub mod repository;
pub mod provenance;
pub mod enrollment;
