//! Condensation pipeline for a knowledge-graph dump: classifies entities into
//! products and organisations, enriches them with certification facts from
//! auxiliary registries, and propagates organisation certifications onto the
//! products they manufacture.

pub mod advisors;
pub mod cache;
pub mod condensing;
pub mod dump;
pub mod errors;
pub mod ids;
pub mod knowledge;
pub mod text;
pub mod transcribing;
pub mod wikidata;
