//! Renaming of audio files from their tags: a percent-escaped filename
//! template rendered against a metadata record, and the per-file and batch
//! decisions that follow from the rendered name.
pub mod laws;
pub mod policy;
pub mod template;
pub mod text;
