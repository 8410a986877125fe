//! Batch translation of a question-answering dataset.
//!
//! A dataset is a tree of titled documents, paragraph groups and question
//! records. Translation walks that tree once, gathers every translatable
//! text into one ordered batch, hands the batch to a translation backend,
//! and rebuilds a structurally identical tree in which each translatable
//! field is replaced by the backend's text at the same batch position and
//! every identifier, flag and offset is carried through unchanged.

pub mod gateway;
pub mod laws;
pub mod model;
pub mod rebuild;
pub mod texts;
