//! Verified core of the `TrivializationReady` derive: it reads the `#[From]`,
//! `#[Into]`, `#[Transform]` and `#[MacroTransform]` attributes of a data
//! structure and renders the `From` implementations that the derive emits.

pub mod derive;
pub mod from;
pub mod laws;
pub mod metadata;
pub mod attributes;
pub mod outside;
pub mod seqs;
pub mod syntax;
pub mod text;

pub use derive::derive_trivialization_ready;
