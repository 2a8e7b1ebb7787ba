//! Filtering and rendering of game-item records.
//!
//! A batch of [`item::Item`] records is narrowed by an optional relic filter
//! and an optional prefix search, and the survivors are rendered either as
//! bordered detail blocks or as a compact listing. Every function states its
//! result over sequences of characters.

pub mod filter;
pub mod item;
pub mod pipeline;
pub mod render;
pub mod text;
pub mod wrap;
