//! Records engine for "split" timing events: traversals of stairs or an
//! elevator, in either direction, optionally while carrying a load.
//!
//! The library validates submitted splits against a configurable policy,
//! groups persisted splits into the six fixed categories, keeps the best
//! and worst time per category, guards against accidental
//! double-submission, and renders splits and record boards as text.

pub mod config;
pub mod decimal;
pub mod format;
pub mod models;
pub mod store;
pub mod text;
pub mod validation;
