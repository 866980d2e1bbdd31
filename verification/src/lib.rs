//! Verified core of an anime catalogue and download manager: source URL
//! classification, stream selection, catalogue filtering, download naming
//! and the download queue state machine.

pub mod outside;
pub mod text;
pub mod models;
pub mod sources;
pub mod sushi;
pub mod download;
pub mod commands;
