//! Sushi Animes: links, player pages and catalogue pages.

pub mod client;
pub mod embed;
pub mod parser;
pub mod seasons;
pub mod catalog;
