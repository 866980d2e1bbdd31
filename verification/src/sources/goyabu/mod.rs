//! Goyabu as a source.

pub mod client;
pub mod embed;
pub mod parser;

pub use client::GoyabuClient;

use vstd::prelude::*;
use crate::models::AnimeSourceId;
use crate::sources::{AnimeSource, SourceId};
use crate::sources::goyabu::client::{BASE_URL, is_anime_link, is_episode_link};

verus! {

pub struct GoyabuSource;

impl AnimeSource for GoyabuSource {
    open spec fn spec_id(&self) -> AnimeSourceId {
        AnimeSourceId::Goyabu
    }

    open spec fn spec_base_url(&self) -> Seq<char> {
        BASE_URL@
    }

    open spec fn spec_is_episode_url(&self, url: Seq<char>) -> bool {
        is_episode_link(url)
    }

    open spec fn spec_is_supported_watch_url(&self, url: Seq<char>) -> bool {
        is_anime_link(url) || is_episode_link(url)
    }

    fn id(&self) -> SourceId {
        AnimeSourceId::Goyabu
    }

    fn base_url(&self) -> &'static str {
        GoyabuClient::base_url()
    }

    fn normalize_url(&self, input: &str) -> String {
        GoyabuClient::normalize_url(input)
    }

    fn is_episode_url(&self, url: &str) -> bool {
        GoyabuClient::is_episode_url(url)
    }

    fn is_supported_watch_url(&self, url: &str) -> bool {
        GoyabuClient::is_supported_watch_url(url)
    }
}

} // verus!
