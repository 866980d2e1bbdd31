//! Animes Digital as a source.

pub mod client;
pub mod embed;
pub mod parser;

pub use client::AnimesdigitalClient;

use vstd::prelude::*;
use crate::models::{AnimeSourceId, CatalogType};
use crate::sources::{AnimeSource, SourceId};
use crate::sources::animesdigital::client::{BASE_URL, is_anime_link, is_episode_link};

verus! {

pub struct AnimesdigitalSource;

impl AnimeSource for AnimesdigitalSource {
    open spec fn spec_id(&self) -> AnimeSourceId {
        AnimeSourceId::Animesdigital
    }

    open spec fn spec_base_url(&self) -> Seq<char> {
        BASE_URL@
    }

    open spec fn spec_is_episode_url(&self, url: Seq<char>) -> bool {
        is_episode_link(url)
    }

    open spec fn spec_is_supported_watch_url(&self, url: Seq<char>) -> bool {
        is_anime_link(url) || is_episode_link(url)
    }

    fn id(&self) -> SourceId {
        AnimeSourceId::Animesdigital
    }

    fn base_url(&self) -> &'static str {
        AnimesdigitalClient::base_url()
    }

    fn normalize_url(&self, input: &str) -> String {
        AnimesdigitalClient::normalize_url(input)
    }

    fn is_episode_url(&self, url: &str) -> bool {
        AnimesdigitalClient::is_episode_url(url)
    }

    fn is_supported_watch_url(&self, url: &str) -> bool {
        AnimesdigitalClient::is_supported_watch_url(url)
    }
}

/// Which catalogues the site offers: all three.
pub fn supports_catalog_type(catalog_type: CatalogType) -> (r: bool)
    ensures
        r,
{
    match catalog_type {
        CatalogType::Animes | CatalogType::Filmes | CatalogType::Category => true,
    }
}

} // verus!
