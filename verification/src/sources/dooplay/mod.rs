//! Sites built on the same theme (Meus Animes, Animes Online CC).

pub mod blogger;
pub mod client;
pub mod config;
pub mod embed;
pub mod episodes;
pub mod pages;
pub mod parser;

pub use client::DooplayClient;
pub use config::DooplaySiteConfig;

use vstd::prelude::*;
use crate::models::{AnimeSourceId, CatalogType};
use crate::sources::dooplay::client::{is_anime_link, is_episode_link};
use crate::sources::{AnimeSource, SourceError, SourceId};

verus! {

/// One site of this theme as a source.
pub struct DooplaySource {
    config: DooplaySiteConfig,
}

impl DooplaySource {
    pub closed spec fn spec_config(&self) -> DooplaySiteConfig {
        self.config
    }

    pub fn new(config: DooplaySiteConfig) -> (r: Self)
        ensures
            r.spec_config() == config,
    {
        DooplaySource { config }
    }
}

impl AnimeSource for DooplaySource {
    open spec fn spec_id(&self) -> AnimeSourceId {
        self.spec_config().source_id
    }

    open spec fn spec_base_url(&self) -> Seq<char> {
        self.spec_config().base_url@
    }

    open spec fn spec_is_episode_url(&self, url: Seq<char>) -> bool {
        is_episode_link(self.spec_config(), url)
    }

    open spec fn spec_is_supported_watch_url(&self, url: Seq<char>) -> bool {
        is_anime_link(self.spec_config(), url) || is_episode_link(self.spec_config(), url)
    }

    fn id(&self) -> SourceId {
        self.config.source_id
    }

    fn base_url(&self) -> &'static str {
        self.config.base_url
    }

    fn normalize_url(&self, input: &str) -> String {
        DooplayClient::normalize_url(self.config, input)
    }

    fn is_episode_url(&self, url: &str) -> bool {
        DooplayClient::is_episode_url(self.config, url)
    }

    fn is_supported_watch_url(&self, url: &str) -> bool {
        DooplayClient::is_supported_watch_url(self.config, url)
    }
}

/// What a pasted link asks for: the anime page itself, or the anime page that
/// an episode page links to.
#[derive(Debug, Clone)]
pub enum AnimeLink {
    Anime(String),
    Episode(String),
}

/// Classifies a pasted link of the site, or refuses it as `UnsupportedUrl`.
pub fn classify_watch_url(config: DooplaySiteConfig, url: &str) -> (r: Result<AnimeLink, SourceError>)
    ensures
        match r {
            Ok(AnimeLink::Episode(n)) => n@ == crate::sources::normalized(config.base_url@, url@)
                && is_episode_link(config, n@),
            Ok(AnimeLink::Anime(n)) => n@ == crate::sources::normalized(config.base_url@, url@)
                && is_anime_link(config, n@) && !is_episode_link(config, n@),
            Err(e) => e is UnsupportedUrl && !is_anime_link(
                config,
                crate::sources::normalized(config.base_url@, url@),
            ) && !is_episode_link(config, crate::sources::normalized(config.base_url@, url@)),
        },
{
    let n = DooplayClient::normalize_url(config, url);
    if !DooplayClient::is_supported_watch_url(config, n.as_str()) {
        return Err(SourceError::UnsupportedUrl);
    }
    if DooplayClient::is_episode_url(config, n.as_str()) {
        return Ok(AnimeLink::Episode(n));
    }
    Ok(AnimeLink::Anime(n))
}

/// The sites of this theme list animes and categories, not films.
pub fn supports_catalog_type(catalog_type: CatalogType) -> (r: bool)
    ensures
        r == (catalog_type == CatalogType::Animes || catalog_type == CatalogType::Category),
{
    match catalog_type {
        CatalogType::Animes | CatalogType::Category => true,
        CatalogType::Filmes => false,
    }
}

} // verus!
