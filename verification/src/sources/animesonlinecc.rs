//! Animes Online CC as a source: a site of the shared theme.

use vstd::prelude::*;
use crate::models::AnimeSourceId;
use crate::sources::dooplay::client::{is_anime_link, is_episode_link};
use crate::sources::dooplay::config::animesonlinecc_site;
use crate::sources::dooplay::{DooplayClient, DooplaySiteConfig};
use crate::sources::{AnimeSource, SourceId};

verus! {

pub struct AnimesonlineccSource;

impl AnimeSource for AnimesonlineccSource {
    open spec fn spec_id(&self) -> AnimeSourceId {
        AnimeSourceId::Animesonlinecc
    }

    open spec fn spec_base_url(&self) -> Seq<char> {
        animesonlinecc_site().base_url@
    }

    open spec fn spec_is_episode_url(&self, url: Seq<char>) -> bool {
        is_episode_link(animesonlinecc_site(), url)
    }

    open spec fn spec_is_supported_watch_url(&self, url: Seq<char>) -> bool {
        is_anime_link(animesonlinecc_site(), url) || is_episode_link(animesonlinecc_site(), url)
    }

    fn id(&self) -> SourceId {
        AnimeSourceId::Animesonlinecc
    }

    fn base_url(&self) -> &'static str {
        DooplaySiteConfig::animesonlinecc().base_url
    }

    fn normalize_url(&self, input: &str) -> String {
        DooplayClient::normalize_url(DooplaySiteConfig::animesonlinecc(), input)
    }

    fn is_episode_url(&self, url: &str) -> bool {
        DooplayClient::is_episode_url(DooplaySiteConfig::animesonlinecc(), url)
    }

    fn is_supported_watch_url(&self, url: &str) -> bool {
        DooplayClient::is_supported_watch_url(DooplaySiteConfig::animesonlinecc(), url)
    }
}

} // verus!
