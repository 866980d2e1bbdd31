//! Meus Animes as a source: a site of the shared theme.

use vstd::prelude::*;
use crate::models::AnimeSourceId;
use crate::sources::dooplay::client::{is_anime_link, is_episode_link};
use crate::sources::dooplay::config::meusanimes_site;
use crate::sources::dooplay::{DooplayClient, DooplaySiteConfig};
use crate::sources::{AnimeSource, SourceId};

verus! {

pub struct MeusanimesSource;

impl AnimeSource for MeusanimesSource {
    open spec fn spec_id(&self) -> AnimeSourceId {
        AnimeSourceId::Meusanimes
    }

    open spec fn spec_base_url(&self) -> Seq<char> {
        meusanimes_site().base_url@
    }

    open spec fn spec_is_episode_url(&self, url: Seq<char>) -> bool {
        is_episode_link(meusanimes_site(), url)
    }

    open spec fn spec_is_supported_watch_url(&self, url: Seq<char>) -> bool {
        is_anime_link(meusanimes_site(), url) || is_episode_link(meusanimes_site(), url)
    }

    fn id(&self) -> SourceId {
        AnimeSourceId::Meusanimes
    }

    fn base_url(&self) -> &'static str {
        DooplaySiteConfig::meusanimes().base_url
    }

    fn normalize_url(&self, input: &str) -> String {
        DooplayClient::normalize_url(DooplaySiteConfig::meusanimes(), input)
    }

    fn is_episode_url(&self, url: &str) -> bool {
        DooplayClient::is_episode_url(DooplaySiteConfig::meusanimes(), url)
    }

    fn is_supported_watch_url(&self, url: &str) -> bool {
        DooplayClient::is_supported_watch_url(DooplaySiteConfig::meusanimes(), url)
    }
}

} // verus!
