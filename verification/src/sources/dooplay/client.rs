//! Links of a site of this theme.

use vstd::prelude::*;
use crate::sources::dooplay::config::DooplaySiteConfig;
use crate::sources::{normalize_with_base, normalized, site_header_list, site_headers};
use crate::text::{chars_of, contains_str, has_sub};

verus! {

/// An episode link of the site.
pub open spec fn is_episode_link(config: DooplaySiteConfig, url: Seq<char>) -> bool {
    has_sub(normalized(config.base_url@, url), config.episode_prefix@)
}

/// An anime link of the site (and no episode link).
pub open spec fn is_anime_link(config: DooplaySiteConfig, url: Seq<char>) -> bool {
    let n = normalized(config.base_url@, url);
    has_sub(n, config.anime_prefix@) && !is_episode_link(config, n)
}

/// A client of one site of this theme: it knows where the site keeps its pages.
pub struct DooplayClient {
    config: DooplaySiteConfig,
}

impl DooplayClient {
    pub closed spec fn spec_config(&self) -> DooplaySiteConfig {
        self.config
    }

    pub fn new(config: DooplaySiteConfig) -> (r: Self)
        ensures
            r.spec_config() == config,
    {
        DooplayClient { config }
    }

    pub fn config(&self) -> (r: DooplaySiteConfig)
        ensures
            r == self.spec_config(),
    {
        self.config
    }

    pub fn base_url(&self) -> (r: &'static str)
        ensures
            r@ == self.spec_config().base_url@,
    {
        self.config.base_url
    }

    /// The headers sent with a request to the site.
    pub fn stream_headers(&self, referer: Option<&str>) -> (r: Vec<(String, String)>)
        ensures
            r.deep_view() == site_header_list(
                self.spec_config().base_url@,
                match referer {
                    Some(v) => Some(v@),
                    None => None,
                },
            ),
    {
        site_headers(self.config.base_url, referer)
    }

    pub fn normalize_url(config: DooplaySiteConfig, input: &str) -> (r: String)
        ensures
            r@ == normalized(config.base_url@, input@),
    {
        normalize_with_base(config.base_url, input)
    }

    pub fn is_episode_url(config: DooplaySiteConfig, url: &str) -> (r: bool)
        ensures
            r == is_episode_link(config, url@),
    {
        let n = chars_of(Self::normalize_url(config, url).as_str());
        contains_str(&n, config.episode_prefix)
    }

    pub fn is_anime_url(config: DooplaySiteConfig, url: &str) -> (r: bool)
        ensures
            r == is_anime_link(config, url@),
    {
        let n = Self::normalize_url(config, url);
        let nv = chars_of(n.as_str());
        contains_str(&nv, config.anime_prefix) && !Self::is_episode_url(config, n.as_str())
    }

    pub fn is_supported_watch_url(config: DooplaySiteConfig, url: &str) -> (r: bool)
        ensures
            r == (is_anime_link(config, url@) || is_episode_link(config, url@)),
    {
        Self::is_anime_url(config, url) || Self::is_episode_url(config, url)
    }
}

} // verus!
