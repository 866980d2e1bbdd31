//! Animes Digital links: which pages are episodes and which are anime pages.

use vstd::prelude::*;
use crate::sources::{normalize_with_base, normalized};
use crate::text::{chars_of, contains_str, has_sub};

verus! {

/// The site root.
pub const BASE_URL: &'static str = "https://animesdigital.org";

/// An episode page: a link under `/video/`.
pub open spec fn is_episode_link(url: Seq<char>) -> bool {
    has_sub(normalized(BASE_URL@, url), "/video/"@)
}

/// An anime page: a link under `/anime/` that is no episode page.
pub open spec fn is_anime_link(url: Seq<char>) -> bool {
    let n = normalized(BASE_URL@, url);
    has_sub(n, "/anime/"@) && !is_episode_link(n)
}

/// The links of Animes Digital.
pub struct AnimesdigitalClient;

impl AnimesdigitalClient {
    /// The site root.
    pub fn base_url() -> (r: &'static str)
        ensures
            r@ == BASE_URL@,
    {
        BASE_URL
    }

    /// Resolves a link or path against the site root.
    pub fn normalize_url(input: &str) -> (r: String)
        ensures
            r@ == normalized(BASE_URL@, input@),
    {
        normalize_with_base(BASE_URL, input)
    }

    /// Whether `url` is an episode page.
    pub fn is_episode_url(url: &str) -> (r: bool)
        ensures
            r == is_episode_link(url@),
    {
        let n = Self::normalize_url(url);
        contains_str(&chars_of(n.as_str()), "/video/")
    }

    /// Whether `url` is an anime page.
    pub fn is_anime_url(url: &str) -> (r: bool)
        ensures
            r == is_anime_link(url@),
    {
        let n = Self::normalize_url(url);
        contains_str(&chars_of(n.as_str()), "/anime/") && !Self::is_episode_url(n.as_str())
    }

    /// Whether `url` is a page the app can open.
    pub fn is_supported_watch_url(url: &str) -> (r: bool)
        ensures
            r == (is_anime_link(url@) || is_episode_link(url@)),
    {
        Self::is_anime_url(url) || Self::is_episode_url(url)
    }
}

} // verus!
