//! Links of Sushi Animes, and the session state kept between its requests.

use vstd::prelude::*;

use crate::sources::{headers_arg, headers_block, normalize_with_base, normalized, site_header_list, site_headers, SourceError};
use crate::sources::stream::{first_group1, regex_first_group1};
use crate::text::{chars_of, contains_str, has_sub, replace, replace_str};

verus! {

/// The site root.
pub const BASE_URL: &'static str = "https://sushianimes.com.br";

pub use crate::sources::USER_AGENT_STR;

/// Why a Sushi Animes request failed.
#[derive(Debug, Clone)]
pub enum SushiError {
    Http(String),
    Parse(String),
    NoStream,
}

impl From<SushiError> for SourceError {
    fn from(e: SushiError) -> Self {
        match e {
            SushiError::Http(m) => SourceError::Http(m),
            SushiError::Parse(m) => SourceError::Parse(m),
            SushiError::NoStream => SourceError::NoStream,
        }
    }
}

impl vstd::std_specs::convert::FromSpecImpl<SushiError> for SourceError {
    open spec fn obeys_from_spec() -> bool {
        true
    }

    open spec fn from_spec(e: SushiError) -> Self {
        match e {
            SushiError::Http(m) => SourceError::Http(m),
            SushiError::Parse(m) => SourceError::Parse(m),
            SushiError::NoStream => SourceError::NoStream,
        }
    }
}

/// A page of the site that lists an anime's episodes.
pub open spec fn is_anime_link(url: Seq<char>) -> bool {
    has_sub(url, "/anime/"@) && !has_sub(url, "-season-"@) && !has_sub(url, "-episode"@)
}

/// A page of the site that plays a film.
pub open spec fn is_movie_link(url: Seq<char>) -> bool {
    has_sub(url, "/assistir/"@) || has_sub(url, "/filme/"@)
}

/// A page of the site that plays one episode.
pub open spec fn is_episode_link(url: Seq<char>) -> bool {
    has_sub(url, "-season-"@) && has_sub(url, "-episode"@)
}

/// The session with the site: the CSRF token of the last page that carried one.
pub struct SushiClient {
    csrf_token: Option<String>,
}

impl SushiClient {
    pub closed spec fn token(&self) -> Option<Seq<char>> {
        match self.csrf_token {
            Some(t) => Some(t@),
            None => None,
        }
    }

    /// A session that has seen no page yet.
    pub fn new() -> (r: Self)
        ensures
            r.token() is None,
    {
        SushiClient { csrf_token: None }
    }

    /// The CSRF token to send with form posts.
    pub fn csrf_token(&self) -> (r: Option<String>)
        ensures
            r.deep_view() == self.token(),
    {
        match &self.csrf_token {
            Some(t) => Some(t.clone()),
            None => None,
        }
    }

    /// Records the CSRF token of a fetched page, if it carries one.
    pub fn remember_page(&mut self, html: &str)
        ensures
            final(self).token() == match first_group1(csrf_pattern(), html@) {
                Some(t) => Some(t),
                None => old(self).token(),
            },
    {
        if let Some(t) = Self::extract_csrf(html) {
            self.csrf_token = Some(t);
        }
    }

    pub fn base_url() -> (r: &'static str)
        ensures
            r@ == BASE_URL@,
    {
        BASE_URL
    }

    pub fn user_agent() -> (r: &'static str)
        ensures
            r@ == USER_AGENT_STR@,
    {
        USER_AGENT_STR
    }

    /// The headers sent with a request to the site.
    pub fn stream_headers(referer: Option<&str>) -> (r: Vec<(String, String)>)
        ensures
            r.deep_view() == site_header_list(
                BASE_URL@,
                match referer {
                    Some(v) => Some(v@),
                    None => None,
                },
            ),
    {
        site_headers(BASE_URL, referer)
    }

    /// FFmpeg headers for a stream of the site, the referer defaulting to the root.
    pub fn ffmpeg_headers_arg(referer: Option<&str>) -> (r: String)
        ensures
            r@ == headers_block(
                match referer {
                    Some(x) => x@,
                    None => BASE_URL@,
                },
                BASE_URL@,
            ),
    {
        let referer = match referer {
            Some(x) => x,
            None => BASE_URL,
        };
        headers_arg(referer, BASE_URL)
    }

    pub fn normalize_url(input: &str) -> (r: String)
        ensures
            r@ == normalized(BASE_URL@, input@),
    {
        normalize_with_base(BASE_URL, input)
    }

    /// The CSRF token that a page declares in its `csrf-token` meta tag.
    pub fn extract_csrf(html: &str) -> (r: Option<String>)
        ensures
            r.deep_view() == first_group1(csrf_pattern(), html@),
    {
        regex_first_group1(r#"<meta name="csrf-token" content="([^"]+)""#, html)
    }

    pub fn is_anime_url(url: &str) -> (r: bool)
        ensures
            r == is_anime_link(url@),
    {
        let v = chars_of(url);
        contains_str(&v, "/anime/") && !contains_str(&v, "-season-") && !contains_str(
            &v,
            "-episode",
        )
    }

    pub fn is_movie_url(url: &str) -> (r: bool)
        ensures
            r == is_movie_link(url@),
    {
        let v = chars_of(url);
        contains_str(&v, "/assistir/") || contains_str(&v, "/filme/")
    }

    /// The page that actually plays a film: `/assistir/` links become `/filme/` links.
    pub fn resolve_movie_watch_url(url: &str) -> (r: String)
        ensures
            r@ == replace(url@, "/assistir/"@, "/filme/"@),
    {
        proof {
            reveal_strlit("/assistir/");
        }
        replace_str(url, "/assistir/", "/filme/")
    }

    pub fn is_episode_url(url: &str) -> (r: bool)
        ensures
            r == is_episode_link(url@),
    {
        let v = chars_of(url);
        contains_str(&v, "-season-") && contains_str(&v, "-episode")
    }

    pub fn is_supported_watch_url(url: &str) -> (r: bool)
        ensures
            r == (is_anime_link(url@) || is_episode_link(url@) || is_movie_link(url@)),
    {
        Self::is_anime_url(url) || Self::is_episode_url(url) || Self::is_movie_url(url)
    }
}

/// Where a page declares its CSRF token.
pub open spec fn csrf_pattern() -> Seq<char> {
    r#"<meta name="csrf-token" content="([^"]+)""#@
}

} // verus!
