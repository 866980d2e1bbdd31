//! Sushi Animes as a source.

use vstd::prelude::*;
use crate::models::{AnimeSourceId, CatalogType};
use crate::outside::{regex_head, regex_split_first};
use crate::sources::{normalized, AnimeSource, SourceError, SourceId, StreamResolution};
use crate::sushi::client::{is_anime_link, is_episode_link, is_movie_link, SushiClient, BASE_URL};
use crate::sushi::embed::StreamInfo;
use crate::text::own;

verus! {

pub struct SushiSource;

impl AnimeSource for SushiSource {
    open spec fn spec_id(&self) -> AnimeSourceId {
        AnimeSourceId::Sushianimes
    }

    open spec fn spec_base_url(&self) -> Seq<char> {
        BASE_URL@
    }

    open spec fn spec_is_episode_url(&self, url: Seq<char>) -> bool {
        is_episode_link(url)
    }

    open spec fn spec_is_supported_watch_url(&self, url: Seq<char>) -> bool {
        is_anime_link(url) || is_episode_link(url) || is_movie_link(url)
    }

    fn id(&self) -> SourceId {
        AnimeSourceId::Sushianimes
    }

    fn base_url(&self) -> &'static str {
        SushiClient::base_url()
    }

    fn normalize_url(&self, input: &str) -> String {
        SushiClient::normalize_url(input)
    }

    fn is_episode_url(&self, url: &str) -> bool {
        SushiClient::is_episode_url(url)
    }

    fn is_supported_watch_url(&self, url: &str) -> bool {
        SushiClient::is_supported_watch_url(url)
    }
}

/// The pattern that ends the anime part of an episode link.
pub open spec fn episode_suffix_pattern() -> Seq<char> {
    r"-\d+-season-\d+-episode"@
}

/// The anime page that a pasted link leads to: the link itself for anime and
/// film pages, the part before the episode suffix for episode pages.
pub open spec fn anime_page_of(url: Seq<char>) -> Result<Seq<char>, ()> {
    let n = normalized(BASE_URL@, url);
    if !(is_anime_link(n) || is_episode_link(n) || is_movie_link(n)) {
        Err(())
    } else if is_episode_link(n) {
        match regex_head(episode_suffix_pattern(), n) {
            Some(head) => Ok(head),
            None => Ok(n),
        }
    } else {
        Ok(n)
    }
}

/// The anime page for a pasted link, or `UnsupportedUrl`.
pub fn anime_page_url(url: &str) -> (r: Result<String, SourceError>)
    ensures
        match r {
            Ok(u) => anime_page_of(url@) == Ok::<Seq<char>, ()>(u@),
            Err(e) => anime_page_of(url@) is Err && e is UnsupportedUrl,
        },
{
    let n = SushiClient::normalize_url(url);
    if !SushiClient::is_supported_watch_url(n.as_str()) {
        return Err(SourceError::UnsupportedUrl);
    }
    if SushiClient::is_episode_url(n.as_str()) {
        return match regex_split_first(r"-\d+-season-\d+-episode", n.as_str()) {
            Some(head) => Ok(head),
            None => Ok(n),
        };
    }
    Ok(n)
}

/// The stream of an episode with the headers the site expects: the episode page
/// as referer, the site root as origin.
pub fn stream_resolution(stream: StreamInfo, episode_url: &str) -> (r: StreamResolution)
    ensures
        r.url == stream.url,
        r.kind == stream.kind,
        r.referer@ == episode_url@,
        r.origin@ == BASE_URL@,
{
    StreamResolution {
        url: stream.url,
        kind: stream.kind,
        referer: own(episode_url),
        origin: own(SushiClient::base_url()),
    }
}

/// Sushi Animes lists animes, films and categories.
pub fn supports_catalog_type(catalog_type: CatalogType) -> (r: bool)
    ensures
        r,
{
    match catalog_type {
        CatalogType::Animes | CatalogType::Filmes | CatalogType::Category => true,
    }
}

} // verus!
