//! The two sites built on the same theme, and where each keeps its pages.

use vstd::prelude::*;
use crate::models::AnimeSourceId;

verus! {

/// Where a site of this theme keeps its pages.
#[derive(Debug, Clone, Copy)]
pub struct DooplaySiteConfig {
    pub source_id: AnimeSourceId,
    pub base_url: &'static str,
    pub anime_prefix: &'static str,
    pub episode_prefix: &'static str,
    pub catalog_list_path: &'static str,
    pub catalog_prefix: &'static str,
    pub genres_path: &'static str,
}

/// Meus Animes, as a value.
pub open spec fn meusanimes_site() -> DooplaySiteConfig {
    DooplaySiteConfig {
        source_id: AnimeSourceId::Meusanimes,
        base_url: "https://meusanimes.blog",
        anime_prefix: "/a/",
        episode_prefix: "/e/",
        catalog_list_path: "/g/legendado/",
        catalog_prefix: "/g/legendado/page/",
        genres_path: "/genero/",
    }
}

/// Animes Online CC, as a value.
pub open spec fn animesonlinecc_site() -> DooplaySiteConfig {
    DooplaySiteConfig {
        source_id: AnimeSourceId::Animesonlinecc,
        base_url: "https://animesonlinecc.to",
        anime_prefix: "/anime/",
        episode_prefix: "/episodio/",
        catalog_list_path: "/anime/",
        catalog_prefix: "/anime/page/",
        genres_path: "/generos/",
    }
}

impl DooplaySiteConfig {
    /// Meus Animes.
    pub fn meusanimes() -> (r: Self)
        ensures
            r == meusanimes_site(),
            r.source_id == AnimeSourceId::Meusanimes,
            r.base_url@ == "https://meusanimes.blog"@,
            r.anime_prefix@ == "/a/"@,
            r.episode_prefix@ == "/e/"@,
            r.catalog_list_path@ == "/g/legendado/"@,
            r.catalog_prefix@ == "/g/legendado/page/"@,
            r.genres_path@ == "/genero/"@,
    {
        DooplaySiteConfig {
            source_id: AnimeSourceId::Meusanimes,
            base_url: "https://meusanimes.blog",
            anime_prefix: "/a/",
            episode_prefix: "/e/",
            catalog_list_path: "/g/legendado/",
            catalog_prefix: "/g/legendado/page/",
            genres_path: "/genero/",
        }
    }

    /// Animes Online CC.
    pub fn animesonlinecc() -> (r: Self)
        ensures
            r == animesonlinecc_site(),
            r.source_id == AnimeSourceId::Animesonlinecc,
            r.base_url@ == "https://animesonlinecc.to"@,
            r.anime_prefix@ == "/anime/"@,
            r.episode_prefix@ == "/episodio/"@,
            r.catalog_list_path@ == "/anime/"@,
            r.catalog_prefix@ == "/anime/page/"@,
            r.genres_path@ == "/generos/"@,
    {
        DooplaySiteConfig {
            source_id: AnimeSourceId::Animesonlinecc,
            base_url: "https://animesonlinecc.to",
            anime_prefix: "/anime/",
            episode_prefix: "/episodio/",
            catalog_list_path: "/anime/",
            catalog_prefix: "/anime/page/",
            genres_path: "/generos/",
        }
    }
}

} // verus!
