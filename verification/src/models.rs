//! The data the library works on: sources, anime pages, catalogue pages,
//! download requests and settings.

use vstd::prelude::*;
use crate::outside::{lowercase, to_lowercase};
use crate::text::{chars_of, contains_str, has_sub, own};

verus! {

/// The sites the library knows how to read.
#[derive(Debug, Clone, Copy, PartialEq, Eq, Structural, Hash)]
pub enum AnimeSourceId {
    Sushianimes,
    Goyabu,
    Meusanimes,
    Animesonlinecc,
    Animesdigital,
}

impl Default for AnimeSourceId {
    fn default() -> (r: Self)
        ensures
            r == AnimeSourceId::Sushianimes,
    {
        AnimeSourceId::Sushianimes
    }
}

/// The display name of a source.
pub open spec fn source_label(id: AnimeSourceId) -> Seq<char> {
    match id {
        AnimeSourceId::Sushianimes => "Sushi Animes"@,
        AnimeSourceId::Goyabu => "Goyabu"@,
        AnimeSourceId::Meusanimes => "Meus Animes"@,
        AnimeSourceId::Animesonlinecc => "Animes Online CC"@,
        AnimeSourceId::Animesdigital => "Animes Digital"@,
    }
}

/// The source that a lowercased URL belongs to, checked in a fixed order.
pub open spec fn source_of_lowercase(lower: Seq<char>) -> Option<AnimeSourceId> {
    if has_sub(lower, "meusanimes.blog"@) || has_sub(lower, "meusanimes."@) {
        Some(AnimeSourceId::Meusanimes)
    } else if has_sub(lower, "animesonlinecc.to"@) {
        Some(AnimeSourceId::Animesonlinecc)
    } else if has_sub(lower, "animesdigital.org"@) {
        Some(AnimeSourceId::Animesdigital)
    } else if has_sub(lower, "goyabu.io"@) || has_sub(lower, "goyabu."@) {
        Some(AnimeSourceId::Goyabu)
    } else if has_sub(lower, "sushianimes.com.br"@) {
        Some(AnimeSourceId::Sushianimes)
    } else {
        None
    }
}

impl AnimeSourceId {
    pub fn label(&self) -> (r: &'static str)
        ensures
            r@ == source_label(*self),
    {
        match self {
            AnimeSourceId::Sushianimes => "Sushi Animes",
            AnimeSourceId::Goyabu => "Goyabu",
            AnimeSourceId::Meusanimes => "Meus Animes",
            AnimeSourceId::Animesonlinecc => "Animes Online CC",
            AnimeSourceId::Animesdigital => "Animes Digital",
        }
    }

    /// The source whose host name occurs in `url`, compared case-insensitively.
    pub fn detect_from_url(url: &str) -> (r: Option<Self>)
        ensures
            r == source_of_lowercase(lowercase(url@)),
    {
        let lower = chars_of(to_lowercase(url).as_str());
        if contains_str(&lower, "meusanimes.blog") || contains_str(&lower, "meusanimes.") {
            return Some(AnimeSourceId::Meusanimes);
        }
        if contains_str(&lower, "animesonlinecc.to") {
            return Some(AnimeSourceId::Animesonlinecc);
        }
        if contains_str(&lower, "animesdigital.org") {
            return Some(AnimeSourceId::Animesdigital);
        }
        if contains_str(&lower, "goyabu.io") || contains_str(&lower, "goyabu.") {
            return Some(AnimeSourceId::Goyabu);
        }
        if contains_str(&lower, "sushianimes.com.br") {
            return Some(AnimeSourceId::Sushianimes);
        }
        None
    }
}

/// Name of the application's data directory.
pub const APP_DATA_DIR: &'static str = "Minha Princesa Animes";

/// Name of the default download directory.
pub const APP_DOWNLOAD_DIR: &'static str = "Minha Princesa Animes";

/// One episode of an anime.
#[derive(Debug, Clone)]
pub struct EpisodeInfo {
    pub number: u32,
    pub season: u32,
    pub title: String,
    pub description: Option<String>,
    pub url: String,
}

/// A copy of an optional string.
pub fn copy_opt(s: &Option<String>) -> (r: Option<String>)
    ensures
        r == *s,
{
    match s {
        Some(t) => Some(t.clone()),
        None => None,
    }
}

impl EpisodeInfo {
    /// A copy of this episode.
    pub fn copied(&self) -> (r: Self)
        ensures
            r == *self,
    {
        EpisodeInfo {
            number: self.number,
            season: self.season,
            title: self.title.clone(),
            description: copy_opt(&self.description),
            url: self.url.clone(),
        }
    }
}

/// An episode as the contracts see it: number, season, title, description, URL.
pub type EpisodeView = (u32, u32, Seq<char>, Option<Seq<char>>, Seq<char>);

/// The view of an episode.
pub open spec fn ep_view(e: EpisodeInfo) -> EpisodeView {
    (
        e.number,
        e.season,
        e.title@,
        match e.description {
            Some(d) => Some(d@),
            None => None,
        },
        e.url@,
    )
}

/// One season and its episodes.
#[derive(Debug, Clone)]
pub struct SeasonInfo {
    pub number: u32,
    pub episodes: Vec<EpisodeInfo>,
}

/// An anime page: its title, poster, synopsis and seasons.
#[derive(Debug, Clone)]
pub struct AnimeInfo {
    pub title: String,
    pub url: String,
    pub poster: Option<String>,
    pub synopsis: Option<String>,
    pub seasons: Vec<SeasonInfo>,
}

/// One entry of a catalogue listing.
#[derive(Debug, Clone)]
pub struct CatalogItem {
    pub title: String,
    pub url: String,
    pub poster: Option<String>,
    pub category: Option<String>,
}

/// A catalogue entry as the contracts see it: title, URL, poster, category.
pub type ItemView = (Seq<char>, Seq<char>, Option<Seq<char>>, Option<Seq<char>>);

/// The view of a catalogue entry.
pub open spec fn item_view(i: CatalogItem) -> ItemView {
    (i.title@, i.url@, i.poster.deep_view(), i.category.deep_view())
}

/// The catalogue read so far: the URLs seen and the entries taken.
pub type ListState = (Seq<Seq<char>>, Seq<ItemView>);

/// No two entries share a URL.
pub open spec fn each_once(items: Seq<ItemView>) -> bool {
    forall|i: int, j: int| 0 <= i < j < items.len() ==> #[trigger] items[i].1 != #[trigger] items[j].1
}

/// A catalogue read so far is sound: no URL is taken twice, and every
/// entry's URL is among those seen.
pub open spec fn list_ok(st: ListState) -> bool {
    &&& each_once(st.1)
    &&& forall|i: int| 0 <= i < st.1.len() ==> st.0.contains(#[trigger] st.1[i].1)
}

/// Seeing a new URL, and taking an entry for it or not, keeps a catalogue sound.
pub proof fn lemma_list_take(st: ListState, url: Seq<char>, item: ItemView)
    requires
        list_ok(st),
        !st.0.contains(url),
        item.1 == url,
    ensures
        list_ok((st.0.push(url), st.1.push(item))),
        list_ok((st.0.push(url), st.1)),
{
    let seen = st.0.push(url);
    let items = st.1.push(item);
    assert forall|i: int| 0 <= i < st.1.len() implies seen.contains(#[trigger] st.1[i].1) by {
        let k = choose|k: int| 0 <= k < st.0.len() && st.0[k] == st.1[i].1;
        assert(seen[k] == st.1[i].1);
    }
    assert forall|i: int| 0 <= i < items.len() implies seen.contains(#[trigger] items[i].1) by {
        if i < st.1.len() {
            assert(items[i] == st.1[i]);
        } else {
            assert(seen[st.0.len() as int] == url);
        }
    }
    assert forall|i: int, j: int| 0 <= i < j < items.len() implies #[trigger] items[i].1 != #[trigger] items[j].1 by {
        if j < st.1.len() {
            assert(items[i] == st.1[i]);
            assert(items[j] == st.1[j]);
        } else {
            assert(items[i] == st.1[i]);
            assert(st.0.contains(st.1[i].1));
        }
    }
}

/// One page of a catalogue listing.
#[derive(Debug, Clone)]
pub struct CatalogPage {
    pub items: Vec<CatalogItem>,
    pub page: u32,
    pub has_next: bool,
}

/// A genre of a site's catalogue.
#[derive(Debug, Clone)]
pub struct CategoryInfo {
    pub name: String,
    pub slug: String,
    pub url: String,
}

/// Where a download stands.
#[derive(Debug, Clone, Copy, PartialEq, Eq, Structural)]
pub enum DownloadStatus {
    Queued,
    Downloading,
    Paused,
    Completed,
    Failed,
    Cancelled,
}

/// User settings.
#[derive(Debug, Clone)]
pub struct AppSettings {
    pub download_folder: String,
    pub naming_template: String,
    pub max_concurrent: u32,
    pub ffmpeg_path: String,
    pub overwrite: bool,
    pub theme: String,
}

/// The default naming template.
pub open spec fn default_naming_template() -> Seq<char> {
    "{anime}/Season {season}/{anime} - S{season:02}E{episode:02} - {title}.mp4"@
}

impl AppSettings {
    /// The default settings, downloading into `download_folder`.
    pub fn with_download_folder(download_folder: String) -> (r: Self)
        ensures
            r.download_folder == download_folder,
            r.naming_template@ == default_naming_template(),
            r.max_concurrent == 3,
            r.ffmpeg_path@ == Seq::<char>::empty(),
            !r.overwrite,
            r.theme@ == "dark"@,
    {
        AppSettings {
            download_folder,
            naming_template: own(
                "{anime}/Season {season}/{anime} - S{season:02}E{episode:02} - {title}.mp4",
            ),
            max_concurrent: 3,
            ffmpeg_path: String::new(),
            overwrite: false,
            theme: own("dark"),
        }
    }
}

/// A request to download some episodes of one anime.
#[derive(Debug, Clone)]
pub struct DownloadRequest {
    pub anime_title: String,
    pub episodes: Vec<EpisodeInfo>,
}

/// Which catalogue to browse.
#[derive(Debug, Clone, Copy, PartialEq, Eq, Structural)]
pub enum CatalogType {
    Animes,
    Filmes,
    Category,
}

/// Which kind of media a catalogue view keeps.
#[derive(Debug, Clone, Copy, PartialEq, Eq, Structural)]
pub enum MediaFilter {
    All,
    Anime,
    Filme,
}

impl Default for MediaFilter {
    fn default() -> (r: Self)
        ensures
            r == MediaFilter::All,
    {
        MediaFilter::All
    }
}

/// How a catalogue view is ordered.
#[derive(Debug, Clone, Copy, PartialEq, Eq, Structural)]
pub enum CatalogSort {
    Default,
    TitleAsc,
    TitleDesc,
}

impl Default for CatalogSort {
    fn default() -> (r: Self)
        ensures
            r == CatalogSort::Default,
    {
        CatalogSort::Default
    }
}

/// Filters applied to a catalogue page.
#[derive(Debug, Clone)]
pub struct CatalogFilters {
    pub media_filter: MediaFilter,
    pub sort: CatalogSort,
    pub category: Option<String>,
    pub title_filter: Option<String>,
}

impl Default for CatalogFilters {
    fn default() -> (r: Self)
        ensures
            r.media_filter == MediaFilter::All,
            r.sort == CatalogSort::Default,
            r.category is None,
            r.title_filter is None,
    {
        CatalogFilters {
            media_filter: MediaFilter::All,
            sort: CatalogSort::Default,
            category: None,
            title_filter: None,
        }
    }
}

/// A catalogue search.
#[derive(Debug, Clone)]
pub struct SearchRequest {
    pub query: String,
    pub page: u32,
    pub filters: CatalogFilters,
    pub source: AnimeSourceId,
}

/// A catalogue listing request.
#[derive(Debug, Clone)]
pub struct BrowseRequest {
    pub catalog_type: CatalogType,
    pub page: u32,
    pub category_slug: Option<String>,
    pub filters: CatalogFilters,
    pub source: AnimeSourceId,
}

} // verus!
