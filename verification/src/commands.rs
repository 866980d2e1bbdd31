//! What the app's commands decide before and after they call a source:
//! error messages, cache keys, when a search is remembered, settings as saved,
//! and posters handed to the window.

use vstd::prelude::*;
use crate::download::poster::{guess_image_mime, mime_of, MIN_POSTER_BYTES};
use crate::models::{
    APP_DATA_DIR, AnimeSourceId, AppSettings, BrowseRequest, CatalogItem, CatalogPage, CatalogSort,
    CatalogType, MediaFilter, SearchRequest,
};
use crate::outside::{base64_encode, base64_of};
use crate::sources::SourceError;
use crate::text::{
    append, chars_of, contains_str, decimal, has_sub, own, push_decimal, replace, replace_str,
    str_eq,
};

verus! {

/// The version written into catalogue cache keys.
pub const CATALOG_CACHE_VERSION: &'static str = "v2";

/// The name of a source as written in cache keys.
pub open spec fn source_name(s: AnimeSourceId) -> Seq<char> {
    match s {
        AnimeSourceId::Sushianimes => "Sushianimes"@,
        AnimeSourceId::Goyabu => "Goyabu"@,
        AnimeSourceId::Meusanimes => "Meusanimes"@,
        AnimeSourceId::Animesonlinecc => "Animesonlinecc"@,
        AnimeSourceId::Animesdigital => "Animesdigital"@,
    }
}

/// The name of a media filter as written in cache keys.
pub open spec fn filter_name(m: MediaFilter) -> Seq<char> {
    match m {
        MediaFilter::All => "All"@,
        MediaFilter::Anime => "Anime"@,
        MediaFilter::Filme => "Filme"@,
    }
}

/// The name of an order as written in cache keys.
pub open spec fn sort_name(s: CatalogSort) -> Seq<char> {
    match s {
        CatalogSort::Default => "Default"@,
        CatalogSort::TitleAsc => "TitleAsc"@,
        CatalogSort::TitleDesc => "TitleDesc"@,
    }
}

/// The name of a catalogue as written in cache keys.
pub open spec fn catalog_name(t: CatalogType) -> Seq<char> {
    match t {
        CatalogType::Animes => "Animes"@,
        CatalogType::Filmes => "Filmes"@,
        CatalogType::Category => "Category"@,
    }
}

fn push_source(k: &mut String, s: AnimeSourceId)
    ensures
        final(k)@ == old(k)@ + source_name(s),
{
    match s {
        AnimeSourceId::Sushianimes => append(k, "Sushianimes"),
        AnimeSourceId::Goyabu => append(k, "Goyabu"),
        AnimeSourceId::Meusanimes => append(k, "Meusanimes"),
        AnimeSourceId::Animesonlinecc => append(k, "Animesonlinecc"),
        AnimeSourceId::Animesdigital => append(k, "Animesdigital"),
    }
}

fn push_filter(k: &mut String, m: MediaFilter)
    ensures
        final(k)@ == old(k)@ + filter_name(m),
{
    match m {
        MediaFilter::All => append(k, "All"),
        MediaFilter::Anime => append(k, "Anime"),
        MediaFilter::Filme => append(k, "Filme"),
    }
}

fn push_sort(k: &mut String, s: CatalogSort)
    ensures
        final(k)@ == old(k)@ + sort_name(s),
{
    match s {
        CatalogSort::Default => append(k, "Default"),
        CatalogSort::TitleAsc => append(k, "TitleAsc"),
        CatalogSort::TitleDesc => append(k, "TitleDesc"),
    }
}

/// The cache key of a search.
pub open spec fn search_key(req: SearchRequest) -> Seq<char> {
    "search:"@ + CATALOG_CACHE_VERSION@ + ":"@ + source_name(req.source) + ":"@ + req.query@ + ":"@
        + decimal(req.page as nat) + ":"@ + filter_name(req.filters.media_filter) + ":"@ + sort_name(
        req.filters.sort,
    )
}

/// The cache key of a search.
pub fn search_cache_key(req: &SearchRequest) -> (r: String)
    ensures
        r@ == search_key(*req),
{
    let mut k = own("search:");
    append(&mut k, CATALOG_CACHE_VERSION);
    append(&mut k, ":");
    push_source(&mut k, req.source);
    append(&mut k, ":");
    append(&mut k, req.query.as_str());
    append(&mut k, ":");
    push_decimal(&mut k, req.page);
    append(&mut k, ":");
    push_filter(&mut k, req.filters.media_filter);
    append(&mut k, ":");
    push_sort(&mut k, req.filters.sort);
    k
}

/// The cache key of a catalogue listing.
pub open spec fn browse_key(req: BrowseRequest) -> Seq<char> {
    "browse:"@ + CATALOG_CACHE_VERSION@ + ":"@ + source_name(req.source) + ":"@ + catalog_name(
        req.catalog_type,
    ) + ":"@ + decimal(req.page as nat) + ":"@ + match req.category_slug {
        Some(s) => s@,
        None => Seq::empty(),
    } + ":"@ + filter_name(req.filters.media_filter) + ":"@ + sort_name(req.filters.sort)
}

/// The cache key of a catalogue listing.
pub fn browse_cache_key(req: &BrowseRequest) -> (r: String)
    ensures
        r@ == browse_key(*req),
{
    let mut k = own("browse:");
    append(&mut k, CATALOG_CACHE_VERSION);
    append(&mut k, ":");
    push_source(&mut k, req.source);
    append(&mut k, ":");
    match req.catalog_type {
        CatalogType::Animes => append(&mut k, "Animes"),
        CatalogType::Filmes => append(&mut k, "Filmes"),
        CatalogType::Category => append(&mut k, "Category"),
    }
    append(&mut k, ":");
    push_decimal(&mut k, req.page);
    append(&mut k, ":");
    match &req.category_slug {
        Some(s) => append(&mut k, s.as_str()),
        None => {
            proof {
                reveal_strlit("");
            }
            append(&mut k, "");
        },
    }
    append(&mut k, ":");
    push_filter(&mut k, req.filters.media_filter);
    append(&mut k, ":");
    push_sort(&mut k, req.filters.sort);
    k
}

/// Whether a search is remembered in the history and its results cached:
/// a first page, for a query, with results.
pub fn should_remember_search(req: &SearchRequest, found: usize) -> (r: bool)
    ensures
        r == (req.page == 1 && req.query@.len() > 0 && found > 0),
{
    req.page == 1 && chars_of(req.query.as_str()).len() > 0 && found > 0
}

/// A listing answered from the cache: its items when there are any, always
/// with a next page.
pub fn cached_page(items: Vec<CatalogItem>, page: u32) -> (r: Option<CatalogPage>)
    ensures
        items@.len() == 0 ==> r is None,
        items@.len() > 0 ==> (r matches Some(p) && p.items@ == items@ && p.page == page && p.has_next),
{
    if items.len() == 0 {
        None
    } else {
        Some(CatalogPage { items, page, has_next: true })
    }
}

/// How long a cached listing stays fresh, in seconds.
pub const CATALOG_CACHE_TTL_SECS: i64 = 3600;

/// Whether a listing cached at `created_at` is still fresh at `now` (both in
/// seconds since the epoch).
pub fn cache_is_fresh(now: i64, created_at: i64) -> (r: bool)
    ensures
        r == (now - created_at < CATALOG_CACHE_TTL_SECS),
{
    (now as i128) - (created_at as i128) < (CATALOG_CACHE_TTL_SECS as i128)
}

/// The message of a source error, as the window shows it.
pub open spec fn error_message(e: SourceError) -> Seq<char> {
    match e {
        SourceError::Http(s) => "HTTP error: "@ + s@,
        SourceError::Parse(s) => "Parse error: "@ + s@,
        SourceError::NoStream => "No stream URL found"@,
        SourceError::UnsupportedUrl => "URL não suportada para esta fonte"@,
        SourceError::UnknownSource => "Fonte desconhecida"@,
        SourceError::Other(s) => s@,
    }
}

impl SourceError {
    /// The message of this error, as the window shows it.
    pub fn message(&self) -> (r: String)
        ensures
            r@ == error_message(*self),
    {
        match self {
            SourceError::Http(s) => {
                let mut m = own("HTTP error: ");
                append(&mut m, s.as_str());
                m
            },
            SourceError::Parse(s) => {
                let mut m = own("Parse error: ");
                append(&mut m, s.as_str());
                m
            },
            SourceError::NoStream => own("No stream URL found"),
            SourceError::UnsupportedUrl => own("URL não suportada para esta fonte"),
            SourceError::UnknownSource => own("Fonte desconhecida"),
            SourceError::Other(s) => s.clone(),
        }
    }
}

/// The message shown when a pasted link cannot be read: a hint for links of
/// no supported kind, the error's own message otherwise.
pub fn anime_url_error(e: &SourceError) -> (r: String)
    ensures
        e is UnsupportedUrl ==> r@
            == "URL inválida. Cole um link de anime ou episódio de uma das fontes suportadas."@,
        !(e is UnsupportedUrl) ==> r@ == error_message(*e),
{
    match e {
        SourceError::UnsupportedUrl => own(
            "URL inválida. Cole um link de anime ou episódio de uma das fontes suportadas.",
        ),
        other => other.message(),
    }
}

/// The settings as saved: the number of parallel downloads brought into 1..=10.
pub fn clamped_settings(settings: AppSettings) -> (r: AppSettings)
    ensures
        r == (AppSettings { max_concurrent: crate::download::queue::clamp_limit(settings.max_concurrent), ..settings }),
{
    let m = settings.max_concurrent;
    let c: u32 = if m < 1 {
        1
    } else if m > 10 {
        10
    } else {
        m
    };
    AppSettings { max_concurrent: c, ..settings }
}

/// The settings as loaded: a download folder under the old app name moves
/// under the current one.
pub fn migrate_settings(settings: AppSettings) -> (r: AppSettings)
    ensures
        has_sub(settings.download_folder@, "ShishiAnimes"@) ==> r.download_folder@ == replace(
            settings.download_folder@,
            "ShishiAnimes"@,
            APP_DATA_DIR@,
        ),
        !has_sub(settings.download_folder@, "ShishiAnimes"@) ==> r.download_folder@
            == settings.download_folder@,
        r.naming_template == settings.naming_template,
        r.max_concurrent == settings.max_concurrent,
        r.ffmpeg_path == settings.ffmpeg_path,
        r.overwrite == settings.overwrite,
        r.theme == settings.theme,
{
    let mut s = settings;
    if contains_str(&chars_of(s.download_folder.as_str()), "ShishiAnimes") {
        proof {
            reveal_strlit("ShishiAnimes");
        }
        s.download_folder = replace_str(s.download_folder.as_str(), "ShishiAnimes", APP_DATA_DIR);
    }
    s
}

/// The poster handed to the window: a data URL of the image, or `None` when
/// the download is too small to be one.
pub fn poster_data_url(url: &str, bytes: &[u8]) -> (r: Option<String>)
    ensures
        bytes@.len() < MIN_POSTER_BYTES ==> r is None,
        bytes@.len() >= MIN_POSTER_BYTES ==> (r matches Some(d) && d@ == "data:"@ + mime_of(url@, bytes@)
            + ";base64,"@ + base64_of(bytes@)),
{
    if bytes.len() < MIN_POSTER_BYTES {
        return None;
    }
    let mime = guess_image_mime(url, bytes);
    let encoded = base64_encode(bytes);
    let mut d = own("data:");
    append(&mut d, mime);
    append(&mut d, ";base64,");
    append(&mut d, encoded.as_str());
    Some(d)
}

/// Posters already handed to the window, by link.
pub struct PosterCache {
    entries: Vec<(String, String)>,
}

/// The most posters kept before the cache starts over.
pub const POSTER_CACHE_LIMIT: usize = 300;

impl PosterCache {
    /// The links and data URLs kept, in the order they were added.
    pub closed spec fn view_entries(&self) -> Seq<(Seq<char>, Seq<char>)> {
        self.entries.deep_view()
    }

    /// No link is kept twice.
    pub open spec fn wf(&self) -> bool {
        forall|i: int, j: int|
            0 <= i < j < self.view_entries().len() ==> #[trigger] self.view_entries()[i].0
                != #[trigger] self.view_entries()[j].0
    }

    /// An empty cache.
    pub fn new() -> (r: Self)
        ensures
            r.wf(),
            r.view_entries().len() == 0,
    {
        PosterCache { entries: Vec::new() }
    }

    /// The number of posters kept.
    pub fn len(&self) -> (r: usize)
        ensures
            r == self.view_entries().len(),
    {
        self.entries.len()
    }

    /// The data URL kept for `url`.
    pub fn get(&self, url: &str) -> (r: Option<String>)
        ensures
            match r {
                Some(d) => exists|i: int|
                    0 <= i < self.view_entries().len() && self.view_entries()[i] == (url@, d@),
                None => forall|i: int|
                    0 <= i < self.view_entries().len() ==> self.view_entries()[i].0 != url@,
            },
    {
        let mut i: usize = 0;
        while i < self.entries.len()
            invariant
                i <= self.entries@.len(),
                forall|k: int| 0 <= k < i ==> self.entries.deep_view()[k].0 != url@,
            decreases self.entries@.len() - i,
        {
            if str_eq(self.entries[i].0.as_str(), url) {
                let d = self.entries[i].1.clone();
                assert(self.entries.deep_view()[i as int] == (url@, d@));
                assert(self.view_entries()[i as int] == (url@, d@));
                return Some(d);
            }
            i += 1;
        }
        None
    }

    /// Keeps `data` for `url`: the cache starts over first when it holds more
    /// than the limit; an earlier data URL for `url` is replaced.
    pub fn insert(&mut self, url: String, data: String)
        requires
            old(self).wf(),
        ensures
            final(self).wf(),
            exists|i: int|
                0 <= i < final(self).view_entries().len() && final(self).view_entries()[i] == (url@, data@),
            old(self).view_entries().len() > POSTER_CACHE_LIMIT ==> final(self).view_entries().len() == 1,
            old(self).view_entries().len() <= POSTER_CACHE_LIMIT ==> forall|i: int|
                0 <= i < old(self).view_entries().len() && old(self).view_entries()[i].0 != url@
                    ==> final(self).view_entries().contains(old(self).view_entries()[i]),
    {
        if self.entries.len() > POSTER_CACHE_LIMIT {
            self.entries = Vec::new();
        }
        let ghost before = self.entries.deep_view();
        let mut i: usize = 0;
        while i < self.entries.len()
            invariant
                before == self.entries.deep_view(),
                old(self).view_entries().len() > POSTER_CACHE_LIMIT ==> before.len() == 0,
                old(self).view_entries().len() <= POSTER_CACHE_LIMIT ==> before == old(self).view_entries(),
                forall|a: int, b: int| 0 <= a < b < before.len() ==> #[trigger] before[a].0 != #[trigger] before[b].0,
                i <= self.entries@.len(),
                forall|k: int| 0 <= k < i ==> self.entries.deep_view()[k].0 != url@,
            decreases self.entries@.len() - i,
        {
            if str_eq(self.entries[i].0.as_str(), url.as_str()) {
                let ghost e = (url@, data@);
                self.entries.set(i, (url, data));
                proof {
                    let now = self.entries.deep_view();
                    assert(now =~= before.update(i as int, e));
                    assert forall|a: int, b: int| 0 <= a < b < now.len() implies #[trigger] now[a].0 != #[trigger] now[b].0 by {
                        if a != i && b != i {
                            assert(now[a] == before[a]);
                            assert(now[b] == before[b]);
                        } else if a == i {
                            assert(now[b] == before[b]);
                            assert(before[a].0 != before[b].0);
                        } else {
                            assert(now[a] == before[a]);
                            assert(before[a].0 != before[b].0);
                        }
                    }
                    assert(now[i as int] == e);
                    assert(self.view_entries()[i as int] == (url@, data@));
                    assert forall|k: int| 0 <= k < before.len() && before[k].0 != url@ implies now.contains(before[k]) by {
                        assert(now[k] == before[k]);
                    }
                }
                return;
            }
            i += 1;
        }
        let ghost e = (url@, data@);
        self.entries.push((url, data));
        proof {
            let now = self.entries.deep_view();
            assert(now =~= before.push(e));
            assert(now[before.len() as int] == e);
            assert(self.view_entries()[before.len() as int] == (url@, data@));
            assert forall|k: int| 0 <= k < before.len() && before[k].0 != url@ implies now.contains(before[k]) by {
                assert(now[k] == before[k]);
            }
        }
    }
}

/// A poster cache gives back what was last kept for a link: once `insert`
/// has kept `data` for `url`, whatever `get` finds for `url` is `data`.
pub proof fn law_poster_read_after_write(cache: PosterCache, url: Seq<char>, data: Seq<char>, found: Seq<char>)
    requires
        cache.wf(),
        exists|i: int| 0 <= i < cache.view_entries().len() && cache.view_entries()[i] == (url, data),
        exists|i: int| 0 <= i < cache.view_entries().len() && cache.view_entries()[i] == (url, found),
    ensures
        found == data,
{
    let v = cache.view_entries();
    let i = choose|i: int| 0 <= i < v.len() && v[i] == (url, data);
    let j = choose|j: int| 0 <= j < v.len() && v[j] == (url, found);
    if i < j {
        assert(v[i].0 != v[j].0);
    } else if j < i {
        assert(v[j].0 != v[i].0);
    }
}

} // verus!
