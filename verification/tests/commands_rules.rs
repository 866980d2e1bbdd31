use minha_princesa_animes::commands::{
    anime_url_error, browse_cache_key, cache_is_fresh, cached_page, clamped_settings, migrate_settings,
    poster_data_url, search_cache_key, should_remember_search, PosterCache,
};
use minha_princesa_animes::models::{
    AnimeSourceId, AppSettings, BrowseRequest, CatalogFilters, CatalogItem, CatalogSort, CatalogType,
    MediaFilter, SearchRequest,
};
use minha_princesa_animes::sources::SourceError;

fn filters() -> CatalogFilters {
    CatalogFilters { media_filter: MediaFilter::Anime, sort: CatalogSort::TitleDesc, category: None, title_filter: None }
}

#[test]
fn cache_keys_name_every_part_of_a_request() {
    let s = SearchRequest { query: "one piece".to_string(), page: 2, filters: filters(), source: AnimeSourceId::Goyabu };
    assert_eq!(search_cache_key(&s), "search:v2:Goyabu:one piece:2:Anime:TitleDesc");
    let b = BrowseRequest {
        catalog_type: CatalogType::Category,
        page: 1,
        category_slug: Some("acao".to_string()),
        filters: filters(),
        source: AnimeSourceId::Meusanimes,
    };
    assert_eq!(browse_cache_key(&b), "browse:v2:Meusanimes:Category:1:acao:Anime:TitleDesc");
    let b2 = BrowseRequest { category_slug: None, catalog_type: CatalogType::Animes, ..b };
    assert_eq!(browse_cache_key(&b2), "browse:v2:Meusanimes:Animes:1::Anime:TitleDesc");
}

#[test]
fn only_first_pages_with_results_are_remembered() {
    let s = SearchRequest { query: "naruto".to_string(), page: 1, filters: filters(), source: AnimeSourceId::Goyabu };
    assert!(should_remember_search(&s, 3));
    assert!(!should_remember_search(&s, 0));
    let p2 = SearchRequest { page: 2, ..s.clone() };
    assert!(!should_remember_search(&p2, 3));
    let empty = SearchRequest { query: String::new(), ..s };
    assert!(!should_remember_search(&empty, 3));
}

#[test]
fn cached_listings_and_freshness() {
    assert!(cached_page(vec![], 1).is_none());
    let item = CatalogItem { title: "A".to_string(), url: "u".to_string(), poster: None, category: None };
    let p = cached_page(vec![item], 4).unwrap();
    assert_eq!(p.page, 4);
    assert!(p.has_next);
    assert!(cache_is_fresh(1000 + 3599, 1000));
    assert!(!cache_is_fresh(1000 + 3600, 1000));
}

#[test]
fn error_messages() {
    assert_eq!(SourceError::Http("404".to_string()).message(), "HTTP error: 404");
    assert_eq!(SourceError::Parse("x".to_string()).message(), "Parse error: x");
    assert_eq!(SourceError::NoStream.message(), "No stream URL found");
    assert_eq!(SourceError::UnknownSource.message(), "Fonte desconhecida");
    assert_eq!(SourceError::Other("boom".to_string()).message(), "boom");
    assert_eq!(
        anime_url_error(&SourceError::UnsupportedUrl),
        "URL inválida. Cole um link de anime ou episódio de uma das fontes suportadas."
    );
    assert_eq!(anime_url_error(&SourceError::NoStream), "No stream URL found");
}

#[test]
fn settings_are_clamped_and_migrated() {
    let mut s = AppSettings::with_download_folder("C:/Users/a/Videos/ShishiAnimes".to_string());
    s.max_concurrent = 0;
    assert_eq!(clamped_settings(s.clone()).max_concurrent, 1);
    s.max_concurrent = 99;
    assert_eq!(clamped_settings(s.clone()).max_concurrent, 10);
    s.max_concurrent = 4;
    assert_eq!(clamped_settings(s.clone()).max_concurrent, 4);
    let m = migrate_settings(s.clone());
    assert!(!m.download_folder.contains("ShishiAnimes"));
    assert_eq!(m.max_concurrent, 4);
    let same = migrate_settings(AppSettings::with_download_folder("/d".to_string()));
    assert_eq!(same.download_folder, "/d");
}

#[test]
fn posters_become_data_urls() {
    assert_eq!(poster_data_url("x.png", b"tiny"), None);
    let mut png = b"\x89PNG\r\n\x1a\n".to_vec();
    png.resize(600, 0);
    let d = poster_data_url("x", &png).unwrap();
    assert!(d.starts_with("data:image/png;base64,iVBORw0KGgo"));
}

#[test]
fn poster_cache_gives_back_the_last_write() {
    let mut c = PosterCache::new();
    c.insert("u".to_string(), "d1".to_string());
    c.insert("v".to_string(), "e".to_string());
    c.insert("u".to_string(), "d2".to_string());
    assert_eq!(c.len(), 2);
    assert_eq!(c.get("u"), Some("d2".to_string()));
    assert_eq!(c.get("v"), Some("e".to_string()));
    assert_eq!(c.get("w"), None);
    for k in 0..299 {
        c.insert(format!("k{k}"), "x".to_string());
    }
    c.insert("last".to_string(), "z".to_string());
    assert_eq!(c.len(), 1);
    assert_eq!(c.get("last"), Some("z".to_string()));
}
