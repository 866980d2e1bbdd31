use minha_princesa_animes::sources::dooplay::DooplaySource;
use minha_princesa_animes::sources::dooplay::embed::doramas_api_url;
use minha_princesa_animes::sushi::parser::{browse_catalog_path, search_catalog_path as sushi_search};
use minha_princesa_animes::models::{AnimeSourceId, CatalogType};
use minha_princesa_animes::sources::animesdigital::client::AnimesdigitalClient;
use minha_princesa_animes::sources::animesdigital::parser::{build_list_filters, genre_listing_path, listing_form, search_form};
use minha_princesa_animes::sources::animesonlinecc::AnimesonlineccSource;
use minha_princesa_animes::sources::dooplay::embed::{iframe_stream_headers, stream_priority as listed_priority};
use minha_princesa_animes::sources::dooplay::parser::{browse_path as dooplay_browse_path, search_catalog_path};
use minha_princesa_animes::sources::dooplay::{classify_watch_url, AnimeLink, DooplayClient, DooplaySiteConfig};
use minha_princesa_animes::sources::goyabu::client::GoyabuClient;
use minha_princesa_animes::sources::goyabu::parser::browse_path as goyabu_browse_path;
use minha_princesa_animes::sources::meusanimes::MeusanimesSource;
use minha_princesa_animes::sources::stream::{
    classify_url, extract_iframe_srcs, parse_blogger_video_config, stream_from_url, stream_priority,
};
use minha_princesa_animes::sources::{
    normalize_with_base, site_headers, source_for_url, AnimeSource, SourceError, SourceRegistry, StreamKind,
};
use minha_princesa_animes::sushi::client::SushiClient;

#[test]
fn links_are_tied_to_their_source() {
    assert_eq!(SourceRegistry::for_url("https://GOYABU.io/anime/x").ok(), Some(AnimeSourceId::Goyabu));
    assert_eq!(SourceRegistry::for_url("https://meusanimes.blog/a/x/").ok(), Some(AnimeSourceId::Meusanimes));
    assert_eq!(SourceRegistry::for_url("https://animesonlinecc.to/anime/x/").ok(), Some(AnimeSourceId::Animesonlinecc));
    assert_eq!(SourceRegistry::for_url("https://animesdigital.org/video/a/1/").ok(), Some(AnimeSourceId::Animesdigital));
    assert_eq!(source_for_url("https://sushianimes.com.br/anime/x").ok(), Some(AnimeSourceId::Sushianimes));
    assert!(matches!(SourceRegistry::for_url("https://example.org/"), Err(SourceError::UnknownSource)));
}

#[test]
fn normalizing_twice_changes_nothing() {
    let base = "https://goyabu.io";
    for input in ["  /anime/x ", "anime/y", "https://other.site/z", "", "   "] {
        let once = normalize_with_base(base, input);
        assert_eq!(normalize_with_base(base, &once), once);
    }
    assert_eq!(normalize_with_base(base, " /anime/x "), "https://goyabu.io/anime/x");
    assert_eq!(normalize_with_base(base, "anime/y"), "https://goyabu.io/anime/y");
    assert_eq!(normalize_with_base(base, ""), "https://goyabu.io/");
}

#[test]
fn headers_take_a_valid_referer_only() {
    let h = site_headers("https://goyabu.io", Some("https://goyabu.io/123"));
    assert_eq!(h[1], ("referer".to_string(), "https://goyabu.io/123".to_string()));
    assert_eq!(h[2], ("origin".to_string(), "https://goyabu.io".to_string()));
    let bad = site_headers("https://goyabu.io", Some("line\nbreak"));
    assert_eq!(bad[1].1, "https://goyabu.io");
    let none = GoyabuClient::stream_headers(None);
    assert_eq!(none[1].1, "https://goyabu.io");
    assert_eq!(none[0].0, "user-agent");
    assert_eq!(SushiClient::stream_headers(None)[2].1, "https://sushianimes.com.br");
    let client = DooplayClient::new(DooplaySiteConfig::meusanimes());
    assert_eq!(client.stream_headers(Some("https://meusanimes.blog/e/x/"))[1].1, "https://meusanimes.blog/e/x/");
}

#[test]
fn theme_sites_classify_their_links() {
    let aocc = AnimesonlineccSource;
    let meus = MeusanimesSource;
    assert_eq!(aocc.id(), AnimeSourceId::Animesonlinecc);
    assert_eq!(meus.base_url(), "https://meusanimes.blog");
    assert!(aocc.is_episode_url("/episodio/one-piece-episodio-835/"));
    assert!(!aocc.is_episode_url("/anime/one-piece/"));
    assert!(meus.is_supported_watch_url("https://meusanimes.blog/a/one-piece-1/"));
    assert!(!meus.is_supported_watch_url("https://meusanimes.blog/genero/acao/"));
    assert_eq!(meus.normalize_url("/e/x/"), "https://meusanimes.blog/e/x/");
    let c = DooplaySiteConfig::meusanimes();
    assert!(matches!(classify_watch_url(c, "/e/one-piece-1-episodio-2/"), Ok(AnimeLink::Episode(u)) if u == "https://meusanimes.blog/e/one-piece-1-episodio-2/"));
    assert!(matches!(classify_watch_url(c, "/a/one-piece-1/"), Ok(AnimeLink::Anime(_))));
    assert!(matches!(classify_watch_url(c, "/genero/acao/"), Err(SourceError::UnsupportedUrl)));
}

#[test]
fn goyabu_and_digital_links() {
    assert!(GoyabuClient::is_episode_url("https://goyabu.io/71102"));
    assert!(!GoyabuClient::is_episode_url("https://goyabu.io/anime/ichijouma-mankitsugurashi"));
    assert!(GoyabuClient::is_anime_url("https://goyabu.io/anime/ichijouma-mankitsugurashi"));
    assert!(AnimesdigitalClient::is_episode_url("https://animesdigital.org/video/a/136491/"));
    assert!(AnimesdigitalClient::is_anime_url("https://animesdigital.org/anime/b/one-piece-todos-episodios-5/"));
    assert!(!AnimesdigitalClient::is_anime_url("https://animesdigital.org/video/a/136491/"));
    assert!(SushiClient::is_episode_url("https://sushianimes.com.br/anime/overlord-175-1-season-1-episode"));
    assert!(SushiClient::is_anime_url("https://sushianimes.com.br/anime/overlord-175"));
}

#[test]
fn stream_kinds_and_priorities() {
    assert_eq!(classify_url("https://x/a.M3U8?t=1").unwrap().kind, StreamKind::Hls);
    assert_eq!(classify_url("https://x/a.txt").unwrap().kind, StreamKind::Hls);
    assert_eq!(classify_url("https://x/a.mp4").unwrap().kind, StreamKind::Mp4);
    assert!(classify_url("https://x/page.html").is_none());
    assert_eq!(stream_from_url("  https://x/a.mp4 ").unwrap().url, "https://x/a.mp4");
    assert_eq!(stream_priority("https://x/a.m3u8"), 0);
    assert_eq!(stream_priority("https://x/a.txt"), 1);
    assert_eq!(stream_priority("https://x/a.mp4"), 2);
    assert_eq!(stream_priority("https://x/a.ts"), 3);
    assert_eq!(stream_priority("https://x/a"), 99);
    assert_eq!(listed_priority("https://x/a.mp4"), 2);
}

#[test]
fn iframes_and_blogger_config() {
    let html = r#"<iframe width="1" src=" https://player.x/embed?d=1 "></iframe><iframe src="/local"></iframe>"#;
    assert_eq!(extract_iframe_srcs(html), vec!["https://player.x/embed?d=1".to_string()]);
    let page = r#"<script>var VIDEO_CONFIG = {"streams":[{"play_url":"https://r.googlevideo.com/v.mp4"},{"format_id":18}]};</script>"#;
    let s = parse_blogger_video_config(page).unwrap();
    assert_eq!(s.url, "https://r.googlevideo.com/v.mp4");
    assert_eq!(s.kind, StreamKind::Mp4);
    assert!(parse_blogger_video_config("var VIDEO_CONFIG = {oops}</script>").is_none());
}

#[test]
fn iframe_headers_come_from_the_player_host() {
    let (referer, origin) = iframe_stream_headers("https://serv01.meusdoramas.club/#/video/1/1/1/", "https://meusanimes.blog/e/x/", "https://meusanimes.blog");
    assert_eq!(referer, "https://serv01.meusdoramas.club/");
    assert_eq!(origin, "https://serv01.meusdoramas.club");
    let (r2, o2) = iframe_stream_headers("nonsense", "https://meusanimes.blog/e/x/", "https://meusanimes.blog");
    assert_eq!(r2, "https://meusanimes.blog/e/x/");
    assert_eq!(o2, "https://meusanimes.blog");
}

#[test]
fn listing_paths_and_forms() {
    let c = DooplaySiteConfig::animesonlinecc();
    assert_eq!(dooplay_browse_path(c, CatalogType::Animes, 1, None).as_deref(), Some("/anime/"));
    assert_eq!(dooplay_browse_path(c, CatalogType::Animes, 3, None).as_deref(), Some("/anime/page/3/"));
    assert_eq!(dooplay_browse_path(c, CatalogType::Category, 2, Some("drama")).as_deref(), Some("/generos/drama/page/2/"));
    assert_eq!(dooplay_browse_path(c, CatalogType::Filmes, 1, None), None);
    assert_eq!(search_catalog_path("one piece", 1), "/?s=one%20piece");
    assert_eq!(search_catalog_path("a&b", 2), "/?s=a%26b&paged=2");
    assert_eq!(genre_listing_path(None, 1), "/genero/acao/");
    assert_eq!(genre_listing_path(Some("drama"), 4), "/genero/drama/?pagina=4");
    assert_eq!(
        build_list_filters("animes", "legendado"),
        r#"{"filter_data":"filter_letter=0&type_url=animes&filter_audio=legendado&filter_order=name","filter_genre_add":[],"filter_genre_del":[]}"#
    );
    assert_eq!(build_list_filters("a\"b", "x")[..30].to_string(), r#"{"filter_data":"filter_letter="#);
    assert!(build_list_filters("a\"b", "x").contains(r#"type_url=a\"b"#));
    let form = listing_form("tok", 2, "", 30, "{}");
    assert_eq!(form[1], ("pagina".to_string(), "2".to_string()));
    assert_eq!(form[3], ("limit".to_string(), "30".to_string()));
    assert_eq!(form[4], ("type".to_string(), "lista".to_string()));
    assert!(goyabu_browse_path(CatalogType::Animes, 1, None).is_some());
}

#[test]
fn registry_hands_out_each_source() {
    for id in [
        AnimeSourceId::Sushianimes,
        AnimeSourceId::Goyabu,
        AnimeSourceId::Meusanimes,
        AnimeSourceId::Animesonlinecc,
        AnimeSourceId::Animesdigital,
    ] {
        assert_eq!(SourceRegistry::get(id).id(), id);
    }
    assert_eq!(SourceRegistry::get(AnimeSourceId::Goyabu).base_url(), "https://goyabu.io");
    let theme = DooplaySource::new(DooplaySiteConfig::animesonlinecc());
    assert_eq!(theme.id(), AnimeSourceId::Animesonlinecc);
    assert!(theme.is_episode_url("https://animesonlinecc.to/episodio/x/"));
}

#[test]
fn doramas_api_link_from_the_route() {
    assert_eq!(
        doramas_api_url("https://serv01.meusdoramas.club/#/video/37854/1/2/").as_deref(),
        Some("https://serv01.meusdoramas.club/posts/get-video.php?episode_number=2&season_number=1&tmdb=37854")
    );
    assert_eq!(doramas_api_url("https://serv01.meusdoramas.club/"), None);
}

#[test]
fn sushi_listing_paths() {
    assert_eq!(browse_catalog_path(CatalogType::Animes, 2, None), "/animes?page=2");
    assert_eq!(browse_catalog_path(CatalogType::Filmes, 1, None), "/filmes?page=1");
    assert_eq!(browse_catalog_path(CatalogType::Category, 3, None), "/category/acao?page=3");
    assert_eq!(browse_catalog_path(CatalogType::Category, 1, Some("drama")), "/category/drama?page=1");
    assert_eq!(sushi_search("re zero", 2), "/search?q=re%20zero&page=2");
}

#[test]
fn search_form_encodes_the_query() {
    let form = search_form("tok", 3, "one piece/ação", "{}");
    let expected = [
        ("token", "tok"),
        ("pagina", "3"),
        ("search", "one%20piece%2Fa%C3%A7%C3%A3o"),
        ("limit", "30"),
        ("type", "lista"),
        ("filters", "{}"),
    ];
    assert_eq!(form.len(), expected.len());
    for (got, (k, v)) in form.iter().zip(expected) {
        assert_eq!((got.0.as_str(), got.1.as_str()), (k, v));
    }
}
