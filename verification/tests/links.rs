use minha_princesa_animes::download::ffmpeg::resolve_ffmpeg_path;
use minha_princesa_animes::sources::dooplay::embed::parse_meusdoramas_route;
use minha_princesa_animes::sushi::parser::{is_catalog_media_href, parse_episode_url};

#[test]
fn parse_episode_url_reads_season_then_episode() {
    let url = "https://sushianimes.com.br/anime/re-zero-kara-hajimeru-isekai-seikatsu-dublado-989-1-season-5-episode";
    let (season, episode) = parse_episode_url(url).unwrap();
    assert_eq!(season, 1);
    assert_eq!(episode, 5);
}

#[test]
fn parse_episode_url_season_two_episode_two() {
    let url = "https://sushianimes.com.br/anime/show-10-2-season-2-episode";
    let (season, episode) = parse_episode_url(url).unwrap();
    assert_eq!(season, 2);
    assert_eq!(episode, 2);
}

#[test]
fn is_catalog_media_href_rejects_episode_links() {
    assert!(!is_catalog_media_href("/anime/foo-1-season-1-episode"));
    assert!(is_catalog_media_href("/anime/overlord-175"));
    assert!(is_catalog_media_href("/filme/some-movie"));
    assert!(is_catalog_media_href("/assistir/some-movie"));
}

#[test]
fn parse_meusdoramas_hash_route() {
    let route = parse_meusdoramas_route("https://serv01.meusdoramas.club/#/video/92584/1/1/").expect("route");
    assert_eq!(route.0, "https://serv01.meusdoramas.club");
    assert_eq!(route.1, "92584");
    assert_eq!(route.2, "1");
    assert_eq!(route.3, "1");
}

#[test]
fn resolve_does_not_panic_on_empty() {
    let _ = resolve_ffmpeg_path("", false, &Vec::new(), &Vec::new());
}
