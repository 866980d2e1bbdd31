use minha_princesa_animes::sources::animesdigital::parser as digital;
use minha_princesa_animes::sources::dooplay::episodes::parse_episode_list;
use minha_princesa_animes::sources::dooplay::parser::{clean_title, parse_episode_number};
use minha_princesa_animes::sources::dooplay::DooplaySiteConfig;
use minha_princesa_animes::sources::goyabu::parser::{episodes_from_json, episodes_json, GoyabuEpisodeJson};
use minha_princesa_animes::sources::SourceError;

#[test]
fn theme_episode_list_is_sorted_and_unique() {
    let html = r#"
      <ul class="episodios">
        <li><div class="numerando">1 - 3</div><div class="episodiotitle"><a href="/e/show-episodio-3/">Third</a></div></li>
        <li><div class="numerando">1 - 1</div><div class="episodiotitle"><a href="/e/show-episodio-1/">First</a></div></li>
        <li><div class="numerando">1 - 1</div><div class="episodiotitle"><a href="/e/show-episodio-1/">Again</a></div></li>
        <li><div class="episodiotitle"><a href="/a/not-an-episode/">Anime</a></div></li>
      </ul>"#;
    let eps = parse_episode_list(DooplaySiteConfig::meusanimes(), html).unwrap();
    let numbers: Vec<u32> = eps.iter().map(|e| e.number).collect();
    assert_eq!(numbers, vec![1, 3]);
    assert_eq!(eps[0].title, "First");
    assert_eq!(eps[0].url, "https://meusanimes.blog/e/show-episodio-1/");
    assert_eq!(eps[1].season, 1);
}

#[test]
fn theme_episode_list_falls_back_to_raw_links() {
    let html = r#"<div><a class="x" href='https://animesonlinecc.to/episodio/show-episodio-7/'>go</a></div>"#;
    let eps = parse_episode_list(DooplaySiteConfig::animesonlinecc(), html).unwrap();
    assert_eq!(eps.len(), 1);
    assert_eq!(eps[0].number, 7);
    assert_eq!(eps[0].title, "Episódio 7");
    let none = parse_episode_list(DooplaySiteConfig::animesonlinecc(), "<p>nothing</p>");
    assert!(matches!(none, Err(SourceError::Parse(m)) if m == "Nenhum episódio encontrado"));
}

#[test]
fn theme_episode_numbers_and_titles() {
    assert_eq!(parse_episode_number("2 - 14", "", ""), 14);
    assert_eq!(parse_episode_number("", "https://x/e/Show-Episodio-9/", ""), 9);
    assert_eq!(parse_episode_number("", "https://x/e/a/", "todos-episodios-4"), 4);
    assert_eq!(parse_episode_number("", "", ""), 1);
    assert_eq!(clean_title("One Piece - Todos os Episódios"), "One Piece");
    assert_eq!(clean_title("  Eden Todos os Episodios  "), "Eden");
}

#[test]
fn goyabu_episode_json() {
    let html = r#"<script>const allEpisodes = [{"link":"/71102","episodio":"2","episode_name":""}];</script>"#;
    assert_eq!(episodes_json(html).unwrap(), r#"[{"link":"/71102","episodio":"2","episode_name":""}]"#);
    assert!(matches!(episodes_json("<p></p>"), Err(SourceError::Parse(m)) if m == "Lista de episódios não encontrada"));
    assert!(matches!(episodes_json("const allEpisodes = [1,2"), Err(SourceError::Parse(m)) if m == "JSON de episódios inválido"));
    let items = vec![
        GoyabuEpisodeJson { link: "/71103".to_string(), episodio: "3".to_string(), episode_name: "Three".to_string() },
        GoyabuEpisodeJson { link: "71102".to_string(), episodio: "2".to_string(), episode_name: String::new() },
        GoyabuEpisodeJson { link: "/x".to_string(), episodio: "special".to_string(), episode_name: "S".to_string() },
    ];
    let eps = episodes_from_json(items).unwrap();
    assert_eq!(eps.len(), 2);
    assert_eq!(eps[0].number, 2);
    assert_eq!(eps[0].title, "Episódio 2");
    assert_eq!(eps[0].url, "https://goyabu.io/71102");
    assert_eq!(eps[1].title, "Three");
    assert!(episodes_from_json(vec![]).is_err());
}

#[test]
fn digital_episodes_from_video_links() {
    let html = r#"
      <a href="https://animesdigital.org/video/a/136492/"><img alt="One Piece Episódio 12"/></a>
      <a href="/video/a/136491/"> Episodio 11 </a>
      <a href="/video/a/136491/">dup</a>"#;
    let eps = digital::parse_episodes(html).unwrap();
    assert_eq!(eps.len(), 2);
    assert_eq!(eps[0].number, 11);
    assert_eq!(eps[0].title, "Episodio 11");
    assert_eq!(eps[1].number, 12);
    assert_eq!(eps[1].title, "One Piece Episódio 12");
    assert_eq!(digital::parse_episode_number("", "https://x/Episódio 5"), 5);
    assert_eq!(digital::parse_episode_number("", "https://x/episodio-5"), 1);
    assert!(digital::parse_episodes("<p></p>").is_err());
}

#[test]
fn theme_raw_links_escape_the_episode_prefix() {
    let config = DooplaySiteConfig { episode_prefix: "/ep.1/", ..DooplaySiteConfig::meusanimes() };
    let html = r#"<div><a class="x" href='/epX1/show-episodio-3/'>go</a></div>"#;
    assert!(parse_episode_list(config, html).is_err());
    let exact = r#"<div><a class="x" href='/ep.1/show-episodio-3/'>go</a></div>"#;
    assert_eq!(parse_episode_list(config, exact).unwrap()[0].number, 3);
}
