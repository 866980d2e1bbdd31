use minha_princesa_animes::sources::sushianimes::anime_page_url;
use minha_princesa_animes::sources::SourceError;
use minha_princesa_animes::sushi::seasons::parse_anime_html;
use minha_princesa_animes::models::{CatalogFilters, CatalogItem, CatalogPage, CatalogSort, MediaFilter};
use minha_princesa_animes::sushi::catalog::{parse_catalog_html, parse_categories_html};
use minha_princesa_animes::sushi::client::SushiClient;
use minha_princesa_animes::sushi::parser::{
    apply_catalog_filters, catalog_has_next, clean_anime_title, extract_episode_number, extract_season_number,
    parse_embed_id_from_html, sort_by_title,
};

fn item(title: &str, url: &str, category: Option<&str>) -> CatalogItem {
    CatalogItem { title: title.to_string(), url: url.to_string(), poster: None, category: category.map(|c| c.to_string()) }
}

fn titles(p: &CatalogPage) -> Vec<String> {
    p.items.iter().map(|i| i.title.clone()).collect()
}

#[test]
fn embed_id_prefers_the_selected_source() {
    let html = r#"<a class="dropdown-source" data-embed="11">A</a><a class="dropdown-source selected" data-embed="22">B</a>"#;
    assert_eq!(parse_embed_id_from_html(html).unwrap(), "22");
    assert_eq!(parse_embed_id_from_html(r#"<a data-embed="7">x</a>"#).unwrap(), "7");
    assert!(parse_embed_id_from_html("<p></p>").is_err());
}

#[test]
fn titles_and_numbers() {
    assert_eq!(clean_anime_title("Assistir Overlord – Todos os Episódios"), "Overlord");
    assert_eq!(clean_anime_title("Re-Zero"), "Re");
    assert_eq!(extract_season_number("season-3"), Some(3));
    assert_eq!(extract_season_number("tab"), None);
    assert_eq!(extract_episode_number("Episódio 12 - Fim"), Some(12));
    assert_eq!(extract_episode_number("Final"), None);
}

#[test]
fn next_page_markers() {
    assert!(catalog_has_next("<a href='?page=3'>", 2));
    assert!(catalog_has_next("<li class='pagination-next'>", 9));
    assert!(catalog_has_next("Próxima", 1));
    assert!(!catalog_has_next("<a href='?page=2'>", 2));
}

#[test]
fn session_token_is_remembered() {
    let mut c = SushiClient::new();
    assert_eq!(c.csrf_token(), None);
    c.remember_page(r#"<meta name="csrf-token" content="abc123">"#);
    assert_eq!(c.csrf_token(), Some("abc123".to_string()));
    c.remember_page("<p>no token</p>");
    assert_eq!(c.csrf_token(), Some("abc123".to_string()));
}

#[test]
fn catalog_lists_each_link_once() {
    let html = r#"
      <div><div><a class="list-media" href="/anime/overlord-175"><img data-src="/c/o.jpg"></a></div>
        <span class="list-title">Overlord</span><span class="list-category">Ação</span></div>
      <a href="/anime/overlord-175">again</a>
      <a href="/anime/overlord-175-1-season-1-episode">episode</a>
      <a href="/filme/movie-9">Movie</a>
      <a href="?page=2">2</a>"#;
    let p = parse_catalog_html(html, 1).unwrap();
    let urls: Vec<&str> = p.items.iter().map(|i| i.url.as_str()).collect();
    assert_eq!(urls, vec!["https://sushianimes.com.br/anime/overlord-175", "https://sushianimes.com.br/filme/movie-9"]);
    assert_eq!(p.items[0].poster.as_deref(), Some("https://sushianimes.com.br/c/o.jpg"));
    assert!(p.has_next);
}

#[test]
fn categories_are_unique_and_sorted() {
    let html = r#"
      <a href="/category/drama/">Drama</a>
      <a href="/category/acao">Ação</a>
      <a href="/category/drama">Drama again</a>
      <a href="/category/">Empty</a>"#;
    let cats = parse_categories_html(html);
    let names: Vec<&str> = cats.iter().map(|c| c.name.as_str()).collect();
    assert_eq!(names, vec!["Ação", "Drama", "Empty"]);
    assert_eq!(cats[1].slug, "drama");
    assert_eq!(cats[1].url, "https://sushianimes.com.br/category/drama/");
}

#[test]
fn filters_keep_matching_items_and_sort_them() {
    let page = CatalogPage {
        items: vec![
            item("beta", "https://s/anime/b", Some("Ação, Drama")),
            item("Alpha", "https://s/filme/a", Some("Drama")),
            item("gamma", "https://s/anime/g", None),
        ],
        page: 2,
        has_next: true,
    };
    let f = CatalogFilters {
        media_filter: MediaFilter::All,
        sort: CatalogSort::TitleAsc,
        category: Some("drama".to_string()),
        title_filter: None,
    };
    let r = apply_catalog_filters(page.clone(), &f);
    assert_eq!(titles(&r), vec!["Alpha", "beta"]);
    assert_eq!(r.page, 2);
    let anime_only = CatalogFilters { media_filter: MediaFilter::Anime, sort: CatalogSort::TitleDesc, category: None, title_filter: Some("A".to_string()) };
    assert_eq!(titles(&apply_catalog_filters(page.clone(), &anime_only)), vec!["gamma", "beta"]);
    let films = CatalogFilters { media_filter: MediaFilter::Filme, sort: CatalogSort::Default, category: None, title_filter: Some(String::new()) };
    assert_eq!(titles(&apply_catalog_filters(page, &films)), vec!["Alpha"]);
}

#[test]
fn filtering_twice_changes_nothing() {
    let page = CatalogPage {
        items: vec![
            item("beta", "https://x/anime/b", Some("Drama")),
            item("Alpha", "https://x/anime/a1", Some("drama")),
            item("alpha", "https://x/anime/a2", Some("Drama, Ação")),
            item("Gamma", "https://x/filme/g", Some("Ação")),
            item("delta", "https://x/anime/d", None),
        ],
        page: 4,
        has_next: true,
    };
    let sorts = [CatalogSort::Default, CatalogSort::TitleAsc, CatalogSort::TitleDesc];
    for sort in sorts {
        let f = CatalogFilters { media_filter: MediaFilter::Anime, sort, category: Some("DRAMA".to_string()), title_filter: Some("a".to_string()) };
        let once = apply_catalog_filters(page.clone(), &f);
        let twice = apply_catalog_filters(once.clone(), &f);
        let urls = |p: &CatalogPage| p.items.iter().map(|i| i.url.clone()).collect::<Vec<String>>();
        assert_eq!(urls(&twice), urls(&once));
        assert_eq!(twice.page, 4);
        assert!(twice.has_next);
    }
    let asc = CatalogFilters { media_filter: MediaFilter::All, sort: CatalogSort::TitleAsc, category: None, title_filter: None };
    let once = apply_catalog_filters(page, &asc);
    assert_eq!(titles(&once), vec!["Alpha", "alpha", "beta", "delta", "Gamma"]);
    assert_eq!(titles(&apply_catalog_filters(once.clone(), &asc)), titles(&once));
}

#[test]
fn title_sort_is_stable_and_case_blind() {
    let items = vec![item("b", "1", None), item("A", "2", None), item("a", "3", None)];
    let asc = sort_by_title(items.clone(), false);
    let urls: Vec<&str> = asc.iter().map(|i| i.url.as_str()).collect();
    assert_eq!(urls, vec!["2", "3", "1"]);
    let desc = sort_by_title(items, true);
    let urls: Vec<&str> = desc.iter().map(|i| i.url.as_str()).collect();
    assert_eq!(urls, vec!["1", "2", "3"]);
}

#[test]
fn anime_page_groups_episodes_by_season() {
    let html = r#"
      <html><head>
        <meta property="og:title" content="Assistir Overlord – Todos os Episódios">
        <meta property="og:description" content="Um jogo.">
      </head><body>
      <div class="epx-root">
        <div class="tab-pane" id="season-1">
          <a class="epx-card js-epx-item" href="/anime/overlord-175-1-season-2-episode"><span class="epx-title">Ep 2</span></a>
          <a class="epx-card js-epx-item" href="/anime/overlord-175-1-season-1-episode"><span class="epx-title">Ep 1</span><p class="epx-desc">Início</p></a>
        </div>
        <div class="tab-pane" id="season-2">
          <a class="epx-card" href="/anime/overlord-175-2-season-1-episode"><span class="epx-title">S2E1</span></a>
        </div>
      </div></body></html>"#;
    let info = parse_anime_html(html, "https://sushianimes.com.br/anime/overlord-175").unwrap();
    assert_eq!(info.title, "Overlord");
    assert_eq!(info.synopsis.as_deref(), Some("Um jogo."));
    assert_eq!(info.seasons.len(), 2);
    let s1: Vec<(u32, String)> = info.seasons[0].episodes.iter().map(|e| (e.number, e.title.clone())).collect();
    assert_eq!(s1, vec![(1, "Início".to_string()), (2, "Ep 2".to_string())]);
    assert_eq!(info.seasons[1].number, 2);
    assert_eq!(info.seasons[1].episodes[0].season, 2);
    assert_eq!(info.seasons[1].episodes[0].url, "https://sushianimes.com.br/anime/overlord-175-2-season-1-episode");
}

#[test]
fn episode_links_lead_to_their_anime_page() {
    assert_eq!(
        anime_page_url("https://sushianimes.com.br/anime/overlord-175-1-season-1-episode").unwrap(),
        "https://sushianimes.com.br/anime/overlord-175"
    );
    assert_eq!(anime_page_url("/anime/overlord-175").unwrap(), "https://sushianimes.com.br/anime/overlord-175");
    assert!(matches!(anime_page_url("https://sushianimes.com.br/categories"), Err(SourceError::UnsupportedUrl)));
}
