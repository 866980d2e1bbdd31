use minha_princesa_animes::sources::animesdigital::parser as digital;
use minha_princesa_animes::sources::dooplay::pages as dooplay;
use minha_princesa_animes::sources::dooplay::DooplaySiteConfig;
use minha_princesa_animes::sources::goyabu::parser as goyabu;

#[test]
fn parse_catalog_extracts_anime_links() {
    let html = r#"
        <div class="itemA"><a href="https://animesdigital.org/anime/a/test-anime">
          <img src="/poster.jpg" alt="Assistir Test Anime Online em HD"/>
          <span class="title_anime">Test Anime</span>
        </a></div>
        "#;
    let page = digital::parse_catalog_html(html, 1).unwrap();
    assert_eq!(page.items.len(), 1);
    assert!(page.items[0].url.contains("test-anime"));
    assert_eq!(page.items[0].title, "Test Anime");
}

#[test]
fn parse_catalog_extracts_legacy_anime_b_links() {
    let html = r#"
        <a href="https://animesdigital.org/anime/b/test-anime/">
          <img src="/poster.jpg" alt="Test Anime"/>
        </a>
        "#;
    let page = digital::parse_catalog_html(html, 1).unwrap();
    assert_eq!(page.items.len(), 1);
    assert!(page.items[0].url.contains("test-anime"));
}

#[test]
fn parse_catalog_extracts_items() {
    let html = r#"
        <article class="item">
          <a href="/anime/test-anime/"><img src="/poster.jpg"/><h3>Test Anime</h3></a>
        </article>
        "#;
    let page = dooplay::parse_catalog_html(DooplaySiteConfig::animesonlinecc(), html, 1).unwrap();
    assert_eq!(page.items.len(), 1);
    assert!(page.items[0].url.contains("/anime/test-anime"));
}

#[test]
fn parse_catalog_html_extracts_items() {
    let html = r#"
        <article class="boxAN">
          <a href="/anime/test-anime"><img class="cover" src="/poster.webp"/><div class="title">Test Anime</div></a>
        </article>
        <div class="pagination" data-current-page="1" data-total-pages="3"></div>
        "#;
    let page = goyabu::parse_catalog_html(html, 1).unwrap();
    assert_eq!(page.items.len(), 1);
    assert_eq!(page.items[0].title, "Test Anime");
    assert!(page.items[0].url.contains("/anime/test-anime"));
    assert!(page.has_next);
}
