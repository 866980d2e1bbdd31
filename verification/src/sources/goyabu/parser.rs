//! Reading Goyabu pages: anime pages, catalogue pages and the genre list.

use vstd::prelude::*;
use crate::models::each_once;
use crate::models::{AnimeInfo, CatalogItem, CatalogPage, CatalogType, CategoryInfo, EpisodeInfo, EpisodeView, ItemView, SeasonInfo, ep_view, item_view};
use crate::outside::{ElementView, probed_inside, select_elements, select_inside, selected};
use crate::sources::SourceError;
use crate::sources::goyabu::client::{BASE_URL, GoyabuClient};
use crate::sources::normalized;
use crate::sources::page::{lemma_card_scan_ok, CardInput, Cards, Categories, CategoryView, card_scan, category_scan, category_view, extract_text, first_attr, first_attr_at, first_attr_in, first_title_in, first_trimmed, non_empty, sort_by_number, sorted_by_name, sorted_by_number};
use crate::sources::stream::{first_group1, regex_first_group1};
use crate::text::{after, after_str, append, before, chars_of, contains, decimal, ends, ends_with_str, has_sub, own, parse_u32, parse_u32_str, push_decimal};

verus! {

/// An episode as the page's episode list gives it.
#[derive(Debug, Clone)]
pub struct GoyabuEpisodeJson {
    pub link: String,
    pub episodio: String,
    pub episode_name: String,
}

/// Where an anime page starts its episode list.
pub open spec fn list_marker() -> Seq<char> {
    "const allEpisodes = "@
}

/// The episode list of an anime page as JSON: from the marker up to the
/// first `];` after it, closed by `]`.
pub open spec fn episodes_json_text(html: Seq<char>) -> Result<Seq<char>, Seq<char>> {
    match after(html, list_marker()) {
        None => Err("Lista de episódios não encontrada"@),
        Some(rest) => if has_sub(rest, "];"@) {
            Ok(before(rest, "];"@) + "]"@)
        } else {
            Err("JSON de episódios inválido"@)
        },
    }
}

/// Cuts the episode list out of an anime page.
pub fn episodes_json(html: &str) -> (r: Result<String, SourceError>)
    ensures
        match r {
            Ok(j) => episodes_json_text(html@) == Ok::<Seq<char>, Seq<char>>(j@),
            Err(e) => episodes_json_text(html@) matches Err(m) && (e matches SourceError::Parse(t)
                && t@ == m),
        },
{
    let rest = match after_str(html, "const allEpisodes = ") {
        Some(r) => r,
        None => return Err(SourceError::Parse(own("Lista de episódios não encontrada"))),
    };
    let rv = chars_of(rest.as_str());
    if !crate::text::contains_str(&rv, "];") {
        return Err(SourceError::Parse(own("JSON de episódios inválido")));
    }
    let mut j = crate::text::before_str(rest.as_str(), "];");
    append(&mut j, "]");
    Ok(j)
}

/// The title of an episode without a name.
pub open spec fn numbered_title(n: u32) -> Seq<char> {
    "Episódio "@ + decimal(n as nat)
}

/// The episode an entry of the list stands for, when its number parses.
pub open spec fn json_episode(e: GoyabuEpisodeJson) -> Option<EpisodeView> {
    match parse_u32(e.episodio@) {
        None => None,
        Some(n) => Some(
            (
                n,
                1u32,
                if e.episode_name@.len() == 0 {
                    numbered_title(n)
                } else {
                    e.episode_name@
                },
                None,
                normalized(BASE_URL@, e.link@),
            ),
        ),
    }
}

/// The episodes of the list's entries whose number parses, in order.
pub open spec fn json_episodes(items: Seq<GoyabuEpisodeJson>) -> Seq<EpisodeView>
    decreases items.len(),
{
    if items.len() == 0 {
        Seq::empty()
    } else {
        match json_episode(items.last()) {
            Some(v) => json_episodes(items.drop_last()).push(v),
            None => json_episodes(items.drop_last()),
        }
    }
}

/// The episodes of a parsed episode list, sorted by number; an error when
/// none has a number.
pub fn episodes_from_json(items: Vec<GoyabuEpisodeJson>) -> (r: Result<Vec<EpisodeInfo>, SourceError>)
    ensures
        match r {
            Ok(eps) => json_episodes(items@).len() > 0 && sorted_by_number(
                json_episodes(items@),
                eps@.map_values(|e: EpisodeInfo| ep_view(e)),
            ),
            Err(e) => json_episodes(items@).len() == 0 && (e matches SourceError::Parse(m) && m@
                == "Nenhum episódio encontrado"@),
        },
{
    let mut eps: Vec<EpisodeInfo> = Vec::new();
    let mut k: usize = 0;
    while k < items.len()
        invariant
            k <= items@.len(),
            eps@.map_values(|e: EpisodeInfo| ep_view(e)) == json_episodes(items@.take(k as int)),
        decreases items@.len() - k,
    {
        let it = &items[k];
        proof {
            assert(items@.take(k + 1).drop_last() =~= items@.take(k as int));
        }
        if let Some(n) = parse_u32_str(it.episodio.as_str()) {
            let url = GoyabuClient::normalize_url(it.link.as_str());
            let title = if chars_of(it.episode_name.as_str()).len() == 0 {
                let mut t = own("Episódio ");
                push_decimal(&mut t, n);
                t
            } else {
                it.episode_name.clone()
            };
            let ep = EpisodeInfo { number: n, season: 1, title, description: None, url };
            let ghost before = eps@;
            eps.push(ep);
            proof {
                assert(eps@.map_values(|e: EpisodeInfo| ep_view(e)) =~= before.map_values(
                    |e: EpisodeInfo| ep_view(e),
                ).push(ep_view(ep)));
            }
        }
        k += 1;
    }
    assert(items@.take(k as int) =~= items@);
    if eps.len() == 0 {
        return Err(SourceError::Parse(own("Nenhum episódio encontrado")));
    }
    Ok(sort_by_number(eps))
}

/// The pattern of the `og:image` meta tag in a page's source.
pub open spec fn og_image_pattern() -> Seq<char> {
    r#"<meta property="og:image" content="([^"]+)""#@
}

/// The poster of an anime page: its cover image, else its `og:image`.
pub open spec fn page_poster(html: Seq<char>) -> Option<Seq<char>> {
    match first_attr(selected(html, ".streamer-poster img.cover, figure.thumb img.cover"@, seq!["src"@])) {
        Some(src) => Some(normalized(BASE_URL@, src)),
        None => match first_group1(og_image_pattern(), html) {
            Some(u) => Some(normalized(BASE_URL@, u)),
            None => None,
        },
    }
}

/// The title of an anime page: its hidden `h1`, else its `h1`, else "Anime".
pub open spec fn page_title(html: Seq<char>) -> Seq<char> {
    match non_empty(first_trimmed(selected(html, "h1.text-hidden"@, Seq::empty()))) {
        Some(t) => t,
        None => match non_empty(first_trimmed(selected(html, "h1"@, Seq::empty()))) {
            Some(t) => t,
            None => "Anime"@,
        },
    }
}

/// The synopsis of an anime page.
pub open spec fn page_synopsis(html: Seq<char>) -> Option<Seq<char>> {
    non_empty(first_trimmed(selected(html, ".streamer-info .sinopse, .sinopse, .descricao"@, Seq::empty())))
}

/// An anime page: its title, poster and synopsis, and `episodes` as its one season.
pub fn parse_anime_html(html: &str, url: &str, episodes: Vec<EpisodeInfo>) -> (r: AnimeInfo)
    ensures
        r.title@ == page_title(html@),
        r.url@ == url@,
        r.poster.deep_view() == page_poster(html@),
        r.synopsis.deep_view() == page_synopsis(html@),
        r.seasons@.len() == 1,
        r.seasons@[0].number == 1,
        r.seasons@[0].episodes@ == episodes@,
{
    let title = match extract_text(html, "h1.text-hidden") {
        Some(t) => t,
        None => match extract_text(html, "h1") {
            Some(t) => t,
            None => own("Anime"),
        },
    };
    let poster = match crate::sources::page::first_attr_of(
        html,
        ".streamer-poster img.cover, figure.thumb img.cover",
        "src",
    ) {
        Some(src) => Some(GoyabuClient::normalize_url(src.as_str())),
        None => match regex_first_group1(r#"<meta property="og:image" content="([^"]+)""#, html) {
            Some(u) => Some(GoyabuClient::normalize_url(u.as_str())),
            None => None,
        },
    };
    let synopsis = extract_text(html, ".streamer-info .sinopse, .sinopse, .descricao");
    let mut seasons: Vec<SeasonInfo> = Vec::new();
    seasons.push(SeasonInfo { number: 1, episodes });
    AnimeInfo { title, url: own(url), poster, synopsis, seasons }
}

/// Where an episode page links back to its anime.
pub open spec fn anime_link_pattern() -> Seq<char> {
    r#"href="(https://goyabu\.io/anime/[^"]+)""#@
}

/// The anime page that an episode page links to.
pub fn parse_episode_anime_url(html: &str) -> (r: Result<String, SourceError>)
    ensures
        match r {
            Ok(u) => first_group1(anime_link_pattern(), html@) == Some(u@),
            Err(e) => first_group1(anime_link_pattern(), html@) is None && (e matches SourceError::Parse(
                m,
            ) && m@ == "Link do anime não encontrado na página do episódio"@),
        },
{
    match regex_first_group1(r#"href="(https://goyabu\.io/anime/[^"]+)""#, html) {
        Some(u) => Ok(u),
        None => Err(SourceError::Parse(own("Link do anime não encontrado na página do episódio"))),
    }
}

/// The path of a catalogue listing (`None`: the site lists no films).
pub open spec fn catalog_path(catalog_type: CatalogType, page: u32, slug: Option<Seq<char>>) -> Option<Seq<char>> {
    match catalog_type {
        CatalogType::Animes => Some(
            if page <= 1 {
                "/lista-de-animes?l=todos"@
            } else {
                "/lista-de-animes?l=todos&paged="@ + decimal(page as nat)
            },
        ),
        CatalogType::Filmes => None,
        CatalogType::Category => {
            let s = match slug {
                Some(s) => s,
                None => "acao"@,
            };
            Some(
                if page <= 1 {
                    "/generos/"@ + s
                } else {
                    "/generos/"@ + s + "?paged="@ + decimal(page as nat)
                },
            )
        },
    }
}

/// The path of a catalogue listing.
pub fn browse_path(catalog_type: CatalogType, page: u32, slug: Option<&str>) -> (r: Option<String>)
    ensures
        r.deep_view() == catalog_path(
            catalog_type,
            page,
            match slug {
                Some(s) => Some(s@),
                None => None,
            },
        ),
{
    match catalog_type {
        CatalogType::Animes => {
            if page <= 1 {
                Some(own("/lista-de-animes?l=todos"))
            } else {
                let mut p = own("/lista-de-animes?l=todos&paged=");
                push_decimal(&mut p, page);
                Some(p)
            }
        },
        CatalogType::Filmes => None,
        CatalogType::Category => {
            let s = match slug {
                Some(s) => s,
                None => "acao",
            };
            let mut p = own("/generos/");
            append(&mut p, s);
            if page > 1 {
                append(&mut p, "?paged=");
                push_decimal(&mut p, page);
            }
            Some(p)
        },
    }
}

/// Where a catalogue page gives its number of pages.
pub open spec fn total_pages_pattern() -> Seq<char> {
    r#"data-total-pages="(\d+)""#@
}

/// A catalogue page has a next page: before its last page when it gives the
/// number of pages, else when it links the next page.
pub open spec fn has_next(html: Seq<char>, page: u32) -> bool {
    match first_group1(total_pages_pattern(), html) {
        Some(g) => match parse_u32(g) {
            Some(total) => page < total,
            None => has_sub(html, "paged="@ + decimal((page + 1) as nat)),
        },
        None => has_sub(html, "paged="@ + decimal((page + 1) as nat)),
    }
}

/// Whether a catalogue page has a next page.
pub fn parse_has_next(html: &str, page: u32) -> (r: bool)
    requires
        page < u32::MAX,
    ensures
        r == has_next(html@, page),
{
    if let Some(g) = regex_first_group1(r#"data-total-pages="(\d+)""#, html) {
        if let Some(total) = parse_u32_str(g.as_str()) {
            return page < total;
        }
    }
    let hv = chars_of(html);
    let mut p = own("paged=");
    push_decimal(&mut p, page + 1);
    let pv = chars_of(p.as_str());
    contains(&hv, &pv)
}

/// When a catalogue page gives its number of pages, a next page exists exactly
/// when the current page is below that number; the last page has none.
pub proof fn law_next_page_within_total(html: Seq<char>, page: u32, total: u32)
    requires
        first_group1(total_pages_pattern(), html) matches Some(g) && parse_u32(g) == Some(total),
    ensures
        has_next(html, page) <==> page < total,
        page >= total ==> !has_next(html, page),
        page == total ==> !has_next(html, page),
{
}

/// When a catalogue page gives no number of pages, it has a next page exactly
/// when it links it (`paged=` and the next number).
pub proof fn law_next_page_linked(html: Seq<char>, page: u32)
    requires
        first_group1(total_pages_pattern(), html) is None,
    ensures
        has_next(html, page) <==> has_sub(html, "paged="@ + decimal((page + 1) as nat)),
{
}

/// A category listing fetched with a slug names that slug: its path is
/// `/generos/` followed by the slug, and nothing more on the first page.
pub proof fn law_category_path_names_slug(page: u32, slug: Seq<char>)
    ensures
        catalog_path(CatalogType::Category, page, Some(slug)) matches Some(p) && p.len() >= 9 + slug.len()
            && p.subrange(0, 9) == "/generos/"@ && p.subrange(9, 9 + slug.len() as int) == slug,
        page <= 1 ==> catalog_path(CatalogType::Category, page, Some(slug)) == Some("/generos/"@ + slug),
{
    reveal_strlit("/generos/");
    let p = catalog_path(CatalogType::Category, page, Some(slug)).unwrap();
    let head = "/generos/"@ + slug;
    if page <= 1 {
        assert(p == head);
    } else {
        assert(p == head + "?paged="@ + decimal(page as nat));
        assert(p.subrange(0, head.len() as int) =~= head);
    }
    assert(p.subrange(0, 9) =~= head.subrange(0, 9));
    assert(p.subrange(9, 9 + slug.len() as int) =~= head.subrange(9, 9 + slug.len() as int));
    assert(head.subrange(0, 9) =~= "/generos/"@);
    assert(head.subrange(9, 9 + slug.len() as int) =~= slug);
}

/// The cards of a catalogue page.
pub open spec fn card_selector() -> Seq<char> {
    "article.boxAN"@
}

/// The attributes read from cards: `href`, `src`.
pub open spec fn card_attrs() -> Seq<Seq<char>> {
    seq!["href"@, "src"@]
}

/// The cards of a catalogue page as inputs: each card's first anime link,
/// first title and first cover.
pub open spec fn card_inputs(html: Seq<char>) -> Seq<CardInput> {
    let links = probed_inside(html, card_selector(), "a[href*='/anime/']"@, card_attrs());
    let titles = probed_inside(html, card_selector(), ".title, div.title"@, card_attrs());
    let covers = probed_inside(html, card_selector(), "img.cover"@, card_attrs());
    Seq::new(
        links.len(),
        |i: int| (first_attr_at(links[i], 0), non_empty(first_trimmed(titles[i])), first_attr_at(covers[i], 1)),
    )
}

/// The entries of a catalogue page.
pub open spec fn catalog_entries(html: Seq<char>) -> Seq<ItemView> {
    card_scan(BASE_URL@, (Seq::empty(), Seq::empty()), card_inputs(html)).1
}

/// A catalogue page lists each anime once.
pub proof fn law_catalog_lists_each_once(html: Seq<char>)
    ensures
        each_once(catalog_entries(html)),
{
    lemma_card_scan_ok(BASE_URL@, (Seq::empty(), Seq::empty()), card_inputs(html));
}

/// Reads a catalogue page: its cards, its number, and whether a next page exists.
pub fn parse_catalog_html(html: &str, page: u32) -> (r: Result<CatalogPage, SourceError>)
    requires
        page < u32::MAX,
    ensures
        r matches Ok(p) && p.items@.map_values(|i: CatalogItem| item_view(i)) == catalog_entries(html@)
            && p.page == page && p.has_next == has_next(html@, page),
{
    let mut attrs: Vec<String> = Vec::new();
    attrs.push(own("href"));
    attrs.push(own("src"));
    assert(attrs.deep_view() =~= card_attrs());
    assert(attrs@.len() == 2);
    let links = select_inside(html, "article.boxAN", "a[href*='/anime/']", &attrs);
    let titles = select_inside(html, "article.boxAN", ".title, div.title", &attrs);
    let covers = select_inside(html, "article.boxAN", "img.cover", &attrs);
    let ghost cs = card_inputs(html@);
    let mut cards = Cards::new();
    let ghost init = cards.state();
    let mut i: usize = 0;
    while i < links.len()
        invariant
            links@.len() == titles@.len(),
            links@.len() == covers@.len(),
            forall|a: int, b: int| 0 <= a < links@.len() && 0 <= b < links@[a]@.len() ==> (#[trigger] links@[a]@[b]).1@.len() == 2,
            forall|a: int, b: int| 0 <= a < covers@.len() && 0 <= b < covers@[a]@.len() ==> (#[trigger] covers@[a]@[b]).1@.len() == 2,
            links.deep_view() == probed_inside(html@, card_selector(), "a[href*='/anime/']"@, card_attrs()),
            titles.deep_view() == probed_inside(html@, card_selector(), ".title, div.title"@, card_attrs()),
            covers.deep_view() == probed_inside(html@, card_selector(), "img.cover"@, card_attrs()),
            cs == card_inputs(html@),
            init == (Seq::<Seq<char>>::empty(), Seq::<ItemView>::empty()),
            i <= links@.len(),
            cards.state() == card_scan(BASE_URL@, init, cs.take(i as int)),
        decreases links@.len() - i,
    {
        let link = first_attr_in(&links[i], 0);
        let title = first_title_in(&titles[i]);
        let cover = first_attr_in(&covers[i], 1);
        cards.card(BASE_URL, link, title, cover);
        proof {
            assert(cs.take(i + 1).drop_last() =~= cs.take(i as int));
        }
        i += 1;
    }
    assert(cs.take(i as int) =~= cs);
    let has_next = parse_has_next(html, page);
    Ok(CatalogPage { items: cards.items, page, has_next })
}

/// The genre links of the genre page as inputs: those that are not the
/// genre index itself.
pub open spec fn genre_inputs(html: Seq<char>) -> Seq<(Seq<char>, Seq<char>)> {
    let links = selected(html, "a[href*='/generos/']"@, seq!["href"@]);
    genre_links(links)
}

/// The genre links kept among `links`, each as its `href` and text.
pub open spec fn genre_links(links: Seq<ElementView>) -> Seq<(Seq<char>, Seq<char>)>
    decreases links.len(),
{
    if links.len() == 0 {
        Seq::empty()
    } else {
        let prev = genre_links(links.drop_last());
        match links.last().1[0] {
            Some(h) => if ends(h, "/generos/"@) || ends(h, "/generos"@) {
                prev
            } else {
                prev.push((h, links.last().2))
            },
            None => prev,
        }
    }
}

/// The genres of the genre page `html`, sorted by name.
pub fn parse_categories_html(html: &str) -> (r: Vec<CategoryInfo>)
    ensures
        sorted_by_name(
            category_scan(BASE_URL@, (Seq::empty(), Seq::empty()), genre_inputs(html@)).1,
            r@.map_values(|c: CategoryInfo| category_view(c)),
        ),
{
    let mut attrs: Vec<String> = Vec::new();
    attrs.push(own("href"));
    assert(attrs.deep_view() =~= seq!["href"@]);
    assert(attrs@.len() == 1);
    let links = select_elements(html, "a[href*='/generos/']", &attrs);
    let ghost ls = links.deep_view();
    let mut cats = Categories::new();
    let ghost init = cats.state();
    let mut i: usize = 0;
    while i < links.len()
        invariant
            forall|a: int| 0 <= a < links@.len() ==> (#[trigger] links@[a]).1@.len() == 1,
            ls == links.deep_view(),
            ls == selected(html@, "a[href*='/generos/']"@, seq!["href"@]),
            init == (Seq::<Seq<char>>::empty(), Seq::<CategoryView>::empty()),
            i <= links@.len(),
            cats.state() == category_scan(BASE_URL@, init, genre_links(ls.take(i as int))),
        decreases links@.len() - i,
    {
        proof {
            assert(ls.take(i + 1).drop_last() =~= ls.take(i as int));
        }
        let ghost prev = genre_links(ls.take(i as int));
        assert(ls.take(i + 1).last() == ls[i as int]);
        if let Some(h) = &links[i].1[0] {
            let hv = chars_of(h.as_str());
            if !(ends_with_str(&hv, "/generos/") || ends_with_str(&hv, "/generos")) {
                cats.link(BASE_URL, h.as_str(), links[i].2.as_str());
                proof {
                    let x = (h@, links@[i as int].2@);
                    assert(genre_links(ls.take(i + 1)) == prev.push(x));
                    assert(prev.push(x).drop_last() =~= prev);
                }
            }
        }
        i += 1;
    }
    assert(ls.take(i as int) =~= ls);
    cats.sorted()
}

} // verus!
