//! Reading Animes Digital pages: anime pages, catalogue pages, the listing
//! service's replies and the genre list.

use vstd::prelude::*;
use crate::models::{each_once, lemma_list_take, list_ok};
use crate::models::{AnimeInfo, CatalogItem, CatalogPage, CatalogType, CategoryInfo, EpisodeInfo, EpisodeView, ItemView, ListState, SeasonInfo, ep_view, item_view};
use crate::outside::{ElementView, probed_inside, select_elements, select_inside, selected, to_json_string, json_encoded, url_encode, url_encoded};
use crate::sources::SourceError;
use crate::sources::animesdigital::client::{AnimesdigitalClient, BASE_URL, is_anime_link};
use crate::sources::normalized;
use crate::sources::page::{Categories, CategoryView, category_scan, category_view, extract_meta, extract_text, first_attr, first_attr_at, first_attr_in, first_trimmed, meta_content, non_empty, non_empty_of, sort_by_number, sorted_by_name, sorted_by_number};
use crate::sources::dooplay::parser::{clean_title, cleaned_title};
use crate::sources::stream::{first_group1, regex_first_group1};
use crate::sushi::parser::{first_number, regex_first_number};
use crate::text::{lemma_joined_ends, append, before, before_str, chars_of, contains, contains_str, contains_string, decimal, decimal_string, has_sub, own, push_decimal, starts, starts_with_str, string_of, trim, trim_str};

verus! {

/// The pattern of an episode number in a label or link.
pub open spec fn episode_pattern() -> Seq<char> {
    r"(?i)epis[oó]dio\s*(\d+)"@
}

/// The number of an episode: from its label, else from its link, else 1.
pub open spec fn episode_number(label: Seq<char>, url: Seq<char>) -> u32 {
    match first_number(episode_pattern(), label) {
        Some(n) => n,
        None => match first_number(episode_pattern(), url) {
            Some(n) => n,
            None => 1,
        },
    }
}

/// The number of an episode from its label and link.
pub fn parse_episode_number(label: &str, url: &str) -> (r: u32)
    ensures
        r == episode_number(label@, url@),
{
    if let Some(n) = regex_first_number(r"(?i)epis[oó]dio\s*(\d+)", label) {
        return n;
    }
    if let Some(n) = regex_first_number(r"(?i)epis[oó]dio\s*(\d+)", url) {
        return n;
    }
    1
}

/// The title of an episode without a label.
pub open spec fn numbered_title(n: u32) -> Seq<char> {
    "Episódio "@ + decimal(n as nat)
}

/// The episodes read so far: the URLs seen and the episodes taken.
pub type EpisodeScan = (Seq<Seq<char>>, Seq<EpisodeView>);

/// One episode link read in: taken when not seen before, labelled by its
/// image's `alt` when that is not empty, else by its text.
pub open spec fn episode_step(st: EpisodeScan, href: Option<Seq<char>>, alt: Seq<char>, text: Seq<char>) -> EpisodeScan {
    match href {
        None => st,
        Some(h) => {
            let url = normalized(BASE_URL@, h);
            if st.0.contains(url) {
                st
            } else {
                let label = if alt.len() > 0 {
                    alt
                } else {
                    text
                };
                let number = episode_number(label, url);
                (
                    st.0.push(url),
                    st.1.push(
                        (
                            number,
                            1u32,
                            if trim(label).len() == 0 {
                                numbered_title(number)
                            } else {
                                trim(label)
                            },
                            None,
                            url,
                        ),
                    ),
                )
            }
        },
    }
}

/// The episode links read in order.
pub open spec fn episode_scan(st: EpisodeScan, ls: Seq<(Option<Seq<char>>, Seq<char>, Seq<char>)>) -> EpisodeScan
    decreases ls.len(),
{
    if ls.len() == 0 {
        st
    } else {
        let prev = episode_scan(st, ls.drop_last());
        episode_step(prev, ls.last().0, ls.last().1, ls.last().2)
    }
}

/// The episode links of an anime page as inputs.
pub open spec fn episode_inputs(html: Seq<char>) -> Seq<(Option<Seq<char>>, Seq<char>, Seq<char>)> {
    let links = selected(html, "a[href*='/video/a/']"@, seq!["href"@, "alt"@]);
    let images = probed_inside(html, "a[href*='/video/a/']"@, "img"@, seq!["href"@, "alt"@]);
    Seq::new(
        links.len(),
        |i: int|
            (
                links[i].1[0],
                match first_attr_at(images[i], 1) {
                    Some(a) => a,
                    None => Seq::empty(),
                },
                links[i].2,
            ),
    )
}

/// The episodes listed on an anime page, before sorting.
pub open spec fn listed_episodes(html: Seq<char>) -> Seq<EpisodeView> {
    episode_scan((Seq::empty(), Seq::empty()), episode_inputs(html)).1
}

/// The episodes of an anime page, sorted by number; an error when it lists none.
pub fn parse_episodes(html: &str) -> (r: Result<Vec<EpisodeInfo>, SourceError>)
    ensures
        match r {
            Ok(eps) => listed_episodes(html@).len() > 0 && sorted_by_number(
                listed_episodes(html@),
                eps@.map_values(|e: EpisodeInfo| ep_view(e)),
            ),
            Err(e) => listed_episodes(html@).len() == 0 && (e matches SourceError::Parse(m) && m@
                == "Nenhum episódio encontrado"@),
        },
{
    let mut attrs: Vec<String> = Vec::new();
    attrs.push(own("href"));
    attrs.push(own("alt"));
    assert(attrs.deep_view() =~= seq!["href"@, "alt"@]);
    assert(attrs@.len() == 2);
    let links = select_elements(html, "a[href*='/video/a/']", &attrs);
    let images = select_inside(html, "a[href*='/video/a/']", "img", &attrs);
    let ghost ls = episode_inputs(html@);
    let mut seen: Vec<String> = Vec::new();
    let mut eps: Vec<EpisodeInfo> = Vec::new();
    let ghost init: EpisodeScan = (Seq::empty(), Seq::empty());
    assert(eps@.map_values(|e: EpisodeInfo| ep_view(e)) =~= Seq::<EpisodeView>::empty());
    let mut i: usize = 0;
    while i < links.len()
        invariant
            links@.len() == images@.len(),
            forall|a: int| 0 <= a < links@.len() ==> (#[trigger] links@[a]).1@.len() == 2,
            forall|a: int, b: int| 0 <= a < images@.len() && 0 <= b < images@[a]@.len() ==> (#[trigger] images@[a]@[b]).1@.len() == 2,
            links.deep_view() == selected(html@, "a[href*='/video/a/']"@, seq!["href"@, "alt"@]),
            images.deep_view() == probed_inside(html@, "a[href*='/video/a/']"@, "img"@, seq!["href"@, "alt"@]),
            ls == episode_inputs(html@),
            init == (Seq::<Seq<char>>::empty(), Seq::<EpisodeView>::empty()),
            i <= links@.len(),
            (seen.deep_view(), eps@.map_values(|e: EpisodeInfo| ep_view(e))) == episode_scan(init, ls.take(i as int)),
        decreases links@.len() - i,
    {
        proof {
            assert(ls.take(i + 1).drop_last() =~= ls.take(i as int));
        }
        if let Some(h) = &links[i].1[0] {
            let url = AnimesdigitalClient::normalize_url(h.as_str());
            if !contains_string(&seen, url.as_str()) {
                let alt = match first_attr_in(&images[i], 1) {
                    Some(a) => a,
                    None => String::new(),
                };
                let label = if chars_of(alt.as_str()).len() > 0 {
                    alt
                } else {
                    links[i].2.clone()
                };
                let number = parse_episode_number(label.as_str(), url.as_str());
                let t = trim_str(label.as_str());
                let title = if chars_of(t.as_str()).len() == 0 {
                    let mut d = own("Episódio ");
                    push_decimal(&mut d, number);
                    d
                } else {
                    t
                };
                seen.push(url.clone());
                let ep = EpisodeInfo { number, season: 1, title, description: None, url };
                let ghost before = eps@;
                eps.push(ep);
                proof {
                    assert(seen.deep_view() =~= seen.deep_view().take(seen@.len() - 1).push(url@));
                    assert(eps@.map_values(|e: EpisodeInfo| ep_view(e)) =~= before.map_values(
                        |e: EpisodeInfo| ep_view(e),
                    ).push(ep_view(ep)));
                }
            }
        }
        i += 1;
    }
    assert(ls.take(i as int) =~= ls);
    if eps.len() == 0 {
        return Err(SourceError::Parse(own("Nenhum episódio encontrado")));
    }
    Ok(sort_by_number(eps))
}

/// The pattern of the `og:image` meta tag in a page's source.
pub open spec fn og_image_pattern() -> Seq<char> {
    r#"<meta property="og:image" content="([^"]+)""#@
}

/// The title of an anime page: its `og:title`, else its `h1`, else "Anime",
/// cut before the site's suffix.
pub open spec fn page_title(html: Seq<char>) -> Seq<char> {
    cleaned_title(
        match meta_content(html, "og:title"@, "\""@) {
            Some(t) => t,
            None => match non_empty(first_trimmed(selected(html, "h1"@, Seq::empty()))) {
                Some(t) => t,
                None => "Anime"@,
            },
        },
    )
}

/// The poster of an anime page: its poster image, else its `og:image`.
pub open spec fn page_poster(html: Seq<char>) -> Option<Seq<char>> {
    match first_attr(selected(html, ".poster img, .animeInfos img"@, seq!["src"@])) {
        Some(src) => Some(normalized(BASE_URL@, src)),
        None => match first_group1(og_image_pattern(), html) {
            Some(u) => Some(normalized(BASE_URL@, u)),
            None => None,
        },
    }
}

/// The synopsis of an anime page.
pub open spec fn page_synopsis(html: Seq<char>) -> Option<Seq<char>> {
    non_empty(first_trimmed(selected(html, ".sinopse, .descricao, .animeInfos .texto"@, Seq::empty())))
}

/// Reads an anime page: title, poster, synopsis, and its episodes as one season.
pub fn parse_anime_html(html: &str, url: &str) -> (r: Result<AnimeInfo, SourceError>)
    ensures
        match r {
            Ok(info) => {
                &&& info.title@ == page_title(html@)
                &&& info.url@ == url@
                &&& info.poster.deep_view() == page_poster(html@)
                &&& info.synopsis.deep_view() == page_synopsis(html@)
                &&& info.seasons@.len() == 1
                &&& info.seasons@[0].number == 1
                &&& listed_episodes(html@).len() > 0
                &&& sorted_by_number(
                    listed_episodes(html@),
                    info.seasons@[0].episodes@.map_values(|e: EpisodeInfo| ep_view(e)),
                )
            },
            Err(e) => listed_episodes(html@).len() == 0 && e is Parse,
        },
{
    let raw = match extract_meta(html, "og:title", "\"") {
        Some(t) => t,
        None => match extract_text(html, "h1") {
            Some(t) => t,
            None => own("Anime"),
        },
    };
    let title = clean_title(raw.as_str());
    let poster = match crate::sources::page::first_attr_of(html, ".poster img, .animeInfos img", "src") {
        Some(src) => Some(AnimesdigitalClient::normalize_url(src.as_str())),
        None => match regex_first_group1(r#"<meta property="og:image" content="([^"]+)""#, html) {
            Some(u) => Some(AnimesdigitalClient::normalize_url(u.as_str())),
            None => None,
        },
    };
    let synopsis = extract_text(html, ".sinopse, .descricao, .animeInfos .texto");
    let episodes = parse_episodes(html)?;
    let mut seasons: Vec<SeasonInfo> = Vec::new();
    seasons.push(SeasonInfo { number: 1, episodes });
    Ok(AnimeInfo { title, url: own(url), poster, synopsis, seasons })
}

/// The pattern of links to anime pages in an episode page's source.
pub open spec fn anime_link_pattern() -> Seq<char> {
    r#"href="(https://animesdigital\.org/anime/[^"]+)""#@
}

/// The first link to an anime page among the regex matches `ms`.
pub open spec fn first_anime_link(ms: Seq<Seq<Option<Seq<char>>>>) -> Option<Seq<char>>
    decreases ms.len(),
{
    if ms.len() == 0 {
        None
    } else {
        match (if ms[0].len() > 1 { ms[0][1] } else { None }) {
            Some(u) => if is_anime_link(u) {
                Some(u)
            } else {
                first_anime_link(ms.drop_first())
            },
            None => first_anime_link(ms.drop_first()),
        }
    }
}

/// The anime page that an episode page links to; an error when it links none.
pub fn parse_episode_anime_url(html: &str) -> (r: Result<String, SourceError>)
    ensures
        match r {
            Ok(u) => (match crate::outside::regex_matches(anime_link_pattern(), html@) {
                Some(ms) => first_anime_link(ms),
                None => None,
            }) == Some(u@),
            Err(e) => (match crate::outside::regex_matches(anime_link_pattern(), html@) {
                Some(ms) => first_anime_link(ms),
                None => None,
            }) is None && e is Parse,
        },
{
    if let Some(ms) = crate::outside::regex_captures(
        r#"href="(https://animesdigital\.org/anime/[^"]+)""#,
        html,
    ) {
        let ghost all = ms.deep_view();
        assert(all.subrange(0, all.len() as int) =~= all);
        let mut k: usize = 0;
        while k < ms.len()
            invariant
                all == ms.deep_view(),
                crate::outside::regex_matches(anime_link_pattern(), html@) == Some(all),
                k <= ms@.len(),
                first_anime_link(all) == first_anime_link(all.subrange(k as int, all.len() as int)),
            decreases ms@.len() - k,
        {
            let ghost rest = all.subrange(k as int, all.len() as int);
            assert(rest.drop_first() =~= all.subrange(k + 1, all.len() as int));
            assert(rest[0] == ms@[k as int].deep_view());
            if ms[k].len() > 1 {
                if let Some(u) = &ms[k][1] {
                    if AnimesdigitalClient::is_anime_url(u.as_str()) {
                        assert(rest[0][1] == Some(u@));
                        return Ok(u.clone());
                    }
                }
            }
            k += 1;
        }
    }
    Err(SourceError::Parse(own("Link do anime não encontrado na página do episódio")))
}

/// A catalogue title without the "watch" prefix and without what follows " Online".
pub open spec fn cleaned_list_title(title: Seq<char>) -> Seq<char> {
    let t = trim(title);
    let rest = if starts(t, "Assistir "@) {
        t.subrange(9, t.len() as int)
    } else {
        title
    };
    trim(before(rest, " Online"@))
}

/// Cleans a catalogue title.
pub fn clean_list_title(title: &str) -> (r: String)
    ensures
        r@ == cleaned_list_title(title@),
{
    let t = trim_str(title);
    let tv = chars_of(t.as_str());
    proof {
        reveal_strlit("Assistir ");
    }
    let rest = if starts_with_str(&tv, "Assistir ") {
        string_of(&tv, 9, tv.len())
    } else {
        own(title)
    };
    let head = before_str(rest.as_str(), " Online");
    trim_str(head.as_str())
}

/// The title found in a catalogue link: the `alt` of an image or the text of
/// another title element, the first that gives one.
pub open spec fn title_in(els: Seq<ElementView>) -> Option<Seq<char>>
    decreases els.len(),
{
    if els.len() == 0 {
        None
    } else {
        let e = els[0];
        let found = if e.0 == "img"@ {
            e.1[1]
        } else if trim(e.2).len() > 0 {
            Some(trim(e.2))
        } else {
            None
        };
        match found {
            Some(t) => Some(t),
            None => title_in(els.drop_first()),
        }
    }
}

/// What is read of one catalogue link: its `href`, its `title`, the title
/// elements inside it, and its first image's `src`.
pub type LinkInput = (Option<Seq<char>>, Option<Seq<char>>, Option<Seq<char>>, Option<Seq<char>>);

/// One catalogue link read in: taken when it leads to an anime page (not a
/// video) not seen before; a film when its link says so.
pub open spec fn link_step(st: ListState, l: LinkInput) -> ListState {
    let (href, title_attr, found, src) = l;
    match href {
        None => st,
        Some(h) => if has_sub(h, "/video/"@) {
            st
        } else {
            let url = normalized(BASE_URL@, h);
            if !has_sub(url, "/anime/"@) || st.0.contains(url) {
                st
            } else {
                let title = match (match found {
                    Some(t) => Some(t),
                    None => title_attr,
                }) {
                    Some(t) => cleaned_list_title(t),
                    None => "Anime"@,
                };
                let poster = match src {
                    Some(p) => Some(normalized(BASE_URL@, p)),
                    None => None,
                };
                let category = if has_sub(url, "/filme"@) {
                    Some("Filme"@)
                } else {
                    None
                };
                (st.0.push(url), st.1.push((title, url, poster, category)))
            }
        },
    }
}

/// The catalogue links read in order.
pub open spec fn link_scan(st: ListState, ls: Seq<LinkInput>) -> ListState
    decreases ls.len(),
{
    if ls.len() == 0 {
        st
    } else {
        link_step(link_scan(st, ls.drop_last()), ls.last())
    }
}

/// Reading catalogue links keeps a catalogue sound.
proof fn lemma_link_scan_ok(st: ListState, ls: Seq<LinkInput>)
    requires
        list_ok(st),
    ensures
        list_ok(link_scan(st, ls)),
    decreases ls.len(),
{
    if ls.len() > 0 {
        lemma_link_scan_ok(st, ls.drop_last());
        let prev = link_scan(st, ls.drop_last());
        let (href, title_attr, found, src) = ls.last();
        if let Some(h) = href {
            let url = normalized(BASE_URL@, h);
            if !has_sub(h, "/video/"@) && has_sub(url, "/anime/"@) && !prev.0.contains(url) {
                let title = match (match found {
                    Some(t) => Some(t),
                    None => title_attr,
                }) {
                    Some(t) => cleaned_list_title(t),
                    None => "Anime"@,
                };
                let poster = match src {
                    Some(p) => Some(normalized(BASE_URL@, p)),
                    None => None,
                };
                let category = if has_sub(url, "/filme"@) {
                    Some("Filme"@)
                } else {
                    None
                };
                lemma_list_take(prev, url, (title, url, poster, category));
            }
        }
    }
}

/// The catalogue links.
pub open spec fn link_selector() -> Seq<char> {
    "a[href*='/anime/'], .itemA a"@
}

/// The attributes read from links and images: `href`, `alt`, `title`, `src`.
pub open spec fn link_attrs() -> Seq<Seq<char>> {
    seq!["href"@, "alt"@, "title"@, "src"@]
}

/// The catalogue links of a page as inputs.
pub open spec fn link_inputs(html: Seq<char>) -> Seq<LinkInput> {
    let links = selected(html, link_selector(), link_attrs());
    let titles = probed_inside(html, link_selector(), ".title_anime, .title span, img"@, link_attrs());
    let images = probed_inside(html, link_selector(), "img"@, link_attrs());
    Seq::new(
        links.len(),
        |i: int| (links[i].1[0], links[i].1[2], title_in(titles[i]), first_attr_at(images[i], 3)),
    )
}

/// The entries of a catalogue page.
pub open spec fn catalog_entries(html: Seq<char>) -> Seq<ItemView> {
    link_scan((Seq::empty(), Seq::empty()), link_inputs(html)).1
}

/// A catalogue page lists each anime once.
pub proof fn law_catalog_lists_each_once(html: Seq<char>)
    ensures
        each_once(catalog_entries(html)),
{
    lemma_link_scan_ok((Seq::empty(), Seq::empty()), link_inputs(html));
}

/// A catalogue page links its next page.
pub open spec fn has_next(html: Seq<char>, page: u32) -> bool {
    let n = decimal((page + 1) as nat);
    has_sub(html, "pagina="@ + n) || has_sub(html, "page/"@ + n + "/"@) || has_sub(html, "paged="@ + n)
}

/// A catalogue page that links the page after it, in any of the site's three
/// forms, has a next page; one that links it in none has none.
pub proof fn law_next_page_linked(html: Seq<char>, page: u32)
    ensures
        has_sub(html, "pagina="@ + decimal((page + 1) as nat)) ==> has_next(html, page),
        has_sub(html, "paged="@ + decimal((page + 1) as nat)) ==> has_next(html, page),
        has_sub(html, "page/"@ + decimal((page + 1) as nat) + "/"@) ==> has_next(html, page),
        !has_sub(html, "pagina="@ + decimal((page + 1) as nat)) && !has_sub(html, "paged="@ + decimal((page + 1) as nat))
            && !has_sub(html, "page/"@ + decimal((page + 1) as nat) + "/"@) ==> !has_next(html, page),
{
}

/// The title found among the title elements of a link.
fn title_in_exec(els: &Vec<crate::outside::Element>) -> (r: Option<String>)
    requires
        forall|i: int| 0 <= i < els@.len() ==> (#[trigger] els@[i]).1@.len() == 4,
    ensures
        r.deep_view() == title_in(els.deep_view()),
{
    let ghost all = els.deep_view();
    assert(all.subrange(0, all.len() as int) =~= all);
    let mut k: usize = 0;
    while k < els.len()
        invariant
            all == els.deep_view(),
            forall|i: int| 0 <= i < els@.len() ==> (#[trigger] els@[i]).1@.len() == 4,
            k <= els@.len(),
            title_in(all) == title_in(all.subrange(k as int, all.len() as int)),
        decreases els@.len() - k,
    {
        let ghost rest = all.subrange(k as int, all.len() as int);
        assert(rest.drop_first() =~= all.subrange(k + 1, all.len() as int));
        assert(rest[0] == els@[k as int].deep_view());
        let e = &els[k];
        proof {
            reveal_strlit("img");
        }
        let found = if crate::text::str_eq(e.0.as_str(), "img") {
            match &e.1[1] {
                Some(a) => Some(a.clone()),
                None => None,
            }
        } else {
            non_empty_of(Some(e.2.clone()))
        };
        if found.is_some() {
            return found;
        }
        k += 1;
    }
    None
}

/// Reads a catalogue page: its anime links, its number, and whether a next
/// page is linked.
pub fn parse_catalog_html(html: &str, page: u32) -> (r: Result<CatalogPage, SourceError>)
    requires
        page < u32::MAX,
    ensures
        r matches Ok(p) && p.items@.map_values(|i: CatalogItem| item_view(i)) == catalog_entries(html@)
            && p.page == page && p.has_next == has_next(html@, page),
{
    let mut attrs: Vec<String> = Vec::new();
    attrs.push(own("href"));
    attrs.push(own("alt"));
    attrs.push(own("title"));
    attrs.push(own("src"));
    assert(attrs.deep_view() =~= link_attrs());
    assert(attrs@.len() == 4);
    let links = select_elements(html, "a[href*='/anime/'], .itemA a", &attrs);
    let titles = select_inside(html, "a[href*='/anime/'], .itemA a", ".title_anime, .title span, img", &attrs);
    let images = select_inside(html, "a[href*='/anime/'], .itemA a", "img", &attrs);
    let ghost ls = link_inputs(html@);
    let mut seen: Vec<String> = Vec::new();
    let mut items: Vec<CatalogItem> = Vec::new();
    let ghost init: ListState = (Seq::empty(), Seq::empty());
    assert(items@.map_values(|i: CatalogItem| item_view(i)) =~= Seq::<ItemView>::empty());
    let mut i: usize = 0;
    while i < links.len()
        invariant
            links@.len() == titles@.len(),
            links@.len() == images@.len(),
            forall|a: int| 0 <= a < links@.len() ==> (#[trigger] links@[a]).1@.len() == 4,
            forall|a: int, b: int| 0 <= a < titles@.len() && 0 <= b < titles@[a]@.len() ==> (#[trigger] titles@[a]@[b]).1@.len() == 4,
            forall|a: int, b: int| 0 <= a < images@.len() && 0 <= b < images@[a]@.len() ==> (#[trigger] images@[a]@[b]).1@.len() == 4,
            links.deep_view() == selected(html@, link_selector(), link_attrs()),
            titles.deep_view() == probed_inside(html@, link_selector(), ".title_anime, .title span, img"@, link_attrs()),
            images.deep_view() == probed_inside(html@, link_selector(), "img"@, link_attrs()),
            ls == link_inputs(html@),
            init == (Seq::<Seq<char>>::empty(), Seq::<ItemView>::empty()),
            i <= links@.len(),
            (seen.deep_view(), items@.map_values(|i: CatalogItem| item_view(i))) == link_scan(init, ls.take(i as int)),
        decreases links@.len() - i,
    {
        proof {
            assert(ls.take(i + 1).drop_last() =~= ls.take(i as int));
        }
        if let Some(h) = &links[i].1[0] {
            if !contains_str(&chars_of(h.as_str()), "/video/") {
                let url = AnimesdigitalClient::normalize_url(h.as_str());
                if contains_str(&chars_of(url.as_str()), "/anime/") && !contains_string(&seen, url.as_str()) {
                    let found = match title_in_exec(&titles[i]) {
                        Some(t) => Some(t),
                        None => match &links[i].1[2] {
                            Some(t) => Some(t.clone()),
                            None => None,
                        },
                    };
                    let title = match found {
                        Some(t) => clean_list_title(t.as_str()),
                        None => own("Anime"),
                    };
                    let poster = match first_attr_in(&images[i], 3) {
                        Some(p) => Some(AnimesdigitalClient::normalize_url(p.as_str())),
                        None => None,
                    };
                    let category = if contains_str(&chars_of(url.as_str()), "/filme") {
                        Some(own("Filme"))
                    } else {
                        None
                    };
                    seen.push(url.clone());
                    let item = CatalogItem { title, url, poster, category };
                    let ghost before = items@;
                    items.push(item);
                    proof {
                        assert(seen.deep_view() =~= seen.deep_view().take(seen@.len() - 1).push(url@));
                        assert(items@.map_values(|i: CatalogItem| item_view(i)) =~= before.map_values(
                            |i: CatalogItem| item_view(i),
                        ).push(item_view(item)));
                    }
                }
            }
        }
        i += 1;
    }
    assert(ls.take(i as int) =~= ls);
    let hv = chars_of(html);
    let n = decimal_string(page + 1);
    let mut a = own("pagina=");
    append(&mut a, n.as_str());
    let mut b = own("page/");
    append(&mut b, n.as_str());
    append(&mut b, "/");
    let mut c = own("paged=");
    append(&mut c, n.as_str());
    let has_next = contains(&hv, &chars_of(a.as_str())) || contains(&hv, &chars_of(b.as_str()))
        || contains(&hv, &chars_of(c.as_str()));
    Ok(CatalogPage { items, page, has_next })
}

/// Where a listing page declares the token of the listing service.
pub open spec fn list_token_pattern() -> Seq<char> {
    r#"data-secury="([^"]+)""#@
}

/// The token of the listing service on a listing page.
pub fn extract_list_token(html: &str) -> (r: Result<String, SourceError>)
    ensures
        match r {
            Ok(t) => first_group1(list_token_pattern(), html@) == Some(t@),
            Err(e) => first_group1(list_token_pattern(), html@) is None && (e matches SourceError::Parse(m)
                && m@ == "Token do catálogo não encontrado"@),
        },
{
    match regex_first_group1(r#"data-secury="([^"]+)""#, html) {
        Some(t) => Ok(t),
        None => Err(SourceError::Parse(own("Token do catálogo não encontrado"))),
    }
}

/// The filters sent to the listing service, as JSON.
pub open spec fn list_filters(type_url: Seq<char>, filter_audio: Seq<char>) -> Seq<char> {
    "{\"filter_data\":"@ + json_encoded(
        "filter_letter=0&type_url="@ + type_url + "&filter_audio="@ + filter_audio
            + "&filter_order=name"@,
    ) + ",\"filter_genre_add\":[],\"filter_genre_del\":[]}"@
}

/// The filters sent to the listing service.
pub fn build_list_filters(type_url: &str, filter_audio: &str) -> (r: String)
    ensures
        r@ == list_filters(type_url@, filter_audio@),
{
    let mut data = own("filter_letter=0&type_url=");
    append(&mut data, type_url);
    append(&mut data, "&filter_audio=");
    append(&mut data, filter_audio);
    append(&mut data, "&filter_order=name");
    let quoted = to_json_string(data.as_str());
    let mut r = own("{\"filter_data\":");
    append(&mut r, quoted.as_str());
    append(&mut r, ",\"filter_genre_add\":[],\"filter_genre_del\":[]}");
    r
}

/// The listing service's reply.
#[derive(Debug, Clone)]
pub struct ListAnimeResponse {
    pub page: u32,
    pub total_page: u32,
    pub results: Vec<String>,
    pub code: Option<String>,
}

/// The pieces of a reply, joined.
pub open spec fn joined(parts: Seq<String>) -> Seq<char>
    decreases parts.len(),
{
    if parts.len() == 0 {
        Seq::empty()
    } else {
        joined(parts.drop_last()) + parts.last()@
    }
}

/// A catalogue page from the listing service's reply to a request for `page`:
/// its entries are read from the joined results, and it has a next page
/// while `page` is below the reply's page count (at least 1). A reply that
/// rejects the token fails when `check_nonce` (listings do, searches do not).
pub fn listing_page(resp: ListAnimeResponse, page: u32, check_nonce: bool) -> (r: Result<CatalogPage, SourceError>)
    requires
        page < u32::MAX,
    ensures
        check_nonce && (resp.code matches Some(c) && c@ == "no_verify_nonce"@) ==> (r matches Err(
            SourceError::Parse(m),
        ) && m@ == "Token do catálogo rejeitado"@),
        !(check_nonce && (resp.code matches Some(c) && c@ == "no_verify_nonce"@)) ==> (r matches Ok(p)
            && p.items@.map_values(|i: CatalogItem| item_view(i)) == catalog_entries(joined(resp.results@))
            && p.page == page && p.has_next == (page < if resp.total_page > 1 {
            resp.total_page
        } else {
            1
        })),
{
    if check_nonce {
        if let Some(c) = &resp.code {
            if crate::text::str_eq(c.as_str(), "no_verify_nonce") {
                return Err(SourceError::Parse(own("Token do catálogo rejeitado")));
            }
        }
    }
    let mut combined = String::new();
    let mut k: usize = 0;
    while k < resp.results.len()
        invariant
            k <= resp.results@.len(),
            combined@ == joined(resp.results@.take(k as int)),
        decreases resp.results@.len() - k,
    {
        assert(resp.results@.take(k + 1).drop_last() =~= resp.results@.take(k as int));
        append(&mut combined, resp.results[k].as_str());
        k += 1;
    }
    assert(resp.results@.take(k as int) =~= resp.results@);
    let mut catalog = match parse_catalog_html(combined.as_str(), page) {
        Ok(c) => c,
        Err(e) => return Err(e),
    };
    let total = if resp.total_page > 1 {
        resp.total_page
    } else {
        1
    };
    catalog.has_next = page < total;
    Ok(catalog)
}

/// The listing behind each catalogue of the site: its page, the kind of
/// titles and the audio it asks the listing service for (`None` for genres).
pub fn listing_for(catalog_type: CatalogType) -> (r: Option<(&'static str, &'static str, &'static str)>)
    ensures
        catalog_type == CatalogType::Category ==> r is None,
        catalog_type == CatalogType::Filmes ==> (r matches Some(t) && t.0@ == "/filmes/"@ && t.1@
            == "filmes"@ && t.2@ == "0"@),
        catalog_type == CatalogType::Animes ==> (r matches Some(t) && t.0@
            == "/animes-legendados-online"@ && t.1@ == "animes"@ && t.2@ == "legendado"@),
{
    match catalog_type {
        CatalogType::Category => None,
        CatalogType::Filmes => Some(("/filmes/", "filmes", "0")),
        CatalogType::Animes => Some(("/animes-legendados-online", "animes", "legendado")),
    }
}

/// The path of a genre listing.
pub open spec fn genre_path(slug: Option<Seq<char>>, page: u32) -> Seq<char> {
    let s = match slug {
        Some(s) => s,
        None => "acao"@,
    };
    if page <= 1 {
        "/genero/"@ + s + "/"@
    } else {
        "/genero/"@ + s + "/?pagina="@ + decimal(page as nat)
    }
}

/// A genre listing with a slug names that slug: its path starts with
/// `/genero/`, the slug and `/`, and is just that on the first page.
pub proof fn law_genre_path_names_slug(slug: Seq<char>, page: u32)
    ensures
        starts(genre_path(Some(slug), page), "/genero/"@ + slug + "/"@),
        page <= 1 ==> genre_path(Some(slug), page) == "/genero/"@ + slug + "/"@,
{
    let head = "/genero/"@ + slug;
    if page <= 1 {
        lemma_joined_ends(head + "/"@, Seq::empty());
        assert(head + "/"@ + Seq::<char>::empty() =~= head + "/"@);
    } else {
        assert("/?pagina="@ =~= "/"@ + "?pagina="@) by {
            reveal_strlit("/?pagina=");
            reveal_strlit("/");
            reveal_strlit("?pagina=");
        }
        assert(genre_path(Some(slug), page) =~= (head + "/"@) + ("?pagina="@ + decimal(page as nat)));
        lemma_joined_ends(head + "/"@, "?pagina="@ + decimal(page as nat));
    }
}

/// The path of a genre listing.
pub fn genre_listing_path(slug: Option<&str>, page: u32) -> (r: String)
    ensures
        r@ == genre_path(
            match slug {
                Some(s) => Some(s@),
                None => None,
            },
            page,
        ),
{
    let s = match slug {
        Some(s) => s,
        None => "acao",
    };
    let mut p = own("/genero/");
    append(&mut p, s);
    append(&mut p, "/");
    if page > 1 {
        append(&mut p, "?pagina=");
        push_decimal(&mut p, page);
        proof {
            reveal_strlit("/");
            reveal_strlit("?pagina=");
            reveal_strlit("/?pagina=");
            assert("/"@ + "?pagina="@ =~= "/?pagina="@);
            assert(p@ =~= "/genero/"@ + s@ + "/?pagina="@ + decimal(page as nat));
        }
    }
    p
}

/// The form sent to the listing service.
pub fn listing_form(token: &str, page: u32, search: &str, limit: u32, filters: &str) -> (r: Vec<(String, String)>)
    ensures
        r.deep_view() == seq![
            ("token"@, token@),
            ("pagina"@, decimal(page as nat)),
            ("search"@, search@),
            ("limit"@, decimal(limit as nat)),
            ("type"@, "lista"@),
            ("filters"@, filters@),
        ],
{
    let mut r: Vec<(String, String)> = Vec::new();
    r.push((own("token"), own(token)));
    r.push((own("pagina"), decimal_string(page)));
    r.push((own("search"), own(search)));
    r.push((own("limit"), decimal_string(limit)));
    r.push((own("type"), own("lista")));
    r.push((own("filters"), own(filters)));
    assert(r.deep_view() =~= seq![
        ("token"@, token@),
        ("pagina"@, decimal(page as nat)),
        ("search"@, search@),
        ("limit"@, decimal(limit as nat)),
        ("type"@, "lista"@),
        ("filters"@, filters@),
    ]);
    r
}

/// The form of a catalogue search: the query percent-encoded as the site
/// expects it, thirty entries per page.
pub fn search_form(token: &str, page: u32, query: &str, filters: &str) -> (r: Vec<(String, String)>)
    ensures
        r.deep_view() == seq![
            ("token"@, token@),
            ("pagina"@, decimal(page as nat)),
            ("search"@, url_encoded(query@)),
            ("limit"@, "30"@),
            ("type"@, "lista"@),
            ("filters"@, filters@),
        ],
{
    let encoded = url_encode(query);
    let r = listing_form(token, page, encoded.as_str(), 30, filters);
    proof {
        reveal_strlit("30");
        reveal_with_fuel(decimal, 3);
        assert(decimal(30) =~= "30"@);
    }
    r
}

/// The genres of the genre page `html`, sorted by name.
pub fn parse_categories_html(html: &str) -> (r: Vec<CategoryInfo>)
    ensures
        sorted_by_name(
            category_scan(BASE_URL@, (Seq::empty(), Seq::empty()), genre_links(selected(html@, "a[href*='/genero/']"@, seq!["href"@]))).1,
            r@.map_values(|c: CategoryInfo| category_view(c)),
        ),
{
    let mut attrs: Vec<String> = Vec::new();
    attrs.push(own("href"));
    assert(attrs.deep_view() =~= seq!["href"@]);
    assert(attrs@.len() == 1);
    let links = select_elements(html, "a[href*='/genero/']", &attrs);
    let ghost ls = links.deep_view();
    let mut cats = Categories::new();
    let ghost init = cats.state();
    let mut i: usize = 0;
    while i < links.len()
        invariant
            forall|a: int| 0 <= a < links@.len() ==> (#[trigger] links@[a]).1@.len() == 1,
            ls == links.deep_view(),
            ls == selected(html@, "a[href*='/genero/']"@, seq!["href"@]),
            init == (Seq::<Seq<char>>::empty(), Seq::<CategoryView>::empty()),
            i <= links@.len(),
            cats.state() == category_scan(BASE_URL@, init, genre_links(ls.take(i as int))),
        decreases links@.len() - i,
    {
        proof {
            assert(ls.take(i + 1).drop_last() =~= ls.take(i as int));
        }
        let ghost prev = genre_links(ls.take(i as int));
        assert(ls.take(i + 1).last() == ls[i as int]);
        if let Some(h) = &links[i].1[0] {
            cats.link(BASE_URL, h.as_str(), links[i].2.as_str());
            proof {
                let x = (h@, links@[i as int].2@);
                assert(genre_links(ls.take(i + 1)) == prev.push(x));
                assert(prev.push(x).drop_last() =~= prev);
            }
        }
        i += 1;
    }
    assert(ls.take(i as int) =~= ls);
    cats.sorted()
}

/// The genre links with an `href`, each as its `href` and text.
pub open spec fn genre_links(links: Seq<ElementView>) -> Seq<(Seq<char>, Seq<char>)>
    decreases links.len(),
{
    if links.len() == 0 {
        Seq::empty()
    } else {
        let prev = genre_links(links.drop_last());
        match links.last().1[0] {
            Some(h) => prev.push((h, links.last().2)),
            None => prev,
        }
    }
}

} // verus!
