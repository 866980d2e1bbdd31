//! Reading the pages of a site of this theme: anime pages, episode pages,
//! catalogue pages and the genre list.

use vstd::prelude::*;
use crate::models::{each_once, ListState};
use crate::models::{AnimeInfo, CatalogItem, CatalogPage, CategoryInfo, EpisodeInfo, ItemView, SeasonInfo, item_view};
use crate::outside::{ElementView, probed_inside, regex_captures, regex_escape, regex_escaped, regex_matches, select_elements, select_inside, selected};
use crate::sources::SourceError;
use crate::sources::dooplay::client::{DooplayClient, is_episode_link};
use crate::sources::dooplay::config::DooplaySiteConfig;
use crate::sources::dooplay::episodes::{listed_episodes, parse_episode_list};
use crate::sources::dooplay::parser::{clean_title, cleaned_title, has_next, parse_has_next};
use crate::sources::normalized;
use crate::sources::page::{lemma_card_scan_ok, CardInput, Cards, Categories, CategoryView, card_scan, category_scan, category_view, extract_meta, extract_text, first_attr, first_attr_at, first_attr_in, first_title_in, first_trimmed, last_segment, meta_content, non_empty, sorted_by_name, sorted_by_number};
use crate::sources::stream::{first_group1, regex_first_group1};
use crate::text::{append, chars_of, contains_str, ends, ends_with_str, has_sub, own, starts, starts_with_str, strip_end};
use crate::models::ep_view;

verus! {

/// The pattern of the `og:image` meta tag in a page's source.
pub open spec fn og_image_pattern() -> Seq<char> {
    r#"<meta property="og:image" content="([^"]+)""#@
}

/// The title of an anime page: its `og:title`, else its `h1`, else "Anime",
/// cut before the site's suffix.
pub open spec fn page_title(html: Seq<char>) -> Seq<char> {
    cleaned_title(
        match meta_content(html, "og:title"@, "\""@) {
            Some(t) => t,
            None => match non_empty(first_trimmed(selected(html, "h1"@, Seq::empty()))) {
                Some(t) => t,
                None => "Anime"@,
            },
        },
    )
}

/// The poster of an anime page: its poster image, else its `og:image`.
pub open spec fn page_poster(config: DooplaySiteConfig, html: Seq<char>) -> Option<Seq<char>> {
    match first_attr(selected(html, ".sheader .poster img, .poster img, img.poster"@, seq!["src"@])) {
        Some(src) => Some(normalized(config.base_url@, src)),
        None => match first_group1(og_image_pattern(), html) {
            Some(u) => Some(normalized(config.base_url@, u)),
            None => None,
        },
    }
}

/// The synopsis of an anime page: its `og:description`, else its `description`.
pub open spec fn page_synopsis(html: Seq<char>) -> Option<Seq<char>> {
    match meta_content(html, "og:description"@, "\""@) {
        Some(d) => Some(d),
        None => meta_content(html, "description"@, "\""@),
    }
}

/// Reads an anime page: title, poster, synopsis, and its episodes as one season.
pub fn parse_anime_html(config: DooplaySiteConfig, html: &str, url: &str) -> (r: Result<AnimeInfo, SourceError>)
    ensures
        match r {
            Ok(info) => {
                &&& info.title@ == page_title(html@)
                &&& info.url@ == url@
                &&& info.poster.deep_view() == page_poster(config, html@)
                &&& info.synopsis.deep_view() == page_synopsis(html@)
                &&& info.seasons@.len() == 1
                &&& info.seasons@[0].number == 1
                &&& listed_episodes(config, html@).len() > 0
                &&& sorted_by_number(
                    listed_episodes(config, html@),
                    info.seasons@[0].episodes@.map_values(|e: EpisodeInfo| ep_view(e)),
                )
            },
            Err(e) => listed_episodes(config, html@).len() == 0 && e is Parse,
        },
{
    let raw = match extract_meta(html, "og:title", "\"") {
        Some(t) => t,
        None => match extract_text(html, "h1") {
            Some(t) => t,
            None => own("Anime"),
        },
    };
    let title = clean_title(raw.as_str());
    let poster = match crate::sources::page::first_attr_of(
        html,
        ".sheader .poster img, .poster img, img.poster",
        "src",
    ) {
        Some(src) => Some(DooplayClient::normalize_url(config, src.as_str())),
        None => match regex_first_group1(r#"<meta property="og:image" content="([^"]+)""#, html) {
            Some(u) => Some(DooplayClient::normalize_url(config, u.as_str())),
            None => None,
        },
    };
    let synopsis = match extract_meta(html, "og:description", "\"") {
        Some(d) => Some(d),
        None => extract_meta(html, "description", "\""),
    };
    let episodes = parse_episode_list(config, html)?;
    let mut seasons: Vec<SeasonInfo> = Vec::new();
    seasons.push(SeasonInfo { number: 1, episodes });
    Ok(AnimeInfo { title, url: own(url), poster, synopsis, seasons })
}

/// The pattern of links to anime pages in an episode page's source.
pub open spec fn anime_link_pattern(config: DooplaySiteConfig) -> Seq<char> {
    "href=\"(https?://[^\"]+"@ + regex_escaped(config.anime_prefix@) + "[^\"]+)\""@
}

/// The first link to an anime page among the matches `ms` that is no episode page.
pub open spec fn first_anime_link(config: DooplaySiteConfig, ms: Seq<Seq<Option<Seq<char>>>>) -> Option<Seq<char>>
    decreases ms.len(),
{
    if ms.len() == 0 {
        None
    } else {
        match (if ms[0].len() > 1 { ms[0][1] } else { None }) {
            Some(u) => if !is_episode_link(config, u) {
                Some(u)
            } else {
                first_anime_link(config, ms.drop_first())
            },
            None => first_anime_link(config, ms.drop_first()),
        }
    }
}

/// The anime page that an episode page links to.
pub open spec fn episode_anime_link(config: DooplaySiteConfig, html: Seq<char>) -> Option<Seq<char>> {
    match regex_matches(anime_link_pattern(config), html) {
        Some(ms) => first_anime_link(config, ms),
        None => None,
    }
}

/// The anime page that an episode page links to; an error when it links none.
pub fn parse_episode_anime_url(config: DooplaySiteConfig, html: &str) -> (r: Result<String, SourceError>)
    ensures
        match r {
            Ok(u) => episode_anime_link(config, html@) == Some(u@),
            Err(e) => episode_anime_link(config, html@) is None && (e matches SourceError::Parse(m)
                && m@ == "Link do anime não encontrado na página do episódio"@),
        },
{
    let mut pattern = own("href=\"(https?://[^\"]+");
    let escaped = regex_escape(config.anime_prefix);
    append(&mut pattern, escaped.as_str());
    append(&mut pattern, "[^\"]+)\"");
    assert(pattern@ =~= anime_link_pattern(config));
    if let Some(ms) = regex_captures(pattern.as_str(), html) {
        let ghost all = ms.deep_view();
        assert(regex_matches(anime_link_pattern(config), html@) == Some(all));
        let mut k: usize = 0;
        assert(all.subrange(0, all.len() as int) =~= all);
        while k < ms.len()
            invariant
                all == ms.deep_view(),
                regex_matches(anime_link_pattern(config), html@) == Some(all),
                k <= ms@.len(),
                first_anime_link(config, all) == first_anime_link(config, all.subrange(k as int, all.len() as int)),
            decreases ms@.len() - k,
        {
            let ghost rest = all.subrange(k as int, all.len() as int);
            assert(rest.drop_first() =~= all.subrange(k + 1, all.len() as int));
            assert(rest[0] == ms@[k as int].deep_view());
            if ms[k].len() > 1 {
                if let Some(u) = &ms[k][1] {
                    if !DooplayClient::is_episode_url(config, u.as_str()) {
                        assert(rest[0][1] == Some(u@));
                        return Ok(u.clone());
                    }
                }
            }
            k += 1;
        }
    }
    Err(SourceError::Parse(own("Link do anime não encontrado na página do episódio")))
}

/// The cards of a catalogue page.
pub open spec fn card_selector() -> Seq<char> {
    "article.item, article.boxAN"@
}

/// The attributes read from links and images: `href`, `src`, `alt`.
pub open spec fn link_attrs() -> Seq<Seq<char>> {
    seq!["href"@, "src"@, "alt"@]
}

/// The `href` of the first of some links that leads under `prefix`.
pub open spec fn first_link_under(links: Seq<ElementView>, prefix: Seq<char>) -> Option<Seq<char>>
    decreases links.len(),
{
    if links.len() == 0 {
        None
    } else {
        match links[0].1[0] {
            Some(h) => if has_sub(h, prefix) {
                Some(h)
            } else {
                first_link_under(links.drop_first(), prefix)
            },
            None => first_link_under(links.drop_first(), prefix),
        }
    }
}

/// The cards of a catalogue page as inputs: each card's first link to an
/// anime page, first title and first image.
pub open spec fn card_inputs(config: DooplaySiteConfig, html: Seq<char>) -> Seq<CardInput> {
    let links = probed_inside(html, card_selector(), "a[href]"@, link_attrs());
    let titles = probed_inside(html, card_selector(), "h3, .title, div.title"@, link_attrs());
    let images = probed_inside(html, card_selector(), "img"@, link_attrs());
    Seq::new(
        links.len(),
        |i: int|
            (
                first_link_under(links[i], config.anime_prefix@),
                non_empty(first_trimmed(titles[i])),
                first_attr_at(images[i], 1),
            ),
    )
}

/// A link of the other layout as input: kept when it leads to an anime page
/// and not to an episode, titled by its image's `alt`, else its text.
pub open spec fn link_input(config: DooplaySiteConfig, link: ElementView, images: Seq<ElementView>) -> CardInput {
    match link.1[0] {
        Some(h) => if !has_sub(h, config.anime_prefix@) || has_sub(h, config.episode_prefix@) {
            (None, None, None)
        } else {
            (
                Some(h),
                match first_attr_at(images, 2) {
                    Some(alt) => Some(alt),
                    None => non_empty(Some(link.2)),
                },
                first_attr_at(images, 1),
            )
        },
        None => (None, None, None),
    }
}

/// The links of a catalogue page as inputs, for the layout without cards.
pub open spec fn link_inputs(config: DooplaySiteConfig, html: Seq<char>) -> Seq<CardInput> {
    let links = selected(html, "a[href]"@, link_attrs());
    let images = probed_inside(html, "a[href]"@, "img"@, link_attrs());
    Seq::new(links.len(), |i: int| link_input(config, links[i], images[i]))
}

/// The entries of a catalogue page: its cards, or, when none gives an
/// entry, its links.
pub open spec fn catalog_entries(config: DooplaySiteConfig, html: Seq<char>) -> Seq<ItemView> {
    let first = card_scan(config.base_url@, (Seq::empty(), Seq::empty()), card_inputs(config, html));
    if first.1.len() > 0 {
        first.1
    } else {
        card_scan(config.base_url@, first, link_inputs(config, html)).1
    }
}

/// A catalogue page lists each anime once.
pub proof fn law_catalog_lists_each_once(config: DooplaySiteConfig, html: Seq<char>)
    ensures
        each_once(catalog_entries(config, html)),
{
    let empty: ListState = (Seq::empty(), Seq::empty());
    lemma_card_scan_ok(config.base_url@, empty, card_inputs(config, html));
    let first = card_scan(config.base_url@, empty, card_inputs(config, html));
    lemma_card_scan_ok(config.base_url@, first, link_inputs(config, html));
}

/// The `href` of the first link under `prefix`.
fn first_link_under_in(links: &Vec<crate::outside::Element>, prefix: &str) -> (r: Option<String>)
    requires
        forall|i: int| 0 <= i < links@.len() ==> (#[trigger] links@[i]).1@.len() == 3,
    ensures
        r.deep_view() == first_link_under(links.deep_view(), prefix@),
{
    let ghost all = links.deep_view();
    assert(all.subrange(0, all.len() as int) =~= all);
    let mut k: usize = 0;
    while k < links.len()
        invariant
            all == links.deep_view(),
            forall|i: int| 0 <= i < links@.len() ==> (#[trigger] links@[i]).1@.len() == 3,
            k <= links@.len(),
            first_link_under(all, prefix@) == first_link_under(all.subrange(k as int, all.len() as int), prefix@),
        decreases links@.len() - k,
    {
        let ghost rest = all.subrange(k as int, all.len() as int);
        assert(rest.drop_first() =~= all.subrange(k + 1, all.len() as int));
        if let Some(h) = &links[k].1[0] {
            let hv = chars_of(h.as_str());
            if contains_str(&hv, prefix) {
                return Some(h.clone());
            }
        }
        k += 1;
    }
    None
}

/// Reads a catalogue page of the site `config`.
pub fn parse_catalog_html(config: DooplaySiteConfig, html: &str, page: u32) -> (r: Result<CatalogPage, SourceError>)
    requires
        page < u32::MAX,
    ensures
        r matches Ok(p) && p.items@.map_values(|i: CatalogItem| item_view(i)) == catalog_entries(config, html@)
            && p.page == page && p.has_next == has_next(html@, page, config),
{
    let mut attrs: Vec<String> = Vec::new();
    attrs.push(own("href"));
    attrs.push(own("src"));
    attrs.push(own("alt"));
    assert(attrs.deep_view() =~= link_attrs());
    assert(attrs@.len() == 3);
    let links = select_inside(html, "article.item, article.boxAN", "a[href]", &attrs);
    let titles = select_inside(html, "article.item, article.boxAN", "h3, .title, div.title", &attrs);
    let images = select_inside(html, "article.item, article.boxAN", "img", &attrs);
    let ghost cs = card_inputs(config, html@);
    let mut cards = Cards::new();
    let ghost init = cards.state();
    let mut i: usize = 0;
    while i < links.len()
        invariant
            links@.len() == titles@.len(),
            links@.len() == images@.len(),
            forall|a: int, b: int| 0 <= a < links@.len() && 0 <= b < links@[a]@.len() ==> (#[trigger] links@[a]@[b]).1@.len() == 3,
            forall|a: int, b: int| 0 <= a < images@.len() && 0 <= b < images@[a]@.len() ==> (#[trigger] images@[a]@[b]).1@.len() == 3,
            links.deep_view() == probed_inside(html@, card_selector(), "a[href]"@, link_attrs()),
            titles.deep_view() == probed_inside(html@, card_selector(), "h3, .title, div.title"@, link_attrs()),
            images.deep_view() == probed_inside(html@, card_selector(), "img"@, link_attrs()),
            cs == card_inputs(config, html@),
            init == (Seq::<Seq<char>>::empty(), Seq::<ItemView>::empty()),
            i <= links@.len(),
            cards.state() == card_scan(config.base_url@, init, cs.take(i as int)),
        decreases links@.len() - i,
    {
        let link = first_link_under_in(&links[i], config.anime_prefix);
        let title = first_title_in(&titles[i]);
        let image = first_attr_in(&images[i], 1);
        cards.card(config.base_url, link, title, image);
        proof {
            assert(cs.take(i + 1).drop_last() =~= cs.take(i as int));
        }
        i += 1;
    }
    assert(cs.take(i as int) =~= cs);
    if cards.items.len() == 0 {
        let all = select_elements(html, "a[href]", &attrs);
        let imgs = select_inside(html, "a[href]", "img", &attrs);
        let ghost ls = link_inputs(config, html@);
        let ghost mid = cards.state();
        let mut k: usize = 0;
        while k < all.len()
            invariant
                all@.len() == imgs@.len(),
                forall|a: int| 0 <= a < all@.len() ==> (#[trigger] all@[a]).1@.len() == 3,
                forall|a: int, b: int| 0 <= a < imgs@.len() && 0 <= b < imgs@[a]@.len() ==> (#[trigger] imgs@[a]@[b]).1@.len() == 3,
                all.deep_view() == selected(html@, "a[href]"@, link_attrs()),
                imgs.deep_view() == probed_inside(html@, "a[href]"@, "img"@, link_attrs()),
                ls == link_inputs(config, html@),
                k <= all@.len(),
                cards.state() == card_scan(config.base_url@, mid, ls.take(k as int)),
            decreases all@.len() - k,
        {
            let (link, title, image) = match &all[k].1[0] {
                Some(h) => {
                    let hv = chars_of(h.as_str());
                    if !contains_str(&hv, config.anime_prefix) || contains_str(&hv, config.episode_prefix) {
                        (None, None, None)
                    } else {
                        let title = match first_attr_in(&imgs[k], 2) {
                            Some(alt) => Some(alt),
                            None => crate::sources::page::non_empty_of(Some(all[k].2.clone())),
                        };
                        (Some(h.clone()), title, first_attr_in(&imgs[k], 1))
                    }
                },
                None => (None, None, None),
            };
            cards.card(config.base_url, link, title, image);
            proof {
                assert(ls.take(k + 1).drop_last() =~= ls.take(k as int));
            }
            k += 1;
        }
        assert(ls.take(k as int) =~= ls);
    }
    let has_next = parse_has_next(html, page, config);
    Ok(CatalogPage { items: cards.items, page, has_next })
}

/// The genre links of the genre page as inputs: those under the genre path
/// that are not the genre index itself and whose slug is no letter index.
pub open spec fn genre_links(config: DooplaySiteConfig, links: Seq<ElementView>) -> Seq<(Seq<char>, Seq<char>)>
    decreases links.len(),
{
    if links.len() == 0 {
        Seq::empty()
    } else {
        let prev = genre_links(config, links.drop_last());
        match links.last().1[0] {
            Some(h) => if !has_sub(h, config.genres_path@) || ends(h, config.genres_path@) || starts(
                last_segment(strip_end(h, '/')),
                "letra-"@,
            ) {
                prev
            } else {
                prev.push((h, links.last().2))
            },
            None => prev,
        }
    }
}

/// The genres of the genre page `html` of the site `config`, sorted by name.
pub fn parse_categories_html(config: DooplaySiteConfig, html: &str) -> (r: Vec<CategoryInfo>)
    ensures
        sorted_by_name(
            category_scan(
                config.base_url@,
                (Seq::empty(), Seq::empty()),
                genre_links(config, selected(html@, "a[href]"@, seq!["href"@])),
            ).1,
            r@.map_values(|c: CategoryInfo| category_view(c)),
        ),
{
    let mut attrs: Vec<String> = Vec::new();
    attrs.push(own("href"));
    assert(attrs.deep_view() =~= seq!["href"@]);
    assert(attrs@.len() == 1);
    let links = select_elements(html, "a[href]", &attrs);
    let ghost ls = links.deep_view();
    let mut cats = Categories::new();
    let ghost init = cats.state();
    let mut i: usize = 0;
    while i < links.len()
        invariant
            forall|a: int| 0 <= a < links@.len() ==> (#[trigger] links@[a]).1@.len() == 1,
            ls == links.deep_view(),
            ls == selected(html@, "a[href]"@, seq!["href"@]),
            init == (Seq::<Seq<char>>::empty(), Seq::<CategoryView>::empty()),
            i <= links@.len(),
            cats.state() == category_scan(config.base_url@, init, genre_links(config, ls.take(i as int))),
        decreases links@.len() - i,
    {
        proof {
            assert(ls.take(i + 1).drop_last() =~= ls.take(i as int));
        }
        let ghost prev = genre_links(config, ls.take(i as int));
        assert(ls.take(i + 1).last() == ls[i as int]);
        if let Some(h) = &links[i].1[0] {
            let hv = chars_of(h.as_str());
            let slug = slug_of(h.as_str());
            if contains_str(&hv, config.genres_path) && !ends_with_str(&hv, config.genres_path)
                && !starts_with_str(&chars_of(slug.as_str()), "letra-") {
                cats.link(config.base_url, h.as_str(), links[i].2.as_str());
                proof {
                    let x = (h@, links@[i as int].2@);
                    assert(genre_links(config, ls.take(i + 1)) == prev.push(x));
                    assert(prev.push(x).drop_last() =~= prev);
                }
            }
        }
        i += 1;
    }
    assert(ls.take(i as int) =~= ls);
    cats.sorted()
}

/// The slug of a link: its last part once trailing slashes are gone.
fn slug_of(href: &str) -> (r: String)
    ensures
        r@ == last_segment(strip_end(href@, '/')),
{
    let hv = chars_of(href);
    let hi = crate::text::strip_end_bound(&hv, 0, hv.len(), '/');
    assert(hv@.subrange(0, hv@.len() as int) =~= hv@);
    let mut lo = hi;
    while lo > 0 && hv[lo - 1] != '/'
        invariant
            lo <= hi <= hv@.len(),
            last_segment(hv@.subrange(0, hi as int)) == last_segment(hv@.subrange(0, lo as int))
                + hv@.subrange(lo as int, hi as int),
        decreases lo,
    {
        proof {
            let s = hv@.subrange(0, lo as int);
            assert(s.drop_last() =~= hv@.subrange(0, lo - 1));
            assert(last_segment(s.drop_last()).push(s.last()) + hv@.subrange(lo as int, hi as int)
                =~= last_segment(s.drop_last()) + hv@.subrange(lo - 1, hi as int));
        }
        lo -= 1;
    }
    proof {
        assert(Seq::<char>::empty() + hv@.subrange(lo as int, hi as int) =~= hv@.subrange(lo as int, hi as int));
    }
    crate::text::string_of(&hv, lo, hi)
}

} // verus!
