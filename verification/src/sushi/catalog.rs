//! Reading a Sushi Animes catalogue page.

use vstd::prelude::*;
use crate::models::{each_once, lemma_list_take, list_ok};
use crate::models::{CatalogItem, CatalogPage, CategoryInfo, ItemView, ListState, item_view};
use crate::outside::{
    Element, ElementView, probed_around, probed_inside, select_around, select_elements,
    select_inside, selected,
};
use crate::sources::normalized;
use crate::sources::page::{Categories, CategoryView, category_scan, category_view, first_trimmed, sorted_by_name};
use crate::sushi::client::{BASE_URL, SushiClient, SushiError};
use crate::sushi::parser::{catalog_has_next, has_next_page, is_catalog_media_href, is_media_href};
use crate::text::{chars_of, contains_string, own, trim, trim_str};

verus! {

/// What is read of one media link: its `href`, the titles and categories
/// near it, and its cover.
pub type MediaInput = (Option<Seq<char>>, Option<Seq<char>>, Option<Seq<char>>, Option<Seq<char>>);

/// One media link read into the catalogue: taken when it points to an anime
/// or film page not seen before, titled by the title near it or `fallback`.
pub open spec fn media_step(st: ListState, m: MediaInput, fallback: Seq<char>) -> ListState {
    let (href, near_title, near_category, cover) = m;
    let h = match href {
        Some(h) => h,
        None => Seq::empty(),
    };
    if !is_media_href(h) {
        st
    } else {
        let url = normalized(BASE_URL@, h);
        if st.0.contains(url) {
            st
        } else {
            let title = match near_title {
                Some(t) => t,
                None => fallback,
            };
            let poster = match cover {
                Some(c) => Some(normalized(BASE_URL@, c)),
                None => None,
            };
            (st.0.push(url), st.1.push((title, url, poster, near_category)))
        }
    }
}

/// The media links read in order.
pub open spec fn media_scan(st: ListState, ms: Seq<MediaInput>, fallback: Seq<char>) -> ListState
    decreases ms.len(),
{
    if ms.len() == 0 {
        st
    } else {
        media_step(media_scan(st, ms.drop_last(), fallback), ms.last(), fallback)
    }
}

/// One title link read into the catalogue, in the layout without media cards.
pub open spec fn link_step(st: ListState, href: Option<Seq<char>>, text: Seq<char>) -> ListState {
    let h = match href {
        Some(h) => h,
        None => Seq::empty(),
    };
    if !is_media_href(h) {
        st
    } else {
        let url = normalized(BASE_URL@, h);
        if st.0.contains(url) {
            st
        } else if trim(text).len() == 0 {
            (st.0.push(url), st.1)
        } else {
            (st.0.push(url), st.1.push((trim(text), url, None, None)))
        }
    }
}

/// The title links read in order.
pub open spec fn link_scan(st: ListState, ls: Seq<(Option<Seq<char>>, Seq<char>)>) -> ListState
    decreases ls.len(),
{
    if ls.len() == 0 {
        st
    } else {
        let prev = link_scan(st, ls.drop_last());
        link_step(prev, ls.last().0, ls.last().1)
    }
}

/// The media links of a catalogue page.
pub open spec fn media_selector() -> Seq<char> {
    "a.list-media, a.list-movie, a[href*='/anime/'], a[href*='/filme/'], a[href*='/assistir/']"@
}

/// The title links of the other catalogue layout.
pub open spec fn link_selector() -> Seq<char> {
    "a.list-title, a[href*='/anime/'], a[href*='/filme/'], a[href*='/assistir/']"@
}

/// The attributes read from links and covers: `href`, `data-src`, `src`.
pub open spec fn media_attrs() -> Seq<Seq<char>> {
    seq!["href"@, "data-src"@, "src"@]
}

/// The trimmed text of the first element found inside the grandparent of a
/// link (`around` lists what is found inside each ancestor, nearest first).
pub open spec fn near(around: Seq<Seq<ElementView>>) -> Option<Seq<char>> {
    if around.len() > 1 {
        first_trimmed(around[1])
    } else {
        None
    }
}

/// The image of the first cover inside a link: `data-src`, else `src`.
pub open spec fn cover_of(els: Seq<ElementView>) -> Option<Seq<char>> {
    if els.len() > 0 {
        match els[0].1[1] {
            Some(d) => Some(d),
            None => els[0].1[2],
        }
    } else {
        None
    }
}

/// The first of some elements whose text is not empty, trimmed.
pub open spec fn first_titled(els: Seq<ElementView>) -> Option<Seq<char>>
    decreases els.len(),
{
    if els.len() == 0 {
        None
    } else {
        match first_titled(els.drop_last()) {
            Some(t) => Some(t),
            None => if els.last().2.len() > 0 {
                Some(trim(els.last().2))
            } else {
                None
            },
        }
    }
}

/// The media links of the page `html` as scan inputs.
pub open spec fn media_inputs(html: Seq<char>) -> Seq<MediaInput> {
    let links = selected(html, media_selector(), media_attrs());
    let titles = probed_around(html, media_selector(), ".list-title"@, media_attrs());
    let categories = probed_around(html, media_selector(), ".list-category"@, media_attrs());
    let covers = probed_inside(html, media_selector(), ".media-cover, img"@, media_attrs());
    Seq::new(
        links.len(),
        |i: int| (links[i].1[0], near(titles[i]), near(categories[i]), cover_of(covers[i])),
    )
}

/// The title used for a media link with no title near it.
pub open spec fn fallback_title(html: Seq<char>) -> Seq<char> {
    match first_titled(selected(html, ".list-title"@, Seq::empty())) {
        Some(t) => t,
        None => "Sem título"@,
    }
}

/// The title links of the page `html` as scan inputs.
pub open spec fn link_inputs(html: Seq<char>) -> Seq<(Option<Seq<char>>, Seq<char>)> {
    let links = selected(html, link_selector(), media_attrs());
    Seq::new(links.len(), |i: int| (links[i].1[0], links[i].2))
}

/// The entries of a catalogue page: its media links, or, when none gives an
/// entry, its title links.
pub open spec fn catalog_entries(html: Seq<char>) -> Seq<ItemView> {
    let first = media_scan((Seq::empty(), Seq::empty()), media_inputs(html), fallback_title(html));
    if first.1.len() > 0 {
        first.1
    } else {
        link_scan(first, link_inputs(html)).1
    }
}

/// Reading media links keeps a catalogue sound.
proof fn lemma_media_scan_ok(st: ListState, ms: Seq<MediaInput>, fallback: Seq<char>)
    requires
        list_ok(st),
    ensures
        list_ok(media_scan(st, ms, fallback)),
    decreases ms.len(),
{
    if ms.len() > 0 {
        lemma_media_scan_ok(st, ms.drop_last(), fallback);
        let prev = media_scan(st, ms.drop_last(), fallback);
        let (href, near_title, near_category, cover) = ms.last();
        let h = match href {
            Some(h) => h,
            None => Seq::empty(),
        };
        let url = normalized(BASE_URL@, h);
        if is_media_href(h) && !prev.0.contains(url) {
            let title = match near_title {
                Some(t) => t,
                None => fallback,
            };
            let poster = match cover {
                Some(c) => Some(normalized(BASE_URL@, c)),
                None => None,
            };
            lemma_list_take(prev, url, (title, url, poster, near_category));
        }
    }
}

/// Reading title links keeps a catalogue sound.
proof fn lemma_link_scan_ok(st: ListState, ls: Seq<(Option<Seq<char>>, Seq<char>)>)
    requires
        list_ok(st),
    ensures
        list_ok(link_scan(st, ls)),
    decreases ls.len(),
{
    if ls.len() > 0 {
        lemma_link_scan_ok(st, ls.drop_last());
        let prev = link_scan(st, ls.drop_last());
        let h = match ls.last().0 {
            Some(h) => h,
            None => Seq::empty(),
        };
        let url = normalized(BASE_URL@, h);
        if is_media_href(h) && !prev.0.contains(url) {
            lemma_list_take(prev, url, (trim(ls.last().1), url, None, None));
        }
    }
}

/// A catalogue page lists each anime or film once.
pub proof fn law_catalog_lists_each_once(html: Seq<char>)
    ensures
        each_once(catalog_entries(html)),
{
    let empty: ListState = (Seq::empty(), Seq::empty());
    lemma_media_scan_ok(empty, media_inputs(html), fallback_title(html));
    let first = media_scan(empty, media_inputs(html), fallback_title(html));
    lemma_link_scan_ok(first, link_inputs(html));
}

/// The catalogue held in vectors.
struct Listing {
    seen: Vec<String>,
    items: Vec<CatalogItem>,
}

impl Listing {
    spec fn state(&self) -> ListState {
        (self.seen.deep_view(), self.items@.map_values(|i: CatalogItem| item_view(i)))
    }

    fn media(&mut self, href: &Option<String>, near_title: Option<String>, near_category: Option<String>, cover: Option<String>, fallback: &String)
        ensures
            final(self).state() == media_step(
                old(self).state(),
                (href.deep_view(), near_title.deep_view(), near_category.deep_view(), cover.deep_view()),
                fallback@,
            ),
    {
        let h = match href {
            Some(h) => h.clone(),
            None => String::new(),
        };
        if !is_catalog_media_href(h.as_str()) {
            return;
        }
        let url = SushiClient::normalize_url(h.as_str());
        if contains_string(&self.seen, url.as_str()) {
            return;
        }
        self.seen.push(url.clone());
        let title = match near_title {
            Some(t) => t,
            None => fallback.clone(),
        };
        let poster = match cover {
            Some(c) => Some(SushiClient::normalize_url(c.as_str())),
            None => None,
        };
        let item = CatalogItem { title, url, poster, category: near_category };
        let ghost before = self.items@;
        self.items.push(item);
        proof {
            assert(self.seen.deep_view() =~= old(self).seen.deep_view().push(url@));
            assert(self.items@.map_values(|i: CatalogItem| item_view(i)) =~= before.map_values(
                |i: CatalogItem| item_view(i),
            ).push(item_view(item)));
        }
    }

    fn link(&mut self, href: &Option<String>, text: &String)
        ensures
            final(self).state() == link_step(old(self).state(), href.deep_view(), text@),
    {
        let h = match href {
            Some(h) => h.clone(),
            None => String::new(),
        };
        if !is_catalog_media_href(h.as_str()) {
            return;
        }
        let url = SushiClient::normalize_url(h.as_str());
        if contains_string(&self.seen, url.as_str()) {
            return;
        }
        self.seen.push(url.clone());
        proof {
            assert(self.seen.deep_view() =~= old(self).seen.deep_view().push(url@));
        }
        let title = trim_str(text.as_str());
        if chars_of(title.as_str()).len() == 0 {
            return;
        }
        let item = CatalogItem { title, url, poster: None, category: None };
        let ghost before = self.items@;
        self.items.push(item);
        proof {
            assert(self.items@.map_values(|i: CatalogItem| item_view(i)) =~= before.map_values(
                |i: CatalogItem| item_view(i),
            ).push(item_view(item)));
        }
    }
}

/// The trimmed text of the first element inside the grandparent.
fn near_of(around: &Vec<Vec<Element>>) -> (r: Option<String>)
    ensures
        r.deep_view() == near(around.deep_view()),
{
    if around.len() > 1 && around[1].len() > 0 {
        Some(trim_str(around[1][0].2.as_str()))
    } else {
        None
    }
}

/// The fallback title: the first `.list-title` with text, else "Sem título".
fn fallback_of(html: &str) -> (r: String)
    ensures
        r@ == fallback_title(html@),
{
    let attrs: Vec<String> = Vec::new();
    assert(attrs.deep_view() =~= Seq::<Seq<char>>::empty());
    let titles = select_elements(html, ".list-title", &attrs);
    let ghost ts = titles.deep_view();
    let mut k: usize = 0;
    while k < titles.len()
        invariant
            ts == titles.deep_view(),
            ts == selected(html@, ".list-title"@, Seq::<Seq<char>>::empty()),
            k <= titles@.len(),
            first_titled(ts.take(k as int)) is None,
        decreases titles@.len() - k,
    {
        assert(ts.take(k + 1).drop_last() =~= ts.take(k as int));
        if chars_of(titles[k].2.as_str()).len() > 0 {
            let t = trim_str(titles[k].2.as_str());
            proof {
                assert(ts[k as int].2 == titles@[k as int].2@);
                assert(ts.take(k + 1).last() == ts[k as int]);
                assert(first_titled(ts.take(k + 1)) == Some(trim(ts[k as int].2)));
                lemma_first_titled_prefix(ts, k + 1);
                assert(t@ == trim(ts[k as int].2));
            }
            return t;
        }
        k += 1;
    }
    assert(ts.take(k as int) =~= ts);
    own("Sem título")
}

/// When a prefix has a titled element, the whole sequence has the same first one.
proof fn lemma_first_titled_prefix(s: Seq<ElementView>, n: int)
    requires
        0 <= n <= s.len(),
        first_titled(s.take(n)) is Some,
    ensures
        first_titled(s) == first_titled(s.take(n)),
    decreases s.len() - n,
{
    if n < s.len() {
        assert(s.take(n + 1).drop_last() =~= s.take(n));
        lemma_first_titled_prefix(s, n + 1);
    } else {
        assert(s.take(n) =~= s);
    }
}

/// Reads a catalogue page: its entries (media links, else title links), its
/// page number, and whether a next page is linked.
pub fn parse_catalog_html(html: &str, page: u32) -> (r: Result<CatalogPage, SushiError>)
    requires
        page < u32::MAX,
    ensures
        r matches Ok(p) && p.items@.map_values(|i: CatalogItem| item_view(i)) == catalog_entries(html@)
            && p.page == page && p.has_next == has_next_page(html@, page),
{
    let mut attrs: Vec<String> = Vec::new();
    attrs.push(own("href"));
    attrs.push(own("data-src"));
    attrs.push(own("src"));
    assert(attrs.deep_view() =~= media_attrs());
    assert(attrs@.len() == 3);
    let links = select_elements(
        html,
        "a.list-media, a.list-movie, a[href*='/anime/'], a[href*='/filme/'], a[href*='/assistir/']",
        &attrs,
    );
    let titles = select_around(
        html,
        "a.list-media, a.list-movie, a[href*='/anime/'], a[href*='/filme/'], a[href*='/assistir/']",
        ".list-title",
        &attrs,
    );
    let categories = select_around(
        html,
        "a.list-media, a.list-movie, a[href*='/anime/'], a[href*='/filme/'], a[href*='/assistir/']",
        ".list-category",
        &attrs,
    );
    let covers = select_inside(
        html,
        "a.list-media, a.list-movie, a[href*='/anime/'], a[href*='/filme/'], a[href*='/assistir/']",
        ".media-cover, img",
        &attrs,
    );
    let fallback = fallback_of(html);
    let ghost ms = media_inputs(html@);
    let mut list = Listing { seen: Vec::new(), items: Vec::new() };
    let ghost init = list.state();
    assert(init == (Seq::<Seq<char>>::empty(), Seq::<ItemView>::empty()));
    assert(ms.take(0) =~= Seq::<MediaInput>::empty());
    let mut i: usize = 0;
    while i < links.len()
        invariant
            links@.len() == titles@.len(),
            links@.len() == categories@.len(),
            links@.len() == covers@.len(),
            forall|a: int| 0 <= a < links@.len() ==> (#[trigger] links@[a]).1@.len() == 3,
            forall|a: int, b: int|
                0 <= a < covers@.len() && 0 <= b < covers@[a]@.len() ==> (#[trigger] covers@[a]@[b]).1@.len() == 3,
            ms == media_inputs(html@),
            links.deep_view() == selected(html@, media_selector(), media_attrs()),
            titles.deep_view() == probed_around(html@, media_selector(), ".list-title"@, media_attrs()),
            categories.deep_view() == probed_around(html@, media_selector(), ".list-category"@, media_attrs()),
            covers.deep_view() == probed_inside(html@, media_selector(), ".media-cover, img"@, media_attrs()),
            fallback@ == fallback_title(html@),
            init == (Seq::<Seq<char>>::empty(), Seq::<ItemView>::empty()),
            i <= links@.len(),
            list.state() == media_scan(init, ms.take(i as int), fallback@),
        decreases links@.len() - i,
    {
        let nt = near_of(&titles[i]);
        let nc = near_of(&categories[i]);
        let cover = if covers[i].len() > 0 {
            match &covers[i][0].1[1] {
                Some(d) => Some(d.clone()),
                None => match &covers[i][0].1[2] {
                    Some(s) => Some(s.clone()),
                    None => None,
                },
            }
        } else {
            None
        };
        let ghost x: MediaInput = (links@[i as int].1@[0].deep_view(), nt.deep_view(), nc.deep_view(), cover.deep_view());
        assert(x == ms[i as int]);
        list.media(&links[i].1[0], nt, nc, cover, &fallback);
        proof {
            assert(ms.take(i + 1).drop_last() =~= ms.take(i as int));
        }
        i += 1;
    }
    assert(ms.take(i as int) =~= ms);
    if list.items.len() == 0 {
        let tlinks = select_elements(
            html,
            "a.list-title, a[href*='/anime/'], a[href*='/filme/'], a[href*='/assistir/']",
            &attrs,
        );
        let ghost ls = link_inputs(html@);
        let ghost mid = list.state();
        assert(ls.take(0) =~= Seq::<(Option<Seq<char>>, Seq<char>)>::empty());
        let mut k: usize = 0;
        while k < tlinks.len()
            invariant
                forall|a: int| 0 <= a < tlinks@.len() ==> (#[trigger] tlinks@[a]).1@.len() == 3,
                tlinks.deep_view() == selected(html@, link_selector(), media_attrs()),
                ls == link_inputs(html@),
                k <= tlinks@.len(),
                list.state() == link_scan(mid, ls.take(k as int)),
            decreases tlinks@.len() - k,
        {
            list.link(&tlinks[k].1[0], &tlinks[k].2);
            proof {
                assert(ls.take(k + 1).drop_last() =~= ls.take(k as int));
            }
            k += 1;
        }
        assert(ls.take(k as int) =~= ls);
    }
    let has_next = catalog_has_next(html, page);
    Ok(CatalogPage { items: list.items, page, has_next })
}

/// The genre links of the genre page as inputs: each link's `href` (empty
/// when it has none) and text.
pub open spec fn genre_inputs(links: Seq<ElementView>) -> Seq<(Seq<char>, Seq<char>)> {
    Seq::new(
        links.len(),
        |i: int|
            (
                match links[i].1[0] {
                    Some(h) => h,
                    None => Seq::empty(),
                },
                links[i].2,
            ),
    )
}

/// The genres of the genre page `html`, sorted by name.
pub fn parse_categories_html(html: &str) -> (r: Vec<CategoryInfo>)
    ensures
        sorted_by_name(
            category_scan(
                BASE_URL@,
                (Seq::empty(), Seq::empty()),
                genre_inputs(selected(html@, "a[href*='/category/']"@, seq!["href"@])),
            ).1,
            r@.map_values(|c: CategoryInfo| category_view(c)),
        ),
{
    let mut attrs: Vec<String> = Vec::new();
    attrs.push(own("href"));
    assert(attrs.deep_view() =~= seq!["href"@]);
    assert(attrs@.len() == 1);
    let links = select_elements(html, "a[href*='/category/']", &attrs);
    let ghost ls = genre_inputs(links.deep_view());
    let mut cats = Categories::new();
    let ghost init = cats.state();
    let mut i: usize = 0;
    while i < links.len()
        invariant
            forall|a: int| 0 <= a < links@.len() ==> (#[trigger] links@[a]).1@.len() == 1,
            ls == genre_inputs(links.deep_view()),
            links.deep_view() == selected(html@, "a[href*='/category/']"@, seq!["href"@]),
            init == (Seq::<Seq<char>>::empty(), Seq::<CategoryView>::empty()),
            i <= links@.len(),
            cats.state() == category_scan(BASE_URL@, init, ls.take(i as int)),
        decreases links@.len() - i,
    {
        let h = match &links[i].1[0] {
            Some(h) => h.clone(),
            None => String::new(),
        };
        cats.link(BASE_URL, h.as_str(), links[i].2.as_str());
        proof {
            assert(ls.take(i + 1).drop_last() =~= ls.take(i as int));
        }
        i += 1;
    }
    assert(ls.take(i as int) =~= ls);
    cats.sorted()
}

} // verus!
