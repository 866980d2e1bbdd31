//! Reading the seasons and episodes listed on a Sushi Animes anime page.

use vstd::prelude::*;
use crate::models::{AnimeInfo, EpisodeInfo, EpisodeView, SeasonInfo, ep_view};
use crate::sources::page::{extract_meta, first_trimmed, first_text_of, meta_content};
use crate::sushi::client::is_movie_link;
use crate::sushi::parser::{clean_anime_title, cleaned_anime_title, embed_id_of, parse_movie_seasons};
use crate::outside::{Element, ElementView, grouped, grouped_inside, probed_inside, select_group_inside, select_groups, select_elements, select_inside, selected};
use crate::sources::normalized;
use crate::sushi::client::{BASE_URL, SushiClient, SushiError};
use crate::sushi::parser::{episode_of_url, extract_episode_number, extract_season_number, first_number, parse_episode_url};
use crate::text::{contains_string, chars_of, contains_str, decimal, has_sub, own, push_decimal, trim, trim_str};

verus! {

/// What is read of one episode card: its link, the text of its first title
/// and description elements, and the season of the pane it sits in (0 when
/// it is read outside any pane).
pub type CardInput = (Option<Seq<char>>, Option<Seq<char>>, Option<Seq<char>>, u32);

/// The scan of the cards so far: the URLs seen, the (season, episode) pairs
/// taken, and the episodes taken, in order.
pub type ScanState = (Seq<Seq<char>>, Seq<(u32, u32)>, Seq<EpisodeView>);

/// The title of an episode with no title element.
pub open spec fn default_title(n: u32) -> Seq<char> {
    "Episódio "@ + decimal(n as nat)
}

/// One card read into the scan: taken as an episode when its link names a
/// season and episode not seen before, in the pane's season when there is one.
pub open spec fn card_step(st: ScanState, c: CardInput) -> ScanState {
    let (href, title, desc, pane) = c;
    match href {
        None => st,
        Some(h) => if h.len() == 0 || !has_sub(h, "-season-"@) {
            st
        } else {
            let url = normalized(BASE_URL@, h);
            if st.0.contains(url) {
                st
            } else {
                let urls = st.0.push(url);
                match episode_of_url(url) {
                    None => (urls, st.1, st.2),
                    Some((batch, n)) => if pane > 0 && batch != pane {
                        (urls, st.1, st.2)
                    } else {
                        let season = if pane > 0 {
                            pane
                        } else {
                            batch
                        };
                        let ep_title = match title {
                            Some(t) => trim(t),
                            None => default_title(n),
                        };
                        let description = match desc {
                            Some(d) => if trim(d).len() > 0 {
                                Some(trim(d))
                            } else {
                                None
                            },
                            None => None,
                        };
                        let number = if n > 0 {
                            Some(n)
                        } else {
                            first_number(r"(\d+)"@, ep_title)
                        };
                        match number {
                            None => (urls, st.1, st.2),
                            Some(num) => if st.1.contains((season, num)) {
                                (urls, st.1, st.2)
                            } else {
                                (
                                    urls,
                                    st.1.push((season, num)),
                                    st.2.push(
                                        (
                                            num,
                                            season,
                                            match description {
                                                Some(d) => d,
                                                None => ep_title,
                                            },
                                            description,
                                            url,
                                        ),
                                    ),
                                )
                            },
                        }
                    },
                }
            }
        },
    }
}

/// A card with neither a title nor a description element, whose link names
/// episode `n` (above zero), is taken, when it is taken at all, as episode `n`
/// titled `Episódio <n>`: the number its own link names, not its season's.
pub proof fn law_untitled_card_named_by_its_number(st: ScanState, h: Seq<char>, pane: u32, season: u32, n: u32)
    requires
        episode_of_url(normalized(BASE_URL@, h)) == Some((season, n)),
        n > 0,
        card_step(st, (Some(h), None, None, pane)).2.len() == st.2.len() + 1,
    ensures
        card_step(st, (Some(h), None, None, pane)).2.last().0 == n,
        card_step(st, (Some(h), None, None, pane)).2.last().2 == "Episódio "@ + decimal(n as nat),
        card_step(st, (Some(h), None, None, pane)).2.last().3 is None,
{
}

/// The scan of `cards` in order, from `st`.
pub open spec fn scan(st: ScanState, cards: Seq<CardInput>) -> ScanState
    decreases cards.len(),
{
    if cards.len() == 0 {
        st
    } else {
        card_step(scan(st, cards.drop_last()), cards.last())
    }
}

/// The text of the first of some elements.
pub open spec fn first_text(els: Seq<ElementView>) -> Option<Seq<char>> {
    if els.len() > 0 {
        Some(els[0].2)
    } else {
        None
    }
}

/// The season a pane stands for: the number in its id after `season-`, else 1.
pub open spec fn pane_season(id: Option<Seq<char>>) -> u32 {
    match id {
        Some(s) => match first_number(r"season-(\d+)"@, s) {
            Some(n) => n,
            None => 1,
        },
        None => 1,
    }
}

/// The cards of one pane as scan inputs.
pub open spec fn pane_inputs(
    pane: (ElementView, Seq<ElementView>),
    titles: Seq<Seq<ElementView>>,
    descs: Seq<Seq<ElementView>>,
) -> Seq<CardInput> {
    Seq::new(
        pane.1.len(),
        |j: int|
            (pane.1[j].1[1], first_text(titles[j]), first_text(descs[j]), pane_season(pane.0.1[0])),
    )
}

/// The cards of the panes, pane after pane.
pub open spec fn panes_inputs(
    panes: Seq<(ElementView, Seq<ElementView>)>,
    titles: Seq<Seq<Seq<ElementView>>>,
    descs: Seq<Seq<Seq<ElementView>>>,
) -> Seq<CardInput>
    decreases panes.len(),
{
    if panes.len() == 0 {
        Seq::empty()
    } else {
        panes_inputs(panes.drop_last(), titles, descs) + pane_inputs(
            panes.last(),
            titles[panes.len() - 1],
            descs[panes.len() - 1],
        )
    }
}

/// The cards read outside any pane.
pub open spec fn loose_inputs(
    cards: Seq<ElementView>,
    titles: Seq<Seq<ElementView>>,
    descs: Seq<Seq<ElementView>>,
) -> Seq<CardInput> {
    Seq::new(cards.len(), |j: int| (cards[j].1[1], first_text(titles[j]), first_text(descs[j]), 0u32))
}

/// Where the seasons are listed.
pub open spec fn pane_selector() -> Seq<char> {
    ".epx-root .tab-pane, .tab-pane[id^='season-']"@
}

/// An episode card.
pub open spec fn card_selector() -> Seq<char> {
    "a.epx-card.js-epx-item, a.epx-card"@
}

/// The attributes read from panes and cards: `id`, `href`.
pub open spec fn card_attrs() -> Seq<Seq<char>> {
    seq!["id"@, "href"@]
}

/// The episodes that the page `html` lists: the cards of the season panes,
/// or, when none of them gives an episode, every card on the page.
pub open spec fn page_episodes(html: Seq<char>) -> Seq<EpisodeView> {
    let from_panes = scan(
        (Seq::empty(), Seq::empty(), Seq::empty()),
        panes_inputs(
            grouped(html, pane_selector(), card_selector(), card_attrs()),
            grouped_inside(html, pane_selector(), card_selector(), ".epx-title"@, card_attrs()),
            grouped_inside(html, pane_selector(), card_selector(), ".epx-desc"@, card_attrs()),
        ),
    );
    if from_panes.2.len() > 0 {
        from_panes.2
    } else {
        scan(
            from_panes,
            loose_inputs(
                selected(html, card_selector(), card_attrs()),
                probed_inside(html, card_selector(), ".epx-title"@, card_attrs()),
                probed_inside(html, card_selector(), ".epx-desc"@, card_attrs()),
            ),
        ).2
    }
}

/// The scan of `a` followed by `x` is the scan of `a`, then `x`.
pub proof fn lemma_scan_push(st: ScanState, a: Seq<CardInput>, x: CardInput)
    ensures
        scan(st, a.push(x)) == card_step(scan(st, a), x),
{
    assert(a.push(x).drop_last() =~= a);
}

/// Whether `v` holds the pair `p`.
fn has_pair(v: &Vec<(u32, u32)>, p: (u32, u32)) -> (r: bool)
    ensures
        r == v@.contains(p),
{
    let mut i: usize = 0;
    while i < v.len()
        invariant
            i <= v@.len(),
            forall|k: int| 0 <= k < i ==> v@[k] != p,
        decreases v@.len() - i,
    {
        if v[i].0 == p.0 && v[i].1 == p.1 {
            assert(v@[i as int] == p);
            return true;
        }
        i += 1;
    }
    false
}

/// The text of the first of some elements.
fn first_text_in(els: &Vec<Element>) -> (r: Option<String>)
    ensures
        r.deep_view() == first_text(els.deep_view()),
{
    if els.len() > 0 {
        Some(els[0].2.clone())
    } else {
        None
    }
}

/// The scan state held in vectors.
pub struct Scan {
    pub urls: Vec<String>,
    pub keys: Vec<(u32, u32)>,
    pub episodes: Vec<EpisodeInfo>,
}

impl Scan {
    /// The state the vectors hold.
    pub open spec fn state(&self) -> ScanState {
        (self.urls.deep_view(), self.keys@, self.episodes@.map_values(|e: EpisodeInfo| ep_view(e)))
    }

    /// Reads one card into the scan.
    pub fn step(&mut self, href: &Option<String>, title: Option<String>, desc: Option<String>, pane: u32)
        ensures
            final(self).state() == card_step(
                old(self).state(),
                (href.deep_view(), title.deep_view(), desc.deep_view(), pane),
            ),
    {
        let h = match href {
            None => return,
            Some(h) => h,
        };
        let hv = chars_of(h.as_str());
        if hv.len() == 0 || !contains_str(&hv, "-season-") {
            return;
        }
        let url = SushiClient::normalize_url(h.as_str());
        if contains_string(&self.urls, url.as_str()) {
            return;
        }
        self.urls.push(url.clone());
        proof {
            assert(self.urls.deep_view() =~= old(self).urls.deep_view().push(url@));
            assert(self.episodes@.map_values(|e: EpisodeInfo| ep_view(e)) == old(self).state().2);
        }
        let (batch, n) = match parse_episode_url(url.as_str()) {
            None => return,
            Some(p) => p,
        };
        if pane > 0 && batch != pane {
            return;
        }
        let season = if pane > 0 {
            pane
        } else {
            batch
        };
        let ep_title = match title {
            Some(t) => trim_str(t.as_str()),
            None => {
                let mut t = own("Episódio ");
                push_decimal(&mut t, n);
                t
            },
        };
        let description = match desc {
            Some(d) => {
                let t = trim_str(d.as_str());
                if chars_of(t.as_str()).len() > 0 {
                    Some(t)
                } else {
                    None
                }
            },
            None => None,
        };
        let number = if n > 0 {
            n
        } else {
            match extract_episode_number(ep_title.as_str()) {
                Some(k) => k,
                None => return,
            }
        };
        if has_pair(&self.keys, (season, number)) {
            return;
        }
        self.keys.push((season, number));
        let title_out = match &description {
            Some(d) => d.clone(),
            None => ep_title,
        };
        let ep = EpisodeInfo { number, season, title: title_out, description, url };
        let ghost before = self.episodes@;
        self.episodes.push(ep);
        proof {
            assert(self.episodes@.map_values(|e: EpisodeInfo| ep_view(e)) =~= before.map_values(
                |e: EpisodeInfo| ep_view(e),
            ).push(ep_view(ep)));
        }
    }
}

/// The names of the attributes read from panes and cards.
fn card_attr_names() -> (r: Vec<String>)
    ensures
        r.deep_view() == card_attrs(),
{
    let mut attrs: Vec<String> = Vec::new();
    attrs.push(own("id"));
    attrs.push(own("href"));
    assert(attrs.deep_view() =~= card_attrs());
    attrs
}

/// The episodes that the page `html` lists, in the order they are taken.
pub fn page_episode_list(html: &str) -> (r: Vec<EpisodeInfo>)
    ensures
        r@.map_values(|e: EpisodeInfo| ep_view(e)) == page_episodes(html@),
{
    let attrs = card_attr_names();
    assert(attrs.deep_view().len() == 2);
    assert(attrs@.len() == 2);
    let panes = select_groups(
        html,
        ".epx-root .tab-pane, .tab-pane[id^='season-']",
        "a.epx-card.js-epx-item, a.epx-card",
        &attrs,
    );
    let titles = select_group_inside(
        html,
        ".epx-root .tab-pane, .tab-pane[id^='season-']",
        "a.epx-card.js-epx-item, a.epx-card",
        ".epx-title",
        &attrs,
    );
    let descs = select_group_inside(
        html,
        ".epx-root .tab-pane, .tab-pane[id^='season-']",
        "a.epx-card.js-epx-item, a.epx-card",
        ".epx-desc",
        &attrs,
    );
    let ghost gp = panes.deep_view();
    let ghost gt = titles.deep_view();
    let ghost gd = descs.deep_view();
    let mut sc = Scan { urls: Vec::new(), keys: Vec::new(), episodes: Vec::new() };
    let ghost init = sc.state();
    assert(init == (Seq::<Seq<char>>::empty(), Seq::<(u32, u32)>::empty(), Seq::<EpisodeView>::empty()));
    let mut i: usize = 0;
    while i < panes.len()
        invariant
            gp == panes.deep_view(),
            gt == titles.deep_view(),
            gd == descs.deep_view(),
            attrs@.len() == 2,
            panes@.len() == titles@.len(),
            panes@.len() == descs@.len(),
            forall|a: int| 0 <= a < panes@.len() ==> (#[trigger] titles@[a])@.len() == panes@[a].1@.len(),
            forall|a: int| 0 <= a < panes@.len() ==> (#[trigger] descs@[a])@.len() == panes@[a].1@.len(),
            forall|a: int| 0 <= a < panes@.len() ==> (#[trigger] panes@[a]).0.1@.len() == 2,
            forall|a: int, b: int|
                0 <= a < panes@.len() && 0 <= b < panes@[a].1@.len() ==> (#[trigger] panes@[a].1@[b]).1@.len() == 2,
            i <= panes@.len(),
            init == (Seq::<Seq<char>>::empty(), Seq::<(u32, u32)>::empty(), Seq::<EpisodeView>::empty()),
            sc.state() == scan(init, panes_inputs(gp.take(i as int), gt, gd)),
        decreases panes@.len() - i,
    {
        let pane = &panes[i];
        let season: u32 = match &pane.0.1[0] {
            Some(id) => match extract_season_number(id.as_str()) {
                Some(n) => n,
                None => 1,
            },
            None => 1,
        };
        assert(season == pane_season(gp[i as int].0.1[0]));
        let ghost before = panes_inputs(gp.take(i as int), gt, gd);
        let ghost cards = pane_inputs(gp[i as int], gt[i as int], gd[i as int]);
        assert(before + cards.take(0) =~= before);
        let mut j: usize = 0;
        while j < pane.1.len()
            invariant
                gp == panes.deep_view(),
                gt == titles.deep_view(),
                gd == descs.deep_view(),
                i < panes@.len(),
                *pane == panes@[i as int],
                panes@.len() == titles@.len(),
                panes@.len() == descs@.len(),
                titles@[i as int]@.len() == pane.1@.len(),
                descs@[i as int]@.len() == pane.1@.len(),
                forall|b: int| 0 <= b < pane.1@.len() ==> (#[trigger] pane.1@[b]).1@.len() == 2,
                season == pane_season(gp[i as int].0.1[0]),
                cards == pane_inputs(gp[i as int], gt[i as int], gd[i as int]),
                j <= pane.1@.len(),
                sc.state() == scan(init, before + cards.take(j as int)),
            decreases pane.1@.len() - j,
        {
            let card = &pane.1[j];
            let t = first_text_in(&titles[i][j]);
            let d = first_text_in(&descs[i][j]);
            let ghost x: CardInput = (card.1@[1].deep_view(), t.deep_view(), d.deep_view(), season);
            assert(x == cards[j as int]);
            sc.step(&card.1[1], t, d, season);
            proof {
                lemma_scan_push(init, before + cards.take(j as int), x);
                assert((before + cards.take(j as int)).push(x) =~= before + cards.take(j + 1));
            }
            j += 1;
        }
        proof {
            assert(cards.take(j as int) =~= cards);
            assert(gp.take(i + 1).drop_last() =~= gp.take(i as int));
            assert(panes_inputs(gp.take(i + 1), gt, gd) == before + cards);
        }
        i += 1;
    }
    proof {
        assert(gp.take(i as int) =~= gp);
    }
    if sc.episodes.len() > 0 {
        return sc.episodes;
    }
    let cards = select_elements(html, "a.epx-card.js-epx-item, a.epx-card", &attrs);
    let ctitles = select_inside(html, "a.epx-card.js-epx-item, a.epx-card", ".epx-title", &attrs);
    let cdescs = select_inside(html, "a.epx-card.js-epx-item, a.epx-card", ".epx-desc", &attrs);
    let ghost after_panes = sc.state();
    let ghost loose = loose_inputs(cards.deep_view(), ctitles.deep_view(), cdescs.deep_view());
    assert(loose.take(0) =~= Seq::<CardInput>::empty());
    let mut k: usize = 0;
    while k < cards.len()
        invariant
            cards@.len() == ctitles@.len(),
            cards@.len() == cdescs@.len(),
            forall|a: int| 0 <= a < cards@.len() ==> (#[trigger] cards@[a]).1@.len() == 2,
            loose == loose_inputs(cards.deep_view(), ctitles.deep_view(), cdescs.deep_view()),
            k <= cards@.len(),
            sc.state() == scan(after_panes, loose.take(k as int)),
        decreases cards@.len() - k,
    {
        let t = first_text_in(&ctitles[k]);
        let d = first_text_in(&cdescs[k]);
        let ghost x: CardInput = (cards@[k as int].1@[1].deep_view(), t.deep_view(), d.deep_view(), 0u32);
        assert(x == loose[k as int]);
        sc.step(&cards[k].1[1], t, d, 0);
        proof {
            lemma_scan_push(after_panes, loose.take(k as int), x);
            assert(loose.take(k as int).push(x) =~= loose.take(k + 1));
        }
        k += 1;
    }
    proof {
        assert(loose.take(k as int) =~= loose);
    }
    sc.episodes
}

/// No two episodes share a season and number.
pub open spec fn unique_keys(eps: Seq<EpisodeView>) -> bool {
    forall|i: int, j: int|
        0 <= i < eps.len() && 0 <= j < eps.len() && i != j ==> ((#[trigger] eps[i]).1, eps[i].0) != (
            (#[trigger] eps[j]).1,
            eps[j].0,
        )
}

/// Seasons in increasing order, none empty, each holding episodes of its own
/// number in increasing episode order.
pub open spec fn seasons_ordered(out: Seq<SeasonInfo>) -> bool {
    &&& forall|a: int, b: int| 0 <= a < b < out.len() ==> out[a].number < out[b].number
    &&& forall|a: int| 0 <= a < out.len() ==> (#[trigger] out[a]).episodes@.len() > 0
    &&& forall|a: int, k: int|
        0 <= a < out.len() && 0 <= k < out[a].episodes@.len() ==> (#[trigger] out[a].episodes@[k]).season
            == out[a].number
    &&& forall|a: int, k: int, l: int|
        0 <= a < out.len() && 0 <= k < l < out[a].episodes@.len() ==> (#[trigger] out[a].episodes@[k]).number
            < (#[trigger] out[a].episodes@[l]).number
}

/// The episode `v` is in one of the seasons.
pub open spec fn in_seasons(out: Seq<SeasonInfo>, v: EpisodeView) -> bool {
    exists|a: int, k: int|
        0 <= a < out.len() && 0 <= k < out[a].episodes@.len() && ep_view(
            #[trigger] out[a].episodes@[k],
        ) == v
}

/// `out` holds the episodes `eps` grouped by season: every episode of `out`
/// is one of `eps`, and every one of `eps` is in `out`.
pub open spec fn grouped_by_season(eps: Seq<EpisodeView>, out: Seq<SeasonInfo>) -> bool {
    &&& seasons_ordered(out)
    &&& forall|a: int, k: int|
        0 <= a < out.len() && 0 <= k < out[a].episodes@.len() ==> eps.contains(
            ep_view(#[trigger] out[a].episodes@[k]),
        )
    &&& forall|i: int| 0 <= i < eps.len() ==> in_seasons(out, #[trigger] eps[i])
}

/// What the grouping keeps after the first `i` episodes of `vs`.
pub open spec fn group_inv(out: Seq<SeasonInfo>, vs: Seq<EpisodeView>, i: int) -> bool {
    &&& seasons_ordered(out)
    &&& forall|a: int, k: int|
        0 <= a < out.len() && 0 <= k < out[a].episodes@.len() ==> vs.take(i).contains(
            ep_view(#[trigger] out[a].episodes@[k]),
        )
    &&& forall|m: int| 0 <= m < i ==> in_seasons(out, #[trigger] vs[m])
}

/// Adds episode `i` of `vs` (`ep`) to the existing season at `pos`.
#[verifier::spinoff_prover]
fn add_to_season(out: &mut Vec<SeasonInfo>, pos: usize, ep: EpisodeInfo, Ghost(vs): Ghost<Seq<EpisodeView>>, Ghost(i): Ghost<int>)
    requires
        0 <= i < vs.len(),
        unique_keys(vs),
        ep_view(ep) == vs[i],
        group_inv(old(out)@, vs, i),
        pos < old(out)@.len(),
        old(out)@[pos as int].number == ep.season,
    ensures
        group_inv(final(out)@, vs, i + 1),
{
    let ghost old_out = out@;
    let ghost v = vs[i];
    proof {
        assert forall|k: int| 0 <= k < old_out[pos as int].episodes@.len() implies (#[trigger] old_out[pos as int].episodes@[k]).number
            != ep.number by {
            let e = old_out[pos as int].episodes@[k];
            assert(vs.take(i).contains(ep_view(e)));
            let m = choose|m: int| 0 <= m < i && vs.take(i)[m] == ep_view(e);
            assert(vs[m] == ep_view(e));
        }
    }
    let mut q: usize = 0;
    while q < out[pos].episodes.len() && out[pos].episodes[q].number < ep.number
        invariant
            out@ == old_out,
            pos < out@.len(),
            q <= out@[pos as int].episodes@.len(),
            forall|k: int| 0 <= k < q ==> out@[pos as int].episodes@[k].number < ep.number,
        decreases out@[pos as int].episodes@.len() - q,
    {
        q += 1;
    }
    let ghost old_eps = old_out[pos as int].episodes@;
    let s = &mut out[pos];
    s.episodes.insert(q, ep);
    proof {
        old_eps.insert_ensures(q as int, ep);
        assert(out@[pos as int].episodes@ == old_eps.insert(q as int, ep));
        assert(forall|a: int| 0 <= a < out@.len() && a != pos ==> out@[a] == old_out[a]);
        assert forall|a: int, k: int, l: int|
            0 <= a < out@.len() && 0 <= k < l < out@[a].episodes@.len() implies (#[trigger] out@[a].episodes@[k]).number
            < (#[trigger] out@[a].episodes@[l]).number by {
            if a == pos {
                let ok = if k < q { k } else { k - 1 };
                let ol = if l < q { l } else { l - 1 };
                if k != q && l != q {
                    assert(out@[a].episodes@[k] == old_eps[ok]);
                    assert(out@[a].episodes@[l] == old_eps[ol]);
                } else if k == q {
                    assert(out@[a].episodes@[l] == old_eps[ol]);
                    assert(old_eps[ol].number != ep.number);
                } else {
                    assert(out@[a].episodes@[k] == old_eps[ok]);
                }
            }
        }
        assert forall|a: int, k: int|
            0 <= a < out@.len() && 0 <= k < out@[a].episodes@.len() implies vs.take(i + 1).contains(
            ep_view(#[trigger] out@[a].episodes@[k]),
        ) by {
            if a == pos && k == q {
                assert(vs.take(i + 1)[i] == v);
            } else {
                let ok = if a == pos && k > q { k - 1 } else { k };
                assert(out@[a].episodes@[k] == old_out[a].episodes@[ok]);
                assert(vs.take(i).contains(ep_view(old_out[a].episodes@[ok])));
                let m = choose|m: int| 0 <= m < i && vs.take(i)[m] == ep_view(old_out[a].episodes@[ok]);
                assert(vs.take(i + 1)[m] == vs.take(i)[m]);
            }
        }
        assert forall|m: int| 0 <= m < i + 1 implies in_seasons(out@, #[trigger] vs[m]) by {
            if m == i {
                assert(ep_view(out@[pos as int].episodes@[q as int]) == v);
            } else {
                assert(in_seasons(old_out, vs[m]));
                let (a, k) = choose|a: int, k: int|
                    0 <= a < old_out.len() && 0 <= k < old_out[a].episodes@.len() && ep_view(
                        #[trigger] old_out[a].episodes@[k],
                    ) == vs[m];
                if a == pos {
                    let nk = if k < q { k } else { k + 1 };
                    assert(out@[a].episodes@[nk] == old_out[a].episodes@[k]);
                } else {
                    assert(out@[a].episodes@[k] == old_out[a].episodes@[k]);
                }
            }
        }
    }
}

/// Adds episode `i` of `vs` (`ep`) as a new season at `pos`, between the
/// seasons below and above its number.
#[verifier::spinoff_prover]
fn add_season(out: &mut Vec<SeasonInfo>, pos: usize, ep: EpisodeInfo, Ghost(vs): Ghost<Seq<EpisodeView>>, Ghost(i): Ghost<int>)
    requires
        0 <= i < vs.len(),
        ep_view(ep) == vs[i],
        group_inv(old(out)@, vs, i),
        pos <= old(out)@.len(),
        forall|a: int| 0 <= a < pos ==> old(out)@[a].number < ep.season,
        forall|a: int| pos <= a < old(out)@.len() ==> old(out)@[a].number > ep.season,
    ensures
        group_inv(final(out)@, vs, i + 1),
{
    let ghost old_out = out@;
    let ghost v = vs[i];
    let mut episodes: Vec<EpisodeInfo> = Vec::new();
    let season = ep.season;
    episodes.push(ep);
    out.insert(pos, SeasonInfo { number: season, episodes });
    proof {
        old_out.insert_ensures(pos as int, out@[pos as int]);
        assert forall|a: int, b: int| 0 <= a < b < out@.len() implies out@[a].number < out@[b].number by {
            let oa = if a < pos { a } else { a - 1 };
            let ob = if b < pos { b } else { b - 1 };
            if a != pos && b != pos {
                assert(out@[a] == old_out[oa]);
                assert(out@[b] == old_out[ob]);
            } else if a == pos {
                assert(out@[b] == old_out[ob]);
            } else {
                assert(out@[a] == old_out[oa]);
            }
        }
        assert forall|a: int, k: int|
            0 <= a < out@.len() && 0 <= k < out@[a].episodes@.len() implies vs.take(i + 1).contains(
            ep_view(#[trigger] out@[a].episodes@[k]),
        ) by {
            if a == pos {
                assert(vs.take(i + 1)[i] == v);
            } else {
                let oa = if a < pos { a } else { a - 1 };
                assert(out@[a] == old_out[oa]);
                assert(vs.take(i).contains(ep_view(old_out[oa].episodes@[k])));
                let m = choose|m: int| 0 <= m < i && vs.take(i)[m] == ep_view(old_out[oa].episodes@[k]);
                assert(vs.take(i + 1)[m] == vs.take(i)[m]);
            }
        }
        assert forall|m: int| 0 <= m < i + 1 implies in_seasons(out@, #[trigger] vs[m]) by {
            if m == i {
                assert(ep_view(out@[pos as int].episodes@[0]) == v);
            } else {
                assert(in_seasons(old_out, vs[m]));
                let (a, k) = choose|a: int, k: int|
                    0 <= a < old_out.len() && 0 <= k < old_out[a].episodes@.len() && ep_view(
                        #[trigger] old_out[a].episodes@[k],
                    ) == vs[m];
                let na = if a < pos { a } else { a + 1 };
                assert(out@[na] == old_out[a]);
            }
        }
    }
}

/// Groups episodes with distinct (season, number) pairs by season, seasons
/// and episodes in increasing order.
pub fn group_seasons(eps: &Vec<EpisodeInfo>) -> (r: Vec<SeasonInfo>)
    requires
        unique_keys(eps@.map_values(|e: EpisodeInfo| ep_view(e))),
    ensures
        grouped_by_season(eps@.map_values(|e: EpisodeInfo| ep_view(e)), r@),
{
    let ghost vs = eps@.map_values(|e: EpisodeInfo| ep_view(e));
    let mut out: Vec<SeasonInfo> = Vec::new();
    let mut i: usize = 0;
    while i < eps.len()
        invariant
            vs == eps@.map_values(|e: EpisodeInfo| ep_view(e)),
            unique_keys(vs),
            i <= eps@.len(),
            group_inv(out@, vs, i as int),
        decreases eps@.len() - i,
    {
        let ep = eps[i].copied();
        assert(ep_view(ep) == vs[i as int]);
        let mut pos: usize = 0;
        while pos < out.len() && out[pos].number < ep.season
            invariant
                pos <= out@.len(),
                forall|a: int| 0 <= a < pos ==> out@[a].number < ep.season,
            decreases out@.len() - pos,
        {
            pos += 1;
        }
        if pos < out.len() && out[pos].number == ep.season {
            add_to_season(&mut out, pos, ep, Ghost(vs), Ghost(i as int));
        } else {
            proof {
                assert forall|a: int| pos <= a < out@.len() implies out@[a].number > ep.season by {
                    if a > pos {
                        assert(out@[pos as int].number < out@[a].number);
                    }
                }
            }
            add_season(&mut out, pos, ep, Ghost(vs), Ghost(i as int));
        }
        i += 1;
    }
    proof {
        assert(vs.take(i as int) =~= vs);
    }
    out
}

/// The (season, number) pair of an episode.
pub open spec fn key_of(v: EpisodeView) -> (u32, u32) {
    (v.1, v.0)
}

/// The scan keeps the pairs taken equal to those of the episodes taken, with
/// no pair twice.
pub open spec fn scan_inv(st: ScanState) -> bool {
    &&& st.1 == st.2.map_values(|v: EpisodeView| key_of(v))
    &&& st.1.no_duplicates()
}

/// Reading a card keeps the scan invariant.
pub proof fn lemma_step_inv(st: ScanState, c: CardInput)
    requires
        scan_inv(st),
    ensures
        scan_inv(card_step(st, c)),
{
    let r = card_step(st, c);
    if r.2.len() != st.2.len() {
        assert(r.2 == st.2.push(r.2.last()));
        assert(r.1 == st.1.push(key_of(r.2.last())));
        assert(!st.1.contains(key_of(r.2.last())));
        assert(r.1 =~= r.2.map_values(|v: EpisodeView| key_of(v)));
        assert forall|a: int, b: int| 0 <= a < r.1.len() && 0 <= b < r.1.len() && a != b implies r.1[a]
            != r.1[b] by {
            if a == st.1.len() {
                assert(r.1[b] == st.1[b]);
            } else if b == st.1.len() {
                assert(r.1[a] == st.1[a]);
            }
        }
    }
}

/// The scan of any cards keeps the scan invariant.
pub proof fn lemma_scan_inv(st: ScanState, cards: Seq<CardInput>)
    requires
        scan_inv(st),
    ensures
        scan_inv(scan(st, cards)),
    decreases cards.len(),
{
    if cards.len() > 0 {
        lemma_scan_inv(st, cards.drop_last());
        lemma_step_inv(scan(st, cards.drop_last()), cards.last());
    }
}

/// The episodes listed on a page have distinct (season, number) pairs.
pub proof fn lemma_page_unique(html: Seq<char>)
    ensures
        unique_keys(page_episodes(html)),
{
    let e: ScanState = (Seq::empty(), Seq::empty(), Seq::empty());
    assert(e.1 =~= e.2.map_values(|v: EpisodeView| key_of(v)));
    let p = panes_inputs(
        grouped(html, pane_selector(), card_selector(), card_attrs()),
        grouped_inside(html, pane_selector(), card_selector(), ".epx-title"@, card_attrs()),
        grouped_inside(html, pane_selector(), card_selector(), ".epx-desc"@, card_attrs()),
    );
    lemma_scan_inv(e, p);
    let l = loose_inputs(
        selected(html, card_selector(), card_attrs()),
        probed_inside(html, card_selector(), ".epx-title"@, card_attrs()),
        probed_inside(html, card_selector(), ".epx-desc"@, card_attrs()),
    );
    lemma_scan_inv(scan(e, p), l);
    let st = if scan(e, p).2.len() > 0 {
        scan(e, p)
    } else {
        scan(scan(e, p), l)
    };
    assert(st.2 == page_episodes(html));
    assert forall|i: int, j: int|
        0 <= i < st.2.len() && 0 <= j < st.2.len() && i != j implies ((#[trigger] st.2[i]).1, st.2[i].0) != (
        (#[trigger] st.2[j]).1,
        st.2[j].0,
    ) by {
        assert(st.1[i] == key_of(st.2[i]));
        assert(st.1[j] == key_of(st.2[j]));
    }
}

/// The message when a page lists no episode.
pub open spec fn no_episodes_message() -> Seq<char> {
    "Nenhum episódio encontrado na página"@
}

/// The seasons of the anime page `html`: the episodes it lists grouped by
/// season, seasons and episodes in increasing order; an error when it lists none.
pub fn parse_seasons(html: &str) -> (r: Result<Vec<SeasonInfo>, SushiError>)
    ensures
        match r {
            Ok(seasons) => page_episodes(html@).len() > 0 && seasons@.len() > 0 && grouped_by_season(
                page_episodes(html@),
                seasons@,
            ),
            Err(e) => page_episodes(html@).len() == 0 && (e matches SushiError::Parse(m) && m@
                == no_episodes_message()),
        },
{
    let eps = page_episode_list(html);
    proof {
        lemma_page_unique(html@);
    }
    let seasons = group_seasons(&eps);
    if seasons.len() == 0 {
        proof {
            let vs = eps@.map_values(|e: EpisodeInfo| ep_view(e));
            if vs.len() > 0 {
                assert(in_seasons(seasons@, vs[0]));
            }
        }
        return Err(SushiError::Parse(own("Nenhum episódio encontrado na página")));
    }
    proof {
        let vs = eps@.map_values(|e: EpisodeInfo| ep_view(e));
        assert(seasons@[0].episodes@.len() > 0);
        assert(vs.contains(ep_view(seasons@[0].episodes@[0])));
    }
    Ok(seasons)
}

/// The title of an anime page: its `og:title`, else its `<title>`, else
/// "Anime", without the "watch" prefix and the site's suffix.
pub open spec fn page_title(html: Seq<char>) -> Seq<char> {
    cleaned_anime_title(
        match meta_content(html, "og:title"@, "'"@) {
            Some(t) => t,
            None => match first_trimmed(selected(html, "title"@, Seq::empty())) {
                Some(t) => t,
                None => "Anime"@,
            },
        },
    )
}

/// The image source of the first cover: `data-src`, else `src`.
pub open spec fn cover_src(els: Seq<ElementView>) -> Option<Seq<char>> {
    if els.len() > 0 {
        match els[0].1[0] {
            Some(d) => Some(d),
            None => els[0].1[1],
        }
    } else {
        None
    }
}

/// The poster of an anime page: its first cover image, else its `og:image`.
pub open spec fn page_poster(html: Seq<char>) -> Option<Seq<char>> {
    match cover_src(selected(html, ".media-cover"@, seq!["data-src"@, "src"@])) {
        Some(src) => Some(normalized(BASE_URL@, src)),
        None => meta_content(html, "og:image"@, "'"@),
    }
}

/// The synopsis of an anime page: its `og:description`, else its `description`.
pub open spec fn page_synopsis(html: Seq<char>) -> Option<Seq<char>> {
    match meta_content(html, "og:description"@, "'"@) {
        Some(d) => Some(d),
        None => meta_content(html, "description"@, "'"@),
    }
}

/// Reads the poster of an anime page.
fn extract_poster(html: &str) -> (r: Option<String>)
    ensures
        r.deep_view() == page_poster(html@),
{
    let mut attrs: Vec<String> = Vec::new();
    attrs.push(own("data-src"));
    attrs.push(own("src"));
    assert(attrs.deep_view() =~= seq!["data-src"@, "src"@]);
    assert(attrs@.len() == 2);
    let covers = select_elements(html, ".media-cover", &attrs);
    if covers.len() > 0 {
        let src = match &covers[0].1[0] {
            Some(d) => Some(d.clone()),
            None => match &covers[0].1[1] {
                Some(s) => Some(s.clone()),
                None => None,
            },
        };
        if let Some(s) = src {
            return Some(SushiClient::normalize_url(s.as_str()));
        }
    }
    extract_meta(html, "og:image", "'")
}

/// Reads an anime page: title, poster, synopsis and seasons; a film page with
/// no episode list is read as one episode, the film itself.
pub fn parse_anime_html(html: &str, url: &str) -> (r: Result<AnimeInfo, SushiError>)
    ensures
        match r {
            Ok(info) => {
                &&& info.title@ == page_title(html@)
                &&& info.url@ == url@
                &&& info.poster.deep_view() == page_poster(html@)
                &&& info.synopsis.deep_view() == page_synopsis(html@)
                &&& if page_episodes(html@).len() > 0 {
                    grouped_by_season(page_episodes(html@), info.seasons@)
                } else {
                    &&& is_movie_link(url@)
                    &&& embed_id_of(html@) is Some
                    &&& info.seasons@.len() == 1
                    &&& info.seasons@[0].number == 1
                    &&& info.seasons@[0].episodes@.len() == 1
                    &&& ep_view(info.seasons@[0].episodes@[0]) == (1u32, 1u32, page_title(html@), None::<Seq<char>>, url@)
                }
            },
            Err(e) => {
                &&& page_episodes(html@).len() == 0
                &&& e is Parse
                &&& is_movie_link(url@) ==> embed_id_of(html@) is None
            },
        },
{
    let raw = match extract_meta(html, "og:title", "'") {
        Some(t) => t,
        None => match first_text_of(html, "title") {
            Some(t) => t,
            None => own("Anime"),
        },
    };
    let title = clean_anime_title(raw.as_str());
    let poster = extract_poster(html);
    let synopsis = match extract_meta(html, "og:description", "'") {
        Some(d) => Some(d),
        None => extract_meta(html, "description", "'"),
    };
    let seasons = match parse_seasons(html) {
        Ok(seasons) => seasons,
        Err(e) => {
            if SushiClient::is_movie_url(url) {
                parse_movie_seasons(html, url, title.as_str())?
            } else {
                return Err(e);
            }
        },
    };
    Ok(AnimeInfo { title, url: own(url), poster, synopsis, seasons })
}

} // verus!
