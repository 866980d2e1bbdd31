//! Reading the episode list of an anime page of a site of this theme.

use vstd::prelude::*;
use crate::models::{EpisodeInfo, EpisodeView, ep_view};
use crate::outside::{
    Element, ElementView, probed_around, regex_captures, regex_escape, regex_escaped, regex_matches,
    select_around, select_elements, selected,
};
use crate::sources::SourceError;
use crate::sources::dooplay::client::DooplayClient;
use crate::sources::dooplay::config::DooplaySiteConfig;
use crate::sources::dooplay::parser::{episode_number, parse_episode_number};
use crate::sources::normalized;
use crate::sources::page::{sort_by_number, sorted_by_number};
use crate::text::{
    append, chars_of, contains_str, contains_string, decimal, has_sub, own, push_decimal, trim,
    trim_str,
};

verus! {

/// The episodes read so far: the URLs seen and the episodes taken.
pub type EpisodeScan = (Seq<Seq<char>>, Seq<EpisodeView>);

/// The title of an episode whose link has no text.
pub open spec fn numbered_title(n: u32) -> Seq<char> {
    "Episódio "@ + decimal(n as nat)
}

/// The text of the first `.numerando` found around a link: inside its nearest
/// ancestor that has one (empty when none has).
pub open spec fn numerando_of(around: Seq<Seq<ElementView>>) -> Seq<char>
    decreases around.len(),
{
    if around.len() == 0 {
        Seq::empty()
    } else if around[0].len() > 0 {
        around[0][0].2
    } else {
        numerando_of(around.drop_first())
    }
}

/// One episode link read in: taken when it is an episode page not seen before.
pub open spec fn link_step(
    config: DooplaySiteConfig,
    st: EpisodeScan,
    href: Option<Seq<char>>,
    text: Seq<char>,
    numerando: Seq<char>,
) -> EpisodeScan {
    match href {
        None => st,
        Some(h) => {
            let url = normalized(config.base_url@, h);
            if !has_sub(url, config.episode_prefix@) || st.0.contains(url) {
                st
            } else {
                let title = trim(text);
                let number = episode_number(numerando, url, title);
                (
                    st.0.push(url),
                    st.1.push(
                        (
                            number,
                            1u32,
                            if title.len() == 0 {
                                numbered_title(number)
                            } else {
                                title
                            },
                            None,
                            url,
                        ),
                    ),
                )
            }
        },
    }
}

/// The episode links of a page.
pub open spec fn item_selector() -> Seq<char> {
    "li .episodiotitle a, .episodios li a"@
}

/// The links of a page as inputs: `href`, text, and the `.numerando` around.
pub open spec fn link_inputs(html: Seq<char>) -> Seq<(Option<Seq<char>>, Seq<char>, Seq<char>)> {
    let links = selected(html, item_selector(), seq!["href"@]);
    let around = probed_around(html, item_selector(), ".numerando"@, seq!["href"@]);
    Seq::new(links.len(), |i: int| (links[i].1[0], links[i].2, numerando_of(around[i])))
}

/// The links read in order.
pub open spec fn link_scan(
    config: DooplaySiteConfig,
    st: EpisodeScan,
    ls: Seq<(Option<Seq<char>>, Seq<char>, Seq<char>)>,
) -> EpisodeScan
    decreases ls.len(),
{
    if ls.len() == 0 {
        st
    } else {
        let prev = link_scan(config, st, ls.drop_last());
        link_step(config, prev, ls.last().0, ls.last().1, ls.last().2)
    }
}

/// The pattern of episode links anywhere in the page's source.
pub open spec fn raw_link_pattern(config: DooplaySiteConfig) -> Seq<char> {
    "href=['\"]([^'\"]*"@ + regex_escaped(config.episode_prefix@) + "[^'\"]+)['\"]"@
}

/// One link found in the page's source read in: taken when not seen before.
pub open spec fn raw_step(config: DooplaySiteConfig, st: EpisodeScan, m: Seq<Option<Seq<char>>>) -> EpisodeScan {
    if m.len() > 1 {
        match m[1] {
            Some(g) => {
                let url = normalized(config.base_url@, g);
                if st.0.contains(url) {
                    st
                } else {
                    let number = episode_number(Seq::empty(), url, Seq::empty());
                    (st.0.push(url), st.1.push((number, 1u32, numbered_title(number), None, url)))
                }
            },
            None => st,
        }
    } else {
        st
    }
}

/// The links found in the page's source, read in order.
pub open spec fn raw_scan(config: DooplaySiteConfig, st: EpisodeScan, ms: Seq<Seq<Option<Seq<char>>>>) -> EpisodeScan
    decreases ms.len(),
{
    if ms.len() == 0 {
        st
    } else {
        raw_step(config, raw_scan(config, st, ms.drop_last()), ms.last())
    }
}

/// The episodes of an anime page, before sorting: its episode links, or, when
/// none gives an episode, the episode links found in its source.
pub open spec fn listed_episodes(config: DooplaySiteConfig, html: Seq<char>) -> Seq<EpisodeView> {
    let first = link_scan(config, (Seq::empty(), Seq::empty()), link_inputs(html));
    if first.1.len() > 0 {
        first.1
    } else {
        match regex_matches(raw_link_pattern(config), html) {
            Some(ms) => raw_scan(config, first, ms).1,
            None => first.1,
        }
    }
}

/// The episodes held in vectors.
struct Found {
    seen: Vec<String>,
    episodes: Vec<EpisodeInfo>,
}

impl Found {
    spec fn state(&self) -> EpisodeScan {
        (self.seen.deep_view(), self.episodes@.map_values(|e: EpisodeInfo| ep_view(e)))
    }

    /// Adds the episode `number` at `url` under `title`.
    fn add(&mut self, url: String, number: u32, title: String)
        ensures
            final(self).state() == (
                old(self).state().0.push(url@),
                old(self).state().1.push((number, 1u32, title@, None, url@)),
            ),
    {
        self.seen.push(url.clone());
        let ep = EpisodeInfo { number, season: 1, title, description: None, url };
        let ghost before = self.episodes@;
        self.episodes.push(ep);
        proof {
            assert(self.seen.deep_view() =~= old(self).seen.deep_view().push(url@));
            assert(self.episodes@.map_values(|e: EpisodeInfo| ep_view(e)) =~= before.map_values(
                |e: EpisodeInfo| ep_view(e),
            ).push(ep_view(ep)));
        }
    }

    fn link(&mut self, config: DooplaySiteConfig, href: &Option<String>, text: &String, numerando: &String)
        ensures
            final(self).state() == link_step(config, old(self).state(), href.deep_view(), text@, numerando@),
    {
        let h = match href {
            None => return,
            Some(h) => h,
        };
        let url = DooplayClient::normalize_url(config, h.as_str());
        let uv = chars_of(url.as_str());
        if !contains_str(&uv, config.episode_prefix) || contains_string(&self.seen, url.as_str()) {
            return;
        }
        let title = trim_str(text.as_str());
        let number = parse_episode_number(numerando.as_str(), url.as_str(), title.as_str());
        let shown = if chars_of(title.as_str()).len() == 0 {
            numbered(number)
        } else {
            title
        };
        self.add(url, number, shown);
    }

    fn raw(&mut self, config: DooplaySiteConfig, m: &Vec<Option<String>>)
        ensures
            final(self).state() == raw_step(config, old(self).state(), m.deep_view()),
    {
        if m.len() > 1 {
            if let Some(g) = &m[1] {
                let url = DooplayClient::normalize_url(config, g.as_str());
                if contains_string(&self.seen, url.as_str()) {
                    return;
                }
                let number = parse_episode_number("", url.as_str(), "");
                proof {
                    reveal_strlit("");
                    assert(""@ =~= Seq::<char>::empty());
                }
                self.add(url, number, numbered(number));
            }
        }
    }
}

/// "Episódio N".
fn numbered(n: u32) -> (r: String)
    ensures
        r@ == numbered_title(n),
{
    let mut t = own("Episódio ");
    push_decimal(&mut t, n);
    t
}

/// The text of the first `.numerando` around a link.
fn numerando_in(around: &Vec<Vec<Element>>) -> (r: String)
    ensures
        r@ == numerando_of(around.deep_view()),
{
    let ghost a = around.deep_view();
    assert(a.subrange(0, a.len() as int) =~= a);
    let mut j: usize = 0;
    while j < around.len()
        invariant
            a == around.deep_view(),
            j <= around@.len(),
            numerando_of(a) == numerando_of(a.subrange(j as int, a.len() as int)),
        decreases around@.len() - j,
    {
        assert(a.subrange(j as int, a.len() as int).drop_first() =~= a.subrange(j + 1, a.len() as int));
        if around[j].len() > 0 {
            return around[j][0].2.clone();
        }
        j += 1;
    }
    String::new()
}

/// The message when a page lists no episode.
pub open spec fn no_episodes_message() -> Seq<char> {
    "Nenhum episódio encontrado"@
}

/// The episodes of an anime page of the site `config`, sorted by number; an
/// error when it lists none.
pub fn parse_episode_list(config: DooplaySiteConfig, html: &str) -> (r: Result<Vec<EpisodeInfo>, SourceError>)
    ensures
        match r {
            Ok(eps) => listed_episodes(config, html@).len() > 0 && sorted_by_number(
                listed_episodes(config, html@),
                eps@.map_values(|e: EpisodeInfo| ep_view(e)),
            ),
            Err(e) => listed_episodes(config, html@).len() == 0 && (e matches SourceError::Parse(m)
                && m@ == no_episodes_message()),
        },
{
    let mut attrs: Vec<String> = Vec::new();
    attrs.push(own("href"));
    assert(attrs.deep_view() =~= seq!["href"@]);
    assert(attrs@.len() == 1);
    let links = select_elements(html, "li .episodiotitle a, .episodios li a", &attrs);
    let around = select_around(html, "li .episodiotitle a, .episodios li a", ".numerando", &attrs);
    let ghost ls = link_inputs(html@);
    let mut found = Found { seen: Vec::new(), episodes: Vec::new() };
    let ghost init = found.state();
    assert(init == (Seq::<Seq<char>>::empty(), Seq::<EpisodeView>::empty()));
    let mut i: usize = 0;
    while i < links.len()
        invariant
            links@.len() == around@.len(),
            forall|a: int| 0 <= a < links@.len() ==> (#[trigger] links@[a]).1@.len() == 1,
            links.deep_view() == selected(html@, item_selector(), seq!["href"@]),
            around.deep_view() == probed_around(html@, item_selector(), ".numerando"@, seq!["href"@]),
            ls == link_inputs(html@),
            init == (Seq::<Seq<char>>::empty(), Seq::<EpisodeView>::empty()),
            i <= links@.len(),
            found.state() == link_scan(config, init, ls.take(i as int)),
        decreases links@.len() - i,
    {
        let num = numerando_in(&around[i]);
        found.link(config, &links[i].1[0], &links[i].2, &num);
        proof {
            assert(ls.take(i + 1).drop_last() =~= ls.take(i as int));
        }
        i += 1;
    }
    assert(ls.take(i as int) =~= ls);
    if found.episodes.len() == 0 {
        let mut pattern = own("href=['\"]([^'\"]*");
        let escaped = regex_escape(config.episode_prefix);
        append(&mut pattern, escaped.as_str());
        append(&mut pattern, "[^'\"]+)['\"]");
        assert(pattern@ =~= raw_link_pattern(config));
        if let Some(ms) = regex_captures(pattern.as_str(), html) {
            let ghost mid = found.state();
            let ghost all = ms.deep_view();
            let mut k: usize = 0;
            while k < ms.len()
                invariant
                    all == ms.deep_view(),
                    k <= ms@.len(),
                    found.state() == raw_scan(config, mid, all.take(k as int)),
                decreases ms@.len() - k,
            {
                found.raw(config, &ms[k]);
                proof {
                    assert(all.take(k + 1).drop_last() =~= all.take(k as int));
                }
                k += 1;
            }
            assert(all.take(k as int) =~= all);
        }
    }
    if found.episodes.len() == 0 {
        return Err(SourceError::Parse(own("Nenhum episódio encontrado")));
    }
    Ok(sort_by_number(found.episodes))
}

} // verus!
