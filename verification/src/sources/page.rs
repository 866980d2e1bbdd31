//! Reading single values out of a page: a meta tag, the text or an attribute
//! of the first element that a selector finds.

use vstd::prelude::*;
use crate::models::{CatalogItem, CategoryInfo, EpisodeInfo, EpisodeView, ItemView, ListState, ep_view, item_view, lemma_list_take, list_ok};
use crate::sources::{normalize_with_base, normalized};
use crate::outside::{Element, ElementView, select_elements, selected};
use crate::text::{append, chars_of, contains_string, lemma_lex_refl, lemma_lex_total, lemma_lex_trans, lex_le, lex_le_exec, own, strip_end, strip_end_bound, string_of, trim, trim_str};

verus! {

/// The attribute (the first one asked for) of the first of some elements.
pub open spec fn first_attr(els: Seq<ElementView>) -> Option<Seq<char>> {
    if els.len() > 0 {
        els[0].1[0]
    } else {
        None
    }
}

/// The trimmed text of the first of some elements.
pub open spec fn first_trimmed(els: Seq<ElementView>) -> Option<Seq<char>> {
    if els.len() > 0 {
        Some(trim(els[0].2))
    } else {
        None
    }
}

/// `s` trimmed, unless that leaves nothing.
pub open spec fn non_empty(s: Option<Seq<char>>) -> Option<Seq<char>> {
    match s {
        Some(t) => if trim(t).len() > 0 {
            Some(trim(t))
        } else {
            None
        },
        None => None,
    }
}

/// The one attribute name `name`.
fn one_attr(name: &str) -> (r: Vec<String>)
    ensures
        r.deep_view() == seq![name@],
{
    let mut v: Vec<String> = Vec::new();
    v.push(own(name));
    assert(v.deep_view() =~= seq![name@]);
    v
}

/// The attribute `attr` of the first element of the page `html` that
/// matches `selector`.
pub fn first_attr_of(html: &str, selector: &str, attr: &str) -> (r: Option<String>)
    ensures
        r.deep_view() == first_attr(selected(html@, selector@, seq![attr@])),
{
    let attrs = one_attr(attr);
    assert(attrs.deep_view().len() == 1);
    let els = select_elements(html, selector, &attrs);
    if els.len() > 0 {
        assert(els@[0].1@.len() == 1);
        match &els[0].1[0] {
            Some(v) => Some(v.clone()),
            None => None,
        }
    } else {
        None
    }
}

/// The trimmed text of the first element of the page `html` that matches `selector`.
pub fn first_text_of(html: &str, selector: &str) -> (r: Option<String>)
    ensures
        r.deep_view() == first_trimmed(selected(html@, selector@, Seq::<Seq<char>>::empty())),
{
    let attrs: Vec<String> = Vec::new();
    assert(attrs.deep_view() =~= Seq::<Seq<char>>::empty());
    let els = select_elements(html, selector, &attrs);
    if els.len() > 0 {
        Some(trim_str(els[0].2.as_str()))
    } else {
        None
    }
}

/// `s` trimmed, unless that leaves nothing.
pub fn non_empty_of(s: Option<String>) -> (r: Option<String>)
    ensures
        r.deep_view() == non_empty(s.deep_view()),
{
    match s {
        Some(t) => {
            let u = trim_str(t.as_str());
            if chars_of(u.as_str()).len() > 0 {
                Some(u)
            } else {
                None
            }
        },
        None => None,
    }
}

/// The selector for the meta tag whose `property` or `name` is `p`, quoted
/// with `q`.
pub open spec fn meta_selector(p: Seq<char>, q: Seq<char>) -> Seq<char> {
    "meta[property="@ + q + p + q + "], meta[name="@ + q + p + q + "]"@
}

/// The content of the meta tag named `p` (by property or name), trimmed and
/// not empty; `q` is the quote the selector uses.
pub open spec fn meta_content(html: Seq<char>, p: Seq<char>, q: Seq<char>) -> Option<Seq<char>> {
    non_empty(first_attr(selected(html, meta_selector(p, q), seq!["content"@])))
}

/// Reads the meta tag named `p`.
pub fn extract_meta(html: &str, p: &str, q: &str) -> (r: Option<String>)
    ensures
        r.deep_view() == meta_content(html@, p@, q@),
{
    let mut sel = own("meta[property=");
    append(&mut sel, q);
    append(&mut sel, p);
    append(&mut sel, q);
    append(&mut sel, "], meta[name=");
    append(&mut sel, q);
    append(&mut sel, p);
    append(&mut sel, q);
    append(&mut sel, "]");
    assert(sel@ =~= meta_selector(p@, q@));
    non_empty_of(first_attr_of(html, sel.as_str(), "content"))
}

/// The trimmed, non-empty text of the first element matching `selector`.
pub fn extract_text(html: &str, selector: &str) -> (r: Option<String>)
    ensures
        r.deep_view() == non_empty(first_trimmed(selected(html@, selector@, Seq::<Seq<char>>::empty()))),
{
    non_empty_of(first_text_of(html, selector))
}

/// `p` shows `dst` to be `src` stably sorted by episode number.
pub open spec fn number_perm(src: Seq<EpisodeView>, dst: Seq<EpisodeView>, p: Seq<int>) -> bool {
    &&& p.len() == src.len()
    &&& dst.len() == src.len()
    &&& forall|k: int| 0 <= k < p.len() ==> 0 <= #[trigger] p[k] < src.len()
    &&& forall|k: int| 0 <= k < p.len() ==> #[trigger] dst[k] == src[p[k]]
    &&& forall|k: int, l: int| 0 <= k < l < p.len() ==> p[k] != p[l]
    &&& forall|k: int, l: int| 0 <= k < l < dst.len() ==> dst[k].0 <= dst[l].0
    &&& forall|k: int, l: int| 0 <= k < l < dst.len() && dst[k].0 == dst[l].0 ==> p[k] < p[l]
}

/// `dst` is `src` stably sorted by episode number (what `sort_by_key` on the number gives).
pub open spec fn sorted_by_number(src: Seq<EpisodeView>, dst: Seq<EpisodeView>) -> bool {
    exists|p: Seq<int>| number_perm(src, dst, p)
}

/// `eps` stably sorted by episode number.
#[verifier::spinoff_prover]
#[verifier::rlimit(40)]
pub fn sort_by_number(eps: Vec<EpisodeInfo>) -> (r: Vec<EpisodeInfo>)
    ensures
        sorted_by_number(eps@.map_values(|e: EpisodeInfo| ep_view(e)), r@.map_values(|e: EpisodeInfo| ep_view(e))),
{
    let ghost src = eps@.map_values(|e: EpisodeInfo| ep_view(e));
    let n = eps.len();
    let mut rest = eps;
    let ghost rest0 = rest@;
    let mut out: Vec<EpisodeInfo> = Vec::new();
    let ghost mut perm: Seq<int> = Seq::empty();
    let mut i: usize = 0;
    while i < n
        invariant
            i <= n,
            n == src.len(),
            src == rest0.map_values(|e: EpisodeInfo| ep_view(e)),
            rest@ == rest0.subrange(i as int, n as int),
            out@.len() == i,
            perm.len() == i,
            forall|k: int| 0 <= k < i ==> 0 <= #[trigger] perm[k] < i,
            forall|k: int| 0 <= k < i ==> ep_view(#[trigger] out@[k]) == src[perm[k]],
            forall|k: int, l: int| 0 <= k < l < i ==> perm[k] != perm[l],
            forall|k: int, l: int| 0 <= k < l < i ==> out@[k].number <= out@[l].number,
            forall|k: int, l: int|
                0 <= k < l < i && out@[k].number == out@[l].number ==> perm[k] < perm[l],
        decreases n - i,
    {
        let it = rest.remove(0);
        assert(it == rest0[i as int]);
        assert(rest@ =~= rest0.subrange(i + 1, n as int));
        let mut pos: usize = 0;
        while pos < out.len() && out[pos].number <= it.number
            invariant
                pos <= out@.len(),
                forall|j: int| 0 <= j < pos ==> out@[j].number <= it.number,
            decreases out@.len() - pos,
        {
            pos += 1;
        }
        proof {
            assert forall|j: int| pos <= j < out@.len() implies out@[j].number > it.number by {
                if j > pos {
                    assert(out@[pos as int].number <= out@[j].number);
                }
            }
        }
        let ghost old_out = out@;
        let ghost old_perm = perm;
        out.insert(pos, it);
        proof {
            perm = perm.insert(pos as int, i as int);
            old_out.insert_ensures(pos as int, it);
            old_perm.insert_ensures(pos as int, i as int);
            assert forall|k: int| 0 <= k < i + 1 implies 0 <= #[trigger] perm[k] < i + 1 by {
                if k > pos {
                    assert(perm[k] == old_perm[k - 1]);
                }
            }
            assert forall|k: int| 0 <= k < i + 1 implies ep_view(#[trigger] out@[k]) == src[perm[k]] by {
                if k > pos {
                    assert(perm[k] == old_perm[k - 1]);
                    assert(out@[k] == old_out[k - 1]);
                } else if k == pos {
                    assert(src[i as int] == ep_view(rest0[i as int]));
                }
            }
            assert forall|k: int, l: int| 0 <= k < l < i + 1 implies perm[k] != perm[l] by {
                let ok = if k < pos { k } else { k - 1 };
                let ol = if l < pos { l } else { l - 1 };
                if k != pos && l != pos {
                    assert(perm[k] == old_perm[ok]);
                    assert(perm[l] == old_perm[ol]);
                } else if k == pos {
                    assert(perm[l] == old_perm[ol]);
                } else {
                    assert(perm[k] == old_perm[ok]);
                }
            }
            assert forall|k: int, l: int| 0 <= k < l < i + 1 implies out@[k].number <= out@[l].number by {
                let ok = if k < pos { k } else { k - 1 };
                let ol = if l < pos { l } else { l - 1 };
                if k != pos && l != pos {
                    assert(out@[k] == old_out[ok]);
                    assert(out@[l] == old_out[ol]);
                } else if k == pos {
                    assert(out@[l] == old_out[ol]);
                } else {
                    assert(out@[k] == old_out[ok]);
                }
            }
            assert forall|k: int, l: int|
                0 <= k < l < i + 1 && out@[k].number == out@[l].number implies perm[k] < perm[l] by {
                let ok = if k < pos { k } else { k - 1 };
                let ol = if l < pos { l } else { l - 1 };
                if k != pos && l != pos {
                    assert(out@[k] == old_out[ok]);
                    assert(out@[l] == old_out[ol]);
                    assert(perm[k] == old_perm[ok]);
                    assert(perm[l] == old_perm[ol]);
                } else if k == pos {
                    assert(out@[l] == old_out[ol]);
                    assert(perm[l] == old_perm[ol]);
                } else {
                    assert(out@[k] == old_out[ok]);
                    assert(perm[k] == old_perm[ok]);
                }
            }
        }
        i += 1;
    }
    proof {
        let dst = out@.map_values(|e: EpisodeInfo| ep_view(e));
        assert(number_perm(src, dst, perm));
    }
    out
}

/// What is read of one catalogue card: its link, its title (already trimmed
/// and not empty, when there is one) and its poster.
pub type CardInput = (Option<Seq<char>>, Option<Seq<char>>, Option<Seq<char>>);

/// One card read into the catalogue of the site at `base`: taken when it has
/// a link not seen before, titled "Anime" when it has no title.
pub open spec fn card_step(base: Seq<char>, st: ListState, c: CardInput) -> ListState {
    match c.0 {
        None => st,
        Some(h) => {
            let url = normalized(base, h);
            if st.0.contains(url) {
                st
            } else {
                let title = match c.1 {
                    Some(t) => t,
                    None => "Anime"@,
                };
                let poster = match c.2 {
                    Some(p) => Some(normalized(base, p)),
                    None => None,
                };
                (st.0.push(url), st.1.push((title, url, poster, None)))
            }
        },
    }
}

/// The cards read in order.
pub open spec fn card_scan(base: Seq<char>, st: ListState, cs: Seq<CardInput>) -> ListState
    decreases cs.len(),
{
    if cs.len() == 0 {
        st
    } else {
        card_step(base, card_scan(base, st, cs.drop_last()), cs.last())
    }
}

/// Reading cards keeps a catalogue sound.
pub proof fn lemma_card_scan_ok(base: Seq<char>, st: ListState, cs: Seq<CardInput>)
    requires
        list_ok(st),
    ensures
        list_ok(card_scan(base, st, cs)),
    decreases cs.len(),
{
    if cs.len() > 0 {
        lemma_card_scan_ok(base, st, cs.drop_last());
        let prev = card_scan(base, st, cs.drop_last());
        let c = cs.last();
        if let Some(h) = c.0 {
            let url = normalized(base, h);
            if !prev.0.contains(url) {
                let title = match c.1 {
                    Some(t) => t,
                    None => "Anime"@,
                };
                let poster = match c.2 {
                    Some(p) => Some(normalized(base, p)),
                    None => None,
                };
                lemma_list_take(prev, url, (title, url, poster, None));
            }
        }
    }
}

/// A catalogue being read: the URLs seen and the entries taken.
pub struct Cards {
    pub seen: Vec<String>,
    pub items: Vec<CatalogItem>,
}

impl Cards {
    /// What the vectors hold.
    pub open spec fn state(&self) -> ListState {
        (self.seen.deep_view(), self.items@.map_values(|i: CatalogItem| item_view(i)))
    }

    /// An empty catalogue.
    pub fn new() -> (r: Self)
        ensures
            r.state() == (Seq::<Seq<char>>::empty(), Seq::<ItemView>::empty()),
    {
        let r = Cards { seen: Vec::new(), items: Vec::new() };
        assert(r.state().1 =~= Seq::<ItemView>::empty());
        r
    }

    /// Reads one card of the site at `base`.
    pub fn card(&mut self, base: &str, link: Option<String>, title: Option<String>, poster: Option<String>)
        ensures
            final(self).state() == card_step(
                base@,
                old(self).state(),
                (link.deep_view(), title.deep_view(), poster.deep_view()),
            ),
    {
        let h = match link {
            None => return,
            Some(h) => h,
        };
        let url = normalize_with_base(base, h.as_str());
        if contains_string(&self.seen, url.as_str()) {
            return;
        }
        self.seen.push(url.clone());
        let title = match title {
            Some(t) => t,
            None => own("Anime"),
        };
        let poster = match poster {
            Some(p) => Some(normalize_with_base(base, p.as_str())),
            None => None,
        };
        let item = CatalogItem { title, url, poster, category: None };
        let ghost before = self.items@;
        self.items.push(item);
        proof {
            assert(self.seen.deep_view() =~= old(self).seen.deep_view().push(url@));
            assert(self.items@.map_values(|i: CatalogItem| item_view(i)) =~= before.map_values(
                |i: CatalogItem| item_view(i),
            ).push(item_view(item)));
        }
    }
}

/// The attribute `k` of the first of some elements.
pub open spec fn first_attr_at(els: Seq<ElementView>, k: int) -> Option<Seq<char>> {
    if els.len() > 0 {
        els[0].1[k]
    } else {
        None
    }
}

/// Reads attribute `k` of the first of some elements.
pub fn first_attr_in(els: &Vec<Element>, k: usize) -> (r: Option<String>)
    requires
        forall|i: int| 0 <= i < els@.len() ==> k < (#[trigger] els@[i]).1@.len(),
    ensures
        r.deep_view() == first_attr_at(els.deep_view(), k as int),
{
    if els.len() > 0 {
        match &els[0].1[k] {
            Some(v) => Some(v.clone()),
            None => None,
        }
    } else {
        None
    }
}

/// Reads the trimmed text of the first of some elements, when not empty.
pub fn first_title_in(els: &Vec<Element>) -> (r: Option<String>)
    ensures
        r.deep_view() == non_empty(first_trimmed(els.deep_view())),
{
    if els.len() > 0 {
        non_empty_of(Some(trim_str(els[0].2.as_str())))
    } else {
        None
    }
}

/// What is after the last `/` of `s` (all of `s` when it has none).
pub open spec fn last_segment(s: Seq<char>) -> Seq<char>
    decreases s.len(),
{
    if s.len() == 0 || s.last() == '/' {
        Seq::empty()
    } else {
        last_segment(s.drop_last()).push(s.last())
    }
}

/// A genre as the contracts see it: name, slug, URL.
pub type CategoryView = (Seq<char>, Seq<char>, Seq<char>);

/// The view of a genre.
pub open spec fn category_view(c: CategoryInfo) -> CategoryView {
    (c.name@, c.slug@, c.url@)
}

/// The genres read so far: the slugs seen and the genres taken.
pub type CategoryScan = (Seq<Seq<char>>, Seq<CategoryView>);

/// One genre link of the site at `base` read in: its slug is the last part of
/// its link; taken when the slug is new and the link has a name.
pub open spec fn category_step(base: Seq<char>, st: CategoryScan, href: Seq<char>, text: Seq<char>) -> CategoryScan {
    let slug = last_segment(strip_end(href, '/'));
    if slug.len() == 0 || st.0.contains(slug) {
        st
    } else if trim(text).len() == 0 {
        (st.0.push(slug), st.1)
    } else {
        (st.0.push(slug), st.1.push((trim(text), slug, normalized(base, href))))
    }
}

/// The genre links read in order.
pub open spec fn category_scan(base: Seq<char>, st: CategoryScan, ls: Seq<(Seq<char>, Seq<char>)>) -> CategoryScan
    decreases ls.len(),
{
    if ls.len() == 0 {
        st
    } else {
        category_step(base, category_scan(base, st, ls.drop_last()), ls.last().0, ls.last().1)
    }
}

/// `p` shows `dst` to be `src` stably sorted by name.
pub open spec fn name_perm(src: Seq<CategoryView>, dst: Seq<CategoryView>, p: Seq<int>) -> bool {
    &&& p.len() == src.len()
    &&& dst.len() == src.len()
    &&& forall|k: int| 0 <= k < p.len() ==> 0 <= #[trigger] p[k] < src.len()
    &&& forall|k: int| 0 <= k < p.len() ==> #[trigger] dst[k] == src[p[k]]
    &&& forall|k: int, l: int| 0 <= k < l < p.len() ==> p[k] != p[l]
    &&& forall|k: int, l: int| 0 <= k < l < dst.len() ==> lex_le(dst[k].0, dst[l].0)
    &&& forall|k: int, l: int| 0 <= k < l < dst.len() && dst[k].0 == dst[l].0 ==> p[k] < p[l]
}

/// `dst` is `src` stably sorted by name (what `sort_by` on the names gives).
pub open spec fn sorted_by_name(src: Seq<CategoryView>, dst: Seq<CategoryView>) -> bool {
    exists|p: Seq<int>| name_perm(src, dst, p)
}

/// The genres of a page, as read from its genre links (each an `href` and
/// the link's text), sorted by name.
pub struct Categories {
    seen: Vec<String>,
    found: Vec<CategoryInfo>,
}

impl Categories {
    pub closed spec fn state(&self) -> CategoryScan {
        (self.seen.deep_view(), self.found@.map_values(|c: CategoryInfo| category_view(c)))
    }

    /// No genre read yet.
    pub fn new() -> (r: Self)
        ensures
            r.state() == (Seq::<Seq<char>>::empty(), Seq::<CategoryView>::empty()),
    {
        let r = Categories { seen: Vec::new(), found: Vec::new() };
        assert(r.state().1 =~= Seq::<CategoryView>::empty());
        r
    }

    /// Reads one genre link of the site at `base`.
    pub fn link(&mut self, base: &str, href: &str, text: &str)
        ensures
            final(self).state() == category_step(base@, old(self).state(), href@, text@),
    {
        let hv = chars_of(href);
        let hi = strip_end_bound(&hv, 0, hv.len(), '/');
        assert(hv@.subrange(0, hv@.len() as int) =~= hv@);
        let mut lo = hi;
        while lo > 0 && hv[lo - 1] != '/'
            invariant
                lo <= hi <= hv@.len(),
                last_segment(hv@.subrange(0, hi as int)) == last_segment(hv@.subrange(0, lo as int))
                    + hv@.subrange(lo as int, hi as int),
            decreases lo,
        {
            proof {
                let s = hv@.subrange(0, lo as int);
                assert(s.drop_last() =~= hv@.subrange(0, lo - 1));
                assert(hv@.subrange(lo - 1, hi as int) =~= seq![s.last()] + hv@.subrange(lo as int, hi as int));
                assert(last_segment(s) == last_segment(s.drop_last()).push(s.last()));
                assert(last_segment(s.drop_last()).push(s.last()) + hv@.subrange(lo as int, hi as int)
                    =~= last_segment(s.drop_last()) + hv@.subrange(lo - 1, hi as int));
            }
            lo -= 1;
        }
        proof {
            let s = hv@.subrange(0, lo as int);
            assert(last_segment(s) == Seq::<char>::empty());
            assert(Seq::<char>::empty() + hv@.subrange(lo as int, hi as int) =~= hv@.subrange(lo as int, hi as int));
        }
        let slug = string_of(&hv, lo, hi);
        if chars_of(slug.as_str()).len() == 0 || contains_string(&self.seen, slug.as_str()) {
            return;
        }
        self.seen.push(slug.clone());
        proof {
            assert(self.seen.deep_view() =~= old(self).seen.deep_view().push(slug@));
        }
        let name = trim_str(text);
        if chars_of(name.as_str()).len() == 0 {
            return;
        }
        let url = normalize_with_base(base, href);
        let c = CategoryInfo { name, slug, url };
        let ghost before = self.found@;
        self.found.push(c);
        proof {
            assert(self.found@.map_values(|c: CategoryInfo| category_view(c)) =~= before.map_values(
                |c: CategoryInfo| category_view(c),
            ).push(category_view(c)));
        }
    }

    /// The genres read, stably sorted by name.
    pub fn sorted(self) -> (r: Vec<CategoryInfo>)
        ensures
            sorted_by_name(self.state().1, r@.map_values(|c: CategoryInfo| category_view(c))),
    {
        let items = self.found;
        let ghost src = items@.map_values(|c: CategoryInfo| category_view(c));
        let ghost rest0 = items@;
        let n = items.len();
        let mut rest = items;
        let mut out: Vec<CategoryInfo> = Vec::new();
        let mut keys: Vec<Vec<char>> = Vec::new();
        let ghost mut perm: Seq<int> = Seq::empty();
        let mut i: usize = 0;
        while i < n
            invariant
                i <= n,
                n == src.len(),
                src == rest0.map_values(|c: CategoryInfo| category_view(c)),
                rest@ == rest0.subrange(i as int, n as int),
                out@.len() == i,
                keys@.len() == i,
                perm.len() == i,
                forall|k: int| 0 <= k < i ==> #[trigger] keys@[k]@ == out@[k].name@,
                forall|k: int| 0 <= k < i ==> 0 <= #[trigger] perm[k] < i,
                forall|k: int| 0 <= k < i ==> category_view(#[trigger] out@[k]) == src[perm[k]],
                forall|k: int, l: int| 0 <= k < l < i ==> perm[k] != perm[l],
                forall|k: int, l: int| 0 <= k < l < i ==> lex_le(out@[k].name@, out@[l].name@),
                forall|k: int, l: int| 0 <= k < l < i && out@[k].name@ == out@[l].name@ ==> perm[k] < perm[l],
            decreases n - i,
        {
            let it = rest.remove(0);
            assert(it == rest0[i as int]);
            assert(rest@ =~= rest0.subrange(i + 1, n as int));
            let key = chars_of(it.name.as_str());
            let mut pos: usize = 0;
            while pos < out.len() && lex_le_exec(&keys[pos], &key)
                invariant
                    pos <= out@.len(),
                    keys@.len() == out@.len(),
                    forall|k: int| 0 <= k < out@.len() ==> #[trigger] keys@[k]@ == out@[k].name@,
                    key@ == it.name@,
                    forall|j: int| 0 <= j < pos ==> lex_le(out@[j].name@, key@),
                decreases out@.len() - pos,
            {
                pos += 1;
            }
            proof {
                assert forall|j: int| pos <= j < out@.len() implies !lex_le(out@[j].name@, key@)
                    && lex_le(key@, out@[j].name@) && out@[j].name@ != key@ by {
                    let kp = out@[pos as int].name@;
                    let kj = out@[j].name@;
                    assert(!lex_le(kp, key@));
                    if j > pos {
                        assert(lex_le(kp, kj));
                        if lex_le(kj, key@) {
                            lemma_lex_trans(kp, kj, key@);
                        }
                    }
                    lemma_lex_total(kj, key@);
                    lemma_lex_refl(key@);
                }
            }
            let ghost old_out = out@;
            let ghost old_keys = keys@;
            let ghost old_perm = perm;
            out.insert(pos, it);
            keys.insert(pos, key);
            proof {
                perm = perm.insert(pos as int, i as int);
                old_out.insert_ensures(pos as int, it);
                old_keys.insert_ensures(pos as int, key);
                old_perm.insert_ensures(pos as int, i as int);
                assert forall|k: int| 0 <= k < i + 1 implies #[trigger] keys@[k]@ == out@[k].name@ by {
                    if k > pos {
                        assert(keys@[k] == old_keys[k - 1]);
                        assert(out@[k] == old_out[k - 1]);
                    }
                }
                assert forall|k: int| 0 <= k < i + 1 implies 0 <= #[trigger] perm[k] < i + 1 by {
                    if k > pos {
                        assert(perm[k] == old_perm[k - 1]);
                    }
                }
                assert forall|k: int| 0 <= k < i + 1 implies category_view(#[trigger] out@[k]) == src[perm[k]] by {
                    if k > pos {
                        assert(perm[k] == old_perm[k - 1]);
                        assert(out@[k] == old_out[k - 1]);
                    } else if k == pos {
                        assert(src[i as int] == category_view(rest0[i as int]));
                    }
                }
                assert forall|k: int, l: int| 0 <= k < l < i + 1 implies perm[k] != perm[l] by {
                    let ok = if k < pos { k } else { k - 1 };
                    let ol = if l < pos { l } else { l - 1 };
                    if k != pos && l != pos {
                        assert(perm[k] == old_perm[ok]);
                        assert(perm[l] == old_perm[ol]);
                    } else if k == pos {
                        assert(perm[l] == old_perm[ol]);
                    } else {
                        assert(perm[k] == old_perm[ok]);
                    }
                }
                assert forall|k: int, l: int| 0 <= k < l < i + 1 implies lex_le(out@[k].name@, out@[l].name@) by {
                    let ok = if k < pos { k } else { k - 1 };
                    let ol = if l < pos { l } else { l - 1 };
                    if k != pos && l != pos {
                        assert(out@[k] == old_out[ok]);
                        assert(out@[l] == old_out[ol]);
                    } else if k == pos {
                        assert(out@[l] == old_out[ol]);
                    } else {
                        assert(out@[k] == old_out[ok]);
                    }
                }
                assert forall|k: int, l: int|
                    0 <= k < l < i + 1 && out@[k].name@ == out@[l].name@ implies perm[k] < perm[l] by {
                    let ok = if k < pos { k } else { k - 1 };
                    let ol = if l < pos { l } else { l - 1 };
                    if k != pos && l != pos {
                        assert(out@[k] == old_out[ok]);
                        assert(out@[l] == old_out[ol]);
                        assert(perm[k] == old_perm[ok]);
                        assert(perm[l] == old_perm[ol]);
                    } else if k == pos {
                        assert(out@[l] == old_out[ol]);
                        assert(perm[l] == old_perm[ol]);
                    } else {
                        assert(out@[k] == old_out[ok]);
                        assert(perm[k] == old_perm[ok]);
                    }
                }
            }
            i += 1;
        }
        proof {
            let dst = out@.map_values(|c: CategoryInfo| category_view(c));
            assert(name_perm(src, dst, perm));
        }
        out
    }
}

} // verus!
