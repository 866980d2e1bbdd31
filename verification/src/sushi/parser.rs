//! Reading Sushi Animes pages, and the catalogue filters shared by every source.

use vstd::prelude::*;
use crate::models::{CatalogFilters, CatalogItem, CatalogPage, CatalogSort, CatalogType, EpisodeInfo, MediaFilter, SeasonInfo};
use crate::outside::{lowercase, to_lowercase};
use crate::sources::stream::{first_group1, regex_first_group1};
use crate::sushi::client::SushiError;
use crate::outside::{regex_captures, regex_matches, url_encode, url_encoded};
use crate::text::{append, before, decimal, ends, starts, lemma_joined_ends, parse_u32, parse_u32_str, replace, trim, push_decimal, own, chars_of, contains, contains_str, has_sub, lex_le, lex_le_exec, lemma_lex_refl, lemma_lex_total, lemma_lex_trans, lemma_lex_antisym};

verus! {

/// The key by which catalogue entries are ordered: the lowercased title.
pub open spec fn title_key(item: CatalogItem) -> Seq<char> {
    lowercase(item.title@)
}

/// `a` may precede `b` in ascending (or, with `desc`, descending) order.
pub open spec fn in_order(desc: bool, a: Seq<char>, b: Seq<char>) -> bool {
    if desc {
        lex_le(b, a)
    } else {
        lex_le(a, b)
    }
}

/// `p` shows `dst` to be `src` stably sorted by title: `dst[k]` is `src[p[k]]`,
/// `p` is a permutation, titles are in order, and equal titles keep their order.
pub open spec fn stable_perm(src: Seq<CatalogItem>, dst: Seq<CatalogItem>, p: Seq<int>, desc: bool) -> bool {
    &&& p.len() == src.len()
    &&& dst.len() == src.len()
    &&& forall|k: int| 0 <= k < p.len() ==> 0 <= #[trigger] p[k] < src.len()
    &&& forall|k: int| 0 <= k < p.len() ==> #[trigger] dst[k] == src[p[k]]
    &&& forall|k: int, l: int| 0 <= k < l < p.len() ==> p[k] != p[l]
    &&& forall|k: int, l: int|
        0 <= k < l < dst.len() ==> in_order(desc, title_key(dst[k]), title_key(dst[l]))
    &&& forall|k: int, l: int|
        0 <= k < l < dst.len() && title_key(dst[k]) == title_key(dst[l]) ==> p[k] < p[l]
}

/// `dst` is `src` stably sorted by title (what `sort_by` on the lowercased titles gives).
pub open spec fn stably_sorted(src: Seq<CatalogItem>, dst: Seq<CatalogItem>, desc: bool) -> bool {
    exists|p: Seq<int>| stable_perm(src, dst, p, desc)
}

/// Whether `a` may precede `b` in the chosen order.
fn precedes(desc: bool, a: &Vec<char>, b: &Vec<char>) -> (r: bool)
    ensures
        r == in_order(desc, a@, b@),
{
    if desc {
        lex_le_exec(b, a)
    } else {
        lex_le_exec(a, b)
    }
}

/// `items` stably sorted by lowercased title, ascending or descending.
pub fn sort_by_title(items: Vec<CatalogItem>, desc: bool) -> (r: Vec<CatalogItem>)
    ensures
        stably_sorted(items@, r@, desc),
{
    let ghost src = items@;
    let n = items.len();
    let mut rest = items;
    let mut out: Vec<CatalogItem> = Vec::new();
    let mut keys: Vec<Vec<char>> = Vec::new();
    let ghost mut perm: Seq<int> = Seq::empty();
    let mut i: usize = 0;
    while i < n
        invariant
            i <= n,
            n == src.len(),
            rest@ == src.subrange(i as int, n as int),
            out@.len() == i,
            keys@.len() == i,
            perm.len() == i,
            forall|k: int| 0 <= k < i ==> #[trigger] keys@[k]@ == title_key(out@[k]),
            forall|k: int| 0 <= k < i ==> 0 <= #[trigger] perm[k] < i,
            forall|k: int| 0 <= k < i ==> #[trigger] out@[k] == src[perm[k]],
            forall|k: int, l: int| 0 <= k < l < i ==> perm[k] != perm[l],
            forall|k: int, l: int|
                0 <= k < l < i ==> in_order(desc, title_key(out@[k]), title_key(out@[l])),
            forall|k: int, l: int|
                0 <= k < l < i && title_key(out@[k]) == title_key(out@[l]) ==> perm[k] < perm[l],
        decreases n - i,
    {
        let it = rest.remove(0);
        assert(it == src[i as int]);
        assert(rest@ =~= src.subrange(i + 1, n as int));
        let key = chars_of(to_lowercase(it.title.as_str()).as_str());
        let mut pos: usize = 0;
        while pos < out.len() && precedes(desc, &keys[pos], &key)
            invariant
                pos <= out@.len(),
                keys@.len() == out@.len(),
                forall|k: int| 0 <= k < out@.len() ==> #[trigger] keys@[k]@ == title_key(out@[k]),
                key@ == title_key(it),
                forall|j: int| 0 <= j < pos ==> in_order(desc, title_key(out@[j]), key@),
            decreases out@.len() - pos,
        {
            pos += 1;
        }
        proof {
            assert forall|j: int| pos <= j < out@.len() implies !in_order(
                desc,
                title_key(out@[j]),
                key@,
            ) && in_order(desc, key@, title_key(out@[j])) && title_key(out@[j]) != key@ by {
                let kp = title_key(out@[pos as int]);
                let kj = title_key(out@[j]);
                assert(!in_order(desc, kp, key@));
                if j > pos {
                    assert(in_order(desc, kp, kj));
                    if in_order(desc, kj, key@) {
                        if desc {
                            lemma_lex_trans(key@, kj, kp);
                        } else {
                            lemma_lex_trans(kp, kj, key@);
                        }
                    }
                }
                lemma_lex_total(kj, key@);
                lemma_lex_refl(key@);
            }
        }
        let ghost old_out = out@;
        let ghost old_keys = keys@;
        let ghost old_perm = perm;
        out.insert(pos, it);
        keys.insert(pos, key);
        proof {
            perm = perm.insert(pos as int, i as int);
            old_out.insert_ensures(pos as int, it);
            old_keys.insert_ensures(pos as int, key);
            old_perm.insert_ensures(pos as int, i as int);
            assert forall|k: int| 0 <= k < i + 1 implies #[trigger] keys@[k]@ == title_key(out@[k]) by {
                if k < pos {
                } else if k > pos {
                    assert(keys@[k] == old_keys[k - 1]);
                    assert(out@[k] == old_out[k - 1]);
                }
            }
            assert forall|k: int| 0 <= k < i + 1 implies 0 <= #[trigger] perm[k] < i + 1 by {
                if k < pos {
                } else if k > pos {
                    assert(perm[k] == old_perm[k - 1]);
                }
            }
            assert forall|k: int| 0 <= k < i + 1 implies #[trigger] out@[k] == src[perm[k]] by {
                if k < pos {
                } else if k > pos {
                    assert(perm[k] == old_perm[k - 1]);
                    assert(out@[k] == old_out[k - 1]);
                }
            }
            assert forall|k: int, l: int| 0 <= k < l < i + 1 implies perm[k] != perm[l] by {
                let ok = if k < pos { k } else { k - 1 };
                let ol = if l < pos { l } else { l - 1 };
                if k != pos && l != pos {
                    assert(perm[k] == old_perm[ok]);
                    assert(perm[l] == old_perm[ol]);
                } else if k == pos {
                    assert(perm[l] == old_perm[ol]);
                } else {
                    assert(perm[k] == old_perm[ok]);
                }
            }
            assert forall|k: int, l: int| 0 <= k < l < i + 1 implies in_order(
                desc,
                title_key(out@[k]),
                title_key(out@[l]),
            ) by {
                let ok = if k < pos { k } else { k - 1 };
                let ol = if l < pos { l } else { l - 1 };
                if k != pos && l != pos {
                    assert(out@[k] == old_out[ok]);
                    assert(out@[l] == old_out[ol]);
                } else if k == pos {
                    assert(out@[l] == old_out[ol]);
                } else {
                    assert(out@[k] == old_out[ok]);
                }
            }
            assert forall|k: int, l: int|
                0 <= k < l < i + 1 && title_key(out@[k]) == title_key(out@[l]) implies perm[k]
                < perm[l] by {
                let ok = if k < pos { k } else { k - 1 };
                let ol = if l < pos { l } else { l - 1 };
                if k != pos && l != pos {
                    assert(out@[k] == old_out[ok]);
                    assert(out@[l] == old_out[ol]);
                    assert(perm[k] == old_perm[ok]);
                    assert(perm[l] == old_perm[ol]);
                } else if k == pos {
                    assert(out@[l] == old_out[ol]);
                } else {
                    assert(out@[k] == old_out[ok]);
                    assert(perm[k] == old_perm[ok]);
                }
            }
        }
        i += 1;
    }
    assert(stable_perm(src, out@, perm, desc));
    out
}

/// The category filter keeps entries whose category contains it, case-insensitively.
pub open spec fn category_ok(category: Option<String>, item: CatalogItem) -> bool {
    match category {
        Some(c) => match item.category {
            Some(ic) => has_sub(lowercase(ic@), lowercase(c@)),
            None => false,
        },
        None => true,
    }
}

/// The title filter keeps entries whose title contains it, case-insensitively;
/// an empty filter keeps everything.
pub open spec fn title_ok(title_filter: Option<String>, item: CatalogItem) -> bool {
    match title_filter {
        Some(t) => t@.len() == 0 || has_sub(lowercase(item.title@), lowercase(t@)),
        None => true,
    }
}

/// The media filter keeps anime pages, or film pages, or everything.
pub open spec fn media_ok(media: MediaFilter, item: CatalogItem) -> bool {
    match media {
        MediaFilter::All => true,
        MediaFilter::Anime => has_sub(item.url@, "/anime/"@),
        MediaFilter::Filme => has_sub(item.url@, "/filme/"@) || has_sub(item.url@, "/assistir/"@),
    }
}

/// An entry passes every filter.
pub open spec fn kept(f: CatalogFilters, item: CatalogItem) -> bool {
    category_ok(f.category, item) && title_ok(f.title_filter, item) && media_ok(
        f.media_filter,
        item,
    )
}

/// The entries of `items` that pass the filters, in their order.
pub open spec fn filtered(f: CatalogFilters, items: Seq<CatalogItem>) -> Seq<CatalogItem> {
    items.filter(|it: CatalogItem| kept(f, it))
}

fn keeps(
    cat: &Option<Vec<char>>,
    needle: &Option<Vec<char>>,
    media: MediaFilter,
    item: &CatalogItem,
    f: Ghost<CatalogFilters>,
) -> (r: bool)
    requires
        match f@.category {
            Some(c) => cat matches Some(v) && v@ == lowercase(c@),
            None => cat is None,
        },
        match f@.title_filter {
            Some(t) => needle matches Some(v) && v@ == lowercase(t@) && (v@.len() == 0 <==> t@.len() == 0),
            None => needle is None,
        },
        media == f@.media_filter,
    ensures
        r == kept(f@, *item),
{
    let c_ok = match cat {
        Some(c) => match &item.category {
            Some(ic) => {
                let icl = chars_of(to_lowercase(ic.as_str()).as_str());
                contains(&icl, c)
            },
            None => false,
        },
        None => true,
    };
    let t_ok = match needle {
        Some(n) => {
            if n.len() == 0 {
                true
            } else {
                let tl = chars_of(to_lowercase(item.title.as_str()).as_str());
                contains(&tl, n)
            }
        },
        None => true,
    };
    let url = chars_of(item.url.as_str());
    let m_ok = match media {
        MediaFilter::All => true,
        MediaFilter::Anime => contains_str(&url, "/anime/"),
        MediaFilter::Filme => contains_str(&url, "/filme/") || contains_str(&url, "/assistir/"),
    };
    c_ok && t_ok && m_ok
}

/// `dst` is what the filters make of the entries `src`: those that pass, in their
/// order, or stably sorted by title when the filters ask for it.
pub open spec fn filters_result(f: CatalogFilters, src: Seq<CatalogItem>, dst: Seq<CatalogItem>) -> bool {
    match f.sort {
        CatalogSort::Default => dst == filtered(f, src),
        CatalogSort::TitleAsc => stably_sorted(filtered(f, src), dst, false),
        CatalogSort::TitleDesc => stably_sorted(filtered(f, src), dst, true),
    }
}

/// A catalogue page narrowed by category, title and media kind, then ordered by
/// title when asked (stably, case-insensitively).
pub fn apply_catalog_filters(page: CatalogPage, filters: &CatalogFilters) -> (r: CatalogPage)
    ensures
        r.page == page.page,
        r.has_next == page.has_next,
        filters_result(*filters, page.items@, r.items@),
{
    let cat: Option<Vec<char>> = match &filters.category {
        Some(c) => Some(chars_of(to_lowercase(c.as_str()).as_str())),
        None => None,
    };
    let needle: Option<Vec<char>> = match &filters.title_filter {
        Some(t) => Some(chars_of(to_lowercase(t.as_str()).as_str())),
        None => None,
    };
    let ghost src = page.items@;
    let n = page.items.len();
    let mut rest = page.items;
    let mut kept_items: Vec<CatalogItem> = Vec::new();
    let mut k: usize = 0;
    proof {
        reveal(Seq::filter);
        assert(src.subrange(0, 0) =~= Seq::<CatalogItem>::empty());
    }
    while k < n
        invariant
            k <= n,
            n == src.len(),
            rest@ == src.subrange(k as int, n as int),
            kept_items@ == filtered(*filters, src.subrange(0, k as int)),
            match filters.category {
                Some(c) => cat matches Some(v) && v@ == lowercase(c@),
                None => cat is None,
            },
            match filters.title_filter {
                Some(t) => needle matches Some(v) && v@ == lowercase(t@) && (v@.len() == 0 <==> t@.len() == 0),
                None => needle is None,
            },
        decreases n - k,
    {
        let it = rest.remove(0);
        assert(it == src[k as int]);
        assert(rest@ =~= src.subrange(k + 1, n as int));
        let ghost pre = src.subrange(0, k as int);
        let ghost nxt = src.subrange(0, k + 1);
        proof {
            reveal(Seq::filter);
            assert(nxt.drop_last() =~= pre);
            assert(nxt.last() == it);
        }
        if keeps(&cat, &needle, filters.media_filter, &it, Ghost(*filters)) {
            kept_items.push(it);
        }
        k += 1;
    }
    assert(src.subrange(0, n as int) =~= src);
    let items = match filters.sort {
        CatalogSort::Default => kept_items,
        CatalogSort::TitleAsc => sort_by_title(kept_items, false),
        CatalogSort::TitleDesc => sort_by_title(kept_items, true),
    };
    CatalogPage { items, page: page.page, has_next: page.has_next }
}

/// Every entry that passes the filters is kept, so filtering such entries keeps them all.
proof fn lemma_filtered_keeps_all(f: CatalogFilters, s: Seq<CatalogItem>)
    requires
        forall|i: int| 0 <= i < s.len() ==> kept(f, #[trigger] s[i]),
    ensures
        filtered(f, s) == s,
    decreases s.len(),
{
    reveal(Seq::filter);
    if s.len() > 0 {
        lemma_filtered_keeps_all(f, s.drop_last());
        assert(s.drop_last().push(s.last()) =~= s);
    }
}

/// An injective map of `0..n` into `0..n` reaches every index.
proof fn lemma_perm_onto(p: Seq<int>, n: int, j: int)
    requires
        p.len() == n,
        forall|k: int| 0 <= k < n ==> 0 <= #[trigger] p[k] < n,
        forall|k: int, l: int| 0 <= k < l < n ==> p[k] != p[l],
        0 <= j < n,
    ensures
        exists|k: int| 0 <= k < n && p[k] == j,
{
    assert(p.no_duplicates()) by {
        assert forall|k: int, l: int| 0 <= k < p.len() && 0 <= l < p.len() && k != l implies p[k] != p[l] by {
            if k > l {
                assert(p[l] != p[k]);
            }
        }
    }
    p.unique_seq_to_set();
    vstd::set_lib::lemma_int_range(0, n);
    vstd::seq_lib::seq_to_set_is_finite(p);
    let full = vstd::set_lib::set_int_range(0, n);
    assert(p.to_set().subset_of(full)) by {
        assert forall|x: int| p.to_set().contains(x) implies full.contains(x) by {
            let k = choose|k: int| 0 <= k < p.len() && p[k] == x;
            assert(0 <= p[k] < n);
        }
    }
    vstd::set_lib::lemma_subset_equality(p.to_set(), full);
    assert(full.contains(j));
    assert(p.to_set().contains(j));
    assert(p.contains(j));
}

/// Stably sorting entries that are already in order moves none of them:
/// the first `k` positions of the permutation are fixed.
proof fn lemma_sorted_prefix_fixed(src: Seq<CatalogItem>, dst: Seq<CatalogItem>, p: Seq<int>, desc: bool, k: int)
    requires
        stable_perm(src, dst, p, desc),
        forall|a: int, b: int|
            0 <= a < b < src.len() ==> in_order(desc, title_key(src[a]), title_key(src[b])),
        0 <= k <= src.len(),
    ensures
        forall|j: int| 0 <= j < k ==> #[trigger] p[j] == j,
    decreases k,
{
    if k > 0 {
        let n = src.len() as int;
        let i = k - 1;
        lemma_sorted_prefix_fixed(src, dst, p, desc, i);
        let m = p[i];
        assert(0 <= m < n);
        if m < i {
            assert(p[m] == m);
            assert(p[m] != p[i]);
        }
        if m > i {
            lemma_perm_onto(p, n, i);
            let q = choose|q: int| 0 <= q < n && p[q] == i;
            if q < i {
                assert(p[q] == q);
            }
            assert(q > i);
            assert(dst[i] == src[m]);
            assert(dst[q] == src[i]);
            assert(in_order(desc, title_key(dst[i]), title_key(dst[q])));
            assert(in_order(desc, title_key(src[i]), title_key(src[m])));
            lemma_lex_antisym(title_key(src[i]), title_key(src[m]));
            assert(title_key(dst[i]) == title_key(dst[q]));
            assert(p[i] < p[q]);
        }
        assert(p[i] == i);
    }
}

/// Stably sorting entries that are already in order gives them back unchanged.
proof fn lemma_sorted_stays(src: Seq<CatalogItem>, dst: Seq<CatalogItem>, desc: bool)
    requires
        stably_sorted(src, dst, desc),
        forall|a: int, b: int|
            0 <= a < b < src.len() ==> in_order(desc, title_key(src[a]), title_key(src[b])),
    ensures
        dst == src,
{
    let p = choose|p: Seq<int>| stable_perm(src, dst, p, desc);
    lemma_sorted_prefix_fixed(src, dst, p, desc, src.len() as int);
    assert forall|k: int| 0 <= k < dst.len() implies dst[k] == src[k] by {
        assert(p[k] == k);
    }
    assert(dst =~= src);
}

/// Filtering a catalogue page a second time with the same filters changes nothing:
/// what the filters give back of their own result is that result, the same entries
/// in the same order.
pub proof fn law_filters_idempotent(
    f: CatalogFilters,
    items: Seq<CatalogItem>,
    once: Seq<CatalogItem>,
    twice: Seq<CatalogItem>,
)
    requires
        filters_result(f, items, once),
        filters_result(f, once, twice),
    ensures
        twice == once,
{
    let fl = filtered(f, items);
    items.filter_lemma(|it: CatalogItem| kept(f, it));
    assert(forall|i: int| 0 <= i < fl.len() ==> kept(f, #[trigger] fl[i]));
    match f.sort {
        CatalogSort::Default => {
            lemma_filtered_keeps_all(f, once);
        },
        CatalogSort::TitleAsc => {
            let p = choose|p: Seq<int>| stable_perm(fl, once, p, false);
            assert forall|i: int| 0 <= i < once.len() implies kept(f, #[trigger] once[i]) by {
                assert(once[i] == fl[p[i]]);
            }
            lemma_filtered_keeps_all(f, once);
            lemma_sorted_stays(once, twice, false);
        },
        CatalogSort::TitleDesc => {
            let p = choose|p: Seq<int>| stable_perm(fl, once, p, true);
            assert forall|i: int| 0 <= i < once.len() implies kept(f, #[trigger] once[i]) by {
                assert(once[i] == fl[p[i]]);
            }
            lemma_filtered_keeps_all(f, once);
            lemma_sorted_stays(once, twice, true);
        },
    }
}

/// Every entry of a stably sorted list comes from the list sorted.
proof fn lemma_sorted_keeps_all(src: Seq<CatalogItem>, dst: Seq<CatalogItem>, desc: bool, i: int)
    requires
        stably_sorted(src, dst, desc),
        0 <= i < src.len(),
    ensures
        dst.contains(src[i]),
        forall|k: int| 0 <= k < dst.len() ==> src.contains(#[trigger] dst[k]),
{
    let p = choose|p: Seq<int>| stable_perm(src, dst, p, desc);
    lemma_perm_onto(p, src.len() as int, i);
    let k = choose|k: int| 0 <= k < src.len() && p[k] == i;
    assert(dst[k] == src[i]);
    assert forall|k: int| 0 <= k < dst.len() implies src.contains(#[trigger] dst[k]) by {
        assert(dst[k] == src[p[k]]);
    }
}

/// What the filters give holds exactly the entries of the page that pass them.
proof fn lemma_result_members(f: CatalogFilters, items: Seq<CatalogItem>, out: Seq<CatalogItem>)
    requires
        filters_result(f, items, out),
    ensures
        forall|k: int| 0 <= k < out.len() ==> kept(f, #[trigger] out[k]) && items.contains(out[k]),
        forall|i: int| 0 <= i < items.len() && kept(f, #[trigger] items[i]) ==> out.contains(items[i]),
{
    let pred = |it: CatalogItem| kept(f, it);
    let fl = filtered(f, items);
    items.filter_lemma(pred);
    assert(forall|k: int| 0 <= k < fl.len() ==> kept(f, #[trigger] fl[k]));
    assert forall|k: int| 0 <= k < fl.len() implies items.contains(#[trigger] fl[k]) by {
        items.lemma_filter_contains_rev(pred, fl[k]);
    }
    match f.sort {
        CatalogSort::Default => {
            assert forall|i: int| 0 <= i < items.len() && kept(f, #[trigger] items[i]) implies out.contains(
                items[i],
            ) by {
                assert(pred(items[i]));
            }
        },
        _ => {
            let desc = f.sort == CatalogSort::TitleDesc;
            assert(stably_sorted(fl, out, desc));
            let p = choose|p: Seq<int>| stable_perm(fl, out, p, desc);
            assert forall|k: int| 0 <= k < out.len() implies kept(f, #[trigger] out[k]) && items.contains(out[k]) by {
                assert(out[k] == fl[p[k]]);
            }
            assert forall|i: int| 0 <= i < items.len() && kept(f, #[trigger] items[i]) implies out.contains(
                items[i],
            ) by {
                assert(pred(items[i]));
                assert(fl.contains(items[i]));
                let j = choose|j: int| 0 <= j < fl.len() && fl[j] == items[i];
                lemma_sorted_keeps_all(fl, out, desc, j);
            }
        },
    }
}

/// With the film filter alone, a page keeps every entry whose link is a film
/// link (holding `/filme/` or `/assistir/`) and no other, whatever the order asked.
pub proof fn law_film_filter_keeps_film_links(f: CatalogFilters, items: Seq<CatalogItem>, out: Seq<CatalogItem>, i: int)
    requires
        f.media_filter == MediaFilter::Filme,
        f.category is None,
        f.title_filter is None,
        filters_result(f, items, out),
        0 <= i < items.len(),
    ensures
        has_sub(items[i].url@, "/filme/"@) || has_sub(items[i].url@, "/assistir/"@) ==> out.contains(items[i]),
        forall|k: int|
            0 <= k < out.len() ==> has_sub(#[trigger] out[k].url@, "/filme/"@) || has_sub(out[k].url@, "/assistir/"@),
{
    lemma_result_members(f, items, out);
    if has_sub(items[i].url@, "/filme/"@) || has_sub(items[i].url@, "/assistir/"@) {
        assert(kept(f, items[i]));
    }
}

/// With the anime filter alone, a page keeps every entry whose link is an
/// anime page (holding `/anime/`) and no other, whatever the order asked.
pub proof fn law_anime_filter_keeps_anime_links(f: CatalogFilters, items: Seq<CatalogItem>, out: Seq<CatalogItem>, i: int)
    requires
        f.media_filter == MediaFilter::Anime,
        f.category is None,
        f.title_filter is None,
        filters_result(f, items, out),
        0 <= i < items.len(),
    ensures
        has_sub(items[i].url@, "/anime/"@) ==> out.contains(items[i]),
        forall|k: int| 0 <= k < out.len() ==> has_sub(#[trigger] out[k].url@, "/anime/"@),
{
    lemma_result_members(f, items, out);
    if has_sub(items[i].url@, "/anime/"@) {
        assert(kept(f, items[i]));
    }
}

/// Without filters a page keeps all its entries: every entry stays and nothing
/// comes in, whatever the order asked.
pub proof fn law_no_filter_keeps_all(f: CatalogFilters, items: Seq<CatalogItem>, out: Seq<CatalogItem>, i: int)
    requires
        f.media_filter == MediaFilter::All,
        f.category is None,
        f.title_filter is None,
        filters_result(f, items, out),
        0 <= i < items.len(),
    ensures
        out.contains(items[i]),
        forall|k: int| 0 <= k < out.len() ==> items.contains(#[trigger] out[k]),
{
    lemma_result_members(f, items, out);
    assert(kept(f, items[i]));
}

/// The category filter keeps exactly the entries whose category contains it,
/// ignoring case; an entry with no category is dropped.
pub proof fn law_category_filter(f: CatalogFilters, items: Seq<CatalogItem>, out: Seq<CatalogItem>, i: int, c: String)
    requires
        f.media_filter == MediaFilter::All,
        f.category == Some(c),
        f.title_filter is None,
        filters_result(f, items, out),
        0 <= i < items.len(),
    ensures
        (items[i].category matches Some(ic) && has_sub(lowercase(ic@), lowercase(c@))) ==> out.contains(items[i]),
        forall|k: int|
            0 <= k < out.len() ==> ((#[trigger] out[k]).category matches Some(ic) && has_sub(lowercase(ic@), lowercase(c@))),
{
    lemma_result_members(f, items, out);
    if items[i].category matches Some(ic) && has_sub(lowercase(ic@), lowercase(c@)) {
        assert(kept(f, items[i]));
    }
}

/// The title filter keeps exactly the entries whose title contains it, ignoring
/// case; an empty title filter keeps every entry.
pub proof fn law_title_filter(f: CatalogFilters, items: Seq<CatalogItem>, out: Seq<CatalogItem>, i: int, t: String)
    requires
        f.media_filter == MediaFilter::All,
        f.category is None,
        f.title_filter == Some(t),
        filters_result(f, items, out),
        0 <= i < items.len(),
    ensures
        t@.len() == 0 || has_sub(lowercase(items[i].title@), lowercase(t@)) ==> out.contains(items[i]),
        t@.len() > 0 ==> forall|k: int|
            0 <= k < out.len() ==> has_sub(lowercase((#[trigger] out[k]).title@), lowercase(t@)),
{
    lemma_result_members(f, items, out);
    if t@.len() == 0 || has_sub(lowercase(items[i].title@), lowercase(t@)) {
        assert(kept(f, items[i]));
    }
}

/// Group `i` of a match, if it took part.
pub open spec fn group_at(m: Seq<Option<Seq<char>>>, i: int) -> Option<Seq<char>> {
    if 0 <= i < m.len() {
        m[i]
    } else {
        None
    }
}

/// A group read as a number: absent or not a `u32` gives `None`.
pub open spec fn group_number(m: Seq<Option<Seq<char>>>, i: int) -> Option<u32> {
    match group_at(m, i) {
        Some(g) => parse_u32(g),
        None => None,
    }
}

/// The (season, episode) of the last match, reading every match in turn; a
/// match whose numbers do not parse makes the whole answer `None`.
pub open spec fn last_pair(ms: Seq<Seq<Option<Seq<char>>>>, acc: Option<(u32, u32)>) -> Option<
    (u32, u32),
>
    decreases ms.len(),
{
    if ms.len() == 0 {
        acc
    } else {
        match (group_number(ms[0], 1), group_number(ms[0], 2)) {
            (Some(a), Some(b)) => last_pair(ms.drop_first(), Some((a, b))),
            _ => None,
        }
    }
}

/// The pattern of an episode link: `{slug}-{season}-season-{episode}-episode`.
pub open spec fn episode_url_pattern() -> Seq<char> {
    r"-(\d+)-season-(\d+)-episode"@
}

/// The (season, episode) that an episode link names.
pub open spec fn episode_of_url(url: Seq<char>) -> Option<(u32, u32)> {
    match regex_matches(episode_url_pattern(), url) {
        Some(ms) => last_pair(ms, None),
        None => None,
    }
}

fn group_number_exec(m: &Vec<Option<String>>, i: usize) -> (r: Option<u32>)
    ensures
        r == group_number(m.deep_view(), i as int),
{
    if i < m.len() {
        match &m[i] {
            Some(g) => {
                assert(m.deep_view()[i as int] == Some(g@));
                parse_u32_str(g.as_str())
            },
            None => {
                assert(m.deep_view()[i as int] is None);
                None
            },
        }
    } else {
        None
    }
}

/// The season and episode numbers of an episode link; the last match wins.
pub fn parse_episode_url(url: &str) -> (r: Option<(u32, u32)>)
    ensures
        r == episode_of_url(url@),
{
    let ms = match regex_captures(r"-(\d+)-season-(\d+)-episode", url) {
        Some(ms) => ms,
        None => return None,
    };
    let ghost all = ms.deep_view();
    let mut acc: Option<(u32, u32)> = None;
    let mut k: usize = 0;
    assert(all.subrange(0, all.len() as int) =~= all);
    while k < ms.len()
        invariant
            k <= ms.len(),
            all == ms.deep_view(),
            Some(all) == regex_matches(episode_url_pattern(), url@),
            last_pair(all, None) == last_pair(all.subrange(k as int, all.len() as int), acc),
        decreases ms.len() - k,
    {
        let ghost rest = all.subrange(k as int, all.len() as int);
        assert(rest[0] == ms@[k as int].deep_view());
        assert(rest.drop_first() =~= all.subrange(k + 1, all.len() as int));
        let a = group_number_exec(&ms[k], 1);
        let b = group_number_exec(&ms[k], 2);
        match (a, b) {
            (Some(x), Some(y)) => {
                acc = Some((x, y));
            },
            _ => return None,
        }
        k += 1;
    }
    acc
}

/// The number in the first match of `pattern` in `text`, when it parses.
pub open spec fn first_number(pattern: Seq<char>, text: Seq<char>) -> Option<u32> {
    match first_group1(pattern, text) {
        Some(g) => parse_u32(g),
        None => None,
    }
}

pub(crate) fn regex_first_number(pattern: &str, text: &str) -> (r: Option<u32>)
    ensures
        r == first_number(pattern@, text@),
{
    match regex_first_group1(pattern, text) {
        Some(g) => parse_u32_str(g.as_str()),
        None => None,
    }
}

/// The season number in a tab id such as `season-2`.
pub fn extract_season_number(id: &str) -> (r: Option<u32>)
    ensures
        r == first_number(r"season-(\d+)"@, id@),
{
    regex_first_number(r"season-(\d+)", id)
}

/// The first number in an episode title.
pub fn extract_episode_number(title: &str) -> (r: Option<u32>)
    ensures
        r == first_number(r"(\d+)"@, title@),
{
    regex_first_number(r"(\d+)", title)
}

/// Where an episode page marks the selected player source.
pub open spec fn selected_embed_pattern() -> Seq<char> {
    r#"class="[^"]*dropdown-source[^"]*selected[^"]*"[^>]*data-embed="(\d+)""#@
}

/// Where an episode page names any player source.
pub open spec fn any_embed_pattern() -> Seq<char> {
    r#"data-embed="(\d+)""#@
}

/// The player id of an episode page: the selected source, else the first one.
pub open spec fn embed_id_of(html: Seq<char>) -> Option<Seq<char>> {
    match first_group1(selected_embed_pattern(), html) {
        Some(id) => Some(id),
        None => first_group1(any_embed_pattern(), html),
    }
}

/// The player id of an episode page.
pub fn parse_embed_id_from_html(html: &str) -> (r: Result<String, SushiError>)
    ensures
        match r {
            Ok(id) => embed_id_of(html@) == Some(id@),
            Err(e) => embed_id_of(html@) is None && e is Parse,
        },
{
    match regex_first_group1(
        r#"class="[^"]*dropdown-source[^"]*selected[^"]*"[^>]*data-embed="(\d+)""#,
        html,
    ) {
        Some(id) => return Ok(id),
        None => {},
    }
    match regex_first_group1(r#"data-embed="(\d+)""#, html) {
        Some(id) => Ok(id),
        None => Err(SushiError::Parse(own("Embed ID n\u{e3}o encontrado"))),
    }
}

/// A film page as an anime of one season with one episode, when the page has a player.
pub fn parse_movie_seasons(html: &str, url: &str, title: &str) -> (r: Result<
    Vec<SeasonInfo>,
    SushiError,
>)
    ensures
        match r {
            Ok(seasons) => embed_id_of(html@) is Some && seasons@.len() == 1 && seasons@[0].number
                == 1 && seasons@[0].episodes@.len() == 1 && seasons@[0].episodes@[0].number == 1
                && seasons@[0].episodes@[0].season == 1 && seasons@[0].episodes@[0].title@
                == title@ && seasons@[0].episodes@[0].description is None
                && seasons@[0].episodes@[0].url@ == url@,
            Err(e) => embed_id_of(html@) is None && e is Parse,
        },
{
    let _id = parse_embed_id_from_html(html)?;
    let ep = EpisodeInfo {
        number: 1,
        season: 1,
        title: own(title),
        description: None,
        url: own(url),
    };
    let mut episodes = Vec::new();
    episodes.push(ep);
    let mut seasons = Vec::new();
    seasons.push(SeasonInfo { number: 1, episodes });
    Ok(seasons)
}

/// A catalogue link to an anime or film page (never to an episode).
pub open spec fn is_media_href(href: Seq<char>) -> bool {
    if has_sub(href, "-season-"@) || has_sub(href, "-episode"@) {
        false
    } else {
        has_sub(href, "/anime/"@) || has_sub(href, "/filme/"@) || has_sub(href, "/assistir/"@)
    }
}

pub fn is_catalog_media_href(href: &str) -> (r: bool)
    ensures
        r == is_media_href(href@),
{
    let v = chars_of(href);
    if contains_str(&v, "-season-") || contains_str(&v, "-episode") {
        return false;
    }
    contains_str(&v, "/anime/") || contains_str(&v, "/filme/") || contains_str(&v, "/assistir/")
}

/// A page title without the "watch" prefix and without anything after a dash.
pub open spec fn cleaned_anime_title(title: Seq<char>) -> Seq<char> {
    trim(
        before(
            before(
                replace(replace(title, "Assisitir "@, Seq::empty()), "Assistir "@, Seq::empty()),
                "\u{2013}"@,
            ),
            "-"@,
        ),
    )
}

pub fn clean_anime_title(title: &str) -> (r: String)
    ensures
        r@ == cleaned_anime_title(title@),
{
    proof {
        reveal_strlit("Assisitir ");
        reveal_strlit("Assistir ");
        reveal_strlit("");
        assert(""@ =~= Seq::<char>::empty());
    }
    let a = crate::text::replace_str(title, "Assisitir ", "");
    let b = crate::text::replace_str(a.as_str(), "Assistir ", "");
    let c = crate::text::before_str(b.as_str(), "\u{2013}");
    let d = crate::text::before_str(c.as_str(), "-");
    crate::text::trim_str(d.as_str())
}

/// Whether a catalogue page links to the page after `page`.
pub open spec fn has_next_page(html: Seq<char>, page: u32) -> bool {
    has_sub(html, "page="@ + decimal((page + 1) as nat)) || has_sub(html, "pagination-next"@)
        || has_sub(html, "Pr\u{f3}xima"@) || has_sub(html, "Proxima"@)
}

pub fn catalog_has_next(html: &str, page: u32) -> (r: bool)
    requires
        page < u32::MAX,
    ensures
        r == has_next_page(html@, page),
{
    let v = chars_of(html);
    let mut p = own("page=");
    push_decimal(&mut p, page + 1);
    let pv = chars_of(p.as_str());
    contains(&v, &pv) || contains_str(&v, "pagination-next") || contains_str(&v, "Pr\u{f3}xima")
        || contains_str(&v, "Proxima")
}

/// The page fetched for an anime link: films are read from their `/filme/` page.
pub open spec fn anime_fetch_link(url: Seq<char>) -> Seq<char> {
    let n = crate::sources::normalized(crate::sushi::client::BASE_URL@, url);
    if crate::sushi::client::is_movie_link(n) {
        replace(n, "/assistir/"@, "/filme/"@)
    } else {
        n
    }
}

/// The page to fetch for an anime link.
pub fn anime_fetch_url(url: &str) -> (r: String)
    ensures
        r@ == anime_fetch_link(url@),
{
    let n = crate::sushi::client::SushiClient::normalize_url(url);
    if crate::sushi::client::SushiClient::is_movie_url(n.as_str()) {
        crate::sushi::client::SushiClient::resolve_movie_watch_url(n.as_str())
    } else {
        n
    }
}

/// The path of a catalogue listing page: animes, films, or a category
/// (`acao` when none is given).
pub open spec fn listing_path(catalog_type: CatalogType, page: u32, slug: Option<Seq<char>>) -> Seq<char> {
    match catalog_type {
        CatalogType::Animes => "/animes?page="@ + decimal(page as nat),
        CatalogType::Filmes => "/filmes?page="@ + decimal(page as nat),
        CatalogType::Category => "/category/"@ + match slug {
            Some(s) => s,
            None => "acao"@,
        } + "?page="@ + decimal(page as nat),
    }
}

/// A literal path head followed by a page number ends with `?page=` and that number.
proof fn lemma_page_tail(head: Seq<char>, path: Seq<char>, page: u32)
    requires
        path == head + "?page="@ + decimal(page as nat),
    ensures
        ends(path, "?page="@ + decimal(page as nat)),
{
    assert(path =~= head + ("?page="@ + decimal(page as nat)));
    lemma_joined_ends(head, "?page="@ + decimal(page as nat));
}

/// A listing path asks for the page given, at its end; a category listing with
/// a slug names that slug right after `/category/`.
#[verifier::spinoff_prover]
pub proof fn law_listing_path_names_page_and_slug(catalog_type: CatalogType, page: u32, slug: Option<Seq<char>>)
    ensures
        ends(listing_path(catalog_type, page, slug), "?page="@ + decimal(page as nat)),
        catalog_type == CatalogType::Category && slug is Some ==> starts(
            listing_path(catalog_type, page, slug),
            "/category/"@ + slug.unwrap(),
        ),
{
    let path = listing_path(catalog_type, page, slug);
    match catalog_type {
        CatalogType::Animes => {
            assert("/animes?page="@ =~= "/animes"@ + "?page="@) by {
                reveal_strlit("/animes?page=");
                reveal_strlit("/animes");
                reveal_strlit("?page=");
            }
            lemma_page_tail("/animes"@, path, page);
        },
        CatalogType::Filmes => {
            assert("/filmes?page="@ =~= "/filmes"@ + "?page="@) by {
                reveal_strlit("/filmes?page=");
                reveal_strlit("/filmes");
                reveal_strlit("?page=");
            }
            lemma_page_tail("/filmes"@, path, page);
        },
        CatalogType::Category => {
            let s = match slug {
                Some(s) => s,
                None => "acao"@,
            };
            lemma_page_tail("/category/"@ + s, path, page);
            assert(path =~= ("/category/"@ + s) + ("?page="@ + decimal(page as nat)));
            lemma_joined_ends("/category/"@ + s, "?page="@ + decimal(page as nat));
        },
    }
}

/// A page that links the page after it has a next page; one with no link to it
/// and no next-page marker has none.
pub proof fn law_next_page_from_links(html: Seq<char>, page: u32)
    ensures
        has_sub(html, "page="@ + decimal((page + 1) as nat)) ==> has_next_page(html, page),
        !has_sub(html, "page="@ + decimal((page + 1) as nat)) && !has_sub(html, "pagination-next"@) && !has_sub(
            html,
            "Pr\u{f3}xima"@,
        ) && !has_sub(html, "Proxima"@) ==> !has_next_page(html, page),
{
}

/// The path of a catalogue listing page.
pub fn browse_catalog_path(catalog_type: CatalogType, page: u32, category_slug: Option<&str>) -> (r: String)
    ensures
        r@ == listing_path(
            catalog_type,
            page,
            match category_slug {
                Some(s) => Some(s@),
                None => None,
            },
        ),
{
    let mut p = match catalog_type {
        CatalogType::Animes => own("/animes?page="),
        CatalogType::Filmes => own("/filmes?page="),
        CatalogType::Category => {
            let mut q = own("/category/");
            match category_slug {
                Some(s) => append(&mut q, s),
                None => append(&mut q, "acao"),
            }
            append(&mut q, "?page=");
            q
        },
    };
    push_decimal(&mut p, page);
    p
}

/// The path of a later page of search results (the first page is posted).
pub open spec fn search_path(query: Seq<char>, page: u32) -> Seq<char> {
    "/search?q="@ + url_encoded(query) + "&page="@ + decimal(page as nat)
}

/// The path of a later page of search results.
pub fn search_catalog_path(query: &str, page: u32) -> (r: String)
    ensures
        r@ == search_path(query@, page),
{
    let mut p = own("/search?q=");
    let q = url_encode(query);
    append(&mut p, q.as_str());
    append(&mut p, "&page=");
    push_decimal(&mut p, page);
    p
}

} // verus!
