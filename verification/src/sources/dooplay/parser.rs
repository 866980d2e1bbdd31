//! Reading pages of a site of this theme: episode numbers, titles, pagination
//! and the paths of its listings.

use vstd::prelude::*;
use crate::models::CatalogType;
use crate::outside::{lowercase, regex_captures, regex_matches, to_lowercase, url_encode, url_encoded};
use crate::sources::dooplay::config::DooplaySiteConfig;

use crate::sushi::parser::{first_number, group_number};
use crate::text::{append, before, chars_of, contains, decimal, has_sub, lemma_joined_ends, own, parse_u32_str, push_decimal, starts, strip_end, trim};

verus! {

/// The number in group `g` of the first match of `pattern` in `text`, when it parses.
pub open spec fn first_group_number(pattern: Seq<char>, text: Seq<char>, g: int) -> Option<u32> {
    match regex_matches(pattern, text) {
        Some(ms) => if ms.len() > 0 {
            group_number(ms[0], g)
        } else {
            None
        },
        None => None,
    }
}

fn regex_first_group_number(pattern: &str, text: &str, g: usize) -> (r: Option<u32>)
    ensures
        r == first_group_number(pattern@, text@, g as int),
{
    let ms = match regex_captures(pattern, text) {
        Some(ms) => ms,
        None => return None,
    };
    if ms.len() == 0 {
        return None;
    }
    assert(ms.deep_view()[0] == ms@[0].deep_view());
    if g < ms[0].len() {
        match &ms[0][g] {
            Some(s) => {
                assert(ms.deep_view()[0][g as int] == Some(s@));
                parse_u32_str(s.as_str())
            },
            None => {
                assert(ms.deep_view()[0][g as int] is None);
                None
            },
        }
    } else {
        None
    }
}

/// The episode number found in a lowercased link or title (`episodio-N`, then
/// `episodios-N`).
pub open spec fn number_in_text(text: Seq<char>) -> Option<u32> {
    let lower = lowercase(text);
    match first_number(r"episodio-(\d+)"@, lower) {
        Some(n) => Some(n),
        None => first_number(r"episodios-(\d+)"@, lower),
    }
}

/// The number of an episode: from its `S - E` label, else from its link, else
/// from its title, else 1.
pub open spec fn episode_number(numerando: Seq<char>, url: Seq<char>, title: Seq<char>) -> u32 {
    match first_group_number(r"(\d+)\s*-\s*(\d+)"@, numerando, 2) {
        Some(n) => n,
        None => match number_in_text(url) {
            Some(n) => n,
            None => match number_in_text(title) {
                Some(n) => n,
                None => 1,
            },
        },
    }
}

fn number_in_text_exec(text: &str) -> (r: Option<u32>)
    ensures
        r == number_in_text(text@),
{
    let lower = to_lowercase(text);
    match regex_first_group_number(r"episodio-(\d+)", lower.as_str(), 1) {
        Some(n) => Some(n),
        None => regex_first_group_number(r"episodios-(\d+)", lower.as_str(), 1),
    }
}

pub fn parse_episode_number(numerando: &str, url: &str, title: &str) -> (r: u32)
    ensures
        r == episode_number(numerando@, url@, title@),
{
    if let Some(n) = regex_first_group_number(r"(\d+)\s*-\s*(\d+)", numerando, 2) {
        return n;
    }
    if let Some(n) = number_in_text_exec(url) {
        return n;
    }
    if let Some(n) = number_in_text_exec(title) {
        return n;
    }
    1
}

/// A page title without what follows ` - ` or ` Todos os`.
pub open spec fn cleaned_title(title: Seq<char>) -> Seq<char> {
    trim(before(before(title, " - "@), " Todos os"@))
}

pub fn clean_title(title: &str) -> (r: String)
    ensures
        r@ == cleaned_title(title@),
{
    let a = crate::text::before_str(title, " - ");
    let b = crate::text::before_str(a.as_str(), " Todos os");
    crate::text::trim_str(b.as_str())
}

/// Whether a listing page links to the page after `page`, by link or by its
/// "page N of M" line.
pub open spec fn has_next(html: Seq<char>, page: u32, config: DooplaySiteConfig) -> bool {
    let np = decimal((page + 1) as nat);
    if has_sub(html, strip_end(config.catalog_prefix@, '/') + "/page/"@ + np + "/"@) || has_sub(
        html,
        config.catalog_prefix@ + np + "/"@,
    ) || has_sub(html, "page/"@ + np) {
        true
    } else {
        match first_group_number("P\u{e1}gina\\s+\\d+\\s+de\\s+(\\d+)"@, html, 1) {
            Some(total) => page < total,
            None => false,
        }
    }
}

/// A listing page that links `page/` and the next number has a next page. One
/// that links the next page in none of the site's forms, but gives its number
/// of pages, has a next page exactly when it is before the last.
pub proof fn law_next_page(html: Seq<char>, page: u32, config: DooplaySiteConfig, total: u32)
    ensures
        has_sub(html, "page/"@ + decimal((page + 1) as nat)) ==> has_next(html, page, config),
        !has_sub(html, strip_end(config.catalog_prefix@, '/') + "/page/"@ + decimal((page + 1) as nat) + "/"@)
            && !has_sub(html, config.catalog_prefix@ + decimal((page + 1) as nat) + "/"@) && !has_sub(
            html,
            "page/"@ + decimal((page + 1) as nat),
        ) && first_group_number("P\u{e1}gina\\s+\\d+\\s+de\\s+(\\d+)"@, html, 1) == Some(total) ==> (has_next(
            html,
            page,
            config,
        ) <==> page < total),
{
}

/// The path of a category listing with a slug starts with the site's genres
/// path and the slug; on the first page it is just that and `/`.
pub proof fn law_category_path_names_slug(config: DooplaySiteConfig, page: u32, slug: Seq<char>)
    ensures
        catalog_path(config, CatalogType::Category, page, Some(slug)) matches Some(p) && starts(
            p,
            config.genres_path@ + slug + "/"@,
        ),
        page <= 1 ==> catalog_path(config, CatalogType::Category, page, Some(slug)) == Some(
            config.genres_path@ + slug + "/"@,
        ),
{
    let head = config.genres_path@ + slug;
    let p = catalog_path(config, CatalogType::Category, page, Some(slug)).unwrap();
    if page <= 1 {
        lemma_joined_ends(head + "/"@, Seq::empty());
        assert(head + "/"@ + Seq::<char>::empty() =~= head + "/"@);
    } else {
        assert("/page/"@ =~= "/"@ + "page/"@) by {
            reveal_strlit("/page/");
            reveal_strlit("/");
            reveal_strlit("page/");
        }
        assert(p =~= (head + "/"@) + ("page/"@ + decimal(page as nat) + "/"@));
        lemma_joined_ends(head + "/"@, "page/"@ + decimal(page as nat) + "/"@);
    }
}

pub fn parse_has_next(html: &str, page: u32, config: DooplaySiteConfig) -> (r: bool)
    requires
        page < u32::MAX,
    ensures
        r == has_next(html@, page, config),
{
    let hv = chars_of(html);
    let pv = chars_of(config.catalog_prefix);
    let e = crate::text::strip_end_bound(&pv, 0, pv.len(), '/');
    assert(pv@.subrange(0, pv@.len() as int) =~= pv@);
    let mut a = crate::text::string_of(&pv, 0, e);
    append(&mut a, "/page/");
    push_decimal(&mut a, page + 1);
    append(&mut a, "/");
    let mut b = own(config.catalog_prefix);
    push_decimal(&mut b, page + 1);
    append(&mut b, "/");
    let mut c = own("page/");
    push_decimal(&mut c, page + 1);
    if contains(&hv, &chars_of(a.as_str())) || contains(&hv, &chars_of(b.as_str())) || contains(
        &hv,
        &chars_of(c.as_str()),
    ) {
        return true;
    }
    match regex_first_group_number("P\u{e1}gina\\s+\\d+\\s+de\\s+(\\d+)", html, 1) {
        Some(total) => page < total,
        None => false,
    }
}

/// The path of a listing page; `None` for films, which these sites do not list.
pub open spec fn catalog_path(
    config: DooplaySiteConfig,
    catalog_type: CatalogType,
    page: u32,
    slug: Option<Seq<char>>,
) -> Option<Seq<char>> {
    match catalog_type {
        CatalogType::Animes => if page <= 1 {
            Some(config.catalog_list_path@)
        } else {
            Some(config.catalog_prefix@ + decimal(page as nat) + "/"@)
        },
        CatalogType::Filmes => None,
        CatalogType::Category => {
            let s = match slug {
                Some(x) => x,
                None => "acao"@,
            };
            if page <= 1 {
                Some(config.genres_path@ + s + "/"@)
            } else {
                Some(config.genres_path@ + s + "/page/"@ + decimal(page as nat) + "/"@)
            }
        },
    }
}

pub fn browse_path(
    config: DooplaySiteConfig,
    catalog_type: CatalogType,
    page: u32,
    category_slug: Option<&str>,
) -> (r: Option<String>)
    ensures
        r.deep_view() == catalog_path(
            config,
            catalog_type,
            page,
            match category_slug {
                Some(x) => Some(x@),
                None => None,
            },
        ),
{
    match catalog_type {
        CatalogType::Animes => {
            if page <= 1 {
                Some(own(config.catalog_list_path))
            } else {
                let mut p = own(config.catalog_prefix);
                push_decimal(&mut p, page);
                append(&mut p, "/");
                Some(p)
            }
        },
        CatalogType::Filmes => None,
        CatalogType::Category => {
            let slug = match category_slug {
                Some(x) => x,
                None => "acao",
            };
            let mut p = own(config.genres_path);
            append(&mut p, slug);
            if page <= 1 {
                append(&mut p, "/");
            } else {
                append(&mut p, "/page/");
                push_decimal(&mut p, page);
                append(&mut p, "/");
            }
            Some(p)
        },
    }
}

/// The path of a search results page.
pub open spec fn search_path(query: Seq<char>, page: u32) -> Seq<char> {
    if page <= 1 {
        "/?s="@ + url_encoded(query)
    } else {
        "/?s="@ + url_encoded(query) + "&paged="@ + decimal(page as nat)
    }
}

pub fn search_catalog_path(query: &str, page: u32) -> (r: String)
    ensures
        r@ == search_path(query@, page),
{
    let mut p = own("/?s=");
    let enc = url_encode(query);
    append(&mut p, enc.as_str());
    if page > 1 {
        append(&mut p, "&paged=");
        push_decimal(&mut p, page);
    }
    p
}

} // verus!
