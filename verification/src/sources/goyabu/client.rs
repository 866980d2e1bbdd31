//! Goyabu links: which pages are episodes and which are anime pages.

use vstd::prelude::*;
use crate::sources::{normalize_with_base, normalized, site_header_list, site_headers};
use crate::text::{
    after, after_str, all_digits, before, before_str, chars_of, contains_str, has_sub, strip_end,
    strip_end_bound, strip_start, strip_start_bound, string_of,
};

verus! {

/// The site root.
pub const BASE_URL: &'static str = "https://goyabu.io";

/// The path of a Goyabu link: what follows the host, up to a query, without
/// surrounding slashes.
pub open spec fn goyabu_path(n: Seq<char>) -> Seq<char> {
    let rest = match after(n, "goyabu.io"@) {
        Some(r) => before(r, "goyabu.io"@),
        None => Seq::empty(),
    };
    strip_start(strip_end(before(rest, "?"@), '/'), '/')
}

/// An episode page: a Goyabu link whose path is a number.
pub open spec fn is_episode_link(url: Seq<char>) -> bool {
    let n = normalized(BASE_URL@, url);
    has_sub(n, "goyabu"@) && goyabu_path(n).len() > 0 && all_digits(goyabu_path(n))
}

/// An anime page: a link under `/anime/` that is no episode page.
pub open spec fn is_anime_link(url: Seq<char>) -> bool {
    let n = normalized(BASE_URL@, url);
    has_sub(n, "/anime/"@) && !is_episode_link(n)
}

/// The links of Goyabu.
pub struct GoyabuClient;

impl GoyabuClient {
    /// The site root.
    pub fn base_url() -> (r: &'static str)
        ensures
            r@ == BASE_URL@,
    {
        BASE_URL
    }

    /// The headers sent with a request to the site.
    pub fn stream_headers(referer: Option<&str>) -> (r: Vec<(String, String)>)
        ensures
            r.deep_view() == site_header_list(
                BASE_URL@,
                match referer {
                    Some(v) => Some(v@),
                    None => None,
                },
            ),
    {
        site_headers(BASE_URL, referer)
    }

    /// Resolves a link or path against the site root.
    pub fn normalize_url(input: &str) -> (r: String)
        ensures
            r@ == normalized(BASE_URL@, input@),
    {
        normalize_with_base(BASE_URL, input)
    }

    /// Whether `url` is an episode page.
    pub fn is_episode_url(url: &str) -> (r: bool)
        ensures
            r == is_episode_link(url@),
    {
        let normalized = Self::normalize_url(url);
        let nv = chars_of(normalized.as_str());
        if !contains_str(&nv, "goyabu") {
            return false;
        }
        let rest = match after_str(normalized.as_str(), "goyabu.io") {
            Some(r) => before_str(r.as_str(), "goyabu.io"),
            None => String::new(),
        };
        let q = before_str(rest.as_str(), "?");
        let qv = chars_of(q.as_str());
        let hi = strip_end_bound(&qv, 0, qv.len(), '/');
        let lo = strip_start_bound(&qv, 0, hi, '/');
        assert(qv@.subrange(0, qv@.len() as int) =~= qv@);
        let path = string_of(&qv, lo, hi);
        let pv = chars_of(path.as_str());
        assert(qv@.subrange(0, hi as int) == strip_end(qv@, '/'));
        assert(pv@ == goyabu_path(normalized@));
        if pv.len() == 0 {
            return false;
        }
        let mut i: usize = 0;
        while i < pv.len()
            invariant
                pv@ == goyabu_path(normalized@),
                normalized@ == crate::sources::normalized(BASE_URL@, url@),
                has_sub(normalized@, "goyabu"@),
                i <= pv@.len(),
                forall|k: int| 0 <= k < i ==> crate::text::is_digit(#[trigger] pv@[k]),
            decreases pv@.len() - i,
        {
            if !(pv[i] >= '0' && pv[i] <= '9') {
                return false;
            }
            i += 1;
        }
        true
    }

    /// Whether `url` is an anime page.
    pub fn is_anime_url(url: &str) -> (r: bool)
        ensures
            r == is_anime_link(url@),
    {
        let normalized = Self::normalize_url(url);
        let nv = chars_of(normalized.as_str());
        contains_str(&nv, "/anime/") && !Self::is_episode_url(normalized.as_str())
    }

    /// Whether `url` is a page the app can open.
    pub fn is_supported_watch_url(url: &str) -> (r: bool)
        ensures
            r == (is_anime_link(url@) || is_episode_link(url@)),
    {
        Self::is_anime_url(url) || Self::is_episode_url(url)
    }
}

} // verus!
