//! The player frames of a site of this theme: which link to follow, and with
//! which headers.

use vstd::prelude::*;
use crate::outside::{lowercase, regex_captures, regex_matches, to_lowercase};
use crate::sources::stream::{kind_of, parse_stream_from_html, query_stream, stream_from_url, ParsedStream, extract_m3u8_from_query, chosen, page_links, rank_of, with_candidates};
use crate::sources::{SourceError, StreamKind, StreamResolution};
use crate::sushi::parser::group_at;
use crate::text::{append, occurs_at, before, chars_of, contains_str, find, first_index, has_sub, lemma_first_index, own, split, split_str, string_of, strip_end, trim};

verus! {

/// The referer and origin for a stream found through a player frame: the frame
/// page and its scheme-and-host when the frame link has a path, else the
/// episode page and the site root.
pub open spec fn frame_headers(iframe_url: Seq<char>, episode_referer: Seq<char>, site_base: Seq<char>) -> (
    Seq<char>,
    Seq<char>,
) {
    let base = before(iframe_url, "#"@);
    if has_sub(base, "://"@) {
        let se = first_index(base, "://"@);
        let rest = base.subrange(se + 3, base.len() as int);
        if has_sub(rest, "/"@) {
            (base, base.subrange(0, se + 3 + first_index(rest, "/"@)))
        } else {
            (episode_referer, site_base)
        }
    } else {
        (episode_referer, site_base)
    }
}

pub fn iframe_stream_headers(iframe_url: &str, episode_referer: &str, site_base_url: &str) -> (r: (
    String,
    String,
))
    ensures
        (r.0@, r.1@) == frame_headers(iframe_url@, episode_referer@, site_base_url@),
{
    let base = crate::text::before_str(iframe_url, "#");
    let bv = chars_of(base.as_str());
    let sep = chars_of("://");
    proof {
        reveal_strlit("://");
    }
    assert(sep@.len() == 3);
    if let Some(se) = find(&bv, &sep) {
        proof {
            lemma_first_index(bv@, sep@, se as int);
        }
        assert(occurs_at(bv@, sep@, se as int));
        assert(se + 3 <= bv.len());
        let rest = string_of(&bv, se + 3, bv.len());
        let rv = chars_of(rest.as_str());
        let slash = chars_of("/");
        if let Some(he) = find(&rv, &slash) {
            proof {
                lemma_first_index(rv@, slash@, he as int);
            }
            let origin = string_of(&bv, 0, se + 3 + he);
            return (base, origin);
        }
    }
    (own(episode_referer), own(site_base_url))
}

/// Preference among listed video files, lower first: playlists, text playlists, files.
pub open spec fn listed_priority(lower: Seq<char>) -> int {
    if has_sub(lower, ".m3u8"@) {
        0
    } else if has_sub(lower, ".txt"@) {
        1
    } else if has_sub(lower, ".mp4"@) {
        2
    } else {
        99
    }
}

pub fn stream_priority(url: &str) -> (r: u8)
    ensures
        r as int == listed_priority(lowercase(url@)),
{
    let lower = chars_of(to_lowercase(url).as_str());
    if contains_str(&lower, ".m3u8") {
        0
    } else if contains_str(&lower, ".txt") {
        1
    } else if contains_str(&lower, ".mp4") {
        2
    } else {
        99
    }
}

/// A listed file that is a stream link once trimmed.
pub open spec fn listed_ok(u: Seq<char>) -> bool {
    kind_of(lowercase(trim(u))) is Some
}

/// `i` is the listed file taken: a stream link of least priority, first among equals.
pub open spec fn is_best_listed(c: Seq<Seq<char>>, i: int) -> bool {
    &&& 0 <= i < c.len()
    &&& listed_ok(c[i])
    &&& forall|j: int|
        0 <= j < c.len() && #[trigger] listed_ok(c[j]) ==> listed_priority(lowercase(c[i]))
            <= listed_priority(lowercase(c[j]))
    &&& forall|j: int|
        0 <= j < i && #[trigger] listed_ok(c[j]) ==> listed_priority(lowercase(c[j]))
            > listed_priority(lowercase(c[i]))
}

/// The file taken from a player's list of files: files ordered by preference
/// (stably), the first that is a stream link.
pub fn best_listed_source(files: &Vec<String>) -> (r: Option<ParsedStream>)
    ensures
        match r {
            None => forall|j: int| 0 <= j < files.len() ==> !#[trigger] listed_ok(files@[j]@),
            Some(p) => exists|i: int|
                is_best_listed(files.deep_view(), i) && p.url@ == trim(files@[i]@) && Some(p.kind)
                    == kind_of(lowercase(trim(files@[i]@))),
        },
{
    let ghost c = files.deep_view();
    let mut best: Option<(usize, u8, ParsedStream)> = None;
    let mut k: usize = 0;
    while k < files.len()
        invariant
            k <= files.len(),
            c == files.deep_view(),
            match best {
                None => forall|j: int| 0 <= j < k ==> !#[trigger] listed_ok(c[j]),
                Some((i, p, s)) => {
                    &&& i < k
                    &&& p as int == listed_priority(lowercase(c[i as int]))
                    &&& s.url@ == trim(c[i as int])
                    &&& Some(s.kind) == kind_of(lowercase(trim(c[i as int])))
                    &&& listed_ok(c[i as int])
                    &&& forall|j: int|
                        0 <= j < k && #[trigger] listed_ok(c[j]) ==> listed_priority(
                            lowercase(c[i as int]),
                        ) <= listed_priority(lowercase(c[j]))
                    &&& forall|j: int|
                        0 <= j < i && #[trigger] listed_ok(c[j]) ==> listed_priority(
                            lowercase(c[j]),
                        ) > listed_priority(lowercase(c[i as int]))
                },
            },
        decreases files.len() - k,
    {
        assert(c[k as int] == files@[k as int]@);
        if let Some(s) = stream_from_url(files[k].as_str()) {
            let p = stream_priority(files[k].as_str());
            let better = match &best {
                None => true,
                Some((_, bp, _)) => p < *bp,
            };
            if better {
                best = Some((k, p, s));
            }
        }
        k += 1;
    }
    match best {
        None => {
            assert forall|j: int| 0 <= j < files.len() implies !#[trigger] listed_ok(files@[j]@) by {
                assert(c[j] == files@[j]@);
            }
            None
        },
        Some((i, _, s)) => {
            assert(is_best_listed(c, i as int));
            assert(c[i as int] == files@[i as int]@);
            Some(s)
        },
    }
}

/// The (api base, tmdb id, season, episode) that a player frame's `#/video/..` route names.
pub open spec fn doramas_route(iframe_url: Seq<char>) -> Option<(Seq<char>, Seq<char>, Seq<char>, Seq<char>)> {
    let pieces = split(iframe_url, "#"@);
    if pieces.len() > 1 {
        match regex_matches(r"/video/(\d+)/(\d+)/(\d+)"@, pieces[1]) {
            Some(ms) => if ms.len() > 0 && group_at(ms[0], 1) is Some && group_at(ms[0], 2) is Some
                && group_at(ms[0], 3) is Some {
                Some(
                    (
                        strip_end(pieces[0], '/'),
                        group_at(ms[0], 1)->0,
                        group_at(ms[0], 2)->0,
                        group_at(ms[0], 3)->0,
                    ),
                )
            } else {
                None
            },
            None => None,
        }
    } else {
        None
    }
}

fn group_at_exec(m: &Vec<Option<String>>, i: usize) -> (r: Option<String>)
    ensures
        r.deep_view() == group_at(m.deep_view(), i as int),
{
    if i < m.len() {
        match &m[i] {
            Some(g) => {
                assert(m.deep_view()[i as int] == Some(g@));
                Some(g.clone())
            },
            None => {
                assert(m.deep_view()[i as int] is None);
                None
            },
        }
    } else {
        None
    }
}

pub fn parse_meusdoramas_route(iframe_url: &str) -> (r: Option<(String, String, String, String)>)
    ensures
        match r {
            Some(t) => doramas_route(iframe_url@) == Some((t.0@, t.1@, t.2@, t.3@)),
            None => doramas_route(iframe_url@) is None,
        },
{
    proof {
        reveal_strlit("#");
    }
    let pieces = split_str(iframe_url, "#");
    if pieces.len() < 2 {
        return None;
    }
    assert(pieces.deep_view()[1] == pieces@[1]@);
    assert(pieces.deep_view()[0] == pieces@[0]@);
    let ms = match regex_captures(r"/video/(\d+)/(\d+)/(\d+)", pieces[1].as_str()) {
        Some(ms) => ms,
        None => return None,
    };
    if ms.len() == 0 {
        return None;
    }
    assert(ms.deep_view()[0] == ms@[0].deep_view());
    let a = match group_at_exec(&ms[0], 1) {
        Some(a) => a,
        None => return None,
    };
    let b = match group_at_exec(&ms[0], 2) {
        Some(b) => b,
        None => return None,
    };
    let c = match group_at_exec(&ms[0], 3) {
        Some(c) => c,
        None => return None,
    };
    let pv = chars_of(pieces[0].as_str());
    let e = crate::text::strip_end_bound(&pv, 0, pv.len(), '/');
    assert(pv@.subrange(0, pv@.len() as int) =~= pv@);
    let api_base = string_of(&pv, 0, e);
    Some((api_base, a, b, c))
}

/// The doramas video API link for a route (api base, tmdb id, season, episode).
pub open spec fn doramas_api(route: (Seq<char>, Seq<char>, Seq<char>, Seq<char>)) -> Seq<char> {
    route.0 + "/posts/get-video.php?episode_number="@ + route.3 + "&season_number="@ + route.2
        + "&tmdb="@ + route.1
}

/// The doramas video API link for a player frame, when the frame names a route.
pub fn doramas_api_url(iframe_url: &str) -> (r: Option<String>)
    ensures
        match doramas_route(iframe_url@) {
            Some(rt) => r matches Some(u) && u@ == doramas_api(rt),
            None => r is None,
        },
{
    match parse_meusdoramas_route(iframe_url) {
        None => None,
        Some((api_base, tmdb, season, episode)) => {
            let mut u = api_base;
            append(&mut u, "/posts/get-video.php?episode_number=");
            append(&mut u, episode.as_str());
            append(&mut u, "&season_number=");
            append(&mut u, season.as_str());
            append(&mut u, "&tmdb=");
            append(&mut u, tmdb.as_str());
            Some(u)
        },
    }
}

/// What to do with one player frame of an episode page.
#[derive(Debug, Clone)]
pub struct IframePlan {
    /// The stream, when the frame carries it in its `d=` parameter.
    pub direct: Option<StreamResolution>,
    /// Ask the Blogger player behind the frame.
    pub try_blogger: bool,
    /// Ask the doramas video API behind the frame.
    pub try_doramas: bool,
}

/// The kind of a stream link, judged case-sensitively by its extension.
pub open spec fn direct_kind(u: Seq<char>) -> StreamKind {
    if has_sub(u, ".m3u8"@) || has_sub(u, ".txt"@) {
        StreamKind::Hls
    } else {
        StreamKind::Mp4
    }
}

/// The kind of a stream carried by a player frame's `d=` parameter.
pub fn direct_stream_kind(url: &str) -> (r: StreamKind)
    ensures
        r == direct_kind(url@),
{
    let v = chars_of(url);
    if contains_str(&v, ".m3u8") || contains_str(&v, ".txt") {
        StreamKind::Hls
    } else {
        StreamKind::Mp4
    }
}

/// The plan for a frame: take the stream of its `d=` parameter if it has one,
/// else try the players that the frame link names.
pub fn iframe_plan(iframe_url: &str, episode_url: &str, site_base_url: &str) -> (r: IframePlan)
    ensures
        match query_stream(iframe_url@) {
            Some(d) => r.direct matches Some(s) && s.url@ == d && s.kind == direct_kind(d) && (
            s.referer@, s.origin@) == frame_headers(iframe_url@, episode_url@, site_base_url@)
                && !r.try_blogger && !r.try_doramas,
            None => r.direct is None && r.try_blogger == has_sub(
                iframe_url@,
                "blogger.com/video.g"@,
            ) && r.try_doramas == (has_sub(iframe_url@, "meusdoramas.club"@) || has_sub(
                iframe_url@,
                "doramas"@,
            )),
        },
{
    if let Some(direct) = extract_m3u8_from_query(iframe_url) {
        let (referer, origin) = iframe_stream_headers(iframe_url, episode_url, site_base_url);
        let dv = chars_of(direct.as_str());
        let kind = if contains_str(&dv, ".m3u8") || contains_str(&dv, ".txt") {
            StreamKind::Hls
        } else {
            StreamKind::Mp4
        };
        return IframePlan {
            direct: Some(StreamResolution { url: direct, kind, referer, origin }),
            try_blogger: false,
            try_doramas: false,
        };
    }
    let v = chars_of(iframe_url);
    IframePlan {
        direct: None,
        try_blogger: contains_str(&v, "blogger.com/video.g"),
        try_doramas: contains_str(&v, "meusdoramas.club") || contains_str(&v, "doramas"),
    }
}

/// The stream written in the episode page itself, with the page as referer and
/// the site root as origin.
pub fn page_stream(html: &str, episode_url: &str, site_base_url: &str) -> (r: Result<
    StreamResolution,
    SourceError,
>)
    ensures
        match r {
            Ok(s) => chosen(
                with_candidates(Seq::empty(), page_links(html@)),
                |u: Seq<char>| rank_of(false, u),
                Some((s.url@, s.kind)),
            ) && s.referer@ == episode_url@ && s.origin@ == site_base_url@,
            Err(e) => e is NoStream && chosen(
                with_candidates(Seq::empty(), page_links(html@)),
                |u: Seq<char>| rank_of(false, u),
                None,
            ),
        },
{
    let p = parse_stream_from_html(html)?;
    Ok(StreamResolution { url: p.url, kind: p.kind, referer: own(episode_url), origin: own(site_base_url) })
}

/// The `videoUrl` field of the doramas video API: one link, a list of files, or
/// anything else.
#[derive(Debug, Clone)]
pub enum VideoUrlField {
    Link(String),
    Files(Vec<String>),
    Other,
}

/// What the doramas video API answer leads to.
#[derive(Debug, Clone)]
pub enum VideoTarget {
    /// Ask the Blogger player at this link.
    Blogger(String),
    /// This stream.
    Stream(ParsedStream),
    /// No stream.
    NoStream,
}

/// Where a link given by the video API leads: a Blogger player, a stream, or nothing.
pub fn video_target(url: &str) -> (r: VideoTarget)
    ensures
        has_sub(url@, "blogger.com/video.g"@) ==> (r matches VideoTarget::Blogger(u) && u@ == url@),
        !has_sub(url@, "blogger.com/video.g"@) ==> match r {
            VideoTarget::Stream(p) => p.url@ == trim(url@) && Some(p.kind) == kind_of(
                lowercase(trim(url@)),
            ),
            VideoTarget::NoStream => kind_of(lowercase(trim(url@))) is None,
            VideoTarget::Blogger(_) => false,
        },
{
    let v = chars_of(url);
    if contains_str(&v, "blogger.com/video.g") {
        return VideoTarget::Blogger(own(url));
    }
    match stream_from_url(url) {
        Some(p) => VideoTarget::Stream(p),
        None => VideoTarget::NoStream,
    }
}

/// What an answer of the doramas video API leads to: nothing unless it reports
/// success; a single link is followed, a list of files gives its preferred file.
pub fn doramas_target(success: bool, video_url: &VideoUrlField) -> (r: VideoTarget)
    ensures
        !success ==> r is NoStream,
        success ==> match video_url {
            VideoUrlField::Link(u) => (has_sub(u@, "blogger.com/video.g"@) ==> (r matches VideoTarget::Blogger(b) && b@ == u@))
                && (!has_sub(u@, "blogger.com/video.g"@) ==> match r {
                VideoTarget::Stream(p) => p.url@ == trim(u@) && Some(p.kind) == kind_of(
                    lowercase(trim(u@)),
                ),
                VideoTarget::NoStream => kind_of(lowercase(trim(u@))) is None,
                VideoTarget::Blogger(_) => false,
            }),
            VideoUrlField::Files(files) => match r {
                VideoTarget::Stream(p) => exists|i: int|
                    is_best_listed(files.deep_view(), i) && p.url@ == trim(files@[i]@) && Some(
                        p.kind,
                    ) == kind_of(lowercase(trim(files@[i]@))),
                VideoTarget::NoStream => forall|j: int|
                    0 <= j < files.len() ==> !#[trigger] listed_ok(files@[j]@),
                VideoTarget::Blogger(_) => false,
            },
            VideoUrlField::Other => r is NoStream,
        },
{
    if !success {
        return VideoTarget::NoStream;
    }
    match video_url {
        VideoUrlField::Link(u) => video_target(u.as_str()),
        VideoUrlField::Files(files) => match best_listed_source(files) {
            Some(p) => VideoTarget::Stream(p),
            None => VideoTarget::NoStream,
        },
        VideoUrlField::Other => VideoTarget::NoStream,
    }
}

} // verus!
