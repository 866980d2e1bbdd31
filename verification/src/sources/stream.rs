//! Choosing a video stream among the links found on a player page.

use vstd::prelude::*;
use crate::outside::{fragment_attr_values, fragment_select_attr, json_list_field_strings, json_list_strings, lowercase, regex_captures, regex_matches, to_lowercase, url_decode, url_decoded};
use crate::sources::{SourceError, StreamKind};
use crate::text::{after, before, strip_end, chars_of, contains_str, has_sub, starts, starts_with_str, str_eq, string_of, trim, trim_bounds, trim_start};

verus! {

/// A stream link and how it is downloaded.
#[derive(Debug, Clone)]
pub struct ParsedStream {
    pub url: String,
    pub kind: StreamKind,
}

/// Links to scripts, styles, images and player assets, which are never streams.
pub open spec fn is_junk(lower: Seq<char>) -> bool {
    has_sub(lower, ".js"@) || has_sub(lower, ".css"@) || has_sub(lower, ".png"@) || has_sub(
        lower,
        ".jpg"@,
    ) || has_sub(lower, ".webp"@) || has_sub(lower, ".svg"@) || has_sub(lower, "jwplayer"@)
        || has_sub(lower, "jwpcdn.com"@) || has_sub(lower, "notice.txt"@) || has_sub(
        lower,
        "/player/v/"@,
    ) || has_sub(lower, "cloudflare-static"@) || has_sub(lower, "googletagmanager"@) || has_sub(
        lower,
        "google-analytics"@,
    )
}

/// The kind of stream a lowercased link points to, if any.
pub open spec fn kind_of(lower: Seq<char>) -> Option<StreamKind> {
    if has_sub(lower, ".m3u8"@) || has_sub(lower, ".txt"@) || has_sub(lower, ".ts"@) {
        Some(StreamKind::Hls)
    } else if has_sub(lower, ".mp4"@) {
        Some(StreamKind::Mp4)
    } else {
        None
    }
}

/// Preference among links, lower first: playlists, then text playlists, then
/// files, then segments.
pub open spec fn playlist_priority(lower: Seq<char>) -> int {
    if has_sub(lower, ".m3u8"@) {
        0
    } else if has_sub(lower, ".txt"@) {
        1
    } else if has_sub(lower, ".mp4"@) {
        2
    } else if has_sub(lower, ".ts"@) {
        3
    } else {
        99
    }
}

/// A link that may stand as a candidate: it starts with `http` and is no asset.
pub open spec fn accepted(t: Seq<char>) -> bool {
    t.len() > 0 && starts(t, "http"@) && !is_junk(lowercase(t))
}

/// The candidate list after offering `url`: its trimmed form is added once.
pub open spec fn with_candidate(cands: Seq<Seq<char>>, url: Seq<char>) -> Seq<Seq<char>> {
    let t = trim(url);
    if accepted(t) && !cands.contains(t) {
        cands.push(t)
    } else {
        cands
    }
}

/// The candidate list after offering each of `urls` in turn.
pub open spec fn with_candidates(cands: Seq<Seq<char>>, urls: Seq<Seq<char>>) -> Seq<Seq<char>>
    decreases urls.len(),
{
    if urls.len() == 0 {
        cands
    } else {
        with_candidate(with_candidates(cands, urls.drop_last()), urls.last())
    }
}

/// `i` is the preferred candidate: a stream link of least rank, first among equals.
pub open spec fn is_best(c: Seq<Seq<char>>, i: int, rank: spec_fn(Seq<char>) -> int) -> bool {
    &&& 0 <= i < c.len()
    &&& kind_of(lowercase(c[i])) is Some
    &&& forall|j: int|
        0 <= j < c.len() && #[trigger] kind_of(lowercase(c[j])) is Some ==> rank(c[i]) <= rank(
            c[j],
        )
    &&& forall|j: int|
        0 <= j < i && #[trigger] kind_of(lowercase(c[j])) is Some ==> rank(c[j]) > rank(c[i])
}

/// What choosing among `c` gives, as a (url, kind) pair: the preferred stream
/// link under `rank`, or nothing when no candidate is a stream link.
pub open spec fn chosen(c: Seq<Seq<char>>, rank: spec_fn(Seq<char>) -> int, r: Option<
    (Seq<char>, StreamKind),
>) -> bool {
    match r {
        None => forall|j: int| 0 <= j < c.len() ==> #[trigger] kind_of(lowercase(c[j])) is None,
        Some(p) => exists|i: int|
            is_best(c, i, rank) && p.0 == c[i] && Some(p.1) == kind_of(lowercase(c[i])),
    }
}

pub open spec fn stream_view(p: Option<ParsedStream>) -> Option<(Seq<char>, StreamKind)> {
    match p {
        Some(s) => Some((s.url@, s.kind)),
        None => None,
    }
}

/// Whether a lowercased link is an asset rather than a stream.
fn is_junk_media_url(lower: &Vec<char>) -> (r: bool)
    ensures
        r == is_junk(lower@),
{
    contains_str(lower, ".js") || contains_str(lower, ".css") || contains_str(lower, ".png")
        || contains_str(lower, ".jpg") || contains_str(lower, ".webp") || contains_str(
        lower,
        ".svg",
    ) || contains_str(lower, "jwplayer") || contains_str(lower, "jwpcdn.com") || contains_str(
        lower,
        "notice.txt",
    ) || contains_str(lower, "/player/v/") || contains_str(lower, "cloudflare-static")
        || contains_str(lower, "googletagmanager") || contains_str(lower, "google-analytics")
}

/// The kind of a lowercased link.
pub fn kind_of_lower(lower: &Vec<char>) -> (r: Option<StreamKind>)
    ensures
        r == kind_of(lower@),
{
    if contains_str(lower, ".m3u8") || contains_str(lower, ".txt") || contains_str(lower, ".ts") {
        Some(StreamKind::Hls)
    } else if contains_str(lower, ".mp4") {
        Some(StreamKind::Mp4)
    } else {
        None
    }
}

/// The rank of a link among playlist-first candidates.
pub fn stream_priority(url: &str) -> (r: u8)
    ensures
        r as int == playlist_priority(lowercase(url@)),
{
    let lower = chars_of(to_lowercase(url).as_str());
    if contains_str(&lower, ".m3u8") {
        0
    } else if contains_str(&lower, ".txt") {
        1
    } else if contains_str(&lower, ".mp4") {
        2
    } else if contains_str(&lower, ".ts") {
        3
    } else {
        99
    }
}

/// The stream that `url` points to, judged by its extension.
pub fn classify_url(url: &str) -> (r: Option<ParsedStream>)
    ensures
        match r {
            Some(p) => p.url@ == url@ && Some(p.kind) == kind_of(lowercase(url@)),
            None => kind_of(lowercase(url@)) is None,
        },
{
    let lower = chars_of(to_lowercase(url).as_str());
    match kind_of_lower(&lower) {
        Some(kind) => Some(ParsedStream { url: crate::text::own(url), kind }),
        None => None,
    }
}

/// The stream a bare link points to (`url` trimmed first).
pub fn stream_from_url(url: &str) -> (r: Option<ParsedStream>)
    ensures
        match r {
            Some(p) => p.url@ == trim(url@) && Some(p.kind) == kind_of(lowercase(trim(url@))),
            None => kind_of(lowercase(trim(url@))) is None,
        },
{
    let t = crate::text::trim_str(url);
    classify_url(t.as_str())
}

/// Offers `url` as a candidate: trimmed, kept if it is a link, no asset, and new.
pub fn push_candidate(candidates: &mut Vec<String>, url: &str)
    ensures
        final(candidates).deep_view() == with_candidate(old(candidates).deep_view(), url@),
{
    let v = chars_of(url);
    let (a, b) = trim_bounds(&v);
    let t = string_of(&v, a, b);
    let tv = chars_of(t.as_str());
    if tv.len() == 0 || !starts_with_str(&tv, "http") {
        return;
    }
    let lower = chars_of(to_lowercase(t.as_str()).as_str());
    if is_junk_media_url(&lower) {
        return;
    }
    let ghost old_view = candidates.deep_view();
    let mut k: usize = 0;
    while k < candidates.len()
        invariant
            k <= candidates.len(),
            candidates.deep_view() == old_view,
            t@ == trim(url@),
            forall|j: int| 0 <= j < k ==> old_view[j] != t@,
        decreases candidates.len() - k,
    {
        assert(candidates.deep_view()[k as int] == candidates@[k as int]@);
        if str_eq(candidates[k].as_str(), t.as_str()) {
            assert(old_view.contains(t@));
            return;
        }
        k += 1;
    }
    assert(!old_view.contains(t@));
    candidates.push(t);
    assert(candidates.deep_view() =~= old_view.push(trim(url@)));
}

/// The candidate list obtained by offering each of `raw` in turn.
pub fn collect_candidates(raw: &Vec<String>) -> (r: Vec<String>)
    ensures
        r.deep_view() == with_candidates(Seq::empty(), raw.deep_view()),
{
    let mut cands: Vec<String> = Vec::new();
    let mut k: usize = 0;
    assert(raw.deep_view().subrange(0, 0) =~= Seq::<Seq<char>>::empty());
    while k < raw.len()
        invariant
            k <= raw.len(),
            cands.deep_view() == with_candidates(
                Seq::empty(),
                raw.deep_view().subrange(0, k as int),
            ),
        decreases raw.len() - k,
    {
        push_candidate(&mut cands, raw[k].as_str());
        let ghost next = raw.deep_view().subrange(0, k + 1);
        assert(next.drop_last() =~= raw.deep_view().subrange(0, k as int));
        assert(next.last() == raw@[k as int]@);
        k += 1;
    }
    assert(raw.deep_view().subrange(0, raw.len() as int) =~= raw.deep_view());
    cands
}

/// Preference among links when a direct file is preferred: a file that is not a
/// playlist comes first, then playlists, text playlists, other files, segments.
pub open spec fn direct_priority(lower: Seq<char>) -> int {
    let is_hls = has_sub(lower, ".m3u8"@) || has_sub(lower, "videohls"@) || (has_sub(
        lower,
        ".txt"@,
    ) && (has_sub(lower, "playlist"@) || has_sub(lower, "/hls"@)));
    let is_direct_mp4 = has_sub(lower, ".mp4"@) && !is_hls && !has_sub(lower, "/index."@);
    if is_direct_mp4 {
        0
    } else if has_sub(lower, ".m3u8"@) {
        1
    } else if has_sub(lower, ".txt"@) {
        2
    } else if has_sub(lower, ".mp4"@) {
        3
    } else if has_sub(lower, ".ts"@) {
        4
    } else {
        99
    }
}

/// The rank of a link under either preference.
pub open spec fn rank_of(direct_first: bool, u: Seq<char>) -> int {
    if direct_first {
        direct_priority(lowercase(u))
    } else {
        playlist_priority(lowercase(u))
    }
}

/// The rank of a link among direct-file-first candidates.
pub fn direct_stream_priority(url: &str) -> (r: u8)
    ensures
        r as int == direct_priority(lowercase(url@)),
{
    let lower = chars_of(to_lowercase(url).as_str());
    let is_hls = contains_str(&lower, ".m3u8") || contains_str(&lower, "videohls") || (
    contains_str(&lower, ".txt") && (contains_str(&lower, "playlist") || contains_str(
        &lower,
        "/hls",
    )));
    let is_direct_mp4 = contains_str(&lower, ".mp4") && !is_hls && !contains_str(
        &lower,
        "/index.",
    );
    if is_direct_mp4 {
        0
    } else if contains_str(&lower, ".m3u8") {
        1
    } else if contains_str(&lower, ".txt") {
        2
    } else if contains_str(&lower, ".mp4") {
        3
    } else if contains_str(&lower, ".ts") {
        4
    } else {
        99
    }
}

/// The preferred stream among `candidates` under either preference.
pub fn pick_ranked(candidates: &Vec<String>, direct_first: bool) -> (r: Option<ParsedStream>)
    ensures
        chosen(candidates.deep_view(), |u: Seq<char>| rank_of(direct_first, u), stream_view(r)),
{
    let ghost c = candidates.deep_view();
    let ghost rank = |u: Seq<char>| rank_of(direct_first, u);
    let mut best: Option<(usize, u8, StreamKind)> = None;
    let mut k: usize = 0;
    while k < candidates.len()
        invariant
            k <= candidates.len(),
            c == candidates.deep_view(),
            rank == (|u: Seq<char>| rank_of(direct_first, u)),
            match best {
                None => forall|j: int| 0 <= j < k ==> #[trigger] kind_of(lowercase(c[j])) is None,
                Some((i, p, kd)) => {
                    &&& i < k
                    &&& p as int == rank(c[i as int])
                    &&& Some(kd) == kind_of(lowercase(c[i as int]))
                    &&& forall|j: int|
                        0 <= j < k && #[trigger] kind_of(lowercase(c[j])) is Some ==> rank(
                            c[i as int],
                        ) <= rank(c[j])
                    &&& forall|j: int|
                        0 <= j < i && #[trigger] kind_of(lowercase(c[j])) is Some ==> rank(c[j])
                            > rank(c[i as int])
                },
            },
        decreases candidates.len() - k,
    {
        assert(c[k as int] == candidates@[k as int]@);
        let lower = chars_of(to_lowercase(candidates[k].as_str()).as_str());
        let kind = kind_of_lower(&lower);
        if let Some(kd) = kind {
            let p = if direct_first {
                direct_stream_priority(candidates[k].as_str())
            } else {
                stream_priority(candidates[k].as_str())
            };
            let better = match best {
                None => true,
                Some((_, bp, _)) => p < bp,
            };
            if better {
                best = Some((k, p, kd));
            }
        }
        k += 1;
    }
    match best {
        None => None,
        Some((i, _, kd)) => {
            assert(is_best(c, i as int, rank));
            assert(c[i as int] == candidates@[i as int]@);
            Some(ParsedStream { url: crate::text::own(candidates[i].as_str()), kind: kd })
        },
    }
}

/// The preferred stream among `candidates`, playlists first.
pub fn pick_best_stream(candidates: &Vec<String>) -> (r: Option<ParsedStream>)
    ensures
        chosen(candidates.deep_view(), |u: Seq<char>| rank_of(false, u), stream_view(r)),
{
    pick_ranked(candidates, false)
}

/// The present values of `v`, in order.
pub open spec fn somes(v: Seq<Option<Seq<char>>>) -> Seq<Seq<char>>
    decreases v.len(),
{
    if v.len() == 0 {
        Seq::empty()
    } else {
        match v.last() {
            Some(x) => somes(v.drop_last()).push(x),
            None => somes(v.drop_last()),
        }
    }
}

/// The first group of a match if it took part, else the whole match.
pub open spec fn group_or_whole(m: Seq<Option<Seq<char>>>) -> Seq<char> {
    if m.len() > 1 && m[1] is Some {
        m[1]->0
    } else if m.len() > 0 && m[0] is Some {
        m[0]->0
    } else {
        Seq::empty()
    }
}

/// What each match of `pattern` in `text` contributes.
pub open spec fn pattern_hits(pattern: Seq<char>, text: Seq<char>) -> Seq<Seq<char>> {
    match regex_matches(pattern, text) {
        Some(ms) => ms.map_values(|m: Seq<Option<Seq<char>>>| group_or_whole(m)),
        None => Seq::empty(),
    }
}

/// The patterns under which player pages hold their stream links, in the
/// order they are searched.
pub open spec fn stream_patterns() -> Seq<Seq<char>> {
    seq![
        r#"file:\s*["']([^"']+)["']"#@,
        r#"src:\s*["']([^"']+)["']"#@,
        r#""file"\s*:\s*"([^"]+)""#@,
        r#""src"\s*:\s*"([^"]+)""#@,
        r#""sources"\s*:\s*\[\s*\{\s*"file"\s*:\s*"([^"]+)""#@,
        r#""playlist"\s*:\s*"([^"]+)""#@,
        r#"(https?://[^\s"'<>]+\.m3u8[^\s"'<>]*)"#@,
        r#"(https?://[^\s"'<>]+\.txt[^\s"'<>]*)"#@,
        r#"(https?://[^\s"'<>]+\.mp4[^\s"'<>]*)"#@,
        r#"(https?://[^\s"'<>]+\.ts(?:\?[^\s"'<>]*)?)"#@,
    ]
}

/// The pattern at position `k` of `stream_patterns`.
fn stream_pattern(k: usize) -> (r: &'static str)
    requires
        k < 10,
    ensures
        r@ == stream_patterns()[k as int],
{
    match k {
        0 => r#"file:\s*["']([^"']+)["']"#,
        1 => r#"src:\s*["']([^"']+)["']"#,
        2 => r#""file"\s*:\s*"([^"]+)""#,
        3 => r#""src"\s*:\s*"([^"]+)""#,
        4 => r#""sources"\s*:\s*\[\s*\{\s*"file"\s*:\s*"([^"]+)""#,
        5 => r#""playlist"\s*:\s*"([^"]+)""#,
        6 => r#"(https?://[^\s"'<>]+\.m3u8[^\s"'<>]*)"#,
        7 => r#"(https?://[^\s"'<>]+\.txt[^\s"'<>]*)"#,
        8 => r#"(https?://[^\s"'<>]+\.mp4[^\s"'<>]*)"#,
        _ => r#"(https?://[^\s"'<>]+\.ts(?:\?[^\s"'<>]*)?)"#,
    }
}

/// The hits of the first `k` stream patterns, in pattern order.
pub open spec fn hits_upto(text: Seq<char>, k: nat) -> Seq<Seq<char>>
    decreases k,
{
    if k == 0 {
        Seq::empty()
    } else {
        hits_upto(text, (k - 1) as nat) + pattern_hits(stream_patterns()[k - 1], text)
    }
}

/// The `src` of every `<source>` element of a page fragment.
pub open spec fn source_srcs(html: Seq<char>) -> Seq<Seq<char>> {
    match fragment_attr_values(html, "source"@, "src"@) {
        Some(v) => somes(v),
        None => Seq::empty(),
    }
}

/// Every link a player page offers, in the order it is looked at:
/// `<source>` elements first, then each pattern's hits.
pub open spec fn page_links(html: Seq<char>) -> Seq<Seq<char>> {
    source_srcs(html) + hits_upto(html, 10)
}

/// Appends the present values of `vals` to `out`.
pub fn append_somes(out: &mut Vec<String>, vals: &Vec<Option<String>>)
    ensures
        final(out).deep_view() == old(out).deep_view() + somes(vals.deep_view()),
{
    let ghost o = out.deep_view();
    let mut k: usize = 0;
    assert(vals.deep_view().subrange(0, 0) =~= Seq::<Option<Seq<char>>>::empty());
    assert(o + Seq::<Seq<char>>::empty() =~= o);
    while k < vals.len()
        invariant
            k <= vals.len(),
            out.deep_view() == o + somes(vals.deep_view().subrange(0, k as int)),
        decreases vals.len() - k,
    {
        let ghost pre = vals.deep_view().subrange(0, k as int);
        let ghost nxt = vals.deep_view().subrange(0, k + 1);
        assert(nxt.drop_last() =~= pre);
        assert(nxt.last() == vals@[k as int].deep_view());
        match &vals[k] {
            Some(v) => {
                let ghost before_push = out.deep_view();
                let c = v.clone();
                assert(c@ == v@);
                out.push(c);
                assert(out.deep_view() =~= before_push.push(v@));
                assert(o + somes(pre).push(v@) =~= (o + somes(pre)).push(v@));
            },
            None => {},
        }
        k += 1;
    }
    assert(vals.deep_view().subrange(0, vals.len() as int) =~= vals.deep_view());
}

/// The first group of a match if it took part, else the whole match.
fn group_or_whole_exec(m: &Vec<Option<String>>) -> (r: String)
    ensures
        r@ == group_or_whole(m.deep_view()),
{
    if m.len() > 1 {
        if let Some(g) = &m[1] {
            assert(m.deep_view()[1] == Some(g@));
            return g.clone();
        }
        assert(m.deep_view()[1] is None);
    }
    if m.len() > 0 {
        if let Some(g) = &m[0] {
            assert(m.deep_view()[0] == Some(g@));
            return g.clone();
        }
        assert(m.deep_view()[0] is None);
    }
    String::new()
}

/// Appends what each match of `pattern` in `text` contributes to `out`.
pub fn append_hits(out: &mut Vec<String>, pattern: &str, text: &str)
    ensures
        final(out).deep_view() == old(out).deep_view() + pattern_hits(pattern@, text@),
{
    let ghost o = out.deep_view();
    match regex_captures(pattern, text) {
        None => {
            assert(o + Seq::<Seq<char>>::empty() =~= o);
        },
        Some(ms) => {
            let ghost hits = pattern_hits(pattern@, text@);
            let mut k: usize = 0;
            while k < ms.len()
                invariant
                    k <= ms.len(),
                    Some(ms.deep_view()) == regex_matches(pattern@, text@),
                    hits == ms.deep_view().map_values(
                        |m: Seq<Option<Seq<char>>>| group_or_whole(m),
                    ),
                    out.deep_view() == o + hits.subrange(0, k as int),
                decreases ms.len() - k,
            {
                let g = group_or_whole_exec(&ms[k]);
                assert(hits[k as int] == group_or_whole(ms@[k as int].deep_view()));
                let ghost before_push = out.deep_view();
                out.push(g);
                assert(out.deep_view() =~= before_push.push(hits[k as int]));
                assert(o + hits.subrange(0, k + 1) =~= (o + hits.subrange(0, k as int)).push(
                    hits[k as int],
                ));
                k += 1;
            }
            assert(hits.subrange(0, ms.len() as int) =~= hits);
        },
    }
}

/// Every link that a player page offers, in order (see `page_links`).
pub fn collect_page_links(html: &str) -> (r: Vec<String>)
    ensures
        r.deep_view() == page_links(html@),
{
    let mut raw: Vec<String> = Vec::new();
    match fragment_select_attr(html, "source", "src") {
        Some(vals) => append_somes(&mut raw, &vals),
        None => {},
    }
    assert(raw.deep_view() =~= source_srcs(html@));
    let ghost base = raw.deep_view();
    let mut k: usize = 0;
    assert(base + hits_upto(html@, 0) =~= base);
    while k < 10
        invariant
            k <= 10,
            raw.deep_view() == base + hits_upto(html@, k as nat),
        decreases 10 - k,
    {
        append_hits(&mut raw, stream_pattern(k), html);
        assert(base + hits_upto(html@, (k + 1) as nat) =~= base + hits_upto(html@, k as nat)
            + pattern_hits(stream_patterns()[k as int], html@));
        k += 1;
    }
    raw
}

/// The preferred stream among the links `raw` (offered in order), playlists
/// first or, with `direct_first`, direct files first.
pub fn stream_from_links(raw: &Vec<String>, direct_first: bool) -> (r: Option<ParsedStream>)
    ensures
        chosen(
            with_candidates(Seq::empty(), raw.deep_view()),
            |u: Seq<char>| rank_of(direct_first, u),
            stream_view(r),
        ),
{
    let cands = collect_candidates(raw);
    pick_ranked(&cands, direct_first)
}

/// The stream a player page points to, playlists first.
pub fn parse_stream_from_html(html: &str) -> (r: Result<ParsedStream, SourceError>)
    ensures
        match r {
            Ok(p) => chosen(
                with_candidates(Seq::empty(), page_links(html@)),
                |u: Seq<char>| rank_of(false, u),
                Some((p.url@, p.kind)),
            ),
            Err(e) => e is NoStream && chosen(
                with_candidates(Seq::empty(), page_links(html@)),
                |u: Seq<char>| rank_of(false, u),
                None,
            ),
        },
{
    let raw = collect_page_links(html);
    match stream_from_links(&raw, false) {
        Some(p) => Ok(p),
        None => Err(SourceError::NoStream),
    }
}

/// The first group of a match, if it took part.
pub open spec fn group1(m: Seq<Option<Seq<char>>>) -> Option<Seq<char>> {
    if m.len() > 1 {
        m[1]
    } else {
        None
    }
}

/// The trimmed values of `groups` that are links (`http...`), in order.
pub open spec fn http_links(groups: Seq<Option<Seq<char>>>) -> Seq<Seq<char>>
    decreases groups.len(),
{
    if groups.len() == 0 {
        Seq::empty()
    } else {
        let prev = http_links(groups.drop_last());
        match groups.last() {
            Some(g) => if starts(trim(g), "http"@) {
                prev.push(trim(g))
            } else {
                prev
            },
            None => prev,
        }
    }
}

/// The pattern of an embedded player frame.
pub open spec fn iframe_pattern() -> Seq<char> {
    r#"<iframe[^>]+src="([^"]+)""#@
}

/// The links of the player frames of a page.
pub open spec fn iframe_links(html: Seq<char>) -> Seq<Seq<char>> {
    match regex_matches(iframe_pattern(), html) {
        Some(ms) => http_links(ms.map_values(|m: Seq<Option<Seq<char>>>| group1(m))),
        None => Seq::empty(),
    }
}

pub fn group1_exec(m: &Vec<Option<String>>) -> (r: Option<String>)
    ensures
        r.deep_view() == group1(m.deep_view()),
{
    if m.len() > 1 {
        match &m[1] {
            Some(g) => {
                assert(m.deep_view()[1] == Some(g@));
                Some(g.clone())
            },
            None => {
                assert(m.deep_view()[1] is None);
                None
            },
        }
    } else {
        None
    }
}

/// The `src` links of the `<iframe>` elements of `html`.
pub fn extract_iframe_srcs(html: &str) -> (r: Vec<String>)
    ensures
        r.deep_view() == iframe_links(html@),
{
    let mut urls: Vec<String> = Vec::new();
    match regex_captures(r#"<iframe[^>]+src="([^"]+)""#, html) {
        None => {},
        Some(ms) => {
            let ghost gs = ms.deep_view().map_values(|m: Seq<Option<Seq<char>>>| group1(m));
            let mut k: usize = 0;
            assert(gs.subrange(0, 0) =~= Seq::<Option<Seq<char>>>::empty());
            while k < ms.len()
                invariant
                    k <= ms.len(),
                    gs == ms.deep_view().map_values(|m: Seq<Option<Seq<char>>>| group1(m)),
                    urls.deep_view() == http_links(gs.subrange(0, k as int)),
                decreases ms.len() - k,
            {
                let g = group1_exec(&ms[k]);
                assert(gs[k as int] == g.deep_view());
                let ghost pre = gs.subrange(0, k as int);
                assert(gs.subrange(0, k + 1).drop_last() =~= pre);
                if let Some(gv) = g {
                    let t = crate::text::trim_str(gv.as_str());
                    let tv = chars_of(t.as_str());
                    if starts_with_str(&tv, "http") {
                        let ghost before_push = urls.deep_view();
                        urls.push(t);
                        assert(urls.deep_view() =~= before_push.push(trim(gv@)));
                    }
                }
                k += 1;
            }
            assert(gs.subrange(0, ms.len() as int) =~= gs);
        },
    }
    urls
}

/// The pattern of a stream carried in a `d=` query parameter.
pub open spec fn query_pattern() -> Seq<char> {
    r"[?&]d=([^&]+)"@
}

/// The stream link carried, percent-encoded, in the `d=` parameter of `url`.
pub open spec fn query_stream(url: Seq<char>) -> Option<Seq<char>> {
    match regex_matches(query_pattern(), url) {
        Some(ms) => if ms.len() > 0 && group1(ms[0]) is Some {
            match url_decoded(group1(ms[0])->0) {
                Some(d) => if has_sub(d, ".m3u8"@) || has_sub(d, ".mp4"@) {
                    Some(d)
                } else {
                    None
                },
                None => None,
            }
        } else {
            None
        },
        None => None,
    }
}

/// The stream link in the `d=` parameter of `url`, when it names a playlist or a file.
pub fn extract_m3u8_from_query(url: &str) -> (r: Option<String>)
    ensures
        r.deep_view() == query_stream(url@),
{
    match regex_captures(r"[?&]d=([^&]+)", url) {
        None => None,
        Some(ms) => {
            if ms.len() == 0 {
                return None;
            }
            let g = group1_exec(&ms[0]);
            assert(ms.deep_view()[0] == ms@[0].deep_view());
            match g {
                None => None,
                Some(gv) => match url_decode(gv.as_str()) {
                    None => None,
                    Some(d) => {
                        let dv = chars_of(d.as_str());
                        if contains_str(&dv, ".m3u8") || contains_str(&dv, ".mp4") {
                            Some(d)
                        } else {
                            None
                        }
                    },
                },
            }
        },
    }
}

/// The JSON text of a page's `VIDEO_CONFIG` script, if the page has one.
pub open spec fn video_config_text(html: Seq<char>) -> Option<Seq<char>> {
    match after(html, "var VIDEO_CONFIG = "@) {
        Some(rest) => Some(strip_end(trim(before(trim_start(rest), "</script>"@)), ';')),
        None => None,
    }
}

/// The stream that a `VIDEO_CONFIG` player page offers, playlists first.
pub open spec fn video_config_stream(html: Seq<char>, r: Option<(Seq<char>, StreamKind)>) -> bool {
    match video_config_text(html) {
        Some(text) => match json_list_strings(text, "streams"@, "play_url"@) {
            Some(urls) => chosen(
                with_candidates(Seq::empty(), somes(urls)),
                |u: Seq<char>| rank_of(false, u),
                r,
            ),
            None => r is None,
        },
        None => r is None,
    }
}

/// The stream named by the `play_url` entries of a page's `VIDEO_CONFIG`.
pub fn parse_blogger_video_config(html: &str) -> (r: Option<ParsedStream>)
    ensures
        video_config_stream(html@, stream_view(r)),
{
    let rest = match crate::text::after_str(html, "var VIDEO_CONFIG = ") {
        Some(rest) => rest,
        None => return None,
    };
    let rv = chars_of(rest.as_str());
    let a = crate::text::trim_start_bound(&rv, 0);
    assert(rv@.subrange(0, rv@.len() as int) =~= rv@);
    let t1 = string_of(&rv, a, rv.len());
    let t2 = crate::text::before_str(t1.as_str(), "</script>");
    let t3 = crate::text::trim_str(t2.as_str());
    let t3v = chars_of(t3.as_str());
    let e = crate::text::strip_end_bound(&t3v, 0, t3v.len(), ';');
    assert(t3v@.subrange(0, t3v@.len() as int) =~= t3v@);
    let text = string_of(&t3v, 0, e);
    assert(video_config_text(html@) == Some(text@));
    let urls = match json_list_field_strings(text.as_str(), "streams", "play_url") {
        Some(u) => u,
        None => return None,
    };
    let mut raw: Vec<String> = Vec::new();
    append_somes(&mut raw, &urls);
    assert(raw.deep_view() =~= somes(urls.deep_view()));
    stream_from_links(&raw, false)
}

/// The first group of the first match of `pattern` in `text`.
pub open spec fn first_group1(pattern: Seq<char>, text: Seq<char>) -> Option<Seq<char>> {
    match regex_matches(pattern, text) {
        Some(ms) => if ms.len() > 0 {
            group1(ms[0])
        } else {
            None
        },
        None => None,
    }
}

/// The first group of the first match of `pattern` in `text` (`Regex::captures`
/// then `get(1)`).
pub fn regex_first_group1(pattern: &str, text: &str) -> (r: Option<String>)
    ensures
        r.deep_view() == first_group1(pattern@, text@),
{
    match regex_captures(pattern, text) {
        None => None,
        Some(ms) => {
            if ms.len() == 0 {
                return None;
            }
            assert(ms.deep_view()[0] == ms@[0].deep_view());
            group1_exec(&ms[0])
        },
    }
}

} // verus!
