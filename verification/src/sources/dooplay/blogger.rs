//! The Blogger video player: its page fields, its RPC request and its answer.

use vstd::prelude::*;
use crate::outside::{json_string, lowercase, parse_json_string, url_encode, url_encoded};
use crate::sources::stream::{
    first_group1, kind_of, pattern_hits, regex_first_group1, stream_from_url, ParsedStream,
    append_hits,
};
use crate::sources::{SourceError, StreamKind};
use crate::text::{
    after, append, before, chars_of, contains_str, decimal, has_sub, own, push_decimal, replace,
    split, split_str, starts, starts_with_str, trim,
};

verus! {

/// The root of the Blogger player.
pub const BLOGGER_BASE: &'static str = "https://www.blogger.com/";

/// Where a player link carries its token.
pub open spec fn token_pattern() -> Seq<char> {
    r"[?&]token=([^&]+)"@
}

/// The token of a Blogger player link.
pub fn extract_blogger_token(url: &str) -> (r: Option<String>)
    ensures
        r.deep_view() == first_group1(token_pattern(), url@),
{
    regex_first_group1(r"[?&]token=([^&]+)", url)
}

/// The string value that a page assigns to `key` in its inline JSON
/// (`key":"value"`), if the value is closed by a quote.
pub open spec fn json_field_value(html: Seq<char>, key: Seq<char>) -> Option<Seq<char>> {
    match after(html, key + "\":\""@) {
        Some(rest) => if has_sub(rest, "\""@) {
            Some(before(rest, "\""@))
        } else {
            None
        },
        None => None,
    }
}

pub fn extract_json_field(html: &str, key: &str) -> (r: Option<String>)
    ensures
        r.deep_view() == json_field_value(html@, key@),
{
    let mut needle = own(key);
    append(&mut needle, "\":\"");
    let rest = match crate::text::after_str(html, needle.as_str()) {
        Some(rest) => rest,
        None => return None,
    };
    let rv = chars_of(rest.as_str());
    if !contains_str(&rv, "\"") {
        return None;
    }
    Some(crate::text::before_str(rest.as_str(), "\""))
}

/// A link written with two levels of JSON string escaping, unescaped.
pub open spec fn rpc_decoded(raw: Seq<char>) -> Option<Seq<char>> {
    match json_string("\""@ + raw + "\""@) {
        Some(once) => json_string("\""@ + once + "\""@),
        None => None,
    }
}

pub fn decode_rpc_url(raw: &str) -> (r: Option<String>)
    ensures
        r.deep_view() == rpc_decoded(raw@),
{
    let mut q = own("\"");
    append(&mut q, raw);
    append(&mut q, "\"");
    let once = match parse_json_string(q.as_str()) {
        Some(o) => o,
        None => return None,
    };
    let mut q2 = own("\"");
    append(&mut q2, once.as_str());
    append(&mut q2, "\"");
    parse_json_string(q2.as_str())
}

/// A link found in the RPC answer, unescaped twice if it can be, else with
/// `\/` and `\u0026` undone.
pub open spec fn double_decoded(value: Seq<char>) -> Seq<char> {
    match rpc_decoded(value) {
        Some(d) => d,
        None => replace(replace(value, "\\/"@, "/"@), "\\u0026"@, "&"@),
    }
}

pub fn decode_double_escaped_url(value: &str) -> (r: Option<String>)
    ensures
        r matches Some(d) && d@ == double_decoded(value@),
{
    match decode_rpc_url(value) {
        Some(d) => Some(d),
        None => {
            proof {
                reveal_strlit("\\/");
                reveal_strlit("\\u0026");
            }
            let a = crate::text::replace_str(value, "\\/", "/");
            Some(crate::text::replace_str(a.as_str(), "\\u0026", "&"))
        },
    }
}

/// The links of the video list inside an RPC part, in order.
pub open spec fn part_urls(parts: Seq<Seq<char>>) -> Seq<Seq<char>>
    decreases parts.len(),
{
    if parts.len() == 0 {
        Seq::empty()
    } else {
        let prev = part_urls(parts.drop_last());
        let pieces = split(parts.last(), "\\\""@);
        if pieces.len() > 1 {
            match rpc_decoded(pieces[1]) {
                Some(u) => if starts(u, "http"@) {
                    prev.push(u)
                } else {
                    prev
                },
                None => prev,
            }
        } else {
            prev
        }
    }
}

/// The video links listed in an RPC answer.
pub open spec fn rpc_urls(response: Seq<char>) -> Seq<Seq<char>> {
    let chunks = split(response, "[[\\\""@);
    if chunks.len() > 1 {
        part_urls(split(before(chunks[1], "]]]"@), "],["@))
    } else {
        Seq::empty()
    }
}

pub fn parse_rpc_video_urls(response: &str) -> (r: Vec<String>)
    ensures
        r.deep_view() == rpc_urls(response@),
{
    proof {
        reveal_strlit("[[\\\"");
        reveal_strlit("],[");
        reveal_strlit("\\\"");
    }
    let chunks = split_str(response, "[[\\\"");
    if chunks.len() <= 1 {
        return Vec::new();
    }
    assert(chunks.deep_view()[1] == chunks@[1]@);
    let chunk = crate::text::before_str(chunks[1].as_str(), "]]]");
    let parts = split_str(chunk.as_str(), "],[");
    let ghost ps = parts.deep_view();
    let mut out: Vec<String> = Vec::new();
    let mut k: usize = 0;
    assert(ps.subrange(0, 0) =~= Seq::<Seq<char>>::empty());
    while k < parts.len()
        invariant
            k <= parts.len(),
            ps == parts.deep_view(),
            out.deep_view() == part_urls(ps.subrange(0, k as int)),
        decreases parts.len() - k,
    {
        let ghost pre = ps.subrange(0, k as int);
        assert(ps.subrange(0, k + 1).drop_last() =~= pre);
        assert(ps.subrange(0, k + 1).last() == parts@[k as int]@);
        proof {
            reveal_strlit("\\\"");
        }
        let pieces = split_str(parts[k].as_str(), "\\\"");
        if pieces.len() > 1 {
            assert(pieces.deep_view()[1] == pieces@[1]@);
            match decode_rpc_url(pieces[1].as_str()) {
                Some(u) => {
                    let uv = chars_of(u.as_str());
                    if starts_with_str(&uv, "http") {
                        let ghost before_push = out.deep_view();
                        out.push(u);
                        assert(out.deep_view() =~= before_push.push(uv@));
                    }
                },
                None => {},
            }
        }
        k += 1;
    }
    assert(ps.subrange(0, parts.len() as int) =~= ps);
    out
}

/// The first candidate that is a stream link, trimmed, with its kind.
pub open spec fn first_stream(c: Seq<Seq<char>>) -> Option<(Seq<char>, StreamKind)>
    decreases c.len(),
{
    if c.len() == 0 {
        None
    } else {
        match kind_of(lowercase(trim(c[0]))) {
            Some(k) => Some((trim(c[0]), k)),
            None => first_stream(c.drop_first()),
        }
    }
}

/// The first candidate served by Google's video hosts or naming a file.
pub open spec fn first_video(c: Seq<Seq<char>>) -> Option<Seq<char>>
    decreases c.len(),
{
    if c.len() == 0 {
        None
    } else if has_sub(c[0], "googlevideo"@) || has_sub(c[0], ".mp4"@) {
        Some(c[0])
    } else {
        first_video(c.drop_first())
    }
}

/// A link seen loose in the answer is kept when it is a video link.
pub open spec fn loose_link_kept(u: Seq<char>) -> bool {
    has_sub(u, "googlevideo"@) || kind_of(lowercase(trim(u))) is Some
}

/// The loose links of the answer that are kept, unescaped.
pub open spec fn loose_links(hits: Seq<Seq<char>>) -> Seq<Seq<char>>
    decreases hits.len(),
{
    if hits.len() == 0 {
        Seq::empty()
    } else {
        let prev = loose_links(hits.drop_last());
        let u = double_decoded(hits.last());
        if loose_link_kept(u) {
            prev.push(u)
        } else {
            prev
        }
    }
}

/// Any link written loose in the answer.
pub open spec fn loose_link_pattern() -> Seq<char> {
    r#"https?://[^\s"']+"#@
}

/// The candidates of an RPC answer: its video list, or the loose video links
/// when the list is empty.
pub open spec fn rpc_candidates(response: Seq<char>) -> Seq<Seq<char>> {
    if rpc_urls(response).len() > 0 {
        rpc_urls(response)
    } else {
        loose_links(pattern_hits(loose_link_pattern(), response))
    }
}

/// The stream an RPC answer gives: the first stream link among its candidates,
/// else the first Google video or file link taken as a file.
pub open spec fn rpc_stream(response: Seq<char>) -> Option<(Seq<char>, StreamKind)> {
    if !has_sub(response, "https://"@) {
        None
    } else {
        match first_stream(rpc_candidates(response)) {
            Some(p) => Some(p),
            None => match first_video(rpc_candidates(response)) {
                Some(u) => Some((u, StreamKind::Mp4)),
                None => None,
            },
        }
    }
}

/// The stream that the Blogger RPC answer points to.
pub fn stream_from_rpc_response(response: &str) -> (r: Result<ParsedStream, SourceError>)
    ensures
        match r {
            Ok(p) => rpc_stream(response@) == Some((p.url@, p.kind)),
            Err(e) => rpc_stream(response@) is None && e is NoStream,
        },
{
    let rv = chars_of(response);
    if !contains_str(&rv, "https://") {
        return Err(SourceError::NoStream);
    }
    let mut candidates = parse_rpc_video_urls(response);
    if candidates.len() == 0 {
        let mut hits: Vec<String> = Vec::new();
        append_hits(&mut hits, r#"https?://[^\s"']+"#, response);
        assert(hits.deep_view() =~= pattern_hits(loose_link_pattern(), response@));
        let ghost hs = hits.deep_view();
        let mut k: usize = 0;
        assert(hs.subrange(0, 0) =~= Seq::<Seq<char>>::empty());
        assert(candidates.deep_view() =~= Seq::<Seq<char>>::empty());
        while k < hits.len()
            invariant
                k <= hits.len(),
                hs == hits.deep_view(),
                candidates.deep_view() == loose_links(hs.subrange(0, k as int)),
            decreases hits.len() - k,
        {
            assert(hs.subrange(0, k + 1).drop_last() =~= hs.subrange(0, k as int));
            assert(hs.subrange(0, k + 1).last() == hits@[k as int]@);
            let u = match decode_double_escaped_url(hits[k].as_str()) {
                Some(u) => u,
                None => hits[k].clone(),
            };
            let uv = chars_of(u.as_str());
            if contains_str(&uv, "googlevideo") || stream_from_url(u.as_str()).is_some() {
                let ghost before_push = candidates.deep_view();
                candidates.push(u);
                assert(candidates.deep_view() =~= before_push.push(uv@));
            }
            k += 1;
        }
        assert(hs.subrange(0, hits.len() as int) =~= hs);
    }
    let ghost c = candidates.deep_view();
    assert(c == rpc_candidates(response@));
    let mut k: usize = 0;
    assert(c.subrange(0, c.len() as int) =~= c);
    while k < candidates.len()
        invariant
            k <= candidates.len(),
            c == candidates.deep_view(),
            c == rpc_candidates(response@),
            has_sub(response@, "https://"@),
            first_stream(c) == first_stream(c.subrange(k as int, c.len() as int)),
        decreases candidates.len() - k,
    {
        assert(c.subrange(k as int, c.len() as int)[0] == candidates@[k as int]@);
        assert(c.subrange(k as int, c.len() as int).drop_first() =~= c.subrange(
            k + 1,
            c.len() as int,
        ));
        if let Some(p) = stream_from_url(candidates[k].as_str()) {
            return Ok(p);
        }
        k += 1;
    }
    assert(c.subrange(c.len() as int, c.len() as int).len() == 0);
    let mut k: usize = 0;
    assert(c.subrange(0, c.len() as int) =~= c);
    while k < candidates.len()
        invariant
            k <= candidates.len(),
            c == candidates.deep_view(),
            c == rpc_candidates(response@),
            has_sub(response@, "https://"@),
            first_stream(c) is None,
            first_video(c) == first_video(c.subrange(k as int, c.len() as int)),
        decreases candidates.len() - k,
    {
        assert(c.subrange(k as int, c.len() as int)[0] == candidates@[k as int]@);
        assert(c.subrange(k as int, c.len() as int).drop_first() =~= c.subrange(
            k + 1,
            c.len() as int,
        ));
        let uv = chars_of(candidates[k].as_str());
        if contains_str(&uv, "googlevideo") || contains_str(&uv, ".mp4") {
            return Ok(ParsedStream { url: candidates[k].clone(), kind: StreamKind::Mp4 });
        }
        k += 1;
    }
    Err(SourceError::NoStream)
}

/// The batch-execute request that asks the Blogger player for its video list:
/// the URL (with a request id of `now_secs` modulo a day) and the form body.
pub open spec fn rpc_request(
    token: Seq<char>,
    form_session_id: Seq<char>,
    blog_id: Seq<char>,
    now_secs: u64,
) -> (Seq<char>, Seq<char>) {
    (
        BLOGGER_BASE@ + "_/BloggerVideoPlayerUi/data/batchexecute?rpcids=WcwnYd&source-path=%2Fvideo.g&f.sid="@
            + form_session_id + "&bl="@ + blog_id + "&hl=en-US&_reqid="@ + decimal(
            (now_secs % 86400) as nat,
        ) + "&rt=c"@,
        "f.req="@ + url_encoded(
            "[[[\"WcwnYd\",\"[\\\""@ + token + "\\\",\\\"\\\",0]\",null,\"generic\"]]]"@,
        ) + "&"@,
    )
}

pub fn blogger_rpc_request(token: &str, form_session_id: &str, blog_id: &str, now_secs: u64) -> (r: (
    String,
    String,
))
    ensures
        (r.0@, r.1@) == rpc_request(token@, form_session_id@, blog_id@, now_secs),
{
    let mut url = own(BLOGGER_BASE);
    append(
        &mut url,
        "_/BloggerVideoPlayerUi/data/batchexecute?rpcids=WcwnYd&source-path=%2Fvideo.g&f.sid=",
    );
    append(&mut url, form_session_id);
    append(&mut url, "&bl=");
    append(&mut url, blog_id);
    append(&mut url, "&hl=en-US&_reqid=");
    push_decimal(&mut url, (now_secs % 86400) as u32);
    append(&mut url, "&rt=c");
    let mut f_req = own("[[[\"WcwnYd\",\"[\\\"");
    append(&mut f_req, token);
    append(&mut f_req, "\\\",\\\"\\\",0]\",null,\"generic\"]]]");
    let mut body = own("f.req=");
    let enc = url_encode(f_req.as_str());
    append(&mut body, enc.as_str());
    append(&mut body, "&");
    (url, body)
}

} // verus!
