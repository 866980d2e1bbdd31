//! Goyabu's player: the token a page carries, and the stream chosen from the
//! player's reply.

use vstd::prelude::*;
use crate::sources::{SourceError, StreamKind, StreamResolution};
use crate::sources::goyabu::client::{BASE_URL, GoyabuClient};
use crate::sources::stream::{first_group1, regex_first_group1};
use crate::text::{chars_of, contains_str, has_sub, own, starts, starts_with_str};

verus! {

/// Where a page declares the player token.
pub open spec fn token_pattern() -> Seq<char> {
    r#""blogger_token"\s*:\s*"([^"]+)""#@
}

/// The player token of an episode page.
pub fn extract_blogger_token(html: &str) -> (r: Result<String, SourceError>)
    ensures
        match r {
            Ok(t) => first_group1(token_pattern(), html@) == Some(t@),
            Err(e) => first_group1(token_pattern(), html@) is None && (e matches SourceError::Parse(m)
                && m@ == "Token do player não encontrado na página"@),
        },
{
    match regex_first_group1(r#""blogger_token"\s*:\s*"([^"]+)""#, html) {
        Some(t) => Ok(t),
        None => Err(SourceError::Parse(own("Token do player não encontrado na página"))),
    }
}

/// One video offered by the player.
#[derive(Debug, Clone)]
pub struct PlayItem {
    pub size: Option<u32>,
    pub src: Option<String>,
}

/// What the player's reply carries.
#[derive(Debug, Clone)]
pub struct AjaxData {
    pub message: Option<String>,
    pub play: Option<Vec<PlayItem>>,
}

/// The player's reply.
#[derive(Debug, Clone)]
pub struct AjaxResponse {
    pub success: bool,
    pub data: Option<AjaxData>,
}

/// The size by which videos are compared (0 when unknown).
pub open spec fn size_key(p: PlayItem) -> u32 {
    match p.size {
        Some(s) => s,
        None => 0,
    }
}

/// The position of the largest video, the last one among equals (as
/// `Iterator::max_by_key` picks).
pub open spec fn best_index(ps: Seq<PlayItem>) -> int
    decreases ps.len(),
{
    if ps.len() <= 1 {
        0
    } else {
        let b = best_index(ps.drop_last());
        if size_key(ps.last()) >= size_key(ps[b]) {
            ps.len() - 1
        } else {
            b
        }
    }
}

/// The kind of a stream by its link: a playlist when it names `.m3u8` or `.txt`.
pub open spec fn link_kind(url: Seq<char>) -> StreamKind {
    if has_sub(url, ".m3u8"@) || has_sub(url, ".txt"@) {
        StreamKind::Hls
    } else {
        StreamKind::Mp4
    }
}

/// Chooses the stream from the player's reply for the episode page `referer`:
/// the largest video, which must be a web link.
pub fn stream_from_reply(reply: AjaxResponse, referer: String) -> (r: Result<StreamResolution, SourceError>)
    ensures
        !reply.success ==> (r matches Err(SourceError::Parse(m)) && m@ == match reply.data {
            Some(d) => match d.message {
                Some(msg) => msg@,
                None => "Erro ao decodificar vídeo"@,
            },
            None => "Erro ao decodificar vídeo"@,
        }),
        reply.success ==> match reply.data {
            None => r matches Err(SourceError::Parse(m)) && m@ == "Resposta vazia do player"@,
            Some(d) => match d.play {
                None => r matches Err(SourceError::NoStream),
                Some(ps) => if ps@.len() == 0 {
                    r matches Err(SourceError::NoStream)
                } else {
                    match ps@[best_index(ps@)].src {
                        Some(src) => if starts(src@, "http"@) {
                            r matches Ok(s) && s.url@ == src@ && s.kind == link_kind(src@)
                                && s.referer@ == referer@ && s.origin@ == BASE_URL@
                        } else {
                            r matches Err(SourceError::NoStream)
                        },
                        None => r matches Err(SourceError::NoStream),
                    }
                },
            },
        },
{
    if !reply.success {
        let msg = match reply.data {
            Some(d) => match d.message {
                Some(m) => m,
                None => own("Erro ao decodificar vídeo"),
            },
            None => own("Erro ao decodificar vídeo"),
        };
        return Err(SourceError::Parse(msg));
    }
    let data = match reply.data {
        Some(d) => d,
        None => return Err(SourceError::Parse(own("Resposta vazia do player"))),
    };
    let play = match data.play {
        Some(p) => p,
        None => return Err(SourceError::NoStream),
    };
    if play.len() == 0 {
        return Err(SourceError::NoStream);
    }
    let mut best: usize = 0;
    let mut i: usize = 1;
    while i < play.len()
        invariant
            1 <= i <= play@.len(),
            best < i,
            best as int == best_index(play@.take(i as int)),
        decreases play@.len() - i,
    {
        let s_i: u32 = match play[i].size {
            Some(s) => s,
            None => 0,
        };
        let s_b: u32 = match play[best].size {
            Some(s) => s,
            None => 0,
        };
        proof {
            assert(play@.take(i + 1).drop_last() =~= play@.take(i as int));
            assert(play@.take(i as int)[best as int] == play@[best as int]);
        }
        if s_i >= s_b {
            best = i;
        }
        i += 1;
    }
    assert(play@.take(i as int) =~= play@);
    let url = match &play[best].src {
        Some(s) => s.clone(),
        None => return Err(SourceError::NoStream),
    };
    let uv = chars_of(url.as_str());
    if !starts_with_str(&uv, "http") {
        return Err(SourceError::NoStream);
    }
    let kind = if contains_str(&uv, ".m3u8") || contains_str(&uv, ".txt") {
        StreamKind::Hls
    } else {
        StreamKind::Mp4
    };
    Ok(StreamResolution { url, kind, referer, origin: own(GoyabuClient::base_url()) })
}

} // verus!
