//! The player of Sushi Animes: which of its links to download.

use vstd::prelude::*;

use crate::sources::stream::{chosen, collect_page_links, page_links, rank_of, stream_from_links, with_candidates};
use crate::sushi::client::SushiError;

verus! {

pub use crate::sources::StreamKind;

/// A stream of the site's player.
#[derive(Debug, Clone)]
pub struct StreamInfo {
    pub url: String,
    pub kind: StreamKind,
}

impl StreamInfo {
    pub fn is_hls(&self) -> (r: bool)
        ensures
            r == (self.kind == StreamKind::Hls),
    {
        self.kind == StreamKind::Hls
    }
}

/// The stream that the site's player answer points to; a direct file is
/// preferred to a playlist.
pub fn parse_stream_from_embed(html: &str) -> (r: Result<StreamInfo, SushiError>)
    ensures
        match r {
            Ok(p) => chosen(
                with_candidates(Seq::empty(), page_links(html@)),
                |u: Seq<char>| rank_of(true, u),
                Some((p.url@, p.kind)),
            ),
            Err(e) => e is NoStream && chosen(
                with_candidates(Seq::empty(), page_links(html@)),
                |u: Seq<char>| rank_of(true, u),
                None,
            ),
        },
{
    let raw = collect_page_links(html);
    match stream_from_links(&raw, true) {
        Some(p) => Ok(StreamInfo { url: p.url, kind: p.kind }),
        None => Err(SushiError::NoStream),
    }
}

} // verus!
