//! Animes Digital's players: the headers a player's stream expects.

use vstd::prelude::*;
use crate::outside::{lowercase, to_lowercase};
use crate::sources::animesdigital::client::{AnimesdigitalClient, BASE_URL};
use crate::text::{before, before_str, chars_of, contains_str, has_sub, own};

verus! {

/// The referer and origin for a stream found through the player `iframe_url`
/// of the episode page `episode_url`: the player page (without its fragment)
/// and its site for the video player, the episode page and the site otherwise.
pub open spec fn headers_for(iframe_url: Seq<char>, episode_url: Seq<char>) -> (Seq<char>, Seq<char>) {
    let lower = lowercase(iframe_url);
    if has_sub(lower, "anivideo.net"@) || has_sub(lower, "videohls"@) {
        (before(iframe_url, "#"@), "https://anivideo.net"@)
    } else {
        (episode_url, BASE_URL@)
    }
}

/// The referer and origin for a stream found through a player.
pub fn stream_headers_for(iframe_url: &str, episode_url: &str) -> (r: (String, String))
    ensures
        (r.0@, r.1@) == headers_for(iframe_url@, episode_url@),
{
    let lower = chars_of(to_lowercase(iframe_url).as_str());
    if contains_str(&lower, "anivideo.net") || contains_str(&lower, "videohls") {
        return (before_str(iframe_url, "#"), own("https://anivideo.net"));
    }
    (own(episode_url), own(AnimesdigitalClient::base_url()))
}

/// Whether a player page is fetched to look for the stream inside it.
pub fn is_video_player(iframe_url: &str) -> (r: bool)
    ensures
        r == (has_sub(iframe_url@, "anivideo.net"@) || has_sub(iframe_url@, "videohls"@)),
{
    let v = chars_of(iframe_url);
    contains_str(&v, "anivideo.net") || contains_str(&v, "videohls")
}

} // verus!
