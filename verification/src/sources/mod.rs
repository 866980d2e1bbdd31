//! The anime sources: what they have in common, and how a URL is tied to one.

pub mod animesdigital;
pub mod animesonlinecc;
pub mod dooplay;
pub mod goyabu;
pub mod meusanimes;
pub mod page;
pub mod stream;
pub mod sushianimes;

use vstd::prelude::*;
use crate::models::AnimeSourceId;
use crate::outside::{header_text, header_value_accepted, lowercase};
use crate::text::{
    append, chars_of, is_ws, lemma_trim_fixed, lemma_trim_idempotent, lemma_trim_shape, own, starts,
    starts_with_str, string_of, trim, trim_bounds,
};

verus! {

pub type SourceId = AnimeSourceId;

/// Why a source could not give what was asked.
#[derive(Debug, Clone)]
pub enum SourceError {
    Http(String),
    Parse(String),
    NoStream,
    UnsupportedUrl,
    UnknownSource,
    Other(String),
}

/// How a stream is downloaded: through a playlist, or as one file.
#[derive(Debug, Clone, Copy, PartialEq, Eq, Structural)]
pub enum StreamKind {
    Hls,
    Mp4,
}

/// A stream URL with the headers that its server expects.
#[derive(Debug, Clone)]
pub struct StreamResolution {
    pub url: String,
    pub kind: StreamKind,
    pub referer: String,
    pub origin: String,
}

/// The browser identity sent with every request.
pub const USER_AGENT_STR: &'static str =
    "Mozilla/5.0 (Windows NT 10.0; Win64; x64) AppleWebKit/537.36 (KHTML, like Gecko) Chrome/120.0.0.0 Safari/537.36";

/// The header block handed to FFmpeg for a stream.
pub open spec fn headers_block(referer: Seq<char>, origin: Seq<char>) -> Seq<char> {
    "Referer: "@ + referer + "\r\nOrigin: "@ + origin + "\r\nUser-Agent: "@ + USER_AGENT_STR@
        + "\r\n"@
}

/// Builds the FFmpeg header block for `referer` and `origin`.
pub fn headers_arg(referer: &str, origin: &str) -> (r: String)
    ensures
        r@ == headers_block(referer@, origin@),
{
    let mut r = own("Referer: ");
    append(&mut r, referer);
    append(&mut r, "\r\nOrigin: ");
    append(&mut r, origin);
    append(&mut r, "\r\nUser-Agent: ");
    append(&mut r, USER_AGENT_STR);
    append(&mut r, "\r\n");
    r
}

impl StreamResolution {
    pub fn ffmpeg_headers_arg(&self) -> (r: String)
        ensures
            r@ == headers_block(self.referer@, self.origin@),
    {
        headers_arg(self.referer.as_str(), self.origin.as_str())
    }
}

/// The headers sent when fetching from a site: the browser identity, the
/// site as origin, and as referer the one given when it may be a header
/// value, else the site.
pub open spec fn site_header_list(base: Seq<char>, referer: Option<Seq<char>>) -> Seq<(Seq<char>, Seq<char>)> {
    let r = match referer {
        Some(v) => if header_text(v) {
            v
        } else {
            base
        },
        None => base,
    };
    seq![("user-agent"@, USER_AGENT_STR@), ("referer"@, r), ("origin"@, base)]
}

/// The headers sent when fetching from the site at `base`.
pub fn site_headers(base: &str, referer: Option<&str>) -> (r: Vec<(String, String)>)
    ensures
        r.deep_view() == site_header_list(
            base@,
            match referer {
                Some(v) => Some(v@),
                None => None,
            },
        ),
{
    let chosen = match referer {
        Some(v) => if header_value_accepted(v) {
            v
        } else {
            base
        },
        None => base,
    };
    let mut r: Vec<(String, String)> = Vec::new();
    r.push((own("user-agent"), own(USER_AGENT_STR)));
    r.push((own("referer"), own(chosen)));
    r.push((own("origin"), own(base)));
    assert(r.deep_view() =~= site_header_list(
        base@,
        match referer {
            Some(v) => Some(v@),
            None => None,
        },
    ));
    r
}

/// A link as a site resolves it: absolute links are kept, paths are put under
/// `base`; surrounding whitespace is dropped first.
pub open spec fn normalized(base: Seq<char>, input: Seq<char>) -> Seq<char> {
    let t = trim(input);
    if starts(t, "http://"@) || starts(t, "https://"@) {
        t
    } else if starts(t, "/"@) {
        base + t
    } else {
        base + "/"@ + t
    }
}

/// A web root followed by anything still starts with the root's scheme and
/// is its own trim when what follows ends with no whitespace.
proof fn lemma_rooted(base: Seq<char>, scheme: Seq<char>, rest: Seq<char>)
    requires
        starts(base, scheme),
        scheme.len() > 0,
        !is_ws(scheme[0]),
        rest.len() > 0 ==> !is_ws(rest.last()),
        rest.len() == 0 ==> !is_ws(base.last()),
    ensures
        starts(base + rest, scheme),
        trim(base + rest) == base + rest,
{
    let r = base + rest;
    assert(r.subrange(0, scheme.len() as int) =~= base.subrange(0, scheme.len() as int));
    assert(r[0] == base[0]);
    assert(base[0] == scheme[0]);
    if rest.len() > 0 {
        assert(r.last() == rest.last());
    } else {
        assert(r =~= base);
    }
    lemma_trim_fixed(r);
}

/// Resolving a link that is already resolved against the same web root
/// changes nothing.
pub proof fn law_normalize_idempotent(base: Seq<char>, input: Seq<char>)
    requires
        starts(base, "http://"@) || starts(base, "https://"@),
    ensures
        normalized(base, normalized(base, input)) == normalized(base, input),
{
    reveal_strlit("http://");
    reveal_strlit("https://");
    reveal_strlit("/");
    let scheme = if starts(base, "http://"@) {
        "http://"@
    } else {
        "https://"@
    };
    let t = trim(input);
    lemma_trim_shape(input);
    lemma_trim_idempotent(input);
    if starts(t, "http://"@) || starts(t, "https://"@) {
    } else if starts(t, "/"@) {
        lemma_rooted(base, scheme, t);
        assert(starts(base + t, scheme));
    } else {
        let rest = "/"@ + t;
        if t.len() > 0 {
            assert(rest.last() == t.last());
        } else {
            assert(rest.last() == '/');
        }
        lemma_rooted(base, scheme, rest);
        assert(base + "/"@ + t =~= base + rest);
    }
}

/// Resolves `input` against the site root `base`.
pub fn normalize_with_base(base: &str, input: &str) -> (r: String)
    ensures
        r@ == normalized(base@, input@),
{
    let v = chars_of(input);
    let (a, b) = trim_bounds(&v);
    let t = string_of(&v, a, b);
    let tv = chars_of(t.as_str());
    if starts_with_str(&tv, "http://") || starts_with_str(&tv, "https://") {
        t
    } else if starts_with_str(&tv, "/") {
        let mut r = own(base);
        append(&mut r, t.as_str());
        r
    } else {
        let mut r = own(base);
        append(&mut r, "/");
        append(&mut r, t.as_str());
        r
    }
}

/// What every source can say about its links.
pub trait AnimeSource {
    spec fn spec_id(&self) -> AnimeSourceId;

    spec fn spec_base_url(&self) -> Seq<char>;

    spec fn spec_is_episode_url(&self, url: Seq<char>) -> bool;

    spec fn spec_is_supported_watch_url(&self, url: Seq<char>) -> bool;

    fn id(&self) -> (r: SourceId)
        ensures
            r == self.spec_id(),
    ;

    fn base_url(&self) -> (r: &'static str)
        ensures
            r@ == self.spec_base_url(),
    ;

    fn normalize_url(&self, input: &str) -> (r: String)
        ensures
            r@ == normalized(self.spec_base_url(), input@),
    ;

    fn is_episode_url(&self, url: &str) -> (r: bool)
        ensures
            r == self.spec_is_episode_url(url@),
    ;

    fn is_supported_watch_url(&self, url: &str) -> (r: bool)
        ensures
            r == self.spec_is_supported_watch_url(url@),
    ;

    /// The referer to send when fetching an image: the site root.
    fn image_referer(&self, image_url: &str) -> (r: Option<&'static str>)
        ensures
            r matches Some(b) && b@ == self.spec_base_url(),
    {
        Some(self.base_url())
    }
}

/// One of the sources the app knows, as `SourceRegistry::get` hands it out.
pub enum RegisteredSource {
    Sushianimes(sushianimes::SushiSource),
    Goyabu(goyabu::GoyabuSource),
    Meusanimes(meusanimes::MeusanimesSource),
    Animesonlinecc(animesonlinecc::AnimesonlineccSource),
    Animesdigital(animesdigital::AnimesdigitalSource),
}

impl AnimeSource for RegisteredSource {
    open spec fn spec_id(&self) -> AnimeSourceId {
        match self {
            RegisteredSource::Sushianimes(s) => s.spec_id(),
            RegisteredSource::Goyabu(s) => s.spec_id(),
            RegisteredSource::Meusanimes(s) => s.spec_id(),
            RegisteredSource::Animesonlinecc(s) => s.spec_id(),
            RegisteredSource::Animesdigital(s) => s.spec_id(),
        }
    }

    open spec fn spec_base_url(&self) -> Seq<char> {
        match self {
            RegisteredSource::Sushianimes(s) => s.spec_base_url(),
            RegisteredSource::Goyabu(s) => s.spec_base_url(),
            RegisteredSource::Meusanimes(s) => s.spec_base_url(),
            RegisteredSource::Animesonlinecc(s) => s.spec_base_url(),
            RegisteredSource::Animesdigital(s) => s.spec_base_url(),
        }
    }

    open spec fn spec_is_episode_url(&self, url: Seq<char>) -> bool {
        match self {
            RegisteredSource::Sushianimes(s) => s.spec_is_episode_url(url),
            RegisteredSource::Goyabu(s) => s.spec_is_episode_url(url),
            RegisteredSource::Meusanimes(s) => s.spec_is_episode_url(url),
            RegisteredSource::Animesonlinecc(s) => s.spec_is_episode_url(url),
            RegisteredSource::Animesdigital(s) => s.spec_is_episode_url(url),
        }
    }

    open spec fn spec_is_supported_watch_url(&self, url: Seq<char>) -> bool {
        match self {
            RegisteredSource::Sushianimes(s) => s.spec_is_supported_watch_url(url),
            RegisteredSource::Goyabu(s) => s.spec_is_supported_watch_url(url),
            RegisteredSource::Meusanimes(s) => s.spec_is_supported_watch_url(url),
            RegisteredSource::Animesonlinecc(s) => s.spec_is_supported_watch_url(url),
            RegisteredSource::Animesdigital(s) => s.spec_is_supported_watch_url(url),
        }
    }

    fn id(&self) -> SourceId {
        match self {
            RegisteredSource::Sushianimes(s) => s.id(),
            RegisteredSource::Goyabu(s) => s.id(),
            RegisteredSource::Meusanimes(s) => s.id(),
            RegisteredSource::Animesonlinecc(s) => s.id(),
            RegisteredSource::Animesdigital(s) => s.id(),
        }
    }

    fn base_url(&self) -> &'static str {
        match self {
            RegisteredSource::Sushianimes(s) => s.base_url(),
            RegisteredSource::Goyabu(s) => s.base_url(),
            RegisteredSource::Meusanimes(s) => s.base_url(),
            RegisteredSource::Animesonlinecc(s) => s.base_url(),
            RegisteredSource::Animesdigital(s) => s.base_url(),
        }
    }

    fn normalize_url(&self, input: &str) -> String {
        match self {
            RegisteredSource::Sushianimes(s) => s.normalize_url(input),
            RegisteredSource::Goyabu(s) => s.normalize_url(input),
            RegisteredSource::Meusanimes(s) => s.normalize_url(input),
            RegisteredSource::Animesonlinecc(s) => s.normalize_url(input),
            RegisteredSource::Animesdigital(s) => s.normalize_url(input),
        }
    }

    fn is_episode_url(&self, url: &str) -> bool {
        match self {
            RegisteredSource::Sushianimes(s) => s.is_episode_url(url),
            RegisteredSource::Goyabu(s) => s.is_episode_url(url),
            RegisteredSource::Meusanimes(s) => s.is_episode_url(url),
            RegisteredSource::Animesonlinecc(s) => s.is_episode_url(url),
            RegisteredSource::Animesdigital(s) => s.is_episode_url(url),
        }
    }

    fn is_supported_watch_url(&self, url: &str) -> bool {
        match self {
            RegisteredSource::Sushianimes(s) => s.is_supported_watch_url(url),
            RegisteredSource::Goyabu(s) => s.is_supported_watch_url(url),
            RegisteredSource::Meusanimes(s) => s.is_supported_watch_url(url),
            RegisteredSource::Animesonlinecc(s) => s.is_supported_watch_url(url),
            RegisteredSource::Animesdigital(s) => s.is_supported_watch_url(url),
        }
    }
}

/// Ties links to sources.
pub struct SourceRegistry;

impl SourceRegistry {
    /// The source with the given id.
    pub fn get(id: SourceId) -> (r: RegisteredSource)
        ensures
            r.spec_id() == id,
    {
        match id {
            AnimeSourceId::Sushianimes => RegisteredSource::Sushianimes(sushianimes::SushiSource),
            AnimeSourceId::Goyabu => RegisteredSource::Goyabu(goyabu::GoyabuSource),
            AnimeSourceId::Meusanimes => RegisteredSource::Meusanimes(meusanimes::MeusanimesSource),
            AnimeSourceId::Animesonlinecc => RegisteredSource::Animesonlinecc(
                animesonlinecc::AnimesonlineccSource,
            ),
            AnimeSourceId::Animesdigital => RegisteredSource::Animesdigital(
                animesdigital::AnimesdigitalSource,
            ),
        }
    }

    /// The source that `url` belongs to, or `UnknownSource`.
    pub fn for_url(url: &str) -> (r: Result<SourceId, SourceError>)
        ensures
            match r {
                Ok(id) => crate::models::source_of_lowercase(lowercase(url@)) == Some(id),
                Err(e) => crate::models::source_of_lowercase(lowercase(url@)) is None
                    && e is UnknownSource,
            },
    {
        match AnimeSourceId::detect_from_url(url) {
            Some(id) => Ok(id),
            None => Err(SourceError::UnknownSource),
        }
    }
}

/// The source that `url` belongs to.
pub fn source_for_url(url: &str) -> (r: Result<SourceId, SourceError>)
    ensures
        match r {
            Ok(id) => crate::models::source_of_lowercase(lowercase(url@)) == Some(id),
            Err(e) => crate::models::source_of_lowercase(lowercase(url@)) is None
                && e is UnknownSource,
        },
{
    match AnimeSourceId::detect_from_url(url) {
        Some(id) => Ok(id),
        None => Err(SourceError::UnknownSource),
    }
}

} // verus!
