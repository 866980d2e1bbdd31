//! Whether a downloaded file is an episode: large enough, and not a web page.

use vstd::prelude::*;
use crate::outside::{lowercase, to_lowercase, utf8_lossy, utf8_lossy_string};
use crate::text::{append, chars_of, contains_str, has_sub, own};

verus! {

/// The smallest file accepted as an episode: 5 MiB.
pub const MIN_EPISODE_BYTES: u64 = 5 * 1024 * 1024;

/// Why a downloaded file is not accepted as an episode.
#[derive(Debug, Clone)]
pub enum EpisodeFileError {
    /// Its size could not be read (the message says why).
    Missing(String),
    /// It has only this many bytes.
    Incomplete(u64),
    /// It could not be opened or read (the message says why).
    Unreadable(String),
    /// Nothing could be read from it.
    Empty,
    /// It begins like a web page.
    Html,
}

/// A file of `size` bytes (`None`: its size cannot be read) is too small to
/// keep, and should be downloaded again.
pub open spec fn too_small(size: Option<u64>) -> bool {
    size matches Some(n) && n < MIN_EPISODE_BYTES
}

/// Whether an existing file of `size` bytes should be downloaded again.
pub fn should_redownload(size: Option<u64>) -> (r: bool)
    ensures
        r == too_small(size),
{
    match size {
        Some(n) => n < MIN_EPISODE_BYTES,
        None => false,
    }
}

/// The first bytes of a file, up to twelve, read as text and lowercased.
pub open spec fn head_text(header: Seq<u8>) -> Seq<char> {
    let n = if header.len() < 12 { header.len() as int } else { 12 };
    lowercase(utf8_lossy(header.subrange(0, n)))
}

/// A file that begins with `header` begins like a web page.
pub open spec fn looks_like_html(header: Seq<u8>) -> bool {
    has_sub(head_text(header), "<html"@) || has_sub(head_text(header), "<!doctype"@)
}

/// The verdict on a downloaded file, from its size (or why it could not be
/// read) and its first bytes (or why they could not be read).
pub open spec fn episode_verdict(size: Result<u64, String>, header: Result<Seq<u8>, String>) -> Result<
    (),
    EpisodeFileError,
> {
    match size {
        Err(e) => Err(EpisodeFileError::Missing(e)),
        Ok(n) => if n < MIN_EPISODE_BYTES {
            Err(EpisodeFileError::Incomplete(n))
        } else {
            match header {
                Err(e) => Err(EpisodeFileError::Unreadable(e)),
                Ok(h) => if h.len() == 0 {
                    Err(EpisodeFileError::Empty)
                } else if looks_like_html(h) {
                    Err(EpisodeFileError::Html)
                } else {
                    Ok(())
                },
            }
        },
    }
}

/// Judges a downloaded file from its size and first bytes (up to sixteen).
/// A file that passes the size check and does not begin like a web page is
/// accepted, whether or not an `ftyp` box follows, as FFmpeg output may lack one.
pub fn is_valid_episode_file(size: Result<u64, String>, header: Result<Vec<u8>, String>) -> (r: Result<
    (),
    EpisodeFileError,
>)
    ensures
        r == episode_verdict(
            size,
            match header {
                Ok(h) => Ok(h@),
                Err(e) => Err(e),
            },
        ),
{
    let n = match size {
        Err(e) => {
            return Err(EpisodeFileError::Missing(e));
        },
        Ok(n) => n,
    };
    if n < MIN_EPISODE_BYTES {
        return Err(EpisodeFileError::Incomplete(n));
    }
    let h = match header {
        Err(e) => {
            return Err(EpisodeFileError::Unreadable(e));
        },
        Ok(h) => h,
    };
    if h.len() == 0 {
        return Err(EpisodeFileError::Empty);
    }
    let take: usize = if h.len() < 12 {
        h.len()
    } else {
        12
    };
    let mut prefix: Vec<u8> = Vec::new();
    let mut k: usize = 0;
    while k < take
        invariant
            k <= take <= h@.len(),
            prefix@ == h@.subrange(0, k as int),
        decreases take - k,
    {
        prefix.push(h[k]);
        k += 1;
        assert(prefix@ =~= h@.subrange(0, k as int));
    }
    let text = chars_of(to_lowercase(utf8_lossy_string(&prefix).as_str()).as_str());
    if contains_str(&text, "<html") || contains_str(&text, "<!doctype") {
        return Err(EpisodeFileError::Html);
    }
    Ok(())
}

/// The message shown for a rejected file, for every reason but an incomplete
/// file (`None`), whose message gives the size in kilobytes with one decimal.
pub fn file_error_message(e: EpisodeFileError) -> (r: Option<String>)
    ensures
        match e {
            EpisodeFileError::Missing(m) => r matches Some(t) && t@ == "Arquivo não encontrado após download: "@ + m@,
            EpisodeFileError::Incomplete(_) => r is None,
            EpisodeFileError::Unreadable(m) => r matches Some(t) && t@ == m@,
            EpisodeFileError::Empty => r matches Some(t) && t@ == "Arquivo vazio"@,
            EpisodeFileError::Html => r matches Some(t) && t@ == "Download retornou HTML em vez de vídeo (acesso bloqueado?)"@,
        },
{
    match e {
        EpisodeFileError::Missing(m) => {
            let mut t = own("Arquivo não encontrado após download: ");
            append(&mut t, m.as_str());
            Some(t)
        },
        EpisodeFileError::Incomplete(_) => None,
        EpisodeFileError::Unreadable(m) => Some(m),
        EpisodeFileError::Empty => Some(own("Arquivo vazio")),
        EpisodeFileError::Html => Some(own("Download retornou HTML em vez de vídeo (acesso bloqueado?)")),
    }
}

} // verus!
