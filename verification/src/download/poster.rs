//! Anime posters saved beside the episodes: where they go and what kind of
//! image a download is.

use vstd::prelude::*;
use crate::models::AppSettings;
use crate::download::naming::{brace_free, default_file_part, filled, forbidden_chars, law_sanitized_clean, lemma_render_default, lemma_render_general, output_path, rendered_name, sanitize_filename, sanitized};
use crate::models::{default_naming_template, EpisodeInfo};
use crate::outside::{absolute_path, join_path, joined_path, lowercase, to_lowercase};
use crate::text::{append, chars_of, decimal, decimal2, ends, ends_with_str, own, trim, trim_str};

verus! {

/// The folder of an anime's files.
pub open spec fn poster_folder(settings: AppSettings, anime_title: Seq<char>) -> Seq<char> {
    joined_path(settings.download_folder@, sanitized(anime_title))
}

/// The folder of an anime's files: the download folder, then the anime's name.
pub fn poster_dir(settings: &AppSettings, anime_title: &str) -> (r: String)
    ensures
        r@ == poster_folder(*settings, anime_title@),
{
    let name = sanitize_filename(anime_title);
    join_path(settings.download_folder.as_str(), name.as_str())
}

/// The file of an episode under the default template:
/// `<anime> - S<nn>E<nn> - <title>.mp4`, numbers filled in.
pub open spec fn episode_file(anime_title: Seq<char>, episode: EpisodeInfo) -> Seq<char> {
    default_file_part(sanitized(anime_title), sanitized(episode.title@), episode.season, episode.number)
}

/// With the default naming template, every episode of an anime is saved under
/// the anime's folder, the one its poster goes to: the download folder joined
/// with `<anime>/Season <n>/<file>`, where `<anime>` is the name the poster
/// folder joins to the download folder and `<file>` holds no `/`. This holds
/// for every episode when the sanitized anime title holds no `{` that a later
/// placeholder could be read from, and when that name is not an absolute path;
/// for a title without `{` the file is exactly `<anime> - S<nn>E<nn> - <title>.mp4`.
pub proof fn law_poster_beside_seasons(settings: AppSettings, anime_title: Seq<char>, episode: EpisodeInfo)
    requires
        settings.naming_template@ == default_naming_template(),
        brace_free(sanitized(anime_title)),
    ensures
        poster_folder(settings, anime_title) == joined_path(settings.download_folder@, sanitized(anime_title)),
        rendered_name(settings.naming_template@, anime_title, episode) == sanitized(anime_title) + "/Season "@
            + decimal(episode.season as nat) + "/"@ + episode_file(anime_title, episode),
        !episode_file(anime_title, episode).contains('/'),
        brace_free(sanitized(episode.title@)) ==> episode_file(anime_title, episode) == sanitized(anime_title)
            + " - S"@ + decimal2(episode.season as nat) + "E"@ + decimal2(episode.number as nat) + " - "@
            + sanitized(episode.title@) + ".mp4"@,
        !absolute_path(rendered_name(settings.naming_template@, anime_title, episode)) ==> output_path(
            settings,
            anime_title,
            episode,
        ) == joined_path(
            settings.download_folder@,
            sanitized(anime_title) + "/Season "@ + decimal(episode.season as nat) + "/"@ + episode_file(
                anime_title,
                episode,
            ),
        ),
{
    let a = sanitized(anime_title);
    let t = sanitized(episode.title@);
    law_sanitized_clean(anime_title);
    law_sanitized_clean(episode.title@);
    assert(forbidden_chars()[4] == '/');
    assert(!a.contains('/')) by {
        if a.contains('/') {
            let i = choose|i: int| 0 <= i < a.len() && a[i] == '/';
            assert(!forbidden_chars().contains(a[i]));
        }
    }
    assert(!t.contains('/')) by {
        if t.contains('/') {
            let i = choose|i: int| 0 <= i < t.len() && t[i] == '/';
            assert(!forbidden_chars().contains(t[i]));
        }
    }
    lemma_render_general(a, t, episode.season, episode.number);
    let f = episode_file(anime_title, episode);
    let full = filled(default_naming_template(), a, t, episode.season, episode.number);
    let x = a + "/Season "@ + decimal(episode.season as nat) + "/"@;
    assert(full =~= x + f);
    if brace_free(t) {
        lemma_render_default(a, t, episode.season, episode.number);
        let exact = a + " - S"@ + decimal2(episode.season as nat) + "E"@ + decimal2(episode.number as nat) + " - "@
            + t + ".mp4"@;
        assert(full =~= x + exact);
        assert(f =~= full.subrange(x.len() as int, full.len() as int));
        assert(exact =~= full.subrange(x.len() as int, full.len() as int));
    }
}

/// The extensions a saved poster may have, in the order they are looked for.
pub open spec fn poster_extensions() -> Seq<Seq<char>> {
    seq!["jpg"@, "png"@, "webp"@, "jpeg"@]
}

/// The path of the poster with extension `ext`.
pub fn poster_path(settings: &AppSettings, anime_title: &str, ext: &str) -> (r: String)
    ensures
        r@ == joined_path(poster_folder(*settings, anime_title@), "poster."@ + ext@),
{
    let dir = poster_dir(settings, anime_title);
    let mut name = own("poster.");
    append(&mut name, ext);
    join_path(dir.as_str(), name.as_str())
}

/// The paths where a saved poster of the anime is looked for, in order.
pub fn poster_candidates(settings: &AppSettings, anime_title: &str) -> (r: Vec<String>)
    ensures
        r@.len() == 4,
        forall|k: int|
            0 <= k < 4 ==> (#[trigger] r@[k])@ == joined_path(
                poster_folder(*settings, anime_title@),
                "poster."@ + poster_extensions()[k],
            ),
{
    let mut r: Vec<String> = Vec::new();
    r.push(poster_path(settings, anime_title, "jpg"));
    r.push(poster_path(settings, anime_title, "png"));
    r.push(poster_path(settings, anime_title, "webp"));
    r.push(poster_path(settings, anime_title, "jpeg"));
    r
}

/// The saved poster of the anime, if there is one: the first of
/// `poster_candidates` that is a file on disk (`is_file[k]` for candidate `k`).
pub fn find_poster_on_disk(settings: &AppSettings, anime_title: &str, is_file: &Vec<bool>) -> (r: Option<String>)
    requires
        is_file@.len() == 4,
    ensures
        match r {
            Some(p) => exists|k: int|
                0 <= k < 4 && is_file@[k] && (forall|j: int| 0 <= j < k ==> !is_file@[j])
                    && p@ == joined_path(
                    poster_folder(*settings, anime_title@),
                    "poster."@ + poster_extensions()[k],
                ),
            None => forall|k: int| 0 <= k < 4 ==> !is_file@[k],
        },
{
    let candidates = poster_candidates(settings, anime_title);
    let mut k: usize = 0;
    while k < 4
        invariant
            k <= 4,
            is_file@.len() == 4,
            candidates@.len() == 4,
            forall|j: int|
                0 <= j < 4 ==> (#[trigger] candidates@[j])@ == joined_path(
                    poster_folder(*settings, anime_title@),
                    "poster."@ + poster_extensions()[j],
                ),
            forall|j: int| 0 <= j < k ==> !is_file@[j],
        decreases 4 - k,
    {
        if is_file[k] {
            let p = candidates[k].clone();
            assert(candidates@[k as int]@ == joined_path(
                poster_folder(*settings, anime_title@),
                "poster."@ + poster_extensions()[k as int],
            ));
            return Some(p);
        }
        k += 1;
    }
    None
}

/// The bytes begin with `magic`.
pub open spec fn begins(bytes: Seq<u8>, magic: Seq<u8>) -> bool {
    bytes.len() >= magic.len() && bytes.subrange(0, magic.len() as int) == magic
}

/// The bytes are a WebP image: `RIFF`, then `WEBP` at offset 8.
pub open spec fn is_webp(bytes: Seq<u8>) -> bool {
    begins(bytes, seq![0x52u8, 0x49, 0x46, 0x46]) && bytes.len() > 12 && bytes.subrange(8, 12)
        == seq![0x57u8, 0x45, 0x42, 0x50]
}

/// The bytes are a PNG image.
pub open spec fn is_png(bytes: Seq<u8>) -> bool {
    begins(bytes, seq![0x89u8, 0x50, 0x4E, 0x47])
}

/// The bytes are a JPEG image.
pub open spec fn is_jpeg(bytes: Seq<u8>) -> bool {
    begins(bytes, seq![0xFFu8, 0xD8, 0xFF])
}

/// Whether `bytes` begins with `magic`.
fn begins_with(bytes: &[u8], magic: &[u8]) -> (r: bool)
    ensures
        r == begins(bytes@, magic@),
{
    if bytes.len() < magic.len() {
        return false;
    }
    let mut k: usize = 0;
    while k < magic.len()
        invariant
            magic@.len() <= bytes@.len(),
            k <= magic@.len(),
            forall|j: int| 0 <= j < k ==> bytes@[j] == magic@[j],
        decreases magic@.len() - k,
    {
        if bytes[k] != magic[k] {
            assert(bytes@.subrange(0, magic@.len() as int)[k as int] != magic@[k as int]);
            return false;
        }
        k += 1;
    }
    assert(bytes@.subrange(0, magic@.len() as int) =~= magic@);
    true
}

/// Whether `bytes` are a WebP image.
fn webp(bytes: &[u8]) -> (r: bool)
    ensures
        r == is_webp(bytes@),
{
    let riff: [u8; 4] = [0x52, 0x49, 0x46, 0x46];
    assert(riff@ =~= seq![0x52u8, 0x49, 0x46, 0x46]);
    if !begins_with(bytes, &riff) || bytes.len() <= 12 {
        return false;
    }
    let r = bytes[8] == 0x57 && bytes[9] == 0x45 && bytes[10] == 0x42 && bytes[11] == 0x50;
    proof {
        if r {
            assert(bytes@.subrange(8, 12) =~= seq![0x57u8, 0x45, 0x42, 0x50]);
        } else {
            assert(bytes@.subrange(8, 12) != seq![0x57u8, 0x45, 0x42, 0x50]) by {
                let s = bytes@.subrange(8, 12);
                if s == seq![0x57u8, 0x45, 0x42, 0x50] {
                    assert(s[0] == bytes@[8]);
                    assert(s[1] == bytes@[9]);
                    assert(s[2] == bytes@[10]);
                    assert(s[3] == bytes@[11]);
                }
            }
        }
    }
    r
}

/// The extension a downloaded image is saved with: by its first bytes, else
/// by the end of its link, else `jpg`.
pub open spec fn extension_of(url: Seq<char>, bytes: Seq<u8>) -> Seq<char> {
    if is_png(bytes) {
        "png"@
    } else if is_webp(bytes) {
        "webp"@
    } else if ends(lowercase(url), ".png"@) {
        "png"@
    } else if ends(lowercase(url), ".webp"@) {
        "webp"@
    } else {
        "jpg"@
    }
}

/// The extension to save a downloaded image with.
pub fn image_extension(url: &str, bytes: &[u8]) -> (r: &'static str)
    ensures
        r@ == extension_of(url@, bytes@),
{
    let png: [u8; 4] = [0x89, 0x50, 0x4E, 0x47];
    assert(png@ =~= seq![0x89u8, 0x50, 0x4E, 0x47]);
    if begins_with(bytes, &png) {
        "png"
    } else if webp(bytes) {
        "webp"
    } else {
        let lower = chars_of(to_lowercase(url).as_str());
        if ends_with_str(&lower, ".png") {
            "png"
        } else if ends_with_str(&lower, ".webp") {
            "webp"
        } else {
            "jpg"
        }
    }
}

/// The content type of a downloaded image: by its first bytes, else by the
/// end of its link, else JPEG.
pub open spec fn mime_of(url: Seq<char>, bytes: Seq<u8>) -> Seq<char> {
    if is_png(bytes) {
        "image/png"@
    } else if is_jpeg(bytes) {
        "image/jpeg"@
    } else if is_webp(bytes) {
        "image/webp"@
    } else if ends(lowercase(url), ".png"@) {
        "image/png"@
    } else if ends(lowercase(url), ".webp"@) {
        "image/webp"@
    } else {
        "image/jpeg"@
    }
}

/// The content type of a downloaded image.
pub fn guess_image_mime(url: &str, bytes: &[u8]) -> (r: &'static str)
    ensures
        r@ == mime_of(url@, bytes@),
{
    let png: [u8; 4] = [0x89, 0x50, 0x4E, 0x47];
    assert(png@ =~= seq![0x89u8, 0x50, 0x4E, 0x47]);
    let jpeg: [u8; 3] = [0xFF, 0xD8, 0xFF];
    assert(jpeg@ =~= seq![0xFFu8, 0xD8, 0xFF]);
    if begins_with(bytes, &png) {
        return "image/png";
    }
    if begins_with(bytes, &jpeg) {
        return "image/jpeg";
    }
    if webp(bytes) {
        return "image/webp";
    }
    let lower = chars_of(to_lowercase(url).as_str());
    if ends_with_str(&lower, ".png") {
        "image/png"
    } else if ends_with_str(&lower, ".webp") {
        "image/webp"
    } else {
        "image/jpeg"
    }
}

/// The smallest download accepted as a poster, in bytes.
pub const MIN_POSTER_BYTES: usize = 128;

/// The poster link to fetch: `url` trimmed; an error when that is empty.
pub fn poster_url(url: &str) -> (r: Result<String, String>)
    ensures
        match r {
            Ok(t) => t@ == trim(url@) && trim(url@).len() > 0,
            Err(m) => trim(url@).len() == 0 && m@ == "URL da capa vazia"@,
        },
{
    let t = trim_str(url);
    if chars_of(t.as_str()).len() == 0 {
        Err(own("URL da capa vazia"))
    } else {
        Ok(t)
    }
}

/// Whether a downloaded poster of `len` bytes is kept; an error when it is too small.
pub fn check_poster_size(len: usize) -> (r: Result<(), String>)
    ensures
        match r {
            Ok(()) => len >= MIN_POSTER_BYTES,
            Err(m) => len < MIN_POSTER_BYTES && m@ == "Capa muito pequena ou inválida"@,
        },
{
    if len < MIN_POSTER_BYTES {
        Err(own("Capa muito pequena ou inválida"))
    } else {
        Ok(())
    }
}

} // verus!
