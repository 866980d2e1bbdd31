//! The decisions taken while one download runs: whether an existing file is
//! kept, how a stream is fetched and when to fall back to FFmpeg, how often
//! progress is reported, and what the transfer's result means for the queue.

use vstd::prelude::*;
use crate::outside::{lowercase, to_lowercase};
use crate::sources::StreamKind;
use crate::sources::stream::{kind_of, kind_of_lower};
use crate::text::{
    append, chars_of, contains_str, decimal, has_sub, own, push_decimal, starts, starts_with_str,
    str_eq,
};

verus! {

/// Progress is shown at most this often, in milliseconds.
pub const PROGRESS_EMIT_MIN_MS: u64 = 500;

/// Progress is saved at most this often, in milliseconds.
pub const PROGRESS_PERSIST_MIN_MS: u64 = 1000;

/// A direct download reports progress at least every this many bytes.
pub const MP4_PROGRESS_CHUNK_BYTES: u64 = 512 * 1024;

/// A direct download with no data for this many seconds has stalled.
pub const MP4_STALL_TIMEOUT_SECS: u64 = 60;

/// What to do with a file already at the output path.
#[derive(Debug, Clone, Copy, PartialEq, Eq, Structural)]
pub enum ExistingFile {
    /// It is a good episode and may not be overwritten: the download is done.
    Keep,
    /// It is too small: remove it, then download.
    Remove,
    /// Download over it (or there is none).
    Download,
}

/// The plan for an output path: `exists`, whether the settings allow
/// overwriting, whether the file is too small (`redownload`), and whether it
/// passes the episode check (`valid`).
pub open spec fn existing_plan(exists: bool, overwrite: bool, redownload: bool, valid: bool) -> ExistingFile {
    if exists && !overwrite && !redownload && valid {
        ExistingFile::Keep
    } else if exists && redownload {
        ExistingFile::Remove
    } else {
        ExistingFile::Download
    }
}

/// Decides what to do with a file already at the output path.
pub fn existing_file_plan(exists: bool, overwrite: bool, redownload: bool, valid: bool) -> (r: ExistingFile)
    ensures
        r == existing_plan(exists, overwrite, redownload, valid),
{
    if exists && !overwrite && !redownload && valid {
        ExistingFile::Keep
    } else if exists && redownload {
        ExistingFile::Remove
    } else {
        ExistingFile::Download
    }
}

/// The kind a stream is fetched as: what its URL shows, else what the source said.
pub open spec fn effective_kind(url: Seq<char>, kind: StreamKind) -> StreamKind {
    match kind_of(lowercase(url)) {
        Some(k) => k,
        None => kind,
    }
}

/// The stream needs FFmpeg: the source or its URL says it is a playlist.
pub open spec fn ffmpeg_needed(url: Seq<char>, kind: StreamKind) -> bool {
    kind == StreamKind::Hls || kind_of(lowercase(url)) == Some(StreamKind::Hls)
}

/// The kind a stream is fetched as.
pub fn effective_stream_kind(url: &str, kind: StreamKind) -> (r: StreamKind)
    ensures
        r == effective_kind(url@, kind),
{
    let lower = chars_of(to_lowercase(url).as_str());
    match kind_of_lower(&lower) {
        Some(k) => k,
        None => kind,
    }
}

/// Whether the stream needs FFmpeg.
pub fn needs_ffmpeg(url: &str, kind: StreamKind) -> (r: bool)
    ensures
        r == ffmpeg_needed(url@, kind),
{
    let lower = chars_of(to_lowercase(url).as_str());
    kind == StreamKind::Hls || kind_of_lower(&lower) == Some(StreamKind::Hls)
}

/// A direct download that failed with `err` is tried again through FFmpeg:
/// it was fetched as a file, and the error or the stream says it is a playlist.
pub open spec fn hls_fallback(url: Seq<char>, kind: StreamKind, err: Seq<char>) -> bool {
    effective_kind(url, kind) == StreamKind::Mp4 && (has_sub(err, "playlist HLS"@) || has_sub(
        err,
        "mpegurl"@,
    ) || ffmpeg_needed(url, kind))
}

/// Whether a direct download that failed with `err` is tried again through FFmpeg.
pub fn try_hls_fallback(url: &str, kind: StreamKind, err: &str) -> (r: bool)
    ensures
        r == hls_fallback(url@, kind, err@),
{
    let e = chars_of(err);
    effective_stream_kind(url, kind) == StreamKind::Mp4 && (contains_str(&e, "playlist HLS")
        || contains_str(&e, "mpegurl") || needs_ffmpeg(url, kind))
}

/// The error of a failed fallback: the first error, then the fallback's.
pub fn fallback_error(primary: &str, fallback: &str) -> (r: String)
    ensures
        r@ == primary@ + "; fallback HLS: "@ + fallback@,
{
    let mut r = own(primary);
    append(&mut r, "; fallback HLS: ");
    append(&mut r, fallback);
    r
}

/// The message with which a transfer stops on request.
pub open spec fn stop_message(paused: bool) -> Seq<char> {
    if paused {
        "Pausado"@
    } else {
        "Cancelado"@
    }
}

/// The message with which a transfer stops: paused when a pause is pending,
/// cancelled otherwise.
pub fn stopped_message(paused: bool) -> (r: String)
    ensures
        r@ == stop_message(paused),
{
    if paused {
        own("Pausado")
    } else {
        own("Cancelado")
    }
}

/// Whether an error is one of the two stop messages.
pub fn is_stop_message(err: &str) -> (r: bool)
    ensures
        r == (err@ == stop_message(true) || err@ == stop_message(false)),
{
    str_eq(err, "Cancelado") || str_eq(err, "Pausado")
}

/// How a finished transfer ends for the queue.
#[derive(Debug, Clone)]
pub enum Finish {
    /// The file is a good episode.
    Complete,
    /// The transfer stopped on request.
    Stopped,
    /// The transfer or the file failed, with this message; the file is removed.
    Failed(String),
}

/// Decides how a finished transfer ends: complete when it succeeded and the
/// file passed `check`, stopped when it ended with a stop message, failed
/// with its message otherwise.
pub fn finish(result: Result<(), String>, check: Result<(), String>) -> (r: Finish)
    ensures
        match result {
            Ok(()) => match check {
                Ok(()) => r is Complete,
                Err(e) => r matches Finish::Failed(m) && m@ == e@,
            },
            Err(e) => if e@ == stop_message(true) || e@ == stop_message(false) {
                r is Stopped
            } else {
                r matches Finish::Failed(m) && m@ == e@
            },
        },
{
    match result {
        Ok(()) => match check {
            Ok(()) => Finish::Complete,
            Err(e) => Finish::Failed(e),
        },
        Err(e) => if is_stop_message(e.as_str()) {
            Finish::Stopped
        } else {
            Finish::Failed(e)
        },
    }
}

/// A response with this content type (lowercased) is a playlist or a page,
/// not a video file.
pub open spec fn playlist_type(lower: Seq<char>) -> bool {
    has_sub(lower, "mpegurl"@) || has_sub(lower, "application/x-mpegurl"@) || starts(
        lower,
        "text/plain"@,
    ) || starts(lower, "text/html"@)
}

/// Whether a response's content type (`None`: there is none) shows a
/// playlist or a page instead of a video file.
pub fn is_playlist_content_type(value: Option<&str>) -> (r: bool)
    ensures
        r == match value {
            None => false,
            Some(v) => playlist_type(lowercase(v@)),
        },
{
    match value {
        None => false,
        Some(v) => {
            let ct = chars_of(to_lowercase(v).as_str());
            contains_str(&ct, "mpegurl") || contains_str(&ct, "application/x-mpegurl")
                || starts_with_str(&ct, "text/plain") || starts_with_str(&ct, "text/html")
        },
    }
}

/// The error of a direct download that got a playlist.
pub fn playlist_response_error() -> (r: String)
    ensures
        r@ == "Resposta é playlist HLS, não MP4 direto"@,
{
    own("Resposta é playlist HLS, não MP4 direto")
}

/// The error of a stalled direct download.
pub fn stall_error() -> (r: String)
    ensures
        r@ == "Download travado (sem progresso há "@ + decimal(MP4_STALL_TIMEOUT_SECS as nat) + "s)"@,
{
    let mut r = own("Download travado (sem progresso há ");
    push_decimal(&mut r, MP4_STALL_TIMEOUT_SECS as u32);
    append(&mut r, "s)");
    r
}

/// Whether a direct download reports progress: enough new bytes since the
/// last report, or enough time.
pub fn should_report_chunk(downloaded: u64, last_reported: u64, elapsed_ms: u64) -> (r: bool)
    ensures
        r == ((if downloaded >= last_reported { downloaded - last_reported } else { 0 })
            >= MP4_PROGRESS_CHUNK_BYTES || elapsed_ms >= PROGRESS_EMIT_MIN_MS),
{
    let grown = if downloaded >= last_reported {
        downloaded - last_reported
    } else {
        0
    };
    grown >= MP4_PROGRESS_CHUNK_BYTES || elapsed_ms >= PROGRESS_EMIT_MIN_MS
}

/// Whether a progress report is shown and whether it is saved: shown after
/// enough time or a large jump (`jumped`), saved when forced or after enough time.
pub fn throttle(since_emit_ms: u64, since_persist_ms: u64, jumped: bool, force_persist: bool) -> (r: (
    bool,
    bool,
))
    ensures
        r.0 == (since_emit_ms >= PROGRESS_EMIT_MIN_MS || jumped),
        r.1 == (force_persist || since_persist_ms >= PROGRESS_PERSIST_MIN_MS),
{
    (since_emit_ms >= PROGRESS_EMIT_MIN_MS || jumped, force_persist || since_persist_ms
        >= PROGRESS_PERSIST_MIN_MS)
}

/// The status line while FFmpeg connects, after `secs` seconds.
pub fn connecting_label(secs: u32) -> (r: String)
    ensures
        r@ == "Conectando ao stream... ("@ + decimal(secs as nat) + "s)"@,
{
    let mut r = own("Conectando ao stream... (");
    push_decimal(&mut r, secs);
    append(&mut r, "s)");
    r
}

/// The status line when FFmpeg has made no progress for `secs` seconds.
pub fn stall_label(secs: u32) -> (r: String)
    ensures
        r@ == "Sem progresso há "@ + decimal(secs as nat) + "s…"@,
{
    let mut r = own("Sem progresso há ");
    push_decimal(&mut r, secs);
    append(&mut r, "s…");
    r
}

} // verus!
