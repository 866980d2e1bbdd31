//! Which FFmpeg the app uses: the configured one when it runs, else the
//! first candidate that runs; and what is remembered of the choice.

use vstd::prelude::*;
use crate::outside::{lowercase, to_lowercase};
use crate::text::{chars_of, contains_str, ends_with_str, has_sub, own, replace, replace_str, str_eq, trim, trim_str, ends};

verus! {

/// Where an FFmpeg was found.
#[derive(Debug, Clone, Copy, PartialEq, Eq, Structural)]
pub enum FfmpegSource {
    Configured,
    Bundled,
    AppData,
    System,
    Missing,
}

/// The label shown for where FFmpeg was found.
pub open spec fn source_label(s: FfmpegSource) -> Seq<char> {
    match s {
        FfmpegSource::Configured => "configurado"@,
        FfmpegSource::Bundled => "incluído no app"@,
        FfmpegSource::AppData => "baixado automaticamente"@,
        FfmpegSource::System => "instalado no sistema"@,
        FfmpegSource::Missing => "não encontrado"@,
    }
}

impl FfmpegSource {
    /// The label shown for where FFmpeg was found.
    pub fn label(self) -> (r: &'static str)
        ensures
            r@ == source_label(self),
    {
        match self {
            FfmpegSource::Configured => "configurado",
            FfmpegSource::Bundled => "incluído no app",
            FfmpegSource::AppData => "baixado automaticamente",
            FfmpegSource::System => "instalado no sistema",
            FfmpegSource::Missing => "não encontrado",
        }
    }
}

/// The FFmpeg chosen, and where it was found.
#[derive(Debug, Clone)]
pub struct FfmpegResolution {
    pub path: String,
    pub source: FfmpegSource,
}

/// The first candidate from position `k` on that runs (`runs[j]` tells
/// whether candidate `j` does).
pub open spec fn first_running(runs: Seq<bool>, k: int) -> Option<int>
    decreases runs.len() - k,
{
    if k < 0 || k >= runs.len() {
        None
    } else if runs[k] {
        Some(k)
    } else {
        first_running(runs, k + 1)
    }
}

/// Chooses FFmpeg: the configured path when it is not blank and runs
/// (`configured_runs`), else the first of `candidates` that runs
/// (`runs[k]` for candidate `k`), else the configured path, marked missing.
pub fn resolve_ffmpeg_path(
    configured: &str,
    configured_runs: bool,
    candidates: &Vec<(String, FfmpegSource)>,
    runs: &Vec<bool>,
) -> (r: FfmpegResolution)
    requires
        runs@.len() == candidates@.len(),
    ensures
        trim(configured@).len() > 0 && configured_runs ==> r.path@ == configured@ && r.source
            == FfmpegSource::Configured,
        !(trim(configured@).len() > 0 && configured_runs) ==> match first_running(runs@, 0) {
            Some(k) => r.path@ == candidates@[k].0@ && r.source == candidates@[k].1,
            None => r.path@ == configured@ && r.source == FfmpegSource::Missing,
        },
{
    if chars_of(trim_str(configured).as_str()).len() > 0 && configured_runs {
        return FfmpegResolution { path: own(configured), source: FfmpegSource::Configured };
    }
    let mut k: usize = 0;
    while k < candidates.len()
        invariant
            runs@.len() == candidates@.len(),
            !(trim(configured@).len() > 0 && configured_runs),
            k <= candidates@.len(),
            first_running(runs@, 0) == first_running(runs@, k as int),
        decreases candidates@.len() - k,
    {
        if runs[k] {
            return FfmpegResolution { path: candidates[k].0.clone(), source: candidates[k].1 };
        }
        k += 1;
    }
    FfmpegResolution { path: own(configured), source: FfmpegSource::Missing }
}

/// The error when no FFmpeg runs and none can be fetched.
pub fn missing_ffmpeg_message() -> (r: String)
    ensures
        r@ == "FFmpeg não encontrado. Instale FFmpeg e adicione ao PATH do sistema."@,
{
    own("FFmpeg não encontrado. Instale FFmpeg e adicione ao PATH do sistema.")
}

/// The path to remember in the settings after a resolution: the one found,
/// when FFmpeg was found and the setting was blank or the bare `ffmpeg`.
pub fn remembered_ffmpeg(configured: &str, resolved: &FfmpegResolution) -> (r: Option<String>)
    ensures
        r is Some <==> resolved.source != FfmpegSource::Missing && (trim(configured@).len() == 0
            || configured@ == "ffmpeg"@),
        r matches Some(p) ==> p@ == resolved.path@,
{
    if resolved.source == FfmpegSource::Missing {
        return None;
    }
    if chars_of(trim_str(configured).as_str()).len() == 0 || str_eq(configured, "ffmpeg") {
        Some(resolved.path.clone())
    } else {
        None
    }
}

/// What the settings page shows of FFmpeg.
#[derive(Debug, Clone)]
pub struct FfmpegInfo {
    pub path: String,
    pub available: bool,
    pub source: String,
    pub auto_managed: bool,
}

/// What the settings page shows of a resolution made from the setting `configured`.
pub fn ffmpeg_info(configured: &str, resolved: FfmpegResolution) -> (r: FfmpegInfo)
    ensures
        r.path@ == resolved.path@,
        r.available == (resolved.source != FfmpegSource::Missing),
        r.source@ == source_label(resolved.source),
        r.auto_managed == (trim(configured@).len() == 0),
{
    FfmpegInfo {
        available: resolved.source != FfmpegSource::Missing,
        source: own(resolved.source.label()),
        auto_managed: chars_of(trim_str(configured).as_str()).len() == 0,
        path: resolved.path,
    }
}

/// A package folder of the system's package manager holds FFmpeg: its name,
/// in lower case, mentions `ffmpeg`.
pub fn is_ffmpeg_package(name: &str) -> (r: bool)
    ensures
        r == has_sub(lowercase(name@), "ffmpeg"@),
{
    let lower = to_lowercase(name);
    contains_str(&chars_of(lower.as_str()), "ffmpeg")
}

/// An entry of the FFmpeg archive is the program itself: its name, with
/// backslashes as slashes, ends with `/bin/ffmpeg.exe`.
pub open spec fn is_ffmpeg_entry(name: Seq<char>) -> bool {
    ends(replace(name, seq!['\\'], seq!['/']), "/bin/ffmpeg.exe"@)
}

/// The position of the first archive entry that is the program itself.
pub fn find_ffmpeg_entry(names: &Vec<String>) -> (r: Option<usize>)
    ensures
        match r {
            Some(k) => k < names@.len() && is_ffmpeg_entry(names@[k as int]@) && forall|j: int|
                0 <= j < k ==> !is_ffmpeg_entry(#[trigger] names@[j]@),
            None => forall|j: int| 0 <= j < names@.len() ==> !is_ffmpeg_entry(#[trigger] names@[j]@),
        },
{
    proof {
        reveal_strlit("\\");
        reveal_strlit("/");
        assert("\\"@ =~= seq!['\\']);
        assert("/"@ =~= seq!['/']);
    }
    let mut k: usize = 0;
    while k < names.len()
        invariant
            k <= names@.len(),
            "\\"@ == seq!['\\'],
            "/"@ == seq!['/'],
            forall|j: int| 0 <= j < k ==> !is_ffmpeg_entry(#[trigger] names@[j]@),
        decreases names@.len() - k,
    {
        let n = replace_str(names[k].as_str(), "\\", "/");
        if ends_with_str(&chars_of(n.as_str()), "/bin/ffmpeg.exe") {
            return Some(k);
        }
        k += 1;
    }
    None
}

} // verus!
