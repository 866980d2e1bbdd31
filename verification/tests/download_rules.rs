use minha_princesa_animes::download::ffmpeg::{
    find_ffmpeg_entry, ffmpeg_info, is_ffmpeg_package, remembered_ffmpeg, resolve_ffmpeg_path,
    FfmpegResolution, FfmpegSource,
};
use minha_princesa_animes::download::hls::{
    ffmpeg_args, hls_outcome, run_result, watch_step, HlsError, ProcessState, WatchEvent, WatchStep,
};
use minha_princesa_animes::download::naming::{apply_numeric_placeholder, build_output_path, sanitize_filename};
use minha_princesa_animes::download::poster::{find_poster_on_disk, poster_dir, guess_image_mime, image_extension, poster_candidates};
use minha_princesa_animes::download::process_util::hide_console;
use minha_princesa_animes::download::validate::{file_error_message, is_valid_episode_file, should_redownload, EpisodeFileError, MIN_EPISODE_BYTES};
use minha_princesa_animes::download::wakelock::{WakeCounter, WakeGuard};
use minha_princesa_animes::download::worker::{fallback_error, finish, is_stop_message, stopped_message, Finish};
use minha_princesa_animes::models::{AppSettings, EpisodeInfo};

fn episode(number: u32, season: u32, title: &str) -> EpisodeInfo {
    EpisodeInfo {
        number,
        season,
        title: title.to_string(),
        description: None,
        url: String::new(),
    }
}

#[test]
fn sanitize_removes_forbidden_characters_and_trims() {
    assert_eq!(sanitize_filename("  Re:Zero? <Part/2>  "), "ReZero Part2");
    assert_eq!(sanitize_filename("a\0b"), "ab");
}

#[test]
fn sanitized_names_hold_no_nul_and_stay_trimmed() {
    for name in ["  x\0 ", " \0 Re:Zero\t", "\0\0", "<a>|b"] {
        let once = sanitize_filename(name);
        assert!(!once.contains('\0'));
        assert_eq!(once.trim(), once);
        assert_eq!(sanitize_filename(&once), once);
    }
    assert_eq!(sanitize_filename(" \0 Re:Zero\t"), "ReZero");
    let dirty = " a<b>c:d\"e/f\\g|h?i*j\0 ";
    let clean = sanitize_filename(dirty);
    assert_eq!(clean, "abcdefghij");
    assert!(!clean.chars().any(|c| "<>:\"/\\|?*\0".contains(c)));
    assert_eq!(sanitize_filename(&clean), clean);
}

#[test]
fn numeric_placeholder_pads_and_plain() {
    assert_eq!(apply_numeric_placeholder("S{season:02}/{season}", "season", 3), "S03/3");
    assert_eq!(apply_numeric_placeholder("E{episode:02}", "episode", 123), "E123");
}

#[test]
fn output_path_fills_the_default_template() {
    let settings = AppSettings::with_download_folder("/downloads".to_string());
    let path = build_output_path(&settings, "Re:Zero", &episode(5, 1, "A Nova Vida"));
    assert_eq!(path, "/downloads/ReZero/Season 1/ReZero - S01E05 - A Nova Vida.mp4");
}

#[test]
fn poster_folder_is_above_the_season_folders() {
    let settings = AppSettings::with_download_folder("/downloads".to_string());
    for (anime, ep) in [
        ("Re:Zero", episode(5, 1, "A Nova Vida")),
        (" One/Piece ", episode(1000, 21, "Fim?")),
        ("Bleach", episode(3, 2, "{episode} de {season}/{anime}")),
    ] {
        let path = build_output_path(&settings, anime, &ep);
        let grand = std::path::Path::new(&path).parent().and_then(std::path::Path::parent);
        assert_eq!(grand, Some(std::path::Path::new(&poster_dir(&settings, anime))));
    }
    assert_eq!(poster_dir(&settings, " One/Piece "), "/downloads/OnePiece");
    assert_eq!(
        build_output_path(&settings, "Bleach", &episode(3, 2, "{episode} de {season}/{anime}")),
        "/downloads/Bleach/Season 2/Bleach - S02E03 - 3 de 2{anime}.mp4"
    );
}

#[test]
fn output_path_keeps_an_absolute_template() {
    let mut settings = AppSettings::with_download_folder("/downloads".to_string());
    settings.naming_template = "/videos/{anime} {episode}.mp4".to_string();
    let path = build_output_path(&settings, "Show", &episode(7, 1, "x"));
    assert_eq!(path, "/videos/Show 7.mp4");
}

#[test]
fn rejects_small_file() {
    assert!(should_redownload(Some(4)));
    assert!(!should_redownload(Some(MIN_EPISODE_BYTES)));
    assert!(!should_redownload(None));
    let r = is_valid_episode_file(Ok(4), Ok(b"tiny".to_vec()));
    assert!(matches!(r, Err(EpisodeFileError::Incomplete(4))));
}

#[test]
fn rejects_html() {
    let mut data = vec![0u8; 16];
    data[..15].copy_from_slice(b"<!DOCTYPE html>");
    let r = is_valid_episode_file(Ok(MIN_EPISODE_BYTES + 1), Ok(data));
    assert!(matches!(r, Err(EpisodeFileError::Html)));
}

#[test]
fn episode_file_errors_each_arise() {
    assert!(matches!(is_valid_episode_file(Err("gone".to_string()), Ok(vec![])), Err(EpisodeFileError::Missing(_))));
    assert!(matches!(
        is_valid_episode_file(Ok(MIN_EPISODE_BYTES), Err("denied".to_string())),
        Err(EpisodeFileError::Unreadable(_))
    ));
    assert!(matches!(is_valid_episode_file(Ok(MIN_EPISODE_BYTES), Ok(vec![])), Err(EpisodeFileError::Empty)));
    let mut mp4 = vec![0u8; 16];
    mp4[4..8].copy_from_slice(b"ftyp");
    assert!(is_valid_episode_file(Ok(MIN_EPISODE_BYTES), Ok(mp4)).is_ok());
    assert!(is_valid_episode_file(Ok(MIN_EPISODE_BYTES), Ok(b"<HTML><body>".to_vec())).is_err());
}

#[test]
fn configured_ffmpeg_wins_when_it_runs() {
    let candidates = vec![("bundled.exe".to_string(), FfmpegSource::Bundled)];
    let r = resolve_ffmpeg_path("/opt/ffmpeg", true, &candidates, &vec![true]);
    assert_eq!(r.path, "/opt/ffmpeg");
    assert_eq!(r.source, FfmpegSource::Configured);
}

#[test]
fn first_running_candidate_is_chosen() {
    let candidates = vec![
        ("a".to_string(), FfmpegSource::Bundled),
        ("b".to_string(), FfmpegSource::AppData),
        ("ffmpeg".to_string(), FfmpegSource::System),
    ];
    let r = resolve_ffmpeg_path("  ", true, &candidates, &vec![false, true, true]);
    assert_eq!(r.path, "b");
    assert_eq!(r.source, FfmpegSource::AppData);
    let missing = resolve_ffmpeg_path("x", false, &candidates, &vec![false, false, false]);
    assert_eq!(missing.path, "x");
    assert_eq!(missing.source, FfmpegSource::Missing);
}

#[test]
fn ffmpeg_found_is_remembered_only_for_a_blank_setting() {
    let found = FfmpegResolution { path: "C:/ffmpeg.exe".to_string(), source: FfmpegSource::System };
    assert_eq!(remembered_ffmpeg("", &found), Some("C:/ffmpeg.exe".to_string()));
    assert_eq!(remembered_ffmpeg("ffmpeg", &found), Some("C:/ffmpeg.exe".to_string()));
    assert_eq!(remembered_ffmpeg("/custom", &found), None);
    let missing = FfmpegResolution { path: "".to_string(), source: FfmpegSource::Missing };
    assert_eq!(remembered_ffmpeg("", &missing), None);
    let info = ffmpeg_info("", found);
    assert!(info.available);
    assert!(info.auto_managed);
    assert_eq!(info.source, "instalado no sistema");
}

#[test]
fn ffmpeg_archive_entry_and_package_folder() {
    let names = vec![
        "ffmpeg/README.txt".to_string(),
        "ffmpeg-master\\bin\\ffmpeg.exe".to_string(),
        "ffmpeg/bin/ffmpeg.exe".to_string(),
    ];
    assert_eq!(find_ffmpeg_entry(&names), Some(1));
    assert_eq!(find_ffmpeg_entry(&vec!["x/bin/ffprobe.exe".to_string()]), None);
    assert!(is_ffmpeg_package("Gyan.FFmpeg_Microsoft.Winget.Source"));
    assert!(!is_ffmpeg_package("Git.Git"));
}

#[test]
fn console_flag_only_on_windows() {
    assert_eq!(hide_console(true), 0x0800_0000);
    assert_eq!(hide_console(false), 0);
}

#[test]
fn ffmpeg_arguments_in_order() {
    let args = ffmpeg_args("Referer: r\r\n", "https://x/master.m3u8", None);
    let expected: Vec<&str> = vec![
        "-y", "-loglevel", "warning", "-extension_picky", "0", "-headers", "Referer: r\r\n", "-i",
        "https://x/master.m3u8", "-c", "copy", "-bsf:a", "aac_adtstoasc", "output.mp4",
    ];
    assert_eq!(args, expected);
    assert_eq!(ffmpeg_args("h", "u", Some("/out/a.mp4")).last().unwrap(), "/out/a.mp4");
}

#[test]
fn watch_reports_progress_lines_and_stops_on_request() {
    let line = "frame=10 time=00:01:02.00 bitrate=1".to_string();
    assert!(matches!(watch_step(false, WatchEvent::Line(line.clone())), WatchStep::Progress(l) if l == line));
    assert!(matches!(watch_step(false, WatchEvent::Line("Input #0".to_string())), WatchStep::Continue));
    assert!(matches!(watch_step(true, WatchEvent::Line(line)), WatchStep::KillAndFail(HlsError::Cancelled)));
    assert!(matches!(watch_step(false, WatchEvent::Closed), WatchStep::Done(None)));
    assert!(matches!(
        watch_step(false, WatchEvent::Quiet(ProcessState::Exited { success: true, code: Some(0) })),
        WatchStep::Done(Some((true, Some(0))))
    ));
    assert!(matches!(watch_step(false, WatchEvent::Quiet(ProcessState::Running)), WatchStep::Continue));
    assert!(matches!(
        watch_step(false, WatchEvent::Quiet(ProcessState::WaitFailed("e".to_string()))),
        WatchStep::Fail(HlsError::Io(_))
    ));
    assert!(matches!(
        watch_step(false, WatchEvent::ReadFailed("e".to_string())),
        WatchStep::KillAndFail(HlsError::Io(_))
    ));
}

#[test]
fn run_end_is_read_from_the_exit_status() {
    assert!(hls_outcome(false, Some((true, Some(0)))).is_ok());
    assert!(matches!(hls_outcome(true, Some((true, Some(0)))), Err(HlsError::Cancelled)));
    match hls_outcome(false, Some((false, Some(1)))) {
        Err(HlsError::Failed(m)) => assert_eq!(m, "exit code Some(1)"),
        _ => panic!("expected a failure"),
    }
    match hls_outcome(false, Some((false, Some(-22)))) {
        Err(HlsError::Failed(m)) => assert_eq!(m, format!("exit code {:?}", Some(-22))),
        _ => panic!("expected a failure"),
    }
    match hls_outcome(false, Some((false, None))) {
        Err(HlsError::Failed(m)) => assert_eq!(m, "exit code None"),
        _ => panic!("expected a failure"),
    }
    match hls_outcome(false, None) {
        Err(HlsError::Failed(m)) => assert_eq!(m, "FFmpeg terminou sem status"),
        _ => panic!("expected a failure"),
    }
}

#[test]
fn run_result_messages() {
    assert_eq!(run_result(Err(HlsError::Cancelled), true), Err("Pausado".to_string()));
    assert_eq!(run_result(Err(HlsError::Cancelled), false), Err("Cancelado".to_string()));
    assert_eq!(
        run_result(Err(HlsError::Failed("exit code Some(1)".to_string())), false),
        Err("FFmpeg failed: exit code Some(1)".to_string())
    );
    assert_eq!(run_result(Err(HlsError::Io("broken pipe".to_string())), false), Err("IO error: broken pipe".to_string()));
    assert_eq!(HlsError::Cancelled.message(), "Download cancelado");
    assert_eq!(run_result(Ok(()), false), Ok(()));
}

#[test]
fn stop_messages_and_finish() {
    assert_eq!(stopped_message(true), "Pausado");
    assert!(is_stop_message("Cancelado"));
    assert!(!is_stop_message("cancelado"));
    assert!(matches!(finish(Err("Pausado".to_string()), Ok(())), Finish::Stopped));
    assert!(matches!(finish(Ok(()), Ok(())), Finish::Complete));
    assert!(matches!(finish(Ok(()), Err("Arquivo vazio".to_string())), Finish::Failed(m) if m == "Arquivo vazio"));
    assert!(matches!(finish(Err("HTTP 404".to_string()), Ok(())), Finish::Failed(m) if m == "HTTP 404"));
    assert_eq!(fallback_error("a", "b"), "a; fallback HLS: b");
}

#[test]
fn wake_lock_switches_on_first_and_off_last() {
    let mut counter = WakeCounter::new();
    let (g1, on1) = WakeGuard::acquire(&mut counter);
    let (g2, on2) = WakeGuard::acquire(&mut counter);
    assert!(on1);
    assert!(!on2);
    assert!(!g1.release(&mut counter));
    assert!(g2.release(&mut counter));
    assert_eq!(counter.active(), 0);
}

#[test]
fn poster_lookup_takes_the_first_file_present() {
    let settings = AppSettings::with_download_folder("/d".to_string());
    let all = poster_candidates(&settings, "Show: One");
    assert_eq!(all[0], "/d/Show One/poster.jpg");
    assert_eq!(all[3], "/d/Show One/poster.jpeg");
    assert_eq!(
        find_poster_on_disk(&settings, "Show: One", &vec![false, true, true, false]),
        Some("/d/Show One/poster.png".to_string())
    );
    assert_eq!(find_poster_on_disk(&settings, "Show", &vec![false; 4]), None);
}

#[test]
fn image_kind_from_bytes_then_name() {
    assert_eq!(image_extension("x.jpg", b"\x89PNG\r\n"), "png");
    assert_eq!(image_extension("x", b"RIFF\0\0\0\0WEBPVP8 "), "webp");
    assert_eq!(image_extension("HTTP://X/A.WEBP", b"abc"), "webp");
    assert_eq!(image_extension("x.gif", b"abc"), "jpg");
    assert_eq!(guess_image_mime("x.png", b"\xFF\xD8\xFFxx"), "image/jpeg");
}

#[test]
fn rejected_files_get_their_messages() {
    assert_eq!(
        file_error_message(EpisodeFileError::Missing("sem acesso".to_string())).as_deref(),
        Some("Arquivo não encontrado após download: sem acesso")
    );
    assert_eq!(file_error_message(EpisodeFileError::Unreadable("falhou".to_string())).as_deref(), Some("falhou"));
    assert_eq!(file_error_message(EpisodeFileError::Empty).as_deref(), Some("Arquivo vazio"));
    assert_eq!(
        file_error_message(EpisodeFileError::Html).as_deref(),
        Some("Download retornou HTML em vez de vídeo (acesso bloqueado?)")
    );
    assert_eq!(file_error_message(EpisodeFileError::Incomplete(2048)), None);
}
