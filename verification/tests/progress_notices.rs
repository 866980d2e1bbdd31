use minha_princesa_animes::download::notify::{
    completed_notice, failed_notice, on_status_changed, queue_idle_notice, truncate, NoticeKind,
};
use minha_princesa_animes::download::poster::{check_poster_size, poster_url};
use minha_princesa_animes::download::worker::{
    connecting_label, effective_stream_kind, existing_file_plan, is_playlist_content_type, needs_ffmpeg,
    playlist_response_error, should_report_chunk, stall_error, stall_label, throttle, try_hls_fallback,
    ExistingFile,
};
use minha_princesa_animes::models::DownloadStatus;
use minha_princesa_animes::sources::StreamKind;

#[test]
fn truncation_keeps_whole_characters() {
    assert_eq!(truncate("short", 10), "short");
    assert_eq!(truncate("abcdef", 3), "abc…");
    assert_eq!(truncate("ééé", 2), "é…");
    assert_eq!(truncate("ééé", 3), "ééé");
}

#[test]
fn notices_for_finished_downloads() {
    let c = completed_notice("Show", "S01E02 - x");
    assert_eq!(c.kind, NoticeKind::Completed);
    assert_eq!(c.body, "Show — S01E02 - x");
    let f = failed_notice("Show", "S01E02 - x", None);
    assert_eq!(f.title, "Download falhou");
    assert_eq!(f.body, "Show — S01E02 - x\nErro desconhecido");
    let long = "x".repeat(200);
    let f2 = failed_notice("Show", "E", Some(&long));
    assert!(f2.body.ends_with(&format!("{}…", "x".repeat(140))));
    assert_eq!(queue_idle_notice(false).title, "Downloads finalizados");
    assert_eq!(queue_idle_notice(true).title, "Fila de downloads finalizada");
    assert!(on_status_changed(true, DownloadStatus::Downloading, DownloadStatus::Completed, "S", "E", None).is_some());
    assert!(on_status_changed(false, DownloadStatus::Downloading, DownloadStatus::Completed, "S", "E", None).is_none());
    assert!(on_status_changed(true, DownloadStatus::Completed, DownloadStatus::Completed, "S", "E", None).is_none());
    assert!(on_status_changed(true, DownloadStatus::Queued, DownloadStatus::Paused, "S", "E", None).is_none());
}

#[test]
fn progress_reports_are_throttled() {
    assert!(should_report_chunk(512 * 1024, 0, 0));
    assert!(!should_report_chunk(1000, 0, 499));
    assert!(should_report_chunk(1000, 0, 500));
    assert!(!should_report_chunk(0, 10, 0));
    assert_eq!(throttle(100, 100, false, false), (false, false));
    assert_eq!(throttle(500, 999, false, false), (true, false));
    assert_eq!(throttle(0, 0, true, true), (true, true));
    assert_eq!(throttle(0, 1000, false, false), (false, true));
}

#[test]
fn status_lines() {
    assert_eq!(connecting_label(12), "Conectando ao stream... (12s)");
    assert_eq!(stall_label(30), "Sem progresso há 30s…");
    assert_eq!(stall_error(), "Download travado (sem progresso há 60s)");
    assert_eq!(playlist_response_error(), "Resposta é playlist HLS, não MP4 direto");
}

#[test]
fn playlist_answers_are_recognised() {
    assert!(is_playlist_content_type(Some("application/vnd.apple.mpegURL")));
    assert!(is_playlist_content_type(Some("Text/HTML; charset=utf-8")));
    assert!(!is_playlist_content_type(Some("video/mp4")));
    assert!(!is_playlist_content_type(None));
}

#[test]
fn stream_kind_follows_the_link() {
    assert_eq!(effective_stream_kind("https://x/a.m3u8", StreamKind::Mp4), StreamKind::Hls);
    assert_eq!(effective_stream_kind("https://x/a.mp4", StreamKind::Hls), StreamKind::Mp4);
    assert_eq!(effective_stream_kind("https://x/video", StreamKind::Hls), StreamKind::Hls);
    assert!(needs_ffmpeg("https://x/a.m3u8", StreamKind::Mp4));
    assert!(!needs_ffmpeg("https://x/a.mp4", StreamKind::Mp4));
    assert!(try_hls_fallback("https://x/a.mp4", StreamKind::Mp4, "Resposta é playlist HLS, não MP4 direto"));
    assert!(!try_hls_fallback("https://x/a.mp4", StreamKind::Mp4, "Cancelado"));
}

#[test]
fn existing_files_are_kept_or_replaced() {
    assert!(matches!(existing_file_plan(false, false, false, false), ExistingFile::Download));
    assert!(matches!(existing_file_plan(true, true, false, true), ExistingFile::Download));
    assert!(matches!(existing_file_plan(true, false, true, true), ExistingFile::Remove));
    assert!(matches!(existing_file_plan(true, false, false, true), ExistingFile::Keep));
}

#[test]
fn poster_links_and_sizes() {
    assert_eq!(poster_url("  ").err(), Some("URL da capa vazia".to_string()));
    assert!(check_poster_size(10).is_err());
    assert!(check_poster_size(128).is_ok());
}
