use minha_princesa_animes::download::queue::{restored, DownloadManager, ItemUpdate, Progress, QueueItem};
use minha_princesa_animes::models::{DownloadRequest, DownloadStatus, EpisodeInfo};

fn ep(number: u32, season: u32, title: &str) -> EpisodeInfo {
    EpisodeInfo {
        number,
        season,
        title: title.to_string(),
        description: None,
        url: format!("https://example.org/e/{number}"),
    }
}

fn request(title: &str, eps: Vec<EpisodeInfo>) -> DownloadRequest {
    DownloadRequest { anime_title: title.to_string(), episodes: eps }
}

fn status(m: &DownloadManager, id: &str) -> DownloadStatus {
    let i = m.find(id).unwrap();
    m.entry(i).item.status
}

#[test]
fn start_queues_every_episode_with_its_label() {
    let mut m = DownloadManager::new();
    let ids = m.start(&request("Show", vec![ep(1, 1, "Pilot"), ep(12, 2, "End")]), 4, 100);
    assert_eq!(ids.len(), 2);
    assert_ne!(ids[0], ids[1]);
    assert_eq!(m.len(), 2);
    assert_eq!(m.max_concurrent(), 4);
    let e = m.entry(m.find(&ids[1]).unwrap());
    assert_eq!(e.item.episode_label, "S02E12 - End");
    assert_eq!(e.item.status, DownloadStatus::Queued);
    assert_eq!(e.item.progress, Progress::Start);
    assert_eq!(e.item.updated_at, 100);
    assert!(m.has_runnable_jobs());
}

#[test]
fn pause_then_resume_requeues() {
    let mut m = DownloadManager::new();
    let ids = m.start(&request("Show", vec![ep(1, 1, "a")]), 3, 1);
    assert!(m.pause(&ids[0], 2).is_some());
    assert_eq!(status(&m, &ids[0]), DownloadStatus::Paused);
    assert!(!m.has_runnable_jobs());
    assert!(m.pause(&ids[0], 3).is_none());
    assert!(m.resume(&ids[0], 4).is_ok());
    assert_eq!(status(&m, &ids[0]), DownloadStatus::Queued);
    assert!(m.resume(&ids[0], 5).is_err());
    assert!(m.resume("missing", 5).is_err());
}

#[test]
fn cancel_is_final_until_retry() {
    let mut m = DownloadManager::new();
    let ids = m.start(&request("Show", vec![ep(1, 1, "a")]), 3, 1);
    assert!(m.cancel(&ids[0], 2).is_some());
    assert_eq!(status(&m, &ids[0]), DownloadStatus::Cancelled);
    assert!(m.pause(&ids[0], 3).is_none());
    assert!(m.resume(&ids[0], 3).is_err());
    assert!(m.cancel(&ids[0], 3).is_none());
    assert!(m.retry(&ids[0], 2, 4).is_ok());
    assert_eq!(status(&m, &ids[0]), DownloadStatus::Queued);
    assert_eq!(m.max_concurrent(), 2);
}

#[test]
fn retry_refuses_a_running_or_unknown_download() {
    let mut m = DownloadManager::new();
    let ids = m.start(&request("Show", vec![ep(1, 1, "a")]), 3, 1);
    assert!(m.retry(&ids[0], 3, 2).is_err());
    assert!(m.retry("nope", 3, 2).is_err());
}

#[test]
fn worker_updates_follow_the_transfer() {
    let mut m = DownloadManager::new();
    let ids = m.start(&request("Show", vec![ep(1, 1, "a")]), 3, 1);
    assert!(m.update_item(&ids[0], ItemUpdate::Begin, 2).is_some());
    let e = m.entry(0);
    assert_eq!(e.item.status, DownloadStatus::Downloading);
    assert_eq!(e.item.speed, "Resolvendo link do vídeo...");
    m.update_item(&ids[0], ItemUpdate::Progress("2.0 MB/s".to_string()), 3);
    assert_eq!(m.entry(0).item.progress, Progress::Running);
    m.update_item(&ids[0], ItemUpdate::Complete("/d/a.mp4".to_string()), 4);
    let e = m.entry(0);
    assert_eq!(e.item.status, DownloadStatus::Completed);
    assert_eq!(e.item.output_path.as_deref(), Some("/d/a.mp4"));
    assert!(m.update_item("other", ItemUpdate::Fail("x".to_string()), 5).is_none());
}

#[test]
fn a_stop_request_reaches_the_transfer() {
    let mut m = DownloadManager::new();
    let ids = m.start(&request("Show", vec![ep(1, 1, "a"), ep(2, 1, "b")]), 3, 1);
    m.update_item(&ids[0], ItemUpdate::Begin, 2);
    assert!(!m.is_stopped(&ids[0], false));
    m.pause(&ids[0], 3);
    assert!(m.is_stopped(&ids[0], false));
    assert!(m.handle_stop(&ids[0], 4).is_some());
    assert_eq!(status(&m, &ids[0]), DownloadStatus::Paused);
    assert!(m.is_stopped(&ids[1], true));
    assert!(m.handle_stop(&ids[1], 4).is_none());
}

#[test]
fn next_job_is_the_oldest_runnable() {
    let mut m = DownloadManager::new();
    let first = m.start(&request("A", vec![ep(1, 1, "a")]), 3, 50);
    let second = m.start(&request("B", vec![ep(1, 1, "b")]), 3, 10);
    let i = m.next_runnable_job().unwrap();
    assert_eq!(m.entry(i).item.id, second[0]);
    m.pause(&second[0], 60);
    let j = m.next_runnable_job().unwrap();
    assert_eq!(m.entry(j).item.id, first[0]);
}

#[test]
fn title_actions_touch_only_that_anime() {
    let mut m = DownloadManager::new();
    m.start(&request("A", vec![ep(1, 1, "a"), ep(2, 1, "b")]), 3, 1);
    let other = m.start(&request("B", vec![ep(1, 1, "c")]), 3, 1);
    assert_eq!(m.pause_anime("A", 2), 2);
    assert_eq!(status(&m, &other[0]), DownloadStatus::Queued);
    assert_eq!(m.resume_anime("A", 3), 2);
    assert_eq!(m.cancel_anime("A", 4), 2);
    assert_eq!(m.cancel_anime("A", 5), 0);
    assert_eq!(status(&m, &other[0]), DownloadStatus::Queued);
}

#[test]
fn delete_removes_one_download() {
    let mut m = DownloadManager::new();
    let ids = m.start(&request("A", vec![ep(1, 1, "a"), ep(2, 1, "b")]), 3, 1);
    assert!(m.delete(&ids[0]));
    assert_eq!(m.len(), 1);
    assert!(m.find(&ids[0]).is_none());
    assert!(!m.delete(&ids[0]));
}

#[test]
fn limit_is_clamped_and_reports_the_new_slots() {
    let mut m = DownloadManager::new();
    assert_eq!(m.set_max_concurrent(0), 0);
    assert_eq!(m.max_concurrent(), 1);
    assert_eq!(m.set_max_concurrent(50), 9);
    assert_eq!(m.max_concurrent(), 10);
}

fn item(id: &str, status: DownloadStatus, output: Option<&str>) -> QueueItem {
    QueueItem {
        id: id.to_string(),
        anime_title: "A".to_string(),
        episode_label: "S01E01 - a".to_string(),
        episode: ep(1, 1, "a"),
        status,
        progress: Progress::Running,
        speed: "1 MB/s".to_string(),
        output_path: output.map(|s| s.to_string()),
        error: None,
        updated_at: 7,
    }
}

#[test]
fn restore_stops_what_was_running() {
    let r = restored(item("1", DownloadStatus::Downloading, None), false);
    assert_eq!(r.status, DownloadStatus::Failed);
    assert_eq!(r.error.as_deref(), Some("Download interrompido ao fechar o app"));
    let p = restored(item("2", DownloadStatus::Paused, None), false);
    assert_eq!(p.status, DownloadStatus::Paused);
    let gone = restored(item("3", DownloadStatus::Completed, Some("/x.mp4")), false);
    assert_eq!(gone.status, DownloadStatus::Failed);
    assert_eq!(gone.error.as_deref(), Some("Arquivo não encontrado no disco"));
    let kept = restored(item("4", DownloadStatus::Completed, Some("/x.mp4")), true);
    assert_eq!(kept.status, DownloadStatus::Completed);

    let mut m = DownloadManager::new();
    m.restore(vec![item("1", DownloadStatus::Queued, None), item("2", DownloadStatus::Paused, None)], &vec![false, false]);
    assert_eq!(m.len(), 2);
    assert!(!m.has_runnable_jobs());
    assert_eq!(status(&m, "1"), DownloadStatus::Failed);
}

#[test]
fn list_is_newest_first_then_by_title_and_episode() {
    let mut m = DownloadManager::new();
    m.start(&request("B", vec![ep(2, 1, "x"), ep(1, 1, "y")]), 3, 5);
    m.start(&request("A", vec![ep(1, 1, "z")]), 3, 5);
    m.start(&request("C", vec![ep(1, 1, "w")]), 3, 9);
    let l = m.list();
    let order: Vec<(String, u32)> = l.iter().map(|i| (i.anime_title.clone(), i.episode.number)).collect();
    assert_eq!(
        order,
        vec![("C".to_string(), 1), ("A".to_string(), 1), ("B".to_string(), 1), ("B".to_string(), 2)]
    );
}
