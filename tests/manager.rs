use nebula_core::http::{
    destination, file_info_from_headers, plan_transfer, range_header, ProgressMeter, TransferPlan,
};
use nebula_core::manager::{Cleanup, Control, EVENT_CHANNEL_CAPACITY};
use nebula_core::torrent::{monitor_tick, start_events, torrent_name, TorrentStats};
use nebula_core::{DownloadEvent, DownloadManager, DownloadSource, ManagerConfig, NebulaError, TaskStatus};

fn manager(torrent: bool) -> DownloadManager {
    let mut config = ManagerConfig::default();
    config.download_dir = "/downloads".to_string();
    DownloadManager::new(config, torrent)
}

#[test]
fn manager_test_source_detection() {
    let m = DownloadManager::new(ManagerConfig::default(), true);
    assert_eq!(m.list_tasks().len(), 0);
    assert_eq!(m.active_task_count(), 0);
}

#[test]
fn empty_save_path_uses_download_dir() {
    let mut m = manager(true);
    let id = m.add_task("https://example.com/a.zip", String::new()).unwrap();
    let t = m.get_task(id).unwrap();
    assert_eq!(t.save_path, "/downloads");
    assert_eq!(m.download_dir(), "/downloads");
    let events = m.take_events();
    assert_eq!(events, vec![DownloadEvent::TaskAdded { task_id: id, name: "a.zip".to_string() }]);
}

#[test]
fn ftp_is_unsupported() {
    let mut m = manager(true);
    let r = m.add_task("ftp://example.com/file", "/tmp".to_string());
    assert_eq!(r, Err(NebulaError::UnsupportedProtocol("FTP".to_string())));
    assert_eq!(m.list_tasks().len(), 1);
}

#[test]
fn torrent_needs_engine() {
    let mut m = manager(false);
    let r = m.add_task("magnet:?xt=urn:btih:abc&dn=demo", "/tmp".to_string());
    assert!(matches!(r, Err(NebulaError::UnsupportedProtocol(_))));
}

#[test]
fn pause_completed_task_is_refused() {
    let mut m = manager(true);
    let id = m.add_task("https://example.com/a.zip", "/tmp".to_string()).unwrap();
    m.mark_dispatched(id);
    m.start_finished(id, Ok(()));
    assert_eq!(m.get_task(id).unwrap().status, TaskStatus::Completed);
    let r = m.pause(id);
    assert_eq!(
        r,
        Err(NebulaError::InvalidTaskState {
            current: "已完成".to_string(),
            action: "pause".to_string()
        })
    );
}

#[test]
fn unknown_task_is_not_found() {
    let mut m = manager(true);
    let id = nebula_core::TaskId::from_string("67e55044-10b1-426f-9247-bb680e5fe0c8").unwrap();
    assert_eq!(
        m.pause(id),
        Err(NebulaError::TaskNotFound("67e55044-10b1-426f-9247-bb680e5fe0c8".to_string()))
    );
    assert!(m.cancel(id, false).is_err());
    assert!(m.get_progress(id).is_err());
    assert!(m.get_task(id).is_none());
}

#[test]
fn http_pause_resume_completes_with_range() {
    let mut m = manager(true);
    let url = "https://example.com/a.zip";
    let id = m.add_task(url, "/tmp".to_string()).unwrap();
    m.mark_dispatched(id);
    assert_eq!(m.active_task_count(), 1);
    let info = file_info_from_headers(url, Some("1000"), Some("bytes"), None);
    assert_eq!(info.size, Some(1000));
    assert!(info.supports_resume);
    let dest = destination("/tmp", true, &info.name);
    assert_eq!(dest, "/tmp/a.zip");
    m.http_register(id, 1000, dest.clone());
    assert_eq!(plan_transfer(0, info.size, info.supports_resume), TransferPlan::Fresh);
    let mut meter = ProgressMeter::new(id, info.size, 0, 0);
    let e = meter.on_chunk(500, 250).unwrap();
    if let DownloadEvent::ProgressUpdated { progress, .. } = &e {
        assert_eq!(progress.downloaded_size, 500);
        assert_eq!(progress.total_size, 1000);
        assert_eq!(progress.download_speed, 2000);
        m.http_record_progress(id, *progress);
    }
    m.pause(id).unwrap();
    assert_eq!(m.http_control(id), Control::Wait);
    assert_eq!(m.get_task(id).unwrap().status, TaskStatus::Paused);
    m.resume(id).unwrap();
    assert_eq!(m.http_control(id), Control::Proceed);
    assert_eq!(m.get_task(id).unwrap().status, TaskStatus::Downloading);
    let plan = plan_transfer(500, Some(1000), true);
    assert_eq!(plan, TransferPlan::Resume { offset: 500 });
    assert_eq!(range_header(500), "bytes=500-");
    let mut meter = ProgressMeter::new(id, Some(1000), 500, 1000);
    let e = meter.on_chunk(500, 1500).unwrap();
    if let DownloadEvent::ProgressUpdated { progress, .. } = e {
        assert_eq!(progress.downloaded_size, 1000);
        assert!(progress.is_completed());
    }
    assert_eq!(meter.downloaded, 1000);
    m.http_finish(id);
    m.start_finished(id, Ok(()));
    assert_eq!(m.get_task(id).unwrap().status, TaskStatus::Completed);
    let events = m.take_events();
    assert!(matches!(events[0], DownloadEvent::TaskAdded { .. }));
    assert!(matches!(events[1], DownloadEvent::TaskPaused { .. }));
    assert!(matches!(events[2], DownloadEvent::TaskResumed { .. }));
}

#[test]
fn restart_of_complete_file_emits_one_completion() {
    assert_eq!(plan_transfer(1000, Some(1000), true), TransferPlan::AlreadyComplete);
    assert_eq!(plan_transfer(2000, Some(1000), false), TransferPlan::AlreadyComplete);
    let id = nebula_core::TaskId::new();
    let events = nebula_core::http::already_complete_events(id, 7);
    assert_eq!(events, vec![DownloadEvent::TaskCompleted { task_id: id, completed_at: 7 }]);
}

#[test]
fn empty_url_segment_names_download() {
    let info = file_info_from_headers("https://example.com/", None, None, None);
    assert_eq!(info.name, "download");
    let info = file_info_from_headers("https://example.com/a.bin?x=1", None, None, None);
    assert_eq!(info.name, "a.bin");
}

#[test]
fn registering_a_used_id_is_refused() {
    let mut m = manager(true);
    let id = m.add_task("https://example.com/a.zip", "/tmp".to_string()).unwrap();
    let r = m.register_task(id, "https://example.com/b.zip", "/tmp".to_string());
    assert_eq!(r, Err(NebulaError::TaskAlreadyExists(id.to_string())));
    assert_eq!(m.list_tasks().len(), 1);
    let fresh = nebula_core::TaskId::new();
    assert_eq!(m.register_task(fresh, "https://example.com/b.zip", "/tmp".to_string()), Ok(fresh));
    assert_eq!(m.get_task(fresh).unwrap().priority, 5);
}

#[test]
fn unknown_length_keeps_percentage_zero() {
    let info = file_info_from_headers("https://e.com/f", None, None, None);
    assert_eq!(info.size, None);
    let id = nebula_core::TaskId::new();
    let mut meter = ProgressMeter::new(id, info.size, 0, 0);
    assert!(meter.on_chunk(100, 100).is_none());
    match meter.on_chunk(100, 300) {
        Some(DownloadEvent::ProgressUpdated { progress, .. }) => {
            assert_eq!(progress.total_size, 0);
            assert_eq!(progress.percent_hundredths, 0);
            assert_eq!(progress.eta_secs, None);
            assert_eq!(progress.downloaded_size, 200);
        }
        other => panic!("unexpected {:?}", other),
    }
}

#[test]
fn cancel_mid_transfer_removes_and_deletes() {
    let mut m = manager(true);
    let id = m.add_task("https://example.com/a.zip", "/tmp".to_string()).unwrap();
    m.mark_dispatched(id);
    m.http_register(id, 1000, "/tmp/a.zip".to_string());
    let cleanup = m.cancel(id, true).unwrap();
    assert_eq!(cleanup, Cleanup::RemoveFile("/tmp/a.zip".to_string()));
    assert!(m.get_task(id).is_none());
    assert_eq!(m.http_control(id), Control::Stop);
    // a late sample from the transfer loop is not published
    let late = DownloadEvent::ProgressUpdated { task_id: id, progress: nebula_core::Progress::new(1000, 600) };
    assert!(!m.publish(late));
    let events = m.take_events();
    let removed = events.iter().filter(|e| matches!(e, DownloadEvent::TaskRemoved { .. })).count();
    assert_eq!(removed, 1);
    assert!(matches!(events.last().unwrap(), DownloadEvent::TaskRemoved { .. }));
}

#[test]
fn events_after_completion_are_dropped() {
    let mut m = manager(true);
    let id = m.add_task("https://example.com/a.zip", "/tmp".to_string()).unwrap();
    assert!(m.publish(DownloadEvent::TaskStarted { task_id: id }));
    assert!(m.publish(DownloadEvent::TaskCompleted { task_id: id, completed_at: 1 }));
    assert!(!m.publish(DownloadEvent::ProgressUpdated { task_id: id, progress: nebula_core::Progress::new(1, 1) }));
    assert!(!m.publish(DownloadEvent::TaskFailed { task_id: id, error: "late".to_string() }));
    assert!(!m.publish(DownloadEvent::TaskAdded { task_id: id, name: "again".to_string() }));
    let other = nebula_core::TaskId::new();
    assert!(!m.publish(DownloadEvent::TaskStarted { task_id: other }));
    m.cancel(id, false).unwrap();
    assert!(!m.publish(DownloadEvent::TaskRemoved { task_id: id }));
    let events = m.take_events();
    assert_eq!(events.len(), 4);
    assert!(matches!(events[0], DownloadEvent::TaskAdded { .. }));
    assert!(matches!(events[3], DownloadEvent::TaskRemoved { .. }));
}

#[test]
fn failed_start_marks_failed() {
    let mut m = manager(true);
    let id = m.add_task("https://example.com/a.zip", "/tmp".to_string()).unwrap();
    m.mark_dispatched(id);
    m.start_finished(id, Err(NebulaError::NetworkError("down".to_string())));
    assert_eq!(
        m.get_task(id).unwrap().status,
        TaskStatus::Failed { error: "网络连接失败: down".to_string(), retry_count: 0 }
    );
    let events = m.take_events();
    assert_eq!(
        events.last().unwrap(),
        &DownloadEvent::TaskFailed { task_id: id, error: "网络连接失败: down".to_string() }
    );
}

#[test]
fn magnet_flow_publishes_in_order() {
    let mut m = manager(true);
    let id = m.add_task("magnet:?xt=urn:btih:abc&dn=demo", "/tmp".to_string()).unwrap();
    m.mark_dispatched(id);
    assert_eq!(m.get_task(id).unwrap().status, TaskStatus::FetchingMetadata);
    let source = m.get_task(id).unwrap().source;
    let name = torrent_name(&source, 3);
    assert_eq!(name, "demo");
    for e in start_events(id, name.clone(), 100) {
        assert!(m.publish(e));
    }
    m.torrent_register(id, 3, "/tmp".to_string(), name, 100);
    assert_eq!(m.torrent_handle(id), Some(3));
    let (p, events, done) = monitor_tick(id, TorrentStats { total_bytes: 100, progress_bytes: 40, live: None }, 5);
    assert!(!done);
    assert!(m.torrent_record_progress(id, p));
    for e in events {
        m.publish(e);
    }
    assert_eq!(m.get_progress(id).unwrap().downloaded_size, 40);
    let (_, events, done) = monitor_tick(id, TorrentStats { total_bytes: 100, progress_bytes: 100, live: None }, 6);
    assert!(done);
    for e in events {
        m.publish(e);
    }
    // the outcome is out: the task can no longer be paused
    assert!(matches!(m.pause(id), Err(NebulaError::InvalidTaskState { .. })));
    let events = m.take_events();
    assert_eq!(events[0], DownloadEvent::TaskAdded { task_id: id, name: "demo".to_string() });
    assert_eq!(
        events[1],
        DownloadEvent::MetadataReceived { task_id: id, name: "demo".to_string(), total_size: 100, file_count: 1 }
    );
    assert_eq!(events[2], DownloadEvent::TaskStarted { task_id: id });
    assert!(matches!(events[3], DownloadEvent::ProgressUpdated { .. }));
    assert!(matches!(events[4], DownloadEvent::ProgressUpdated { .. }));
    assert_eq!(events[5], DownloadEvent::TaskCompleted { task_id: id, completed_at: 6 });
    assert_eq!(events.len(), 6);
}

#[test]
fn torrent_file_is_dispatched_to_torrent_handler() {
    let mut m = manager(true);
    let id = m.add_task("/path/to/x.torrent", "/tmp".to_string()).unwrap();
    let task = m.get_task(id).unwrap();
    assert_eq!(task.source, DownloadSource::Torrent { path: "/path/to/x.torrent".to_string() });
    m.mark_dispatched(id);
    assert_eq!(m.get_task(id).unwrap().status, TaskStatus::FetchingMetadata);
    assert_eq!(torrent_name(&task.source, 1), "x");
    m.torrent_register(id, 1, "/tmp".to_string(), "x".to_string(), 0);
    assert_eq!(m.cancel(id, true).unwrap(), Cleanup::RemoveDir("/tmp".to_string()));
}

#[test]
fn video_metadata_renames_task() {
    let mut m = manager(true);
    let id = m.add_task("https://youtu.be/XYZ", "/tmp".to_string()).unwrap();
    assert_eq!(m.get_task(id).unwrap().name, "YouTube 视频");
    m.video_metadata(id, "Real Title".to_string());
    let t = m.get_task(id).unwrap();
    assert_eq!(t.name, "Real Title");
    assert_eq!(t.status, TaskStatus::Downloading);
    assert!(matches!(m.get_progress(id), Err(NebulaError::UnsupportedProtocol(_))));
    let events = m.take_events();
    assert_eq!(
        events[1],
        DownloadEvent::MetadataReceived { task_id: id, name: "Real Title".to_string(), total_size: 0, file_count: 1 }
    );
}

#[test]
fn slow_subscriber_sees_a_gap_and_never_blocks() {
    let (tx, mut prompt) = tokio::sync::broadcast::channel::<u32>(EVENT_CHANNEL_CAPACITY);
    let mut stalled = tx.subscribe();
    let mut seen = 0u32;
    for i in 0..2000u32 {
        tx.send(i).unwrap();
        assert_eq!(prompt.try_recv().unwrap(), i);
        seen += 1;
    }
    assert_eq!(seen, 2000);
    assert!(matches!(
        stalled.try_recv(),
        Err(tokio::sync::broadcast::error::TryRecvError::Lagged(_))
    ));
    assert_eq!(stalled.try_recv().unwrap(), 2000 - EVENT_CHANNEL_CAPACITY as u32);
}
