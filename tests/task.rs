use nebula_core::task::is_video_url;
use nebula_core::{DownloadSource, DownloadTask, TaskId, TaskStatus};

#[test]
fn task_test_source_detection() {
    let source = DownloadSource::detect("https://example.com/file.zip");
    assert!(matches!(source, DownloadSource::Http { .. }));

    let source = DownloadSource::detect("magnet:?xt=urn:btih:abc123&dn=测试文件");
    if let DownloadSource::Magnet { display_name, .. } = source {
        assert!(display_name.is_some());
    } else {
        panic!("应该识别为磁力链接");
    }

    let source = DownloadSource::detect("/path/to/file.torrent");
    assert!(matches!(source, DownloadSource::Torrent { .. }));
}

#[test]
fn test_task_status() {
    let status = TaskStatus::Downloading;
    assert!(status.is_active());
    assert!(status.can_pause());
    assert!(!status.can_resume());

    let status = TaskStatus::Paused;
    assert!(!status.is_active());
    assert!(status.can_resume());
}

#[test]
fn test_task_creation() {
    let source = DownloadSource::detect("https://example.com/test.zip");
    let task = DownloadTask::new(source, "/downloads".to_string());

    assert_eq!(task.name, "test.zip");
    assert!(matches!(task.status, TaskStatus::Pending));
    assert_eq!(task.priority, 5);
}

#[test]
fn detect_is_deterministic_for_each_kind() {
    let inputs = [
        "magnet:?xt=urn:btih:abc",
        "MAGNET:?xt=urn:btih:abc",
        "https://youtu.be/XYZ",
        "http://example.com/a.iso",
        "HTTPS://EXAMPLE.COM/A.ISO",
        "ftp://example.com/a",
        "/path/to/x.torrent",
        "",
    ];
    for s in inputs {
        let a = DownloadSource::detect(s);
        let b = DownloadSource::detect(s);
        assert_eq!(a, b);
    }
    assert!(matches!(DownloadSource::detect("MAGNET:?xt=urn:btih:abc"), DownloadSource::Magnet { .. }));
    assert!(matches!(DownloadSource::detect("HTTPS://EXAMPLE.COM/A.ISO"), DownloadSource::Http { .. }));
    assert!(matches!(DownloadSource::detect(""), DownloadSource::Torrent { .. }));
}

#[test]
fn magnet_display_name_is_parsed() {
    let s = DownloadSource::detect("magnet:?xt=urn:btih:abc&dn=demo");
    assert_eq!(
        s,
        DownloadSource::Magnet {
            uri: "magnet:?xt=urn:btih:abc&dn=demo".to_string(),
            display_name: Some("demo".to_string()),
        }
    );
    assert_eq!(s.display_name(), "demo");
    let s = DownloadSource::detect("magnet:?xt=urn:btih:abc");
    assert_eq!(s.display_name(), "磁力链接");
    let s = DownloadSource::detect("magnet:?a&dn=dn=x");
    assert_eq!(s.display_name(), "dn=x");
}

#[test]
fn youtube_short_link_is_video() {
    let s = DownloadSource::detect("https://youtu.be/XYZ");
    assert_eq!(
        s,
        DownloadSource::Video { url: "https://youtu.be/XYZ".to_string(), format_id: None }
    );
    assert_eq!(s.display_name(), "YouTube 视频");
    assert_eq!(s.protocol_name(), "Video");
    assert!(is_video_url("https://www.bilibili.com/video/BV1"));
    assert!(!is_video_url("https://example.com/a.zip"));
}

#[test]
fn torrent_file_is_classified() {
    let s = DownloadSource::detect("/path/to/x.torrent");
    assert_eq!(s, DownloadSource::Torrent { path: "/path/to/x.torrent".to_string() });
    assert_eq!(s.display_name(), "x");
    assert_eq!(s.protocol_name(), "BitTorrent");
}

#[test]
fn ftp_and_http_names() {
    let s = DownloadSource::detect("ftp://example.com/pub/file.bin");
    assert!(matches!(s, DownloadSource::Ftp { .. }));
    assert_eq!(s.display_name(), "file.bin");
    assert_eq!(s.protocol_name(), "FTP");
    let s = DownloadSource::detect("https://example.com/dir/a.zip?token=1");
    assert_eq!(s.display_name(), "a.zip");
    assert_eq!(s.protocol_name(), "HTTP");
}

#[test]
fn status_descriptions() {
    assert_eq!(TaskStatus::Completed.description(), "已完成");
    assert_eq!(
        TaskStatus::Failed { error: "boom".to_string(), retry_count: 2 }.description(),
        "失败 (重试 2 次): boom"
    );
    assert!(TaskStatus::Cancelled.is_finished());
    assert!(!TaskStatus::Seeding.is_finished());
    assert!(TaskStatus::Pending.can_pause());
}

#[test]
fn task_id_text_round_trip() {
    let text = "67e55044-10b1-426f-9247-bb680e5fe0c8";
    let id = TaskId::from_string(text).unwrap();
    assert_eq!(id.to_string(), text);
    assert_eq!(id.short(), "67e55044");
    let fresh = TaskId::new();
    assert_eq!(TaskId::from_string(&fresh.to_string()).unwrap(), fresh);
    assert!(TaskId::from_string("not-an-id").is_err());
    assert!(TaskId::from_string("").is_err());
    let upper = TaskId::from_string("67E55044-10B1-426F-9247-BB680E5FE0C8").unwrap();
    assert_eq!(upper, id);
}

#[test]
fn task_builders() {
    let t = DownloadTask::new(DownloadSource::detect("https://e.com/x.bin"), "/d".to_string());
    let t = t.with_priority(42).with_name("renamed".to_string());
    assert_eq!(t.priority, 10);
    assert_eq!(t.name, "renamed");
    let mut t = t.with_priority(0);
    assert_eq!(t.priority, 1);
    assert_eq!(t.elapsed_secs(), None);
    t.mark_started();
    assert_eq!(t.status, TaskStatus::Downloading);
    t.mark_completed();
    assert_eq!(t.status, TaskStatus::Completed);
    assert!(t.elapsed_secs().unwrap() >= 0);
    t.mark_failed("x".to_string(), 3);
    assert_eq!(t.status, TaskStatus::Failed { error: "x".to_string(), retry_count: 3 });
}
