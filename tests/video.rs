use nebula_core::video::{progress_from_output_line, RawFormat, RawVideoInfo, VideoHandler};
use nebula_core::NebulaError;

#[test]
fn progress_line_is_parsed() {
    let p = VideoHandler::parse_progress("[download]  42.0% of 10.00MiB at 1.00MiB/s ETA 00:05").unwrap();
    assert_eq!(p.percent_hundredths, 4200);
    assert_eq!(p.total_size, 10485760);
    assert_eq!(p.download_speed, 1048576);
    assert_eq!(p.eta_secs, Some(5));
    assert_eq!(p.downloaded_size, 4404019);
}

#[test]
fn only_download_lines_with_percent_count() {
    assert!(progress_from_output_line("[info] Downloading 1 format").is_none());
    assert!(progress_from_output_line("[download] Destination: x.mp4").is_none());
    let p = progress_from_output_line("[download] 100% of 1.50GiB in 00:01:02").unwrap();
    assert_eq!(p.percent_hundredths, 10000);
    assert_eq!(p.total_size, 1610612736);
    assert_eq!(p.downloaded_size, 1610612736);
}

#[test]
fn sizes_and_times() {
    assert_eq!(VideoHandler::parse_size("10.00MiB"), 10485760);
    assert_eq!(VideoHandler::parse_size("1.00MiB/s"), 1048576);
    assert_eq!(VideoHandler::parse_size("1.50MiB"), 1572864);
    assert_eq!(VideoHandler::parse_size("0.5KiB/s"), 512);
    assert_eq!(VideoHandler::parse_size("1.0009765625KiB"), 1025);
    assert_eq!(VideoHandler::parse_size("512KiB"), 524288);
    assert_eq!(VideoHandler::parse_size("2GiB"), 2147483648);
    assert_eq!(VideoHandler::parse_size("~3MiB"), 0);
    assert_eq!(VideoHandler::parse_size("3MB"), 0);
    assert_eq!(VideoHandler::parse_eta("00:05"), Some(5));
    assert_eq!(VideoHandler::parse_eta("01:02:03"), Some(3723));
    assert_eq!(VideoHandler::parse_eta("5"), None);
    assert_eq!(VideoHandler::parse_eta("a:b"), None);
    assert_eq!(VideoHandler::parse_eta("1:2:3:4"), None);
}

#[test]
fn download_arguments() {
    let h = VideoHandler::new("/tmp".to_string(), Some("/usr/bin/yt-dlp".to_string())).unwrap();
    let args = h.download_args("https://youtu.be/XYZ", None, Some("/usr/bin/ffmpeg"));
    assert_eq!(
        args,
        vec![
            "--newline", "--no-warnings", "--no-playlist", "-o", "/tmp/%(id)s.%(ext)s",
            "--ffmpeg-location", "/usr/bin/ffmpeg", "--merge-output-format", "mp4", "-S",
            "vcodec:h264,res,acodec:m4a", "https://youtu.be/XYZ",
        ]
    );
    let args = h.download_args("u", Some("137"), None);
    assert_eq!(
        args,
        vec![
            "--newline", "--no-warnings", "--no-playlist", "-o", "/tmp/%(id)s.%(ext)s",
            "--merge-output-format", "mp4", "-f", "137+bestaudio/best", "u",
        ]
    );
    assert_eq!(VideoHandler::info_args("u"), vec!["-j", "--no-warnings", "--no-playlist", "u"]);
}

#[test]
fn handler_needs_extractor() {
    assert!(matches!(VideoHandler::new("/tmp".to_string(), None), Err(NebulaError::Internal(_))));
    let c = VideoHandler::extractor_candidates(Some("/app/yt-dlp".to_string()));
    assert_eq!(c[0], "/app/yt-dlp");
    assert_eq!(c.len(), 4);
    let present = vec![false, false, true, true];
    assert_eq!(VideoHandler::first_present(&c, &present), Some("/usr/local/bin/yt-dlp".to_string()));
    assert_eq!(VideoHandler::first_present(&c, &vec![false; 4]), None);
    assert_eq!(VideoHandler::ffmpeg_candidates().len(), 4);
    assert!(VideoHandler::is_video_url("https://www.tiktok.com/@a/video/1"));
}

#[test]
fn failure_message_takes_first_line() {
    assert_eq!(VideoHandler::failure_message(""), "视频下载失败");
    assert_eq!(
        VideoHandler::failure_message("ERROR: unavailable\nmore\n"),
        "视频下载失败: ERROR: unavailable"
    );
}

fn raw(id: &str, v: Option<&str>, a: Option<&str>) -> RawFormat {
    RawFormat {
        format_id: id.to_string(),
        ext: None,
        resolution: None,
        filesize: None,
        filesize_approx: Some(7),
        vcodec: v.map(|s| s.to_string()),
        acodec: a.map(|s| s.to_string()),
        format_note: None,
    }
}

#[test]
fn formats_are_filtered() {
    let info = VideoHandler::video_info_from(
        RawVideoInfo {
            id: "XYZ".to_string(),
            title: "Title".to_string(),
            description: None,
            thumbnail: None,
            duration: Some(61),
            uploader: None,
            formats: Some(vec![
                raw("sb0", Some("none"), Some("none")),
                raw("137", Some("avc1"), Some("none")),
                raw("140", None, Some("mp4a")),
                raw("x", None, None),
            ]),
            webpage_url: None,
        },
        "https://youtu.be/XYZ",
    );
    assert_eq!(info.webpage_url, "https://youtu.be/XYZ");
    assert_eq!(info.formats.len(), 2);
    assert_eq!(info.formats[0].format_id, "137");
    assert_eq!(info.formats[0].ext, "mp4");
    assert_eq!(info.formats[0].filesize, Some(7));
    assert_eq!(info.formats[1].format_id, "140");
}
