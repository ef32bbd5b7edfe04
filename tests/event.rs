use nebula_core::event::{format_bytes, format_bytes_per_sec};
use nebula_core::Progress;

#[test]
fn test_format_bytes() {
    assert_eq!(format_bytes(500), "500 B");
    assert_eq!(format_bytes(1024), "1.00 KB");
    assert_eq!(format_bytes(1024 * 1024), "1.00 MB");
    assert_eq!(format_bytes(1024 * 1024 * 1024), "1.00 GB");
}

#[test]
fn test_progress_percentage() {
    let progress = Progress::new(1000, 500);
    assert!((progress.percent_hundredths as f64 / 100.0 - 50.0).abs() < 0.01);
}

#[test]
fn test_eta_calculation() {
    let mut progress = Progress::new(10000, 5000);
    progress.update_speed(1000, 0);
    assert_eq!(progress.eta_secs, Some(5));
}

#[test]
fn format_bytes_rounds_and_scales() {
    assert_eq!(format_bytes(0), "0 B");
    assert_eq!(format_bytes(1536), "1.50 KB");
    assert_eq!(format_bytes(1024u64.pow(4)), "1.00 TB");
    assert_eq!(format_bytes_per_sec(2048), "2.00 KB/s");
    assert_eq!(format_bytes(u64::MAX), "16777216.00 TB");
}

#[test]
fn progress_formats() {
    let mut p = Progress::new(2048, 1024);
    assert_eq!(p.format_size(), "1.00 KB / 2.00 KB");
    assert_eq!(p.format_eta(), "计算中...");
    p.update_speed(1024, 0);
    assert_eq!(p.format_speed(), "1.00 KB/s");
    assert_eq!(p.format_eta(), "1秒");
    let mut q = Progress::new(1_000_000, 0);
    q.update_speed(100, 0);
    assert_eq!(q.format_eta(), "2时46分");
    let mut r = Progress::new(1000, 0);
    r.update_speed(10, 0);
    assert_eq!(r.format_eta(), "1分40秒");
}

#[test]
fn progress_stays_in_range() {
    let p = Progress::new(3, 1);
    assert_eq!(p.percent_hundredths, 3333);
    let mut p = Progress::new(0, 0);
    p.update_downloaded(12345);
    assert_eq!(p.percent_hundredths, 0);
    assert!(!p.is_completed());
    let mut p = Progress::new(100, 0);
    p.update_downloaded(100);
    assert_eq!(p.percent_hundredths, 10000);
    assert!(p.is_completed());
    p.update_speed(10, 0);
    assert_eq!(p.eta_secs, None);
    assert_eq!(Progress::default().percent_hundredths, 0);
}
