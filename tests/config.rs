use nebula_core::config::{HttpConfig, RetryConfig, TorrentConfig};
use nebula_core::ManagerConfig;

#[test]
fn test_default_config() {
    let config = ManagerConfig::default();
    assert_eq!(config.max_concurrent_tasks, 5);
    assert_eq!(config.http.max_connections_per_file, 8);
    assert!(config.torrent.enable_dht);
}

#[test]
fn default_settings() {
    let h = HttpConfig::default();
    assert_eq!((h.connect_timeout_secs, h.read_timeout_secs, h.chunk_size), (30, 60, 4 * 1024 * 1024));
    let t = TorrentConfig::default();
    assert_eq!(t.max_peers, 100);
    assert_eq!(t.seed_ratio_limit_hundredths, Some(200));
    let r = RetryConfig::default();
    assert_eq!((r.max_retries, r.base_delay_secs, r.max_delay_secs), (5, 2, 60));
}
