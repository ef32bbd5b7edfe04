use nebula_core::trackers::{cache_is_fresh, fallback_trackers, parse_cache, parse_remote, TrackerManager, CACHE_TTL_SECS};

#[test]
fn test_fallback_trackers() {
    let (trackers, write) = TrackerManager::pick_list(None, None);
    assert!(!trackers.is_empty());
    assert!(!write);
    assert_eq!(trackers, fallback_trackers());
}

#[test]
fn cache_and_remote_lists() {
    let cached = parse_cache("# comment\n udp://a:1/announce \n\nhttp://b/announce\r\n").unwrap();
    assert_eq!(cached, vec!["udp://a:1/announce", "http://b/announce"]);
    assert!(parse_cache("# only\n\n").is_none());
    let remote = parse_remote("udp://a/announce\n\nwss://c\nhttps://d/announce");
    assert_eq!(remote, vec!["udp://a/announce", "https://d/announce"]);
    assert!(cache_is_fresh(CACHE_TTL_SECS));
    assert!(!cache_is_fresh(CACHE_TTL_SECS + 1));
    let m = TrackerManager::new("/tmp/test_trackers".to_string());
    assert_eq!(m.cache_path(), "/tmp/test_trackers/trackers.txt");
    let (list, write) = TrackerManager::pick_list(None, Some(remote.clone()));
    assert_eq!(list, remote);
    assert!(write);
}
