use vstd::prelude::*;

use crate::text::owned;

verus! {

/// HTTP/HTTPS settings.
#[derive(Debug, Clone)]
pub struct HttpConfig {
    /// Connections per file for chunked downloads (reserved).
    pub max_connections_per_file: usize,
    /// Connect timeout in seconds.
    pub connect_timeout_secs: u64,
    /// Read timeout in seconds.
    pub read_timeout_secs: u64,
    /// Chunk size in bytes for chunked downloads.
    pub chunk_size: u64,
    /// User-Agent header.
    pub user_agent: String,
    /// Optional proxy, `http://host:port` or `socks5://host:port`.
    pub proxy: Option<String>,
}

impl Default for HttpConfig {
    fn default() -> (r: HttpConfig)
        ensures
            r.max_connections_per_file == 8,
            r.connect_timeout_secs == 30,
            r.read_timeout_secs == 60,
            r.chunk_size == 4 * 1024 * 1024,
            r.proxy is None,
    {
        HttpConfig {
            max_connections_per_file: 8,
            connect_timeout_secs: 30,
            read_timeout_secs: 60,
            chunk_size: 4 * 1024 * 1024,
            user_agent: owned("Nebula/0.1.0 (https://github.com/user/nebula)"),
            proxy: None,
        }
    }
}

/// BitTorrent settings.
#[derive(Debug, Clone)]
pub struct TorrentConfig {
    /// Listening port; a random one when `None`.
    pub listen_port: Option<u16>,
    /// Use the DHT.
    pub enable_dht: bool,
    /// Map the port with UPnP.
    pub enable_upnp: bool,
    /// Use peer exchange.
    pub enable_pex: bool,
    /// Upload limit in bytes per second.
    pub max_upload_speed: Option<u64>,
    /// Download limit in bytes per second.
    pub max_download_speed: Option<u64>,
    /// Most peers to connect to.
    pub max_peers: usize,
    /// Share ratio after which seeding stops, in hundredths (200 stands for 2.0).
    pub seed_ratio_limit_hundredths: Option<u64>,
    /// Trackers added to every torrent.
    pub extra_trackers: Vec<String>,
    /// Download pieces in order (for playback while downloading).
    pub sequential_download: bool,
}

impl Default for TorrentConfig {
    fn default() -> (r: TorrentConfig)
        ensures
            r.listen_port is None,
            r.enable_dht && r.enable_upnp && r.enable_pex,
            r.max_upload_speed is None && r.max_download_speed is None,
            r.max_peers == 100,
            r.seed_ratio_limit_hundredths == Some(200u64),
            r.extra_trackers@.len() == 0,
            r.sequential_download,
    {
        TorrentConfig {
            listen_port: None,
            enable_dht: true,
            enable_upnp: true,
            enable_pex: true,
            max_upload_speed: None,
            max_download_speed: None,
            max_peers: 100,
            seed_ratio_limit_hundredths: Some(200),
            extra_trackers: Vec::new(),
            sequential_download: true,
        }
    }
}

/// Retry settings (advisory: the engine does not retry by itself).
#[derive(Debug, Clone, Copy, PartialEq, Eq)]
pub struct RetryConfig {
    /// Most retries.
    pub max_retries: usize,
    /// Base of the exponential backoff, in seconds.
    pub base_delay_secs: u64,
    /// Longest delay between retries, in seconds.
    pub max_delay_secs: u64,
}

impl Default for RetryConfig {
    fn default() -> (r: RetryConfig)
        ensures
            r == (RetryConfig { max_retries: 5, base_delay_secs: 2, max_delay_secs: 60 }),
    {
        RetryConfig { max_retries: 5, base_delay_secs: 2, max_delay_secs: 60 }
    }
}

/// Relies on dirs::download_dir: the user's download directory, when the platform has one
/// (it depends on the environment, so nothing is claimed of it).
#[verifier::external_body]
fn user_download_dir() -> Option<String> {
    dirs::download_dir().map(|p| p.to_string_lossy().to_string())
}

/// Settings of the download manager.
#[derive(Debug, Clone)]
pub struct ManagerConfig {
    /// Default destination directory.
    pub download_dir: String,
    /// Advisory limit of concurrent tasks (not enforced).
    pub max_concurrent_tasks: usize,
    /// HTTP settings.
    pub http: HttpConfig,
    /// BitTorrent settings.
    pub torrent: TorrentConfig,
    /// Retry settings.
    pub retry: RetryConfig,
}

impl Default for ManagerConfig {
    /// The user's download directory (or `./downloads`) and the default settings.
    fn default() -> (r: ManagerConfig)
        ensures
            r.max_concurrent_tasks == 5,
            r.http.max_connections_per_file == 8,
            r.torrent.enable_dht,
            r.retry == (RetryConfig { max_retries: 5, base_delay_secs: 2, max_delay_secs: 60 }),
    {
        let download_dir = match user_download_dir() {
            Some(d) => d,
            None => owned("./downloads"),
        };
        ManagerConfig {
            download_dir,
            max_concurrent_tasks: 5,
            http: HttpConfig::default(),
            torrent: TorrentConfig::default(),
            retry: RetryConfig::default(),
        }
    }
}

} // verus!
