use vstd::prelude::*;

use crate::error::NebulaError;
use crate::event::{ratio_hundredths, DownloadEvent, Progress, Timestamp};
use crate::task::{file_stem_of, path_file_stem, DownloadSource, SourceView, TaskId};
use crate::text::{decimal, owned, push_decimal};

verus! {

/// The name of a torrent: the magnet's `dn`, the metainfo file's stem, else
/// `torrent-<engine id>` (`unknown` for a metainfo path without a stem).
pub open spec fn torrent_name_spec(s: SourceView, handle_id: usize) -> Seq<char> {
    match s {
        SourceView::Magnet { display_name, .. } => match display_name {
            Some(n) => n,
            None => "torrent-"@ + decimal(handle_id as nat),
        },
        SourceView::Torrent { path } => match file_stem_of(path) {
            Some(n) => n,
            None => "unknown"@,
        },
        _ => "torrent-"@ + decimal(handle_id as nat),
    }
}

/// The display name of a torrent added under the engine id `handle_id`.
pub fn torrent_name(source: &DownloadSource, handle_id: usize) -> (r: String)
    ensures
        r@ == torrent_name_spec(source@, handle_id),
{
    match source {
        DownloadSource::Magnet { display_name, .. } => match display_name {
            Some(n) => n.clone(),
            None => {
                let mut r = owned("torrent-");
                push_decimal(&mut r, handle_id as u128);
                r
            },
        },
        DownloadSource::Torrent { path } => match path_file_stem(path.as_str()) {
            Some(n) => n,
            None => owned("unknown"),
        },
        _ => {
            let mut r = owned("torrent-");
            push_decimal(&mut r, handle_id as u128);
            r
        },
    }
}

/// The swarm engine's answer to adding a torrent.
#[derive(Debug, Clone, Copy, PartialEq, Eq, Structural)]
pub enum AddOutcome {
    /// Newly added under this id.
    Added(usize),
    /// Already managed under this id.
    AlreadyManaged(usize),
    /// Only listed (never asked for).
    ListOnly,
}

/// The engine id to monitor; a list-only answer is an error.
pub fn handle_of(outcome: AddOutcome) -> (r: Result<usize, NebulaError>)
    ensures
        outcome matches AddOutcome::Added(id) ==> r == Ok::<usize, NebulaError>(id),
        outcome matches AddOutcome::AlreadyManaged(id) ==> r == Ok::<usize, NebulaError>(id),
        outcome is ListOnly ==> r is Err && r->Err_0 is Internal,
{
    match outcome {
        AddOutcome::Added(id) => Ok(id),
        AddOutcome::AlreadyManaged(id) => Ok(id),
        AddOutcome::ListOnly => Err(NebulaError::Internal(owned("意外的 ListOnly 响应"))),
    }
}

/// The events of a torrent handed to the engine: its metadata (one file, as far as the
/// uniform event goes), then the start.
pub fn start_events(task_id: TaskId, name: String, total_size: u64) -> (r: Vec<DownloadEvent>)
    ensures
        r@ == seq![
            DownloadEvent::MetadataReceived { task_id, name, total_size, file_count: 1 },
            DownloadEvent::TaskStarted { task_id },
        ],
{
    let mut r = Vec::new();
    r.push(DownloadEvent::MetadataReceived { task_id, name, total_size, file_count: 1 });
    r.push(DownloadEvent::TaskStarted { task_id });
    assert(r@ =~= seq![
        DownloadEvent::MetadataReceived { task_id, name, total_size, file_count: 1 },
        DownloadEvent::TaskStarted { task_id },
    ]);
    r
}

/// Live swarm figures, rates already in bytes per second.
#[derive(Debug, Clone, Copy, PartialEq, Eq)]
pub struct LiveStats {
    pub download_speed: u64,
    pub upload_speed: u64,
    /// Peers connected now.
    pub peers_live: usize,
    /// Peers seen so far.
    pub peers_seen: usize,
}

/// The engine's statistics of one torrent.
#[derive(Debug, Clone, Copy, PartialEq, Eq)]
pub struct TorrentStats {
    pub total_bytes: u64,
    pub progress_bytes: u64,
    pub live: Option<LiveStats>,
}

/// The progress a statistics sample shows; the transferred count is capped at a known total.
pub open spec fn stats_progress(s: TorrentStats) -> Progress {
    let done: u64 = if s.total_bytes > 0 && s.progress_bytes > s.total_bytes {
        s.total_bytes
    } else {
        s.progress_bytes
    };
    let (down, up): (u64, u64) = match s.live {
        Some(l) => (l.download_speed, l.upload_speed),
        None => (0, 0),
    };
    Progress {
        total_size: s.total_bytes,
        downloaded_size: done,
        download_speed: down,
        upload_speed: up,
        eta_secs: if s.live is Some {
            Progress::eta_for(s.total_bytes, done, down)
        } else {
            None
        },
        percent_hundredths: ratio_hundredths(done as nat, s.total_bytes as nat) as u64,
    }
}

/// The events of one polling tick: peer counts when live figures exist, the progress, and
/// `TaskCompleted` once everything is there.
pub open spec fn tick_events(task_id: TaskId, s: TorrentStats, now: Timestamp) -> Seq<DownloadEvent> {
    let p = stats_progress(s);
    let peers = match s.live {
        Some(l) => seq![
            DownloadEvent::PeerUpdate {
                task_id,
                connected_peers: l.peers_live,
                total_peers: l.peers_seen,
            },
        ],
        None => Seq::empty(),
    };
    let done = if p.total_size > 0 && p.downloaded_size >= p.total_size {
        seq![DownloadEvent::TaskCompleted { task_id, completed_at: now }]
    } else {
        Seq::empty()
    };
    peers + seq![DownloadEvent::ProgressUpdated { task_id, progress: p }] + done
}

/// One polling tick of the monitor: the progress and the events to publish; the monitor
/// stops after a tick that completes the torrent.
pub fn monitor_tick(task_id: TaskId, stats: TorrentStats, now: Timestamp) -> (r: (
    Progress,
    Vec<DownloadEvent>,
    bool,
))
    ensures
        r.0 == stats_progress(stats),
        r.0.wf(),
        r.1@ == tick_events(task_id, stats, now),
        r.2 == (r.0.total_size > 0 && r.0.downloaded_size >= r.0.total_size),
{
    let done = if stats.total_bytes > 0 && stats.progress_bytes > stats.total_bytes {
        stats.total_bytes
    } else {
        stats.progress_bytes
    };
    let mut progress = Progress::new(stats.total_bytes, done);
    let mut events: Vec<DownloadEvent> = Vec::new();
    match stats.live {
        Some(l) => {
            progress.update_speed(l.download_speed, l.upload_speed);
            events.push(
                DownloadEvent::PeerUpdate {
                    task_id,
                    connected_peers: l.peers_live,
                    total_peers: l.peers_seen,
                },
            );
        },
        None => {},
    }
    events.push(DownloadEvent::ProgressUpdated { task_id, progress });
    let completed = progress.is_completed();
    if completed {
        events.push(DownloadEvent::TaskCompleted { task_id, completed_at: now });
    }
    assert(events@ =~= tick_events(task_id, stats, now));
    (progress, events, completed)
}

} // verus!
