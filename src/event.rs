use vstd::prelude::*;

use crate::task::TaskId;
use crate::text::{decimal, digit_char, digit_of, push_char, push_decimal, push_str};

verus! {

/// Seconds since the Unix epoch.
pub type Timestamp = i64;

/// A lifecycle event of a task, as published to subscribers.
#[derive(Debug, Clone, PartialEq, Eq)]
pub enum DownloadEvent {
    /// The task was registered.
    TaskAdded { task_id: TaskId, name: String },
    /// A protocol handler accepted the first data.
    TaskStarted { task_id: TaskId },
    /// A progress sample.
    ProgressUpdated { task_id: TaskId, progress: Progress },
    /// The task was paused.
    TaskPaused { task_id: TaskId },
    /// The task was resumed.
    TaskResumed { task_id: TaskId },
    /// The transfer finished.
    TaskCompleted { task_id: TaskId, completed_at: Timestamp },
    /// The transfer failed for good.
    TaskFailed { task_id: TaskId, error: String },
    /// The task was cancelled and removed.
    TaskRemoved { task_id: TaskId },
    /// Torrent metadata arrived or video information was resolved.
    MetadataReceived { task_id: TaskId, name: String, total_size: u64, file_count: usize },
    /// Peer counts of a torrent, once per polling tick.
    PeerUpdate { task_id: TaskId, connected_peers: usize, total_peers: usize },
}

impl DownloadEvent {
    /// The task that the event is about.
    pub open spec fn spec_task_id(&self) -> TaskId {
        match self {
            DownloadEvent::TaskAdded { task_id, .. } => *task_id,
            DownloadEvent::TaskStarted { task_id } => *task_id,
            DownloadEvent::ProgressUpdated { task_id, .. } => *task_id,
            DownloadEvent::TaskPaused { task_id } => *task_id,
            DownloadEvent::TaskResumed { task_id } => *task_id,
            DownloadEvent::TaskCompleted { task_id, .. } => *task_id,
            DownloadEvent::TaskFailed { task_id, .. } => *task_id,
            DownloadEvent::TaskRemoved { task_id } => *task_id,
            DownloadEvent::MetadataReceived { task_id, .. } => *task_id,
            DownloadEvent::PeerUpdate { task_id, .. } => *task_id,
        }
    }

    /// The task that the event is about.
    pub fn task_id(&self) -> (r: TaskId)
        ensures
            r == self.spec_task_id(),
    {
        match self {
            DownloadEvent::TaskAdded { task_id, .. } => *task_id,
            DownloadEvent::TaskStarted { task_id } => *task_id,
            DownloadEvent::ProgressUpdated { task_id, .. } => *task_id,
            DownloadEvent::TaskPaused { task_id } => *task_id,
            DownloadEvent::TaskResumed { task_id } => *task_id,
            DownloadEvent::TaskCompleted { task_id, .. } => *task_id,
            DownloadEvent::TaskFailed { task_id, .. } => *task_id,
            DownloadEvent::TaskRemoved { task_id } => *task_id,
            DownloadEvent::MetadataReceived { task_id, .. } => *task_id,
            DownloadEvent::PeerUpdate { task_id, .. } => *task_id,
        }
    }
}

/// Hundredths of a percent of `done` out of `total`, rounded down; 0 when `total` is 0.
pub open spec fn ratio_hundredths(done: nat, total: nat) -> nat {
    if total > 0 {
        done * 10000 / total
    } else {
        0
    }
}

/// Transfer state of a task.
///
/// The percentage is kept in hundredths of a percent: 5000 stands for 50.00%.
#[derive(Debug, Clone, Copy, PartialEq, Eq)]
pub struct Progress {
    /// Total size in bytes; 0 while unknown.
    pub total_size: u64,
    /// Bytes transferred so far.
    pub downloaded_size: u64,
    /// Download rate in bytes per second.
    pub download_speed: u64,
    /// Upload rate in bytes per second.
    pub upload_speed: u64,
    /// Estimated seconds left, when it can be estimated.
    pub eta_secs: Option<u64>,
    /// Completion in hundredths of a percent, from 0 to 10000.
    pub percent_hundredths: u64,
}

impl Progress {
    /// The invariant of every progress value: the percentage lies in [0, 100] and, once
    /// the total is known, the transferred count does not exceed it.
    pub open spec fn wf(&self) -> bool {
        &&& self.percent_hundredths <= 10000
        &&& self.total_size > 0 ==> self.downloaded_size <= self.total_size
    }

    /// The remaining-time estimate for the given rate.
    pub open spec fn eta_for(total: u64, done: u64, rate: u64) -> Option<u64> {
        if rate > 0 && total > done {
            Some(((total - done) / rate as int) as u64)
        } else {
            None
        }
    }

    /// A progress of `downloaded_size` out of `total_size`, with no rate yet.
    pub fn new(total_size: u64, downloaded_size: u64) -> (r: Progress)
        requires
            total_size == 0 || downloaded_size <= total_size,
        ensures
            r.total_size == total_size,
            r.downloaded_size == downloaded_size,
            r.download_speed == 0,
            r.upload_speed == 0,
            r.eta_secs is None,
            r.percent_hundredths == ratio_hundredths(downloaded_size as nat, total_size as nat),
            r.wf(),
    {
        let percent_hundredths = percent_of(downloaded_size, total_size);
        Progress {
            total_size,
            downloaded_size,
            download_speed: 0,
            upload_speed: 0,
            eta_secs: None,
            percent_hundredths,
        }
    }

    /// Records the current rates and recomputes the remaining-time estimate.
    pub fn update_speed(&mut self, download_speed: u64, upload_speed: u64)
        ensures
            final(self).total_size == old(self).total_size,
            final(self).downloaded_size == old(self).downloaded_size,
            final(self).percent_hundredths == old(self).percent_hundredths,
            final(self).download_speed == download_speed,
            final(self).upload_speed == upload_speed,
            final(self).eta_secs == Progress::eta_for(
                old(self).total_size,
                old(self).downloaded_size,
                download_speed,
            ),
            old(self).wf() ==> final(self).wf(),
    {
        self.download_speed = download_speed;
        self.upload_speed = upload_speed;
        if download_speed > 0 && self.total_size > self.downloaded_size {
            let remaining = self.total_size - self.downloaded_size;
            self.eta_secs = Some(remaining / download_speed);
        } else {
            self.eta_secs = None;
        }
    }

    /// Records a new transferred count; the percentage follows when the total is known.
    pub fn update_downloaded(&mut self, downloaded_size: u64)
        requires
            old(self).total_size == 0 || downloaded_size <= old(self).total_size,
        ensures
            final(self).downloaded_size == downloaded_size,
            final(self).total_size == old(self).total_size,
            final(self).download_speed == old(self).download_speed,
            final(self).upload_speed == old(self).upload_speed,
            final(self).eta_secs == old(self).eta_secs,
            final(self).percent_hundredths == if old(self).total_size > 0 {
                ratio_hundredths(downloaded_size as nat, old(self).total_size as nat) as u64
            } else {
                old(self).percent_hundredths
            },
            old(self).wf() ==> final(self).wf(),
    {
        self.downloaded_size = downloaded_size;
        if self.total_size > 0 {
            self.percent_hundredths = percent_of(downloaded_size, self.total_size);
        }
    }

    /// Whether the total is known and fully transferred.
    pub fn is_completed(&self) -> (r: bool)
        ensures
            r == (self.total_size > 0 && self.downloaded_size >= self.total_size),
    {
        self.total_size > 0 && self.downloaded_size >= self.total_size
    }

    /// The download rate, human readable ("1.00 MB/s").
    pub fn format_speed(&self) -> (r: String)
        ensures
            r@ == bytes_text(self.download_speed as nat) + "/s"@,
    {
        format_bytes_per_sec(self.download_speed)
    }

    /// Transferred and total size, human readable ("1.00 KB / 2.00 KB").
    pub fn format_size(&self) -> (r: String)
        ensures
            r@ == bytes_text(self.downloaded_size as nat) + " / "@ + bytes_text(
                self.total_size as nat,
            ),
    {
        let mut r = format_bytes(self.downloaded_size);
        push_str(&mut r, " / ");
        let t = format_bytes(self.total_size);
        push_str(&mut r, t.as_str());
        r
    }

    /// The remaining-time estimate, human readable.
    pub fn format_eta(&self) -> (r: String)
        ensures
            r@ == eta_text(self.eta_secs),
    {
        let mut r = String::new();
        match self.eta_secs {
            Some(secs) => {
                if secs < 60 {
                    push_decimal(&mut r, secs as u128);
                    push_str(&mut r, "秒");
                } else if secs < 3600 {
                    push_decimal(&mut r, (secs / 60) as u128);
                    push_str(&mut r, "分");
                    push_decimal(&mut r, (secs % 60) as u128);
                    push_str(&mut r, "秒");
                } else {
                    push_decimal(&mut r, (secs / 3600) as u128);
                    push_str(&mut r, "时");
                    push_decimal(&mut r, ((secs % 3600) / 60) as u128);
                    push_str(&mut r, "分");
                }
            },
            None => {
                push_str(&mut r, "计算中...");
            },
        }
        r
    }
}

impl Default for Progress {
    fn default() -> (r: Progress)
        ensures
            r.total_size == 0,
            r.downloaded_size == 0,
            r.download_speed == 0,
            r.upload_speed == 0,
            r.eta_secs is None,
            r.percent_hundredths == 0,
            r.wf(),
    {
        Progress::new(0, 0)
    }
}

/// `ratio_hundredths` computed without overflow.
fn percent_of(done: u64, total: u64) -> (r: u64)
    requires
        total == 0 || done <= total,
    ensures
        r == ratio_hundredths(done as nat, total as nat),
        r <= 10000,
{
    if total == 0 {
        return 0;
    }
    let d = done as u128;
    let t = total as u128;
    assert(d * 10000 <= t * 10000) by (nonlinear_arith)
        requires
            d <= t,
    ;
    assert(d * 10000 <= 0xffff_ffff_ffff_ffffu128 * 10000) by (nonlinear_arith)
        requires
            d <= 0xffff_ffff_ffff_ffffu128,
    ;
    let q = d * 10000 / t;
    assert(q <= 10000) by (nonlinear_arith)
        requires
            q == (d * 10000) as int / t as int,
            d * 10000 <= t * 10000,
            t > 0,
    ;
    q as u64
}

/// The rendered text of a remaining-time estimate.
pub open spec fn eta_text(eta: Option<u64>) -> Seq<char> {
    match eta {
        Some(secs) => if secs < 60 {
            decimal(secs as nat) + "秒"@
        } else if secs < 3600 {
            decimal((secs / 60) as nat) + "分"@ + decimal((secs % 60) as nat) + "秒"@
        } else {
            decimal((secs / 3600) as nat) + "时"@ + decimal(((secs % 3600) / 60) as nat) + "分"@
        },
        None => "计算中..."@,
    }
}

/// `bytes / unit` rounded to hundredths, ties to even.
pub open spec fn rounded_hundredths(bytes: nat, unit: nat) -> nat {
    let q = bytes * 100 / unit;
    let r = bytes * 100 % unit;
    if 2 * r > unit || (2 * r == unit && q % 2 == 1) {
        q + 1
    } else {
        q
    }
}

/// A count of hundredths written with two decimals ("1.05").
pub open spec fn two_decimals(h: nat) -> Seq<char> {
    decimal(h / 100) + seq!['.', digit_char(((h % 100) / 10) as int), digit_char((h % 10) as int)]
}

/// Human-readable size with binary units and two decimals above 1 KB.
pub open spec fn bytes_text(bytes: nat) -> Seq<char> {
    if bytes >= 1024 * 1024 * 1024 * 1024 {
        two_decimals(rounded_hundredths(bytes, 1024 * 1024 * 1024 * 1024)) + " TB"@
    } else if bytes >= 1024 * 1024 * 1024 {
        two_decimals(rounded_hundredths(bytes, 1024 * 1024 * 1024)) + " GB"@
    } else if bytes >= 1024 * 1024 {
        two_decimals(rounded_hundredths(bytes, 1024 * 1024)) + " MB"@
    } else if bytes >= 1024 {
        two_decimals(rounded_hundredths(bytes, 1024)) + " KB"@
    } else {
        decimal(bytes) + " B"@
    }
}

/// Appends `bytes / unit` with two decimals.
fn push_scaled(s: &mut String, bytes: u64, unit: u64)
    requires
        unit > 0,
    ensures
        final(s)@ == old(s)@ + two_decimals(rounded_hundredths(bytes as nat, unit as nat)),
{
    let b = bytes as u128;
    let u = unit as u128;
    assert(b * 100 <= 0xffff_ffff_ffff_ffffu128 * 100) by (nonlinear_arith)
        requires
            b <= 0xffff_ffff_ffff_ffffu128,
    ;
    let q = b * 100 / u;
    let r = b * 100 % u;
    assert(q <= b * 100) by (nonlinear_arith)
        requires
            q == (b * 100) as int / u as int,
            u > 0,
    ;
    let h = if 2 * r > u || (2 * r == u && q % 2 == 1) {
        q + 1
    } else {
        q
    };
    push_decimal(s, h / 100);
    push_char(s, '.');
    let c1 = digit_of((h % 100) / 10);
    push_char(s, c1);
    let c2 = digit_of(h % 10);
    push_char(s, c2);
    assert(final(s)@ =~= old(s)@ + two_decimals(rounded_hundredths(bytes as nat, unit as nat)));
}

/// Human-readable size: "500 B", "1.00 KB", "1.50 MB", ...
pub fn format_bytes(bytes: u64) -> (r: String)
    ensures
        r@ == bytes_text(bytes as nat),
{
    let kb: u64 = 1024;
    let mb: u64 = 1024 * 1024;
    let gb: u64 = 1024 * 1024 * 1024;
    let tb: u64 = 1024 * 1024 * 1024 * 1024;
    let mut r = String::new();
    if bytes >= tb {
        push_scaled(&mut r, bytes, tb);
        push_str(&mut r, " TB");
    } else if bytes >= gb {
        push_scaled(&mut r, bytes, gb);
        push_str(&mut r, " GB");
    } else if bytes >= mb {
        push_scaled(&mut r, bytes, mb);
        push_str(&mut r, " MB");
    } else if bytes >= kb {
        push_scaled(&mut r, bytes, kb);
        push_str(&mut r, " KB");
    } else {
        push_decimal(&mut r, bytes as u128);
        push_str(&mut r, " B");
    }
    r
}

/// Human-readable rate: the size followed by "/s".
pub fn format_bytes_per_sec(bytes_per_sec: u64) -> (r: String)
    ensures
        r@ == bytes_text(bytes_per_sec as nat) + "/s"@,
{
    let mut r = format_bytes(bytes_per_sec);
    push_str(&mut r, "/s");
    r
}

} // verus!
