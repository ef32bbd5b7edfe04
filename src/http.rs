use vstd::prelude::*;

use crate::error::NebulaError;
use crate::event::{DownloadEvent, Progress, Timestamp, ratio_hundredths};
use crate::task::{url_file_name, TaskId};
use crate::text::{
    after_last_index_of_exec, chars_of, decimal, first_index_of_exec, owned, parse_u64, push_decimal,
    push_str, string_of, sub_vec, u64_text_value,
};

verus! {

/// What a HEAD request tells about a remote file.
#[derive(Debug, Clone, PartialEq, Eq)]
pub struct FileInfo {
    /// File name, from the last path segment of the URL (`download` when it is empty).
    pub name: String,
    /// Size in bytes, when the server sent a valid `Content-Length`.
    pub size: Option<u64>,
    /// Whether the server accepts byte ranges (`Accept-Ranges: bytes`).
    pub supports_resume: bool,
    /// The `Content-Type`, if any.
    pub mime_type: Option<String>,
}

/// The file name a URL gives: its last path segment before any query, or `download` when
/// that is empty.
pub open spec fn head_file_name(url: Seq<char>) -> Seq<char> {
    if url_file_name(url).len() == 0 {
        "download"@
    } else {
        url_file_name(url)
    }
}

/// Interprets the headers of a HEAD response for `url`; each header is given as text when
/// present and valid.
pub fn file_info_from_headers(
    url: &str,
    content_length: Option<&str>,
    accept_ranges: Option<&str>,
    content_type: Option<&str>,
) -> (r: FileInfo)
    ensures
        r.name@ == head_file_name(url@),
        r.size == match content_length {
            Some(v) => match u64_text_value(v@) {
                Some(n) => Some(n as u64),
                None => None,
            },
            None => None::<u64>,
        },
        r.supports_resume == match accept_ranges {
            Some(v) => v@ == "bytes"@,
            None => false,
        },
        match content_type {
            Some(v) => r.mime_type is Some && r.mime_type->0@ == v@,
            None => r.mime_type is None,
        },
{
    let cs = chars_of(url);
    let a = after_last_index_of_exec(&cs, '/');
    let seg = sub_vec(&cs, a, cs.len());
    let q = first_index_of_exec(&seg, '?');
    let name = if q == 0 {
        owned("download")
    } else {
        string_of(&seg, 0, q)
    };
    let size = match content_length {
        Some(v) => parse_u64(v),
        None => None,
    };
    let supports_resume = match accept_ranges {
        Some(v) => {
            let bytes = chars_of("bytes");
            let vc = chars_of(v);
            vec_eq(&vc, &bytes)
        },
        None => false,
    };
    let mime_type = match content_type {
        Some(v) => Some(owned(v)),
        None => None,
    };
    FileInfo { name, size, supports_resume, mime_type }
}

/// Whether two character vectors are equal.
fn vec_eq(a: &Vec<char>, b: &Vec<char>) -> (r: bool)
    ensures
        r == (a@ == b@),
{
    if a.len() != b.len() {
        return false;
    }
    let mut i: usize = 0;
    while i < a.len()
        invariant
            a@.len() == b@.len(),
            i <= a@.len(),
            forall|k: int| 0 <= k < i ==> a@[k] == b@[k],
        decreases a@.len() - i,
    {
        if a[i] != b[i] {
            return false;
        }
        i += 1;
    }
    assert(a@ =~= b@);
    true
}

/// The error for an HTTP status that is not a success (2xx, which includes 206), with
/// `what` naming the request and `status_text` the status as the client renders it.
pub fn status_error(status_code: u16, what: &str, status_text: &str) -> (r: Option<NebulaError>)
    ensures
        200 <= status_code < 300 ==> r is None,
        !(200 <= status_code < 300) ==> r == Some(
            NebulaError::HttpError { status_code, message: r->0->HttpError_message },
        ) && r->0->HttpError_message@ == what@ + ": "@ + status_text@,
{
    if 200 <= status_code && status_code < 300 {
        None
    } else {
        let mut message = owned(what);
        push_str(&mut message, ": ");
        push_str(&mut message, status_text);
        Some(NebulaError::HttpError { status_code, message })
    }
}

/// What `Path::join` gives for `base` and `name`, as text.
pub uninterp spec fn path_join_of(base: Seq<char>, name: Seq<char>) -> Seq<char>;

/// Relies on std::path::Path::join: `name` appended to `base` with the platform's
/// separator; both are `&str`, so the joined path converts to text without loss.
#[verifier::external_body]
fn path_join(base: &str, name: &str) -> (r: String)
    ensures
        r@ == path_join_of(base@, name@),
{
    std::path::Path::new(base).join(name).to_string_lossy().into_owned()
}

/// Where the file goes: inside `save_path` when it is a directory, else `save_path` itself.
pub fn destination(save_path: &str, is_dir: bool, name: &str) -> (r: String)
    ensures
        r@ == if is_dir {
            path_join_of(save_path@, name@)
        } else {
            save_path@
        },
{
    if is_dir {
        path_join(save_path, name)
    } else {
        owned(save_path)
    }
}

/// How a transfer starts, given what is already on disk.
#[derive(Debug, Clone, Copy, PartialEq, Eq, Structural)]
pub enum TransferPlan {
    /// The whole file is already there: complete at once.
    AlreadyComplete,
    /// Append to the partial file, asking for the bytes from `offset` on.
    Resume { offset: u64 },
    /// Truncate and download from the start.
    Fresh,
}

/// The plan for a destination holding `existing_size` bytes.
pub open spec fn spec_plan(existing_size: u64, size: Option<u64>, supports_resume: bool) -> TransferPlan {
    if size is Some && existing_size >= size->0 {
        TransferPlan::AlreadyComplete
    } else if existing_size > 0 && supports_resume {
        TransferPlan::Resume { offset: existing_size }
    } else {
        TransferPlan::Fresh
    }
}

/// Decides how to start: complete at once when the known size is already on disk, resume
/// from the bytes on disk when the server accepts ranges, else start over.
pub fn plan_transfer(existing_size: u64, size: Option<u64>, supports_resume: bool) -> (r: TransferPlan)
    ensures
        r == spec_plan(existing_size, size, supports_resume),
{
    match size {
        Some(total) => {
            if existing_size >= total {
                return TransferPlan::AlreadyComplete;
            }
        },
        None => {},
    }
    if existing_size > 0 && supports_resume {
        TransferPlan::Resume { offset: existing_size }
    } else {
        TransferPlan::Fresh
    }
}

/// Resuming asks for the bytes from the size on disk on and appends them; when the bytes on
/// disk are a prefix of the resource, the file then holds exactly the resource.
pub proof fn lemma_resume_reassembles(disk: Seq<u8>, body: Seq<u8>)
    requires
        0 < disk.len() < body.len() <= u64::MAX,
        body.subrange(0, disk.len() as int) == disk,
    ensures
        spec_plan(disk.len() as u64, Some(body.len() as u64), true) == (TransferPlan::Resume {
            offset: disk.len() as u64,
        }),
        disk + body.subrange(disk.len() as int, body.len() as int) == body,
{
    assert(disk + body.subrange(disk.len() as int, body.len() as int) =~= body);
}

/// The `Range` header value asking for the bytes from `offset` on: `bytes=<offset>-`.
pub fn range_header(offset: u64) -> (r: String)
    ensures
        r@ == "bytes="@ + decimal(offset as nat) + "-"@,
{
    let mut r = owned("bytes=");
    push_decimal(&mut r, offset as u128);
    push_str(&mut r, "-");
    r
}

/// Milliseconds between two progress samples.
pub const PROGRESS_INTERVAL_MS: u64 = 200;

/// The progress sample of `downloaded` bytes at a rate of `rate` bytes per second; the
/// total is the known size, or 0 while it is unknown.
pub open spec fn sample(size: Option<u64>, downloaded: u64, rate: u64) -> Progress {
    let total: u64 = match size {
        Some(t) => if downloaded > t {
            downloaded
        } else {
            t
        },
        None => 0,
    };
    Progress {
        total_size: total,
        downloaded_size: downloaded,
        download_speed: rate,
        upload_speed: 0,
        eta_secs: Progress::eta_for(total, downloaded, rate),
        percent_hundredths: ratio_hundredths(downloaded as nat, total as nat) as u64,
    }
}

/// Progress accounting of one HTTP transfer: counts the bytes and, at most every
/// `PROGRESS_INTERVAL_MS`, yields a sample with the rate since the previous one.
#[derive(Debug, Clone, Copy, PartialEq, Eq)]
pub struct ProgressMeter {
    pub task_id: TaskId,
    /// Expected size, when known.
    pub size: Option<u64>,
    /// Bytes on disk so far.
    pub downloaded: u64,
    /// Time of the last sample, in milliseconds of a monotonic clock.
    pub last_update_ms: u64,
    /// Bytes at the last sample.
    pub last_downloaded: u64,
}

impl ProgressMeter {
    /// A meter starting at `offset` bytes at time `now_ms`.
    pub fn new(task_id: TaskId, size: Option<u64>, offset: u64, now_ms: u64) -> (r: ProgressMeter)
        ensures
            r == (ProgressMeter {
                task_id,
                size,
                downloaded: offset,
                last_update_ms: now_ms,
                last_downloaded: offset,
            }),
    {
        ProgressMeter { task_id, size, downloaded: offset, last_update_ms: now_ms, last_downloaded: offset }
    }

    /// Accounts for a chunk of `len` bytes written at `now_ms`; returns the
    /// `ProgressUpdated` event when a sample is due. The count and the rate saturate at
    /// `u64::MAX`.
    pub fn on_chunk(&mut self, len: u64, now_ms: u64) -> (r: Option<DownloadEvent>)
        requires
            old(self).last_downloaded <= old(self).downloaded,
        ensures
            final(self).task_id == old(self).task_id,
            final(self).size == old(self).size,
            final(self).downloaded == if old(self).downloaded + len > u64::MAX {
                u64::MAX
            } else {
                (old(self).downloaded + len) as u64
            },
            final(self).last_downloaded <= final(self).downloaded,
            now_ms < old(self).last_update_ms || now_ms - old(self).last_update_ms
                < PROGRESS_INTERVAL_MS ==> r is None && final(self).last_update_ms == old(
                self,
            ).last_update_ms && final(self).last_downloaded == old(self).last_downloaded,
            now_ms >= old(self).last_update_ms && now_ms - old(self).last_update_ms
                >= PROGRESS_INTERVAL_MS ==> ({
                let rate = ((final(self).downloaded - old(self).last_downloaded) * 1000 / (now_ms
                    - old(self).last_update_ms) as int);
                &&& r == Some(
                    DownloadEvent::ProgressUpdated {
                        task_id: old(self).task_id,
                        progress: sample(
                            old(self).size,
                            final(self).downloaded,
                            if rate > u64::MAX {
                                u64::MAX
                            } else {
                                rate as u64
                            },
                        ),
                    },
                )
                &&& final(self).last_update_ms == now_ms
                &&& final(self).last_downloaded == final(self).downloaded
            }),
            r matches Some(DownloadEvent::ProgressUpdated { progress, .. }) ==> progress.wf(),
    {
        self.downloaded = if len > u64::MAX - self.downloaded {
            u64::MAX
        } else {
            self.downloaded + len
        };
        if now_ms < self.last_update_ms || now_ms - self.last_update_ms < PROGRESS_INTERVAL_MS {
            return None;
        }
        let elapsed = (now_ms - self.last_update_ms) as u128;
        let delta = (self.downloaded - self.last_downloaded) as u128;
        assert(delta * 1000 <= 0xffff_ffff_ffff_ffffu128 * 1000) by (nonlinear_arith)
            requires
                delta <= 0xffff_ffff_ffff_ffffu128,
        ;
        let q = delta * 1000 / elapsed;
        let rate: u64 = if q > u64::MAX as u128 {
            u64::MAX
        } else {
            q as u64
        };
        let total = match self.size {
            Some(t) => if self.downloaded > t {
                self.downloaded
            } else {
                t
            },
            None => 0,
        };
        let mut progress = Progress::new(total, self.downloaded);
        progress.update_speed(rate, 0);
        self.last_update_ms = now_ms;
        self.last_downloaded = self.downloaded;
        Some(DownloadEvent::ProgressUpdated { task_id: self.task_id, progress })
    }
}

/// The single event of a transfer that finds the whole file on disk: `TaskCompleted`.
pub fn already_complete_events(task_id: TaskId, now: Timestamp) -> (r: Vec<DownloadEvent>)
    ensures
        r@ == seq![DownloadEvent::TaskCompleted { task_id, completed_at: now }],
{
    let mut r = Vec::new();
    r.push(DownloadEvent::TaskCompleted { task_id, completed_at: now });
    r
}

/// Restarting a transfer whose destination already holds the known size completes it at
/// once: exactly one `TaskCompleted` and no `ProgressUpdated`.
pub proof fn lemma_restart_complete(existing_size: u64, size: u64, supports_resume: bool, task_id: TaskId, now: Timestamp)
    requires
        existing_size >= size,
    ensures
        spec_plan(existing_size, Some(size), supports_resume) == TransferPlan::AlreadyComplete,
        seq![DownloadEvent::TaskCompleted { task_id, completed_at: now }].len() == 1,
        !(seq![DownloadEvent::TaskCompleted { task_id, completed_at: now }][0] is ProgressUpdated),
{
}

} // verus!
