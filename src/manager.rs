use vstd::prelude::*;

use crate::config::ManagerConfig;
use crate::error::NebulaError;
use crate::event::{DownloadEvent, Progress};
use crate::ordering::{
    admits, lemma_phase_after_push, phase_after, well_ordered, EventGate, Phase,
};
use crate::task::{
    classify, lower_of, source_name, DownloadSource, DownloadTask, SourceView, TaskId, TaskStatus,
    DEFAULT_PRIORITY,
};
use crate::task_id::uuid_text;
use crate::text::owned;

verus! {

/// Events kept for each subscriber before the oldest are dropped.
pub const EVENT_CHANNEL_CAPACITY: usize = 1024;

/// Handler-local state of an HTTP transfer.
#[derive(Debug, Clone)]
pub struct HttpTransfer {
    pub task_id: TaskId,
    /// Set by `pause`, cleared by `resume`; the transfer loop waits while it is set.
    pub paused: bool,
    /// Last progress sample.
    pub progress: Progress,
    /// Destination file.
    pub save_path: String,
}

/// Handler-local state of a torrent.
#[derive(Debug, Clone)]
pub struct TorrentRecord {
    pub task_id: TaskId,
    /// The swarm engine's id of the torrent.
    pub handle_id: usize,
    /// Output directory.
    pub save_path: String,
    /// Display name.
    pub name: String,
    /// Last progress sample.
    pub progress: Progress,
}

/// What the HTTP transfer loop does before consuming the next chunk.
#[derive(Debug, Clone, Copy, PartialEq, Eq, Structural)]
pub enum Control {
    /// Write the chunk.
    Proceed,
    /// Wait and look again.
    Wait,
    /// Stop: the task was cancelled.
    Stop,
}

/// Files to delete after a cancel.
#[derive(Debug, Clone, PartialEq, Eq)]
pub enum Cleanup {
    Nothing,
    /// The partial file of an HTTP transfer.
    RemoveFile(String),
    /// The output directory of a torrent, recursively.
    RemoveDir(String),
}

/// The task's id appears in `ts`.
pub open spec fn has_id(ts: Seq<DownloadTask>, id: TaskId) -> bool {
    exists|i: int| 0 <= i < ts.len() && (#[trigger] ts[i]).id == id
}

/// No two tasks share an id.
pub open spec fn ids_unique(ts: Seq<DownloadTask>) -> bool {
    forall|i: int, j: int|
        0 <= i < ts.len() && 0 <= j < ts.len() && i != j ==> (#[trigger] ts[i]).id != (
        #[trigger] ts[j]).id
}

pub open spec fn http_has(rs: Seq<HttpTransfer>, id: TaskId) -> bool {
    exists|i: int| 0 <= i < rs.len() && (#[trigger] rs[i]).task_id == id
}

pub open spec fn torrent_has(rs: Seq<TorrentRecord>, id: TaskId) -> bool {
    exists|i: int| 0 <= i < rs.len() && (#[trigger] rs[i]).task_id == id
}

/// `e` reports that task `id` is unknown.
pub open spec fn not_found(e: NebulaError, id: TaskId) -> bool {
    e is TaskNotFound && e->TaskNotFound_0@ == uuid_text(id.0 as nat)
}

/// A magnet link or a torrent file.
pub open spec fn is_torrent_kind(s: SourceView) -> bool {
    s is Magnet || s is Torrent
}

/// The number of active tasks among `ts`.
pub open spec fn active_count(ts: Seq<DownloadTask>) -> nat
    decreases ts.len(),
{
    if ts.len() == 0 {
        0
    } else {
        active_count(ts.drop_last()) + if ts.last().status.spec_is_active() {
            1nat
        } else {
            0nat
        }
    }
}

/// The download manager: the task registry, the handlers' per-task records and the
/// event gate.
///
/// Network, disk and process work is done by the caller, which reports back through the
/// methods below; every status change and every event goes through here.
pub struct DownloadManager {
    config: ManagerConfig,
    tasks: Vec<DownloadTask>,
    http: Vec<HttpTransfer>,
    torrents: Vec<TorrentRecord>,
    torrent_available: bool,
    gate: EventGate,
}

impl DownloadManager {
    /// The registry: every task, in order of addition.
    pub closed spec fn tasks(&self) -> Seq<DownloadTask> {
        self.tasks@
    }

    /// Every event published so far.
    pub closed spec fn history(&self) -> Seq<DownloadEvent> {
        self.gate.history()
    }

    /// Events published and not yet taken.
    pub closed spec fn pending(&self) -> Seq<DownloadEvent> {
        self.gate.pending()
    }

    pub closed spec fn spec_config(&self) -> ManagerConfig {
        self.config
    }

    /// Whether the swarm engine is up.
    pub closed spec fn torrent_available(&self) -> bool {
        self.torrent_available
    }

    pub closed spec fn http_records(&self) -> Seq<HttpTransfer> {
        self.http@
    }

    pub closed spec fn torrent_records(&self) -> Seq<TorrentRecord> {
        self.torrents@
    }

    pub closed spec fn wf(&self) -> bool {
        &&& ids_unique(self.tasks@)
        &&& self.gate.wf()
        &&& forall|i: int|
            0 <= i < self.tasks@.len() ==> registered_phase(self.gate.history(), (#[trigger] self.tasks@[i]).id)
        &&& forall|i: int, j: int|
            0 <= i < self.http@.len() && 0 <= j < self.http@.len() && i != j ==> (
            #[trigger] self.http@[i]).task_id != (#[trigger] self.http@[j]).task_id
        &&& forall|i: int, j: int|
            0 <= i < self.torrents@.len() && 0 <= j < self.torrents@.len() && i != j ==> (
            #[trigger] self.torrents@[i]).task_id != (#[trigger] self.torrents@[j]).task_id
        &&& progress_in_range(self.tasks@, self.http@, self.torrents@)
    }

    /// Every progress the manager holds, in the registry and in the handlers' records, has
    /// its percentage in [0, 100] and, once the total is known, no more bytes than the total.
    pub proof fn lemma_progress_in_range(&self)
        requires
            self.wf(),
        ensures
            forall|i: int|
                0 <= i < self.tasks().len() ==> (#[trigger] self.tasks()[i]).progress.wf(),
            forall|j: int|
                0 <= j < self.http_records().len() ==> (
                #[trigger] self.http_records()[j]).progress.wf(),
            forall|j: int|
                0 <= j < self.torrent_records().len() ==> (
                #[trigger] self.torrent_records()[j]).progress.wf(),
    {
    }

    /// The published events are in per-task order (see `ordering`).
    pub proof fn lemma_events_well_ordered(&self)
        requires
            self.wf(),
        ensures
            well_ordered(self.history()),
    {
        self.gate.lemma_history_well_ordered();
    }

    /// A manager with no task; `torrent_available` tells whether the swarm engine started.
    pub fn new(config: ManagerConfig, torrent_available: bool) -> (r: DownloadManager)
        ensures
            r.wf(),
            r.tasks() == Seq::<DownloadTask>::empty(),
            r.history() == Seq::<DownloadEvent>::empty(),
            r.spec_config() == config,
            r.torrent_available() == torrent_available,
    {
        DownloadManager {
            config,
            tasks: Vec::new(),
            http: Vec::new(),
            torrents: Vec::new(),
            torrent_available,
            gate: EventGate::new(),
        }
    }

    /// The settings.
    pub fn config(&self) -> (r: &ManagerConfig)
        ensures
            *r == self.spec_config(),
    {
        &self.config
    }

    /// The default destination directory.
    pub fn download_dir(&self) -> (r: &String)
        ensures
            *r == self.spec_config().download_dir,
    {
        &self.config.download_dir
    }

    fn index_of(&self, id: TaskId) -> (r: Option<usize>)
        ensures
            r is Some ==> r->0 < self.tasks@.len() && self.tasks@[r->0 as int].id == id,
            r is None ==> !has_id(self.tasks@, id),
    {
        let mut i: usize = 0;
        while i < self.tasks.len()
            invariant
                i <= self.tasks@.len(),
                forall|k: int| 0 <= k < i ==> self.tasks@[k].id != id,
            decreases self.tasks@.len() - i,
        {
            if self.tasks[i].id == id {
                return Some(i);
            }
            i += 1;
        }
        None
    }

    fn http_index(&self, id: TaskId) -> (r: Option<usize>)
        ensures
            r is Some ==> r->0 < self.http@.len() && self.http@[r->0 as int].task_id == id,
            r is None ==> !http_has(self.http@, id),
    {
        let mut i: usize = 0;
        while i < self.http.len()
            invariant
                i <= self.http@.len(),
                forall|k: int| 0 <= k < i ==> self.http@[k].task_id != id,
            decreases self.http@.len() - i,
        {
            if self.http[i].task_id == id {
                return Some(i);
            }
            i += 1;
        }
        None
    }

    fn torrent_index(&self, id: TaskId) -> (r: Option<usize>)
        ensures
            r is Some ==> r->0 < self.torrents@.len() && self.torrents@[r->0 as int].task_id
                == id,
            r is None ==> !torrent_has(self.torrents@, id),
    {
        let mut i: usize = 0;
        while i < self.torrents.len()
            invariant
                i <= self.torrents@.len(),
                forall|k: int| 0 <= k < i ==> self.torrents@[k].task_id != id,
            decreases self.torrents@.len() - i,
        {
            if self.torrents[i].task_id == id {
                return Some(i);
            }
            i += 1;
        }
        None
    }

    /// Publishes an event of a protocol handler through the event gate; returns whether its
    /// task's order admitted it. `TaskAdded` and `TaskRemoved` belong to the manager's own
    /// operations and are refused here.
    pub fn publish(&mut self, e: DownloadEvent) -> (r: bool)
        requires
            old(self).wf(),
        ensures
            final(self).wf(),
            r == (!(e is TaskAdded || e is TaskRemoved) && admits(
                phase_after(old(self).history(), e.spec_task_id()),
                e,
            )),
            final(self).history() == if r {
                old(self).history().push(e)
            } else {
                old(self).history()
            },
            final(self).pending() == if r {
                old(self).pending().push(e)
            } else {
                old(self).pending()
            },
            final(self).tasks() == old(self).tasks(),
            final(self).spec_config() == old(self).spec_config(),
            final(self).torrent_available() == old(self).torrent_available(),
            final(self).http_records() == old(self).http_records(),
            final(self).torrent_records() == old(self).torrent_records(),
    {
        if matches!(e, DownloadEvent::TaskAdded { .. } | DownloadEvent::TaskRemoved { .. }) {
            return false;
        }
        let ghost h = self.gate.history();
        let r = self.gate.publish(e);
        proof {
            assert forall|i: int| 0 <= i < self.tasks@.len() implies registered_phase(self.gate.history(), (#[trigger] self.tasks@[i]).id) by {
                if r {
                    lemma_phase_after_push(h, e, self.tasks@[i].id);
                }
            }
        }
        r
    }

    /// Hands over the published events not yet delivered, oldest first.
    pub fn take_events(&mut self) -> (r: Vec<DownloadEvent>)
        requires
            old(self).wf(),
        ensures
            final(self).wf(),
            r@ == old(self).pending(),
            final(self).pending() == Seq::<DownloadEvent>::empty(),
            final(self).history() == old(self).history(),
            final(self).tasks() == old(self).tasks(),
            final(self).spec_config() == old(self).spec_config(),
            final(self).torrent_available() == old(self).torrent_available(),
            final(self).http_records() == old(self).http_records(),
            final(self).torrent_records() == old(self).torrent_records(),
    {
        self.gate.take_events()
    }

    /// Registers a task for `source` under a fresh random id and publishes `TaskAdded`
    /// (see `register_task`, which states the outcome for every id that can be drawn).
    pub fn add_task(&mut self, source: &str, save_path: String) -> (r: Result<
        TaskId,
        NebulaError,
    >)
        requires
            old(self).wf(),
        ensures
            final(self).wf(),
            exists|id: TaskId|
                #[trigger] register_post(*old(self), *final(self), id, source@, save_path@, r),
    {
        let id = TaskId::new();
        let ghost before = *self;
        let ghost sp = save_path@;
        let r = self.register_task(id, source, save_path);
        assert(register_post(before, *self, id, source@, sp, r));
        r
    }

    /// Registers task `id` for `source` and publishes `TaskAdded`; an id whose stream has
    /// already begun is refused with `TaskAlreadyExists`.
    ///
    /// An empty `save_path` stands for the configured download directory. The task is
    /// registered whatever the protocol; FTP is then refused with
    /// `UnsupportedProtocol("FTP")`, and a torrent source while the swarm engine is down
    /// with `UnsupportedProtocol`. On `Ok` the caller starts the protocol handler.
    pub fn register_task(&mut self, id: TaskId, source: &str, save_path: String) -> (r: Result<
        TaskId,
        NebulaError,
    >)
        requires
            old(self).wf(),
        ensures
            final(self).wf(),
            register_post(*old(self), *final(self), id, source@, save_path@, r),
    {
        let task_id = id;
        if self.gate.phase_of(task_id) != Phase::Unseen {
            return Err(NebulaError::TaskAlreadyExists(task_id.to_string()));
        }
        let download_source = DownloadSource::detect(source);
        let actual_save_path = if save_path.as_str().is_empty() {
            self.config.download_dir.clone()
        } else {
            save_path
        };
        let task = DownloadTask::create(task_id, download_source, actual_save_path);
        let is_ftp = matches!(task.source, DownloadSource::Ftp { .. });
        let is_torrent = matches!(
            task.source,
            DownloadSource::Magnet { .. } | DownloadSource::Torrent { .. }
        );
        let name = task.name.clone();
        let ghost old_tasks = self.tasks@;
        proof {
            assert forall|i: int| 0 <= i < old_tasks.len() implies old_tasks[i].id != task_id by {
                assert(phase_after(self.gate.history(), old_tasks[i].id) != Phase::Unseen);
            }
        }
        self.tasks.push(task);
        let ghost h = self.gate.history();
        let added = self.gate.publish(DownloadEvent::TaskAdded { task_id, name });
        proof {
            assert(added);
            assert forall|i: int| 0 <= i < self.tasks@.len() implies registered_phase(self.gate.history(), (#[trigger] self.tasks@[i]).id) by {
                lemma_phase_after_push(
                    h,
                    DownloadEvent::TaskAdded { task_id, name },
                    self.tasks@[i].id,
                );
            }
            assert(self.tasks@.drop_last() =~= old_tasks);
        }
        if is_ftp {
            return Err(NebulaError::UnsupportedProtocol(owned("FTP")));
        }
        if is_torrent && !self.torrent_available {
            return Err(
                NebulaError::UnsupportedProtocol(owned("BitTorrent 未初始化，磁力链接下载不可用")),
            );
        }
        Ok(task_id)
    }

    /// No two tasks, and no two records of one handler, share an id.
    pub proof fn lemma_ids_unique(&self)
        requires
            self.wf(),
        ensures
            ids_unique(self.tasks()),
            http_ids_unique(self.http_records()),
            torrent_ids_unique(self.torrent_records()),
    {
    }

    /// Pauses a task: it must exist, be pausable (pending, fetching metadata or
    /// downloading) with no outcome published yet, and its protocol handler must know it;
    /// then the task becomes `Paused` and `TaskPaused` is published.
    pub fn pause(&mut self, task_id: TaskId) -> (r: Result<(), NebulaError>)
        requires
            old(self).wf(),
        ensures
            final(self).wf(),
            toggle_post(*old(self), *final(self), task_id, true, r),
    {
        self.toggle(task_id, true)
    }

    /// Resumes a paused task with no outcome published yet: the mirror of `pause`; the task
    /// goes back to `Downloading` and `TaskResumed` is published.
    pub fn resume(&mut self, task_id: TaskId) -> (r: Result<(), NebulaError>)
        requires
            old(self).wf(),
        ensures
            final(self).wf(),
            toggle_post(*old(self), *final(self), task_id, false, r),
    {
        self.toggle(task_id, false)
    }

    fn toggle(&mut self, task_id: TaskId, pausing: bool) -> (r: Result<(), NebulaError>)
        requires
            old(self).wf(),
        ensures
            final(self).wf(),
            toggle_post(*old(self), *final(self), task_id, pausing, r),
    {
        let i = match self.index_of(task_id) {
            Some(i) => i,
            None => {
                return Err(NebulaError::TaskNotFound(task_id.to_string()));
            },
        };
        proof {
            self.lemma_unique_index(i as int, task_id);
        }
        let allowed = if pausing {
            self.tasks[i].status.can_pause()
        } else {
            self.tasks[i].status.can_resume()
        };
        if !allowed || self.gate.phase_of(task_id) != Phase::Live {
            return Err(
                NebulaError::InvalidTaskState {
                    current: self.tasks[i].status.description(),
                    action: if pausing {
                        owned("pause")
                    } else {
                        owned("resume")
                    },
                },
            );
        }
        match &self.tasks[i].source {
            DownloadSource::Http { .. } => {
                match self.http_index(task_id) {
                    Some(j) => {
                        proof {
                            self.lemma_unique_http(j as int, task_id);
                        }
                        let rec = HttpTransfer {
                            task_id: self.http[j].task_id,
                            paused: pausing,
                            progress: self.http[j].progress,
                            save_path: self.http[j].save_path.clone(),
                        };
                        self.http.set(j, rec);
                    },
                    None => {
                        return Err(NebulaError::TaskNotFound(task_id.to_string()));
                    },
                }
            },
            DownloadSource::Magnet { .. } | DownloadSource::Torrent { .. } => {
                if !self.torrent_available {
                    return Err(NebulaError::UnsupportedProtocol(owned("BitTorrent 未初始化")));
                }
                if self.torrent_index(task_id).is_none() {
                    return Err(NebulaError::TaskNotFound(task_id.to_string()));
                }
            },
            _ => {
                return Err(NebulaError::UnsupportedProtocol(owned("Unsupported")));
            },
        }
        let mut t = self.tasks[i].duplicate();
        t.status = if pausing {
            TaskStatus::Paused
        } else {
            TaskStatus::Downloading
        };
        self.tasks.set(i, t);
        let e = if pausing {
            DownloadEvent::TaskPaused { task_id }
        } else {
            DownloadEvent::TaskResumed { task_id }
        };
        proof {
            self.lemma_wf_after_task_update(i as int);
        }
        self.publish(e);
        Ok(())
    }

    /// The index of a task is the only one with its id.
    proof fn lemma_unique_index(&self, i: int, id: TaskId)
        requires
            self.wf(),
            0 <= i < self.tasks@.len(),
            self.tasks@[i].id == id,
        ensures
            forall|k: int| 0 <= k < self.tasks@.len() && self.tasks@[k].id == id ==> k == i,
    {
    }

    proof fn lemma_unique_http(&self, j: int, id: TaskId)
        requires
            self.wf(),
            0 <= j < self.http@.len(),
            self.http@[j].task_id == id,
        ensures
            forall|k: int| 0 <= k < self.http@.len() && self.http@[k].task_id == id ==> k == j,
    {
    }

    proof fn lemma_unique_torrent(&self, j: int, id: TaskId)
        requires
            self.wf(),
            0 <= j < self.torrents@.len(),
            self.torrents@[j].task_id == id,
        ensures
            forall|k: int| 0 <= k < self.torrents@.len() && self.torrents@[k].task_id == id ==> k
                == j,
    {
    }

    /// Replacing a task by one with the same id keeps the invariant.
    proof fn lemma_wf_after_task_update(&self, i: int)
        requires
            self.gate.wf(),
            ids_unique(self.tasks@),
            forall|k: int|
                0 <= k < self.tasks@.len() ==> registered_phase(self.gate.history(), (#[trigger] self.tasks@[k]).id),
            forall|a: int, b: int|
                0 <= a < self.http@.len() && 0 <= b < self.http@.len() && a != b ==> (
                #[trigger] self.http@[a]).task_id != (#[trigger] self.http@[b]).task_id,
            forall|a: int, b: int|
                0 <= a < self.torrents@.len() && 0 <= b < self.torrents@.len() && a != b ==> (
                #[trigger] self.torrents@[a]).task_id != (#[trigger] self.torrents@[b]).task_id,
            progress_in_range(self.tasks@, self.http@, self.torrents@),
        ensures
            self.wf(),
    {
    }

    /// Cancels a task: it leaves the registry whatever its state, its handler record is
    /// dropped, and `TaskRemoved` is published. With `delete_files`, the result names what
    /// the caller must delete (the partial file, or the torrent's output directory).
    pub fn cancel(&mut self, task_id: TaskId, delete_files: bool) -> (r: Result<
        Cleanup,
        NebulaError,
    >)
        requires
            old(self).wf(),
        ensures
            final(self).wf(),
            final(self).spec_config() == old(self).spec_config(),
            final(self).torrent_available() == old(self).torrent_available(),
            !has_id(old(self).tasks(), task_id) ==> r is Err && not_found(r->Err_0, task_id)
                && unchanged(*old(self), *final(self)),
            forall|i: int|
                0 <= i < old(self).tasks().len() && (#[trigger] old(self).tasks()[i]).id
                    == task_id ==> ({
                    let t = old(self).tasks()[i];
                    &&& r is Ok
                    &&& final(self).tasks() == old(self).tasks().remove(i)
                    &&& !has_id(final(self).tasks(), task_id)
                    &&& final(self).history() == old(self).history().push(
                        DownloadEvent::TaskRemoved { task_id },
                    )
                    &&& final(self).pending() == old(self).pending().push(
                        DownloadEvent::TaskRemoved { task_id },
                    )
                    &&& cancel_cleanup(*old(self), *final(self), t, delete_files, r->Ok_0)
                }),
    {
        let i = match self.index_of(task_id) {
            Some(i) => i,
            None => {
                return Err(NebulaError::TaskNotFound(task_id.to_string()));
            },
        };
        proof {
            self.lemma_unique_index(i as int, task_id);
        }
        let ghost old_self = *self;
        let task = self.tasks.remove(i);
        let mut cleanup = Cleanup::Nothing;
        let is_http = matches!(task.source, DownloadSource::Http { .. });
        let is_torrent = matches!(
            task.source,
            DownloadSource::Magnet { .. } | DownloadSource::Torrent { .. }
        );
        if let Some(j) = self.http_index(task_id) {
            proof {
                old_self.lemma_unique_http(j as int, task_id);
            }
            let rec = self.http.remove(j);
            if delete_files && is_http {
                cleanup = Cleanup::RemoveFile(rec.save_path);
            }
        }
        if let Some(j) = self.torrent_index(task_id) {
            proof {
                old_self.lemma_unique_torrent(j as int, task_id);
            }
            let rec = self.torrents.remove(j);
            if delete_files && is_torrent && self.torrent_available {
                cleanup = Cleanup::RemoveDir(rec.save_path);
            }
        }
        proof {
            assert forall|a: int, b: int|
                0 <= a < self.tasks@.len() && 0 <= b < self.tasks@.len() && a != b implies (
                #[trigger] self.tasks@[a]).id != (#[trigger] self.tasks@[b]).id by {
                let a0 = if a < i {
                    a
                } else {
                    a + 1
                };
                let b0 = if b < i {
                    b
                } else {
                    b + 1
                };
                assert(self.tasks@[a] == old_self.tasks@[a0]);
                assert(self.tasks@[b] == old_self.tasks@[b0]);
            }
            assert forall|k: int| 0 <= k < self.tasks@.len() implies registered_phase(self.gate.history(), (#[trigger] self.tasks@[k]).id) by {
                let k0 = if k < i {
                    k
                } else {
                    k + 1
                };
                assert(self.tasks@[k] == old_self.tasks@[k0]);
            }
            assert forall|a: int, b: int|
                0 <= a < self.http@.len() && 0 <= b < self.http@.len() && a != b implies (
                #[trigger] self.http@[a]).task_id != (#[trigger] self.http@[b]).task_id by {
                if self.http@.len() < old_self.http@.len() {
                    let j = choose|j: int|
                        0 <= j < old_self.http@.len() && self.http@ == old_self.http@.remove(j);
                    let a0 = if a < j {
                        a
                    } else {
                        a + 1
                    };
                    let b0 = if b < j {
                        b
                    } else {
                        b + 1
                    };
                    assert(self.http@[a] == old_self.http@[a0]);
                    assert(self.http@[b] == old_self.http@[b0]);
                }
            }
            assert forall|a: int, b: int|
                0 <= a < self.torrents@.len() && 0 <= b < self.torrents@.len() && a != b implies (
                #[trigger] self.torrents@[a]).task_id != (#[trigger] self.torrents@[b]).task_id by {
                if self.torrents@.len() < old_self.torrents@.len() {
                    let j = choose|j: int|
                        0 <= j < old_self.torrents@.len() && self.torrents@
                            == old_self.torrents@.remove(j);
                    let a0 = if a < j {
                        a
                    } else {
                        a + 1
                    };
                    let b0 = if b < j {
                        b
                    } else {
                        b + 1
                    };
                    assert(self.torrents@[a] == old_self.torrents@[a0]);
                    assert(self.torrents@[b] == old_self.torrents@[b0]);
                }
            }
        }
        let ghost h = self.gate.history();
        let removed = self.gate.publish(DownloadEvent::TaskRemoved { task_id });
        proof {
            assert(registered_phase(h, old_self.tasks@[i as int].id));
            assert(removed);
            assert forall|k: int| 0 <= k < self.tasks@.len() implies registered_phase(
                self.gate.history(),
                (#[trigger] self.tasks@[k]).id,
            ) by {
                let k0 = if k < i {
                    k
                } else {
                    k + 1
                };
                assert(self.tasks@[k] == old_self.tasks@[k0]);
                assert(k0 != i);
                lemma_phase_after_push(h, DownloadEvent::TaskRemoved { task_id }, self.tasks@[k].id);
            }
        }
        Ok(cleanup)
    }

    /// A copy of the task with this id.
    pub fn get_task(&self, task_id: TaskId) -> (r: Option<DownloadTask>)
        requires
            self.wf(),
        ensures
            !has_id(self.tasks(), task_id) ==> r is None,
            forall|i: int|
                0 <= i < self.tasks().len() && (#[trigger] self.tasks()[i]).id == task_id ==> r
                    == Some(self.tasks()[i]),
    {
        match self.index_of(task_id) {
            Some(i) => {
                proof {
                    self.lemma_unique_index(i as int, task_id);
                }
                Some(self.tasks[i].duplicate())
            },
            None => None,
        }
    }

    /// A snapshot of every task.
    pub fn list_tasks(&self) -> (r: Vec<DownloadTask>)
        ensures
            r@ == self.tasks(),
    {
        let mut out: Vec<DownloadTask> = Vec::new();
        let mut i: usize = 0;
        while i < self.tasks.len()
            invariant
                i <= self.tasks@.len(),
                out@ == self.tasks@.subrange(0, i as int),
            decreases self.tasks@.len() - i,
        {
            out.push(self.tasks[i].duplicate());
            i += 1;
            assert(out@ =~= self.tasks@.subrange(0, i as int));
        }
        assert(out@ =~= self.tasks@);
        out
    }

    /// The number of tasks that are downloading, fetching metadata or seeding.
    pub fn active_task_count(&self) -> (r: usize)
        ensures
            r == active_count(self.tasks()),
    {
        let mut n: usize = 0;
        let mut i: usize = 0;
        while i < self.tasks.len()
            invariant
                i <= self.tasks@.len(),
                n == active_count(self.tasks@.subrange(0, i as int)),
                n <= i,
            decreases self.tasks@.len() - i,
        {
            assert(self.tasks@.subrange(0, i + 1).drop_last() =~= self.tasks@.subrange(
                0,
                i as int,
            ));
            if self.tasks[i].status.is_active() {
                n += 1;
            }
            i += 1;
        }
        assert(self.tasks@.subrange(0, i as int) =~= self.tasks@);
        n
    }

    /// The live progress of a task, as its protocol handler last recorded it.
    pub fn get_progress(&self, task_id: TaskId) -> (r: Result<Progress, NebulaError>)
        requires
            self.wf(),
        ensures
            !has_id(self.tasks(), task_id) ==> r is Err && not_found(r->Err_0, task_id),
            r is Ok ==> r->Ok_0.wf(),
            forall|i: int|
                0 <= i < self.tasks().len() && (#[trigger] self.tasks()[i]).id == task_id ==> ({
                    let s = self.tasks()[i].source@;
                    &&& s is Http ==> (if http_has(self.http_records(), task_id) {
                        forall|j: int|
                            0 <= j < self.http_records().len() && (#[trigger] self.http_records()[j]).task_id
                                == task_id ==> r == Ok::<Progress, NebulaError>(
                                self.http_records()[j].progress,
                            )
                    } else {
                        r is Err && not_found(r->Err_0, task_id)
                    })
                    &&& is_torrent_kind(s) ==> (if !self.torrent_available() {
                        r is Err && r->Err_0 is UnsupportedProtocol
                    } else if torrent_has(self.torrent_records(), task_id) {
                        forall|j: int|
                            0 <= j < self.torrent_records().len() && (#[trigger] self.torrent_records()[j]).task_id
                                == task_id ==> r == Ok::<Progress, NebulaError>(
                                self.torrent_records()[j].progress,
                            )
                    } else {
                        r is Err && not_found(r->Err_0, task_id)
                    })
                    &&& (s is Video || s is Ftp) ==> r is Err && r->Err_0 is UnsupportedProtocol
                }),
    {
        let i = match self.index_of(task_id) {
            Some(i) => i,
            None => {
                return Err(NebulaError::TaskNotFound(task_id.to_string()));
            },
        };
        proof {
            self.lemma_unique_index(i as int, task_id);
        }
        match &self.tasks[i].source {
            DownloadSource::Http { .. } => match self.http_index(task_id) {
                Some(j) => {
                    proof {
                        self.lemma_unique_http(j as int, task_id);
                    }
                    Ok(self.http[j].progress)
                },
                None => Err(NebulaError::TaskNotFound(task_id.to_string())),
            },
            DownloadSource::Magnet { .. } | DownloadSource::Torrent { .. } => {
                if !self.torrent_available {
                    return Err(NebulaError::UnsupportedProtocol(owned("BitTorrent 未初始化")));
                }
                match self.torrent_index(task_id) {
                    Some(j) => {
                        proof {
                            self.lemma_unique_torrent(j as int, task_id);
                        }
                        Ok(self.torrents[j].progress)
                    },
                    None => Err(NebulaError::TaskNotFound(task_id.to_string())),
                }
            },
            _ => Err(NebulaError::UnsupportedProtocol(owned("Unsupported"))),
        }
    }
}


impl DownloadManager {
    /// Replaces task `i` by `t`, which has the same id.
    fn replace_task(&mut self, i: usize, t: DownloadTask)
        requires
            old(self).wf(),
            i < old(self).tasks@.len(),
            t.id == old(self).tasks@[i as int].id,
            t.progress.wf(),
        ensures
            final(self).wf(),
            final(self).tasks@ == old(self).tasks@.update(i as int, t),
            final(self).gate == old(self).gate,
            final(self).http@ == old(self).http@,
            final(self).torrents@ == old(self).torrents@,
            final(self).config == old(self).config,
            final(self).torrent_available == old(self).torrent_available,
    {
        self.tasks.set(i, t);
        proof {
            self.lemma_wf_after_task_update(i as int);
        }
    }

    /// Registers (or restarts) the HTTP transfer of a task, unpaused, with `total_size`
    /// bytes expected (0 when unknown) and none transferred.
    pub fn http_register(&mut self, task_id: TaskId, total_size: u64, save_path: String)
        requires
            old(self).wf(),
        ensures
            final(self).wf(),
            final(self).tasks() == old(self).tasks(),
            final(self).history() == old(self).history(),
            final(self).pending() == old(self).pending(),
            final(self).torrent_records() == old(self).torrent_records(),
            final(self).spec_config() == old(self).spec_config(),
            final(self).torrent_available() == old(self).torrent_available(),
            http_has(old(self).http_records(), task_id) ==> forall|j: int|
                0 <= j < old(self).http_records().len() && (#[trigger] old(self).http_records()[j]).task_id == task_id ==> final(self).http_records() == old(self).http_records().update(j, final(self).http_records()[j]),
            !http_has(old(self).http_records(), task_id) ==> final(self).http_records() == old(self).http_records().push(final(self).http_records().last()),
            forall|j: int|
                0 <= j < final(self).http_records().len() && (#[trigger] final(self).http_records()[j]).task_id == task_id ==> ({
                    let rec = final(self).http_records()[j];
                    &&& !rec.paused
                    &&& rec.save_path == save_path
                    &&& rec.progress.total_size == total_size
                    &&& rec.progress.downloaded_size == 0
                    &&& rec.progress.wf()
                }),
    {
        let rec = HttpTransfer {
            task_id,
            paused: false,
            progress: Progress::new(total_size, 0),
            save_path,
        };
        let ghost old_http = self.http@;
        match self.http_index(task_id) {
            Some(j) => {
                proof {
                    self.lemma_unique_http(j as int, task_id);
                }
                self.http.set(j, rec);
            },
            None => {
                self.http.push(rec);
            },
        }
        proof {
            assert forall|a: int, b: int|
                0 <= a < self.http@.len() && 0 <= b < self.http@.len() && a != b implies (
                #[trigger] self.http@[a]).task_id != (#[trigger] self.http@[b]).task_id by {
                if a < old_http.len() && b < old_http.len() {
                    if self.http@[a].task_id == task_id {
                        assert(old_http[a].task_id == task_id);
                    }
                    if self.http@[b].task_id == task_id {
                        assert(old_http[b].task_id == task_id);
                    }
                }
            }
        }
    }

    /// What the HTTP transfer loop must do before the next chunk: stop once the task is
    /// cancelled (its record is gone), wait while it is paused, go on otherwise.
    pub fn http_control(&self, task_id: TaskId) -> (r: Control)
        requires
            self.wf(),
        ensures
            !http_has(self.http_records(), task_id) ==> r == Control::Stop,
            forall|j: int|
                0 <= j < self.http_records().len() && (#[trigger] self.http_records()[j]).task_id
                    == task_id ==> r == if self.http_records()[j].paused {
                    Control::Wait
                } else {
                    Control::Proceed
                },
    {
        match self.http_index(task_id) {
            Some(j) => {
                proof {
                    self.lemma_unique_http(j as int, task_id);
                }
                if self.http[j].paused {
                    Control::Wait
                } else {
                    Control::Proceed
                }
            },
            None => Control::Stop,
        }
    }

    /// Records a progress sample of an HTTP transfer; returns whether the transfer is
    /// still registered.
    pub fn http_record_progress(&mut self, task_id: TaskId, progress: Progress) -> (r: bool)
        requires
            old(self).wf(),
            progress.wf(),
        ensures
            final(self).wf(),
            r == http_has(old(self).http_records(), task_id),
            final(self).tasks() == old(self).tasks(),
            final(self).history() == old(self).history(),
            final(self).pending() == old(self).pending(),
            final(self).torrent_records() == old(self).torrent_records(),
            final(self).spec_config() == old(self).spec_config(),
            final(self).torrent_available() == old(self).torrent_available(),
            !r ==> final(self).http_records() == old(self).http_records(),
            forall|j: int|
                0 <= j < old(self).http_records().len() && (#[trigger] old(self).http_records()[j]).task_id == task_id ==> final(self).http_records() == old(self).http_records().update(
                    j,
                    HttpTransfer { progress, ..old(self).http_records()[j] },
                ),
    {
        match self.http_index(task_id) {
            Some(j) => {
                proof {
                    self.lemma_unique_http(j as int, task_id);
                }
                let rec = HttpTransfer {
                    task_id: self.http[j].task_id,
                    paused: self.http[j].paused,
                    progress,
                    save_path: self.http[j].save_path.clone(),
                };
                let ghost old_http = self.http@;
                self.http.set(j, rec);
                proof {
                    assert forall|a: int, b: int|
                        0 <= a < self.http@.len() && 0 <= b < self.http@.len() && a != b implies (
                        #[trigger] self.http@[a]).task_id != (#[trigger] self.http@[b]).task_id by {
                        assert(old_http[a].task_id == self.http@[a].task_id);
                        assert(old_http[b].task_id == self.http@[b].task_id);
                    }
                }
                true
            },
            None => false,
        }
    }

    /// Drops the HTTP record of a finished transfer.
    pub fn http_finish(&mut self, task_id: TaskId)
        requires
            old(self).wf(),
        ensures
            final(self).wf(),
            final(self).tasks() == old(self).tasks(),
            final(self).history() == old(self).history(),
            final(self).pending() == old(self).pending(),
            final(self).torrent_records() == old(self).torrent_records(),
            final(self).spec_config() == old(self).spec_config(),
            final(self).torrent_available() == old(self).torrent_available(),
            !http_has(final(self).http_records(), task_id),
            !http_has(old(self).http_records(), task_id) ==> final(self).http_records() == old(self).http_records(),
    {
        match self.http_index(task_id) {
            Some(j) => {
                proof {
                    self.lemma_unique_http(j as int, task_id);
                }
                let ghost old_http = self.http@;
                self.http.remove(j);
                proof {
                    assert forall|a: int, b: int|
                        0 <= a < self.http@.len() && 0 <= b < self.http@.len() && a != b implies (
                        #[trigger] self.http@[a]).task_id != (#[trigger] self.http@[b]).task_id by {
                        let a0 = if a < j {
                            a
                        } else {
                            a + 1
                        };
                        let b0 = if b < j {
                            b
                        } else {
                            b + 1
                        };
                        assert(self.http@[a] == old_http[a0]);
                        assert(self.http@[b] == old_http[b0]);
                    }
                    assert forall|k: int| 0 <= k < self.http@.len() implies (#[trigger] self.http@[k]).task_id
                        != task_id by {
                        let k0 = if k < j {
                            k
                        } else {
                            k + 1
                        };
                        assert(self.http@[k] == old_http[k0]);
                    }
                }
            },
            None => {},
        }
    }

    /// Registers a torrent handed to the swarm engine.
    pub fn torrent_register(
        &mut self,
        task_id: TaskId,
        handle_id: usize,
        save_path: String,
        name: String,
        total_size: u64,
    )
        requires
            old(self).wf(),
        ensures
            final(self).wf(),
            final(self).tasks() == old(self).tasks(),
            final(self).history() == old(self).history(),
            final(self).pending() == old(self).pending(),
            final(self).http_records() == old(self).http_records(),
            final(self).spec_config() == old(self).spec_config(),
            final(self).torrent_available() == old(self).torrent_available(),
            torrent_has(final(self).torrent_records(), task_id),
            forall|j: int|
                0 <= j < final(self).torrent_records().len() && (#[trigger] final(self).torrent_records()[j]).task_id == task_id ==> ({
                    let rec = final(self).torrent_records()[j];
                    &&& rec.handle_id == handle_id
                    &&& rec.save_path == save_path
                    &&& rec.name == name
                    &&& rec.progress.total_size == total_size
                    &&& rec.progress.downloaded_size == 0
                }),
            forall|j: int|
                0 <= j < old(self).torrent_records().len() && (#[trigger] old(self).torrent_records()[j]).task_id != task_id ==> final(self).torrent_records().contains(
                    old(self).torrent_records()[j],
                ),
    {
        let rec = TorrentRecord {
            task_id,
            handle_id,
            save_path,
            name,
            progress: Progress::new(total_size, 0),
        };
        let ghost old_t = self.torrents@;
        match self.torrent_index(task_id) {
            Some(j) => {
                proof {
                    self.lemma_unique_torrent(j as int, task_id);
                }
                self.torrents.set(j, rec);
                proof {
                    assert(self.torrents@[j as int].task_id == task_id);
                    assert forall|k: int|
                        0 <= k < old_t.len() && (#[trigger] old_t[k]).task_id
                            != task_id implies self.torrents@.contains(old_t[k]) by {
                        assert(self.torrents@[k] == old_t[k]);
                    }
                }
            },
            None => {
                self.torrents.push(rec);
                proof {
                    assert forall|k: int|
                        0 <= k < old_t.len() && (#[trigger] old_t[k]).task_id
                            != task_id implies self.torrents@.contains(old_t[k]) by {
                        assert(self.torrents@[k] == old_t[k]);
                    }
                    assert(self.torrents@[old_t.len() as int] == rec);
                }
            },
        }
        proof {
            assert forall|a: int, b: int|
                0 <= a < self.torrents@.len() && 0 <= b < self.torrents@.len() && a != b implies (
                #[trigger] self.torrents@[a]).task_id != (#[trigger] self.torrents@[b]).task_id by {
                if a < old_t.len() && b < old_t.len() {
                    if self.torrents@[a].task_id == task_id {
                        assert(old_t[a].task_id == task_id);
                    }
                    if self.torrents@[b].task_id == task_id {
                        assert(old_t[b].task_id == task_id);
                    }
                }
            }
        }
    }

    /// The swarm engine's id of a monitored torrent, while its record exists.
    pub fn torrent_handle(&self, task_id: TaskId) -> (r: Option<usize>)
        requires
            self.wf(),
        ensures
            !torrent_has(self.torrent_records(), task_id) ==> r is None,
            forall|j: int|
                0 <= j < self.torrent_records().len() && (#[trigger] self.torrent_records()[j]).task_id
                    == task_id ==> r == Some(self.torrent_records()[j].handle_id),
    {
        match self.torrent_index(task_id) {
            Some(j) => {
                proof {
                    self.lemma_unique_torrent(j as int, task_id);
                }
                Some(self.torrents[j].handle_id)
            },
            None => None,
        }
    }

    /// Records a progress sample of a monitored torrent; returns whether it is still
    /// monitored.
    pub fn torrent_record_progress(&mut self, task_id: TaskId, progress: Progress) -> (r: bool)
        requires
            old(self).wf(),
            progress.wf(),
        ensures
            final(self).wf(),
            r == torrent_has(old(self).torrent_records(), task_id),
            final(self).tasks() == old(self).tasks(),
            final(self).history() == old(self).history(),
            final(self).pending() == old(self).pending(),
            final(self).http_records() == old(self).http_records(),
            final(self).spec_config() == old(self).spec_config(),
            final(self).torrent_available() == old(self).torrent_available(),
            !r ==> final(self).torrent_records() == old(self).torrent_records(),
            forall|j: int|
                0 <= j < old(self).torrent_records().len() && (#[trigger] old(self).torrent_records()[j]).task_id == task_id ==> final(self).torrent_records()
                    == old(self).torrent_records().update(
                    j,
                    TorrentRecord { progress, ..old(self).torrent_records()[j] },
                ),
    {
        match self.torrent_index(task_id) {
            Some(j) => {
                proof {
                    self.lemma_unique_torrent(j as int, task_id);
                }
                let rec = TorrentRecord {
                    task_id: self.torrents[j].task_id,
                    handle_id: self.torrents[j].handle_id,
                    save_path: self.torrents[j].save_path.clone(),
                    name: self.torrents[j].name.clone(),
                    progress,
                };
                let ghost old_t = self.torrents@;
                self.torrents.set(j, rec);
                proof {
                    assert forall|a: int, b: int|
                        0 <= a < self.torrents@.len() && 0 <= b < self.torrents@.len() && a
                            != b implies (#[trigger] self.torrents@[a]).task_id != (
                        #[trigger] self.torrents@[b]).task_id by {
                        assert(old_t[a].task_id == self.torrents@[a].task_id);
                        assert(old_t[b].task_id == self.torrents@[b].task_id);
                    }
                }
                true
            },
            None => false,
        }
    }

    /// The dispatcher picked up a task: an HTTP task starts downloading, a torrent starts
    /// fetching metadata; other tasks are left as they are.
    pub fn mark_dispatched(&mut self, task_id: TaskId)
        requires
            old(self).wf(),
        ensures
            final(self).wf(),
            final(self).history() == old(self).history(),
            final(self).pending() == old(self).pending(),
            final(self).http_records() == old(self).http_records(),
            final(self).torrent_records() == old(self).torrent_records(),
            final(self).spec_config() == old(self).spec_config(),
            final(self).torrent_available() == old(self).torrent_available(),
            final(self).tasks().len() == old(self).tasks().len(),
            forall|i: int|
                0 <= i < old(self).tasks().len() ==> ({
                    let t = old(self).tasks()[i];
                    let u = #[trigger] final(self).tasks()[i];
                    if t.id != task_id || !(t.source@ is Http || is_torrent_kind(t.source@)) {
                        u == t
                    } else if t.source@ is Http {
                        u == DownloadTask {
                            status: TaskStatus::Downloading,
                            started_at: u.started_at,
                            ..t
                        } && u.started_at is Some
                    } else {
                        u == DownloadTask { status: TaskStatus::FetchingMetadata, ..t }
                    }
                }),
    {
        if let Some(i) = self.index_of(task_id) {
            proof {
                self.lemma_unique_index(i as int, task_id);
            }
            let mut t = self.tasks[i].duplicate();
            match &t.source {
                DownloadSource::Http { .. } => {
                    t.mark_started();
                },
                DownloadSource::Magnet { .. } | DownloadSource::Torrent { .. } => {
                    t.status = TaskStatus::FetchingMetadata;
                },
                _ => {},
            }
            self.replace_task(i, t);
        }
    }

    /// The protocol handler's `start` returned: on an error the task fails, with
    /// `TaskFailed` published; on success an HTTP or video task completes (a torrent goes on
    /// under its monitor).
    pub fn start_finished(&mut self, task_id: TaskId, result: Result<(), NebulaError>)
        requires
            old(self).wf(),
        ensures
            final(self).wf(),
            final(self).http_records() == old(self).http_records(),
            final(self).torrent_records() == old(self).torrent_records(),
            final(self).spec_config() == old(self).spec_config(),
            final(self).torrent_available() == old(self).torrent_available(),
            final(self).tasks().len() == old(self).tasks().len(),
            result is Ok ==> final(self).history() == old(self).history() && final(self).pending()
                == old(self).pending(),
            result is Err ==> published(
                *old(self),
                *final(self),
                DownloadEvent::TaskFailed {
                    task_id,
                    error: final(self).history().last()->TaskFailed_error,
                },
            ) && (final(self).history().len() > old(self).history().len()
                ==> final(self).history().last()->TaskFailed_error@
                == result->Err_0.message()),
            forall|i: int|
                0 <= i < old(self).tasks().len() ==> ({
                    let t = old(self).tasks()[i];
                    let u = #[trigger] final(self).tasks()[i];
                    if t.id != task_id {
                        u == t
                    } else if result is Err {
                        u.status is Failed && u.status->Failed_error@ == result->Err_0.message()
                            && u.status->Failed_retry_count == 0 && u == DownloadTask {
                            status: u.status,
                            ..t
                        }
                    } else if t.source@ is Http || t.source@ is Video {
                        u.status == TaskStatus::Completed && u.completed_at is Some && u
                            == DownloadTask {
                            status: TaskStatus::Completed,
                            completed_at: u.completed_at,
                            ..t
                        }
                    } else {
                        u == t
                    }
                }),
    {
        match result {
            Err(e) => {
                let msg = e.to_string();
                self.publish(
                    DownloadEvent::TaskFailed { task_id, error: msg.clone() },
                );
                if let Some(i) = self.index_of(task_id) {
                    proof {
                        self.lemma_unique_index(i as int, task_id);
                    }
                    let mut t = self.tasks[i].duplicate();
                    t.mark_failed(msg, 0);
                    self.replace_task(i, t);
                }
            },
            Ok(()) => {
                if let Some(i) = self.index_of(task_id) {
                    proof {
                        self.lemma_unique_index(i as int, task_id);
                    }
                    if matches!(
                        self.tasks[i].source,
                        DownloadSource::Http { .. } | DownloadSource::Video { .. }
                    ) {
                        let mut t = self.tasks[i].duplicate();
                        t.mark_completed();
                        self.replace_task(i, t);
                    }
                }
            },
        }
    }

    /// Video information arrived: `MetadataReceived` carries the real title (size unknown,
    /// one file), and the task takes that name and starts downloading.
    pub fn video_metadata(&mut self, task_id: TaskId, title: String)
        requires
            old(self).wf(),
        ensures
            final(self).wf(),
            final(self).http_records() == old(self).http_records(),
            final(self).torrent_records() == old(self).torrent_records(),
            final(self).spec_config() == old(self).spec_config(),
            final(self).torrent_available() == old(self).torrent_available(),
            published(
                *old(self),
                *final(self),
                DownloadEvent::MetadataReceived {
                    task_id,
                    name: title,
                    total_size: 0,
                    file_count: 1,
                },
            ),
            final(self).tasks().len() == old(self).tasks().len(),
            forall|i: int|
                0 <= i < old(self).tasks().len() ==> ({
                    let t = old(self).tasks()[i];
                    let u = #[trigger] final(self).tasks()[i];
                    if t.id != task_id {
                        u == t
                    } else {
                        u == DownloadTask {
                            name: title,
                            status: TaskStatus::Downloading,
                            started_at: u.started_at,
                            ..t
                        } && u.started_at is Some
                    }
                }),
    {
        self.publish(
            DownloadEvent::MetadataReceived {
                task_id,
                name: title.clone(),
                total_size: 0,
                file_count: 1,
            },
        );
        if let Some(i) = self.index_of(task_id) {
            proof {
                self.lemma_unique_index(i as int, task_id);
            }
            let mut t = self.tasks[i].duplicate();
            t.name = title;
            t.mark_started();
            self.replace_task(i, t);
        }
    }
}

/// A registered task has published `TaskAdded` and not `TaskRemoved`.
pub open spec fn registered_phase(h: Seq<DownloadEvent>, id: TaskId) -> bool {
    phase_after(h, id) is Live || phase_after(h, id) is Ended
}

/// No two HTTP records share a task id.
pub open spec fn http_ids_unique(rs: Seq<HttpTransfer>) -> bool {
    forall|i: int, j: int|
        0 <= i < rs.len() && 0 <= j < rs.len() && i != j ==> (#[trigger] rs[i]).task_id != (
        #[trigger] rs[j]).task_id
}

/// No two torrent records share a task id.
pub open spec fn torrent_ids_unique(rs: Seq<TorrentRecord>) -> bool {
    forall|i: int, j: int|
        0 <= i < rs.len() && 0 <= j < rs.len() && i != j ==> (#[trigger] rs[i]).task_id != (
        #[trigger] rs[j]).task_id
}

/// What registering task `id` for `source` (saved under `save_path`) does: an id whose
/// stream has begun is refused and nothing changes; otherwise the task is added, pending,
/// and `TaskAdded` is published, then FTP and (without the swarm engine) torrent sources
/// are refused and every other source is accepted.
pub open spec fn register_post(
    old: DownloadManager,
    new: DownloadManager,
    id: TaskId,
    source: Seq<char>,
    save_path: Seq<char>,
    r: Result<TaskId, NebulaError>,
) -> bool {
    &&& new.spec_config() == old.spec_config()
    &&& new.torrent_available() == old.torrent_available()
    &&& new.http_records() == old.http_records()
    &&& new.torrent_records() == old.torrent_records()
    &&& if phase_after(old.history(), id) != Phase::Unseen {
        &&& r is Err && r->Err_0 is TaskAlreadyExists
        &&& r->Err_0->TaskAlreadyExists_0@ == uuid_text(id.0 as nat)
        &&& new.tasks() == old.tasks()
        &&& new.history() == old.history()
        &&& new.pending() == old.pending()
    } else {
        let t = new.tasks().last();
        let kind = classify(source, lower_of(source));
        let added = DownloadEvent::TaskAdded { task_id: id, name: t.name };
        &&& !has_id(old.tasks(), id)
        &&& new.tasks() == old.tasks().push(t)
        &&& t.id == id
        &&& t.source@ == kind
        &&& t.name@ == source_name(kind)
        &&& t.status == TaskStatus::Pending
        &&& t.priority == DEFAULT_PRIORITY
        &&& t.progress.total_size == 0 && t.progress.downloaded_size == 0
        &&& t.started_at is None && t.completed_at is None
        &&& t.save_path@ == if save_path.len() == 0 {
            old.spec_config().download_dir@
        } else {
            save_path
        }
        &&& new.history() == old.history().push(added)
        &&& new.pending() == old.pending().push(added)
        &&& kind is Ftp ==> r is Err && r->Err_0 is UnsupportedProtocol
            && r->Err_0->UnsupportedProtocol_0@ == "FTP"@
        &&& is_torrent_kind(kind) && !old.torrent_available() ==> r is Err
            && r->Err_0 is UnsupportedProtocol
            && r->Err_0->UnsupportedProtocol_0@ == "BitTorrent 未初始化，磁力链接下载不可用"@
        &&& !(kind is Ftp) && !(is_torrent_kind(kind) && !old.torrent_available()) ==> r
            == Ok::<TaskId, NebulaError>(id)
    }
}

/// Every progress held in `ts`, `hs` and `rs` is well formed.
pub open spec fn progress_in_range(
    ts: Seq<DownloadTask>,
    hs: Seq<HttpTransfer>,
    rs: Seq<TorrentRecord>,
) -> bool {
    &&& forall|i: int| 0 <= i < ts.len() ==> (#[trigger] ts[i]).progress.wf()
    &&& forall|j: int| 0 <= j < hs.len() ==> (#[trigger] hs[j]).progress.wf()
    &&& forall|j: int| 0 <= j < rs.len() ==> (#[trigger] rs[j]).progress.wf()
}

/// Tasks, records and events are as they were.
pub open spec fn unchanged(old: DownloadManager, new: DownloadManager) -> bool {
    &&& new.tasks() == old.tasks()
    &&& new.history() == old.history()
    &&& new.pending() == old.pending()
    &&& new.http_records() == old.http_records()
    &&& new.torrent_records() == old.torrent_records()
}

/// `e` was published if its task's order admitted it, and nothing else was.
pub open spec fn published(old: DownloadManager, new: DownloadManager, e: DownloadEvent) -> bool {
    if admits(phase_after(old.history(), e.spec_task_id()), e) {
        new.history() == old.history().push(e) && new.pending() == old.pending().push(e)
    } else {
        new.history() == old.history() && new.pending() == old.pending()
    }
}

/// The protocol handler of a task with source `s` knows task `id`.
pub open spec fn handler_accepts(m: DownloadManager, s: SourceView, id: TaskId) -> bool {
    if s is Http {
        http_has(m.http_records(), id)
    } else if is_torrent_kind(s) {
        m.torrent_available() && torrent_has(m.torrent_records(), id)
    } else {
        false
    }
}

/// What `pause` (`pausing`) or `resume` does.
pub open spec fn toggle_post(
    old: DownloadManager,
    new: DownloadManager,
    id: TaskId,
    pausing: bool,
    r: Result<(), NebulaError>,
) -> bool {
    let e = if pausing {
        DownloadEvent::TaskPaused { task_id: id }
    } else {
        DownloadEvent::TaskResumed { task_id: id }
    };
    &&& new.spec_config() == old.spec_config()
    &&& new.torrent_available() == old.torrent_available()
    &&& new.torrent_records() == old.torrent_records()
    &&& !has_id(old.tasks(), id) ==> r is Err && not_found(r->Err_0, id) && unchanged(old, new)
    &&& forall|i: int|
        0 <= i < old.tasks().len() && (#[trigger] old.tasks()[i]).id == id ==> ({
            let t = old.tasks()[i];
            let allowed = if pausing {
                t.status.spec_can_pause()
            } else {
                t.status.spec_can_resume()
            };
            if !allowed || phase_after(old.history(), id) != Phase::Live {
                &&& r is Err && r->Err_0 is InvalidTaskState
                &&& r->Err_0->InvalidTaskState_current@ == t.status.spec_description()
                &&& r->Err_0->InvalidTaskState_action@ == if pausing {
                    "pause"@
                } else {
                    "resume"@
                }
                &&& unchanged(old, new)
            } else if handler_accepts(old, t.source@, id) {
                &&& r is Ok
                &&& new.tasks() == old.tasks().update(
                    i,
                    DownloadTask {
                        status: if pausing {
                            TaskStatus::Paused
                        } else {
                            TaskStatus::Downloading
                        },
                        ..t
                    },
                )
                &&& new.history() == old.history().push(e)
                &&& new.pending() == old.pending().push(e)
                &&& t.source@ is Http ==> forall|j: int|
                    0 <= j < old.http_records().len() && (#[trigger] old.http_records()[j]).task_id
                        == id ==> new.http_records() == old.http_records().update(
                        j,
                        HttpTransfer { paused: pausing, ..old.http_records()[j] },
                    )
                &&& !(t.source@ is Http) ==> new.http_records() == old.http_records()
            } else {
                &&& r is Err
                &&& unchanged(old, new)
                &&& (t.source@ is Http || (is_torrent_kind(t.source@) && old.torrent_available()))
                    ==> not_found(r->Err_0, id)
                &&& !(t.source@ is Http || (is_torrent_kind(t.source@) && old.torrent_available()))
                    ==> r->Err_0 is UnsupportedProtocol
            }
        })
}

/// The handler records after a cancel of task `t`, and what the caller must delete.
pub open spec fn cancel_cleanup(
    old: DownloadManager,
    new: DownloadManager,
    t: DownloadTask,
    delete_files: bool,
    c: Cleanup,
) -> bool {
    let id = t.id;
    &&& !http_has(new.http_records(), id)
    &&& !torrent_has(new.torrent_records(), id)
    &&& !http_has(old.http_records(), id) ==> new.http_records() == old.http_records()
    &&& forall|j: int|
        0 <= j < old.http_records().len() && (#[trigger] old.http_records()[j]).task_id == id
            ==> new.http_records() == old.http_records().remove(j)
    &&& !torrent_has(old.torrent_records(), id) ==> new.torrent_records() == old.torrent_records()
    &&& forall|j: int|
        0 <= j < old.torrent_records().len() && (#[trigger] old.torrent_records()[j]).task_id
            == id ==> new.torrent_records() == old.torrent_records().remove(j)
    &&& if delete_files && t.source@ is Http && http_has(old.http_records(), id) {
        forall|j: int|
            0 <= j < old.http_records().len() && (#[trigger] old.http_records()[j]).task_id == id
                ==> c == Cleanup::RemoveFile(old.http_records()[j].save_path)
    } else if delete_files && is_torrent_kind(t.source@) && old.torrent_available()
        && torrent_has(old.torrent_records(), id) {
        forall|j: int|
            0 <= j < old.torrent_records().len() && (#[trigger] old.torrent_records()[j]).task_id
                == id ==> c == Cleanup::RemoveDir(old.torrent_records()[j].save_path)
    } else {
        c == Cleanup::Nothing
    }
}

} // verus!
