use vstd::prelude::*;

use crate::event::DownloadEvent;
use crate::task::TaskId;

verus! {

/// Where a task stands in its event stream.
#[derive(Debug, Clone, Copy, PartialEq, Eq, Structural)]
pub enum Phase {
    /// No event published yet.
    Unseen,
    /// `TaskAdded` published, no terminal event yet.
    Live,
    /// `TaskCompleted` or `TaskFailed` published.
    Ended,
    /// `TaskRemoved` published.
    Removed,
}

/// Order of the phases; a task only moves forward.
pub open spec fn rank(p: Phase) -> int {
    match p {
        Phase::Unseen => 0,
        Phase::Live => 1,
        Phase::Ended => 2,
        Phase::Removed => 3,
    }
}

/// `TaskCompleted` or `TaskFailed`.
pub open spec fn is_outcome(e: DownloadEvent) -> bool {
    e is TaskCompleted || e is TaskFailed
}

/// `TaskCompleted`, `TaskFailed` or `TaskRemoved`.
pub open spec fn is_terminal(e: DownloadEvent) -> bool {
    is_outcome(e) || e is TaskRemoved
}

/// Which event a task in phase `p` may publish next: first `TaskAdded`, then anything but a
/// second `TaskAdded`; after an outcome only `TaskRemoved`; after that nothing.
pub open spec fn admits(p: Phase, e: DownloadEvent) -> bool {
    match p {
        Phase::Unseen => e is TaskAdded,
        Phase::Live => !(e is TaskAdded),
        Phase::Ended => e is TaskRemoved,
        Phase::Removed => false,
    }
}

/// The phase after publishing `e`.
pub open spec fn step(p: Phase, e: DownloadEvent) -> Phase {
    if e is TaskAdded {
        Phase::Live
    } else if is_outcome(e) {
        Phase::Ended
    } else if e is TaskRemoved {
        Phase::Removed
    } else {
        p
    }
}

/// The phase of task `id` after the events `h`.
pub open spec fn phase_after(h: Seq<DownloadEvent>, id: TaskId) -> Phase
    decreases h.len(),
{
    if h.len() == 0 {
        Phase::Unseen
    } else {
        let p = phase_after(h.drop_last(), id);
        if h.last().spec_task_id() == id {
            step(p, h.last())
        } else {
            p
        }
    }
}

/// Every event of `h` was admitted by the phase of its task at that point.
pub open spec fn well_ordered(h: Seq<DownloadEvent>) -> bool {
    forall|i: int|
        0 <= i < h.len() ==> admits(
            phase_after(h.subrange(0, i), (#[trigger] h[i]).spec_task_id()),
            h[i],
        )
}

/// The phase recorded for `id`: the first entry with that id, `Unseen` without one.
pub open spec fn lookup(ps: Seq<(TaskId, Phase)>, id: TaskId) -> Phase
    decreases ps.len(),
{
    if ps.len() == 0 {
        Phase::Unseen
    } else if ps[0].0 == id {
        ps[0].1
    } else {
        lookup(ps.drop_first(), id)
    }
}

proof fn lemma_lookup_update(ps: Seq<(TaskId, Phase)>, i: int, id: TaskId, p: Phase, other: TaskId)
    requires
        0 <= i < ps.len(),
        ps[i].0 == id,
        forall|k: int| 0 <= k < i ==> ps[k].0 != id,
    ensures
        lookup(ps.update(i, (id, p)), id) == p,
        other != id ==> lookup(ps.update(i, (id, p)), other) == lookup(ps, other),
    decreases ps.len(),
{
    if i > 0 {
        assert(ps.update(i, (id, p)).drop_first() =~= ps.drop_first().update(i - 1, (id, p)));
        lemma_lookup_update(ps.drop_first(), i - 1, id, p, other);
    } else {
        assert(ps.update(i, (id, p)).drop_first() =~= ps.drop_first());
    }
}

proof fn lemma_lookup_push(ps: Seq<(TaskId, Phase)>, id: TaskId, p: Phase, other: TaskId)
    requires
        forall|k: int| 0 <= k < ps.len() ==> ps[k].0 != id,
    ensures
        lookup(ps.push((id, p)), id) == p,
        other != id ==> lookup(ps.push((id, p)), other) == lookup(ps, other),
        lookup(ps, id) == Phase::Unseen,
    decreases ps.len(),
{
    if ps.len() > 0 {
        assert(ps.push((id, p)).drop_first() =~= ps.drop_first().push((id, p)));
        lemma_lookup_push(ps.drop_first(), id, p, other);
    } else {
        assert(ps.push((id, p)).drop_first() =~= ps);
    }
}

proof fn lemma_lookup_found(ps: Seq<(TaskId, Phase)>, i: int, id: TaskId)
    requires
        0 <= i < ps.len(),
        ps[i].0 == id,
        forall|k: int| 0 <= k < i ==> ps[k].0 != id,
    ensures
        lookup(ps, id) == ps[i].1,
    decreases ps.len(),
{
    if i > 0 {
        lemma_lookup_found(ps.drop_first(), i - 1, id);
    }
}

/// Keeps the events of each task in order and queues the admitted ones for delivery.
pub struct EventGate {
    phases: Vec<(TaskId, Phase)>,
    outbox: Vec<DownloadEvent>,
    history: Ghost<Seq<DownloadEvent>>,
}

impl EventGate {
    /// Every event admitted so far, in order.
    pub closed spec fn history(&self) -> Seq<DownloadEvent> {
        self.history@
    }

    pub closed spec fn wf(&self) -> bool {
        &&& well_ordered(self.history@)
        &&& forall|id: TaskId| #[trigger]
            lookup(self.phases@, id) == phase_after(self.history@, id)
    }

    /// The admitted events are in per-task order.
    pub proof fn lemma_history_well_ordered(&self)
        requires
            self.wf(),
        ensures
            well_ordered(self.history()),
    {
    }

    /// Events admitted and not yet taken.
    pub closed spec fn pending(&self) -> Seq<DownloadEvent> {
        self.outbox@
    }

    /// A gate with no history.
    pub fn new() -> (r: EventGate)
        ensures
            r.wf(),
            r.history() == Seq::<DownloadEvent>::empty(),
            r.pending() == Seq::<DownloadEvent>::empty(),
    {
        EventGate { phases: Vec::new(), outbox: Vec::new(), history: Ghost(Seq::empty()) }
    }

    /// Publishes `e` when its task's phase admits it; returns whether it did.
    pub fn publish(&mut self, e: DownloadEvent) -> (r: bool)
        requires
            old(self).wf(),
        ensures
            final(self).wf(),
            r == admits(phase_after(old(self).history(), e.spec_task_id()), e),
            final(self).history() == if r {
                old(self).history().push(e)
            } else {
                old(self).history()
            },
            final(self).pending() == if r {
                old(self).pending().push(e)
            } else {
                old(self).pending()
            },
    {
        let id = e.task_id();
        let mut i: usize = 0;
        while i < self.phases.len()
            invariant
                i <= self.phases@.len(),
                forall|k: int| 0 <= k < i ==> self.phases@[k].0 != id,
            ensures
                i <= self.phases@.len(),
                forall|k: int| 0 <= k < i ==> self.phases@[k].0 != id,
                i < self.phases@.len() ==> self.phases@[i as int].0 == id,
            decreases self.phases@.len() - i,
        {
            if self.phases[i].0 == id {
                break;
            }
            i += 1;
        }
        let found = i < self.phases.len();
        let p = if found {
            proof {
                lemma_lookup_found(self.phases@, i as int, id);
            }
            self.phases[i].1
        } else {
            proof {
                lemma_lookup_push(self.phases@, id, Phase::Unseen, id);
            }
            Phase::Unseen
        };
        assert(p == phase_after(self.history@, id));
        let ok = match p {
            Phase::Unseen => matches!(e, DownloadEvent::TaskAdded { .. }),
            Phase::Live => !matches!(e, DownloadEvent::TaskAdded { .. }),
            Phase::Ended => matches!(e, DownloadEvent::TaskRemoved { .. }),
            Phase::Removed => false,
        };
        if !ok {
            return false;
        }
        let next = if matches!(e, DownloadEvent::TaskAdded { .. }) {
            Phase::Live
        } else if matches!(e, DownloadEvent::TaskCompleted { .. } | DownloadEvent::TaskFailed { .. }) {
            Phase::Ended
        } else if matches!(e, DownloadEvent::TaskRemoved { .. }) {
            Phase::Removed
        } else {
            p
        };
        let ghost old_ps = self.phases@;
        let ghost old_h = self.history@;
        if found {
            self.phases.set(i, (id, next));
            proof {
                assert forall|other: TaskId| other != id implies lookup(self.phases@, other)
                    == lookup(old_ps, other) by {
                    lemma_lookup_update(old_ps, i as int, id, next, other);
                }
                lemma_lookup_update(old_ps, i as int, id, next, id);
            }
        } else {
            self.phases.push((id, next));
            proof {
                assert forall|other: TaskId| other != id implies lookup(self.phases@, other)
                    == lookup(old_ps, other) by {
                    lemma_lookup_push(old_ps, id, next, other);
                }
                lemma_lookup_push(old_ps, id, next, id);
            }
        }
        self.outbox.push(e);
        self.history = Ghost(old_h.push(e));
        proof {
            let h = self.history@;
            assert(h.drop_last() =~= old_h);
            assert forall|other: TaskId| #[trigger]
                lookup(self.phases@, other) == phase_after(h, other) by {
                if other != id {
                    assert(lookup(self.phases@, other) == lookup(old_ps, other));
                }
            }
            assert forall|k: int| 0 <= k < h.len() implies admits(
                phase_after(h.subrange(0, k), (#[trigger] h[k]).spec_task_id()),
                h[k],
            ) by {
                if k < old_h.len() {
                    assert(h.subrange(0, k) =~= old_h.subrange(0, k));
                } else {
                    assert(h.subrange(0, k) =~= old_h);
                }
            }
        }
        true
    }

    /// The phase of task `id`.
    pub fn phase_of(&self, id: TaskId) -> (r: Phase)
        requires
            self.wf(),
        ensures
            r == phase_after(self.history(), id),
    {
        let mut i: usize = 0;
        while i < self.phases.len()
            invariant
                self.wf(),
                i <= self.phases@.len(),
                forall|k: int| 0 <= k < i ==> self.phases@[k].0 != id,
            decreases self.phases@.len() - i,
        {
            if self.phases[i].0 == id {
                proof {
                    lemma_lookup_found(self.phases@, i as int, id);
                    assert(lookup(self.phases@, id) == phase_after(self.history@, id));
                }
                return self.phases[i].1;
            }
            i += 1;
        }
        proof {
            lemma_lookup_push(self.phases@, id, Phase::Unseen, id);
            assert(lookup(self.phases@, id) == phase_after(self.history@, id));
        }
        Phase::Unseen
    }

    /// Hands over the queued events, oldest first.
    pub fn take_events(&mut self) -> (r: Vec<DownloadEvent>)
        ensures
            r@ == old(self).pending(),
            final(self).pending() == Seq::<DownloadEvent>::empty(),
            final(self).history() == old(self).history(),
            old(self).wf() ==> final(self).wf(),
    {
        let mut taken = Vec::new();
        std::mem::swap(&mut taken, &mut self.outbox);
        taken
    }
}

/// The phase of `x` after one more event.
pub proof fn lemma_phase_after_push(h: Seq<DownloadEvent>, e: DownloadEvent, x: TaskId)
    ensures
        phase_after(h.push(e), x) == if e.spec_task_id() == x {
            step(phase_after(h, x), e)
        } else {
            phase_after(h, x)
        },
        phase_after(h, x) != Phase::Unseen ==> phase_after(h.push(e), x) != Phase::Unseen,
{
    assert(h.push(e).drop_last() =~= h);
}

/// Publishing an admitted event never moves a task backwards.
proof fn lemma_step_forward(p: Phase, e: DownloadEvent)
    requires
        admits(p, e),
    ensures
        rank(step(p, e)) >= rank(p),
        rank(step(p, e)) >= 1,
{
}

/// Along a well-ordered history, the phase of a task never moves backwards.
pub proof fn lemma_phase_monotone(h: Seq<DownloadEvent>, id: TaskId, k: int, m: int)
    requires
        well_ordered(h),
        0 <= k <= m <= h.len(),
    ensures
        rank(phase_after(h.subrange(0, k), id)) <= rank(phase_after(h.subrange(0, m), id)),
    decreases m - k,
{
    if k < m {
        lemma_phase_monotone(h, id, k, m - 1);
        let pre = h.subrange(0, m);
        assert(pre.drop_last() =~= h.subrange(0, m - 1));
        assert(pre.last() == h[m - 1]);
        if h[m - 1].spec_task_id() == id {
            lemma_step_forward(phase_after(h.subrange(0, m - 1), id), h[m - 1]);
        }
    }
}

/// The phase right after event `i` of its own task.
proof fn lemma_phase_after_event(h: Seq<DownloadEvent>, i: int)
    requires
        well_ordered(h),
        0 <= i < h.len(),
    ensures
        phase_after(h.subrange(0, i + 1), h[i].spec_task_id()) == step(
            phase_after(h.subrange(0, i), h[i].spec_task_id()),
            h[i],
        ),
{
    assert(h.subrange(0, i + 1).drop_last() =~= h.subrange(0, i));
}

/// A prefix without any event of `id` leaves it unseen.
proof fn lemma_unseen_without_events(h: Seq<DownloadEvent>, id: TaskId, j: int)
    requires
        0 <= j <= h.len(),
        forall|i: int| 0 <= i < j ==> (#[trigger] h[i]).spec_task_id() != id,
    ensures
        phase_after(h.subrange(0, j), id) == Phase::Unseen,
    decreases j,
{
    if j > 0 {
        assert(h.subrange(0, j).drop_last() =~= h.subrange(0, j - 1));
        lemma_unseen_without_events(h, id, j - 1);
    }
}

/// No progress after the end: once a task's `TaskCompleted`, `TaskFailed` or `TaskRemoved`
/// is published, no later `ProgressUpdated` for that task is (the only later event it may
/// have is one `TaskRemoved`, after an outcome).
pub proof fn lemma_no_progress_after_terminal(h: Seq<DownloadEvent>, i: int, j: int)
    requires
        well_ordered(h),
        0 <= i < j < h.len(),
        h[i].spec_task_id() == h[j].spec_task_id(),
        is_terminal(h[i]),
    ensures
        !(h[j] is ProgressUpdated),
        h[j] is TaskRemoved,
        is_outcome(h[i]),
{
    let id = h[i].spec_task_id();
    lemma_phase_after_event(h, i);
    lemma_phase_monotone(h, id, i + 1, j);
    assert(admits(phase_after(h.subrange(0, j), h[j].spec_task_id()), h[j]));
}

/// Per-task order: the first event of a task is its `TaskAdded`, which comes once; at most
/// one outcome (`TaskCompleted` or `TaskFailed`) follows, after which only one
/// `TaskRemoved` may come, and nothing after that.
pub proof fn lemma_per_task_order(h: Seq<DownloadEvent>, i: int, j: int)
    requires
        well_ordered(h),
        0 <= i < j < h.len(),
        h[i].spec_task_id() == h[j].spec_task_id(),
    ensures
        !(h[j] is TaskAdded),
        is_outcome(h[i]) ==> h[j] is TaskRemoved,
        !(h[i] is TaskRemoved),
        (forall|k: int| 0 <= k < i ==> (#[trigger] h[k]).spec_task_id() != h[i].spec_task_id())
            ==> h[i] is TaskAdded,
{
    let id = h[i].spec_task_id();
    lemma_phase_after_event(h, i);
    assert(admits(phase_after(h.subrange(0, i), id), h[i]));
    lemma_step_forward(phase_after(h.subrange(0, i), id), h[i]);
    lemma_phase_monotone(h, id, i + 1, j);
    assert(admits(phase_after(h.subrange(0, j), h[j].spec_task_id()), h[j]));
    if forall|k: int| 0 <= k < i ==> (#[trigger] h[k]).spec_task_id() != id {
        lemma_unseen_without_events(h, id, i);
    }
}

} // verus!
