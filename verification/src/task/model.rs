//! The state of a runtime as plain values, its steps, and what holds of
//! every run of steps.
//!
//! `RuntimeView` is what a `Runtime` looks like from outside: the ready
//! queue and the slots of the tasks. Each operation of the runtime is one of
//! the steps defined here, so what is proved of the steps holds of every
//! runtime, whatever the host does with it.
use vstd::prelude::*;
use crate::linked_list::lemma_without;
use crate::linked_list::without;
use crate::non_null::NonNull;
use crate::task::Poll;
use crate::task::TaskCore;
use crate::task::Tick;
use crate::task::Waker;

verus! {

broadcast use crate::non_null::group_non_null;

/// The state of a runtime: which tasks are ready, first to last, and what
/// the slot of every task ever spawned holds, by the task's number.
pub struct RuntimeView<H> {
    pub ready: Seq<NonNull<TaskCore<H>>>,
    pub handles: Seq<Option<H>>,
}

impl<H> RuntimeView<H> {
    /// Whether `task` was spawned into this runtime.
    pub open spec fn owns(self, task: NonNull<TaskCore<H>>) -> bool {
        (task.addr() as int) < self.handles.len()
    }

    /// What the slot of `task` holds.
    pub open spec fn handle(self, task: NonNull<TaskCore<H>>) -> Option<H> {
        self.handles[task.addr() as int]
    }

    /// No task is queued twice, and only spawned tasks are queued.
    pub open spec fn wf(self) -> bool {
        &&& self.ready.no_duplicates()
        &&& self.handles.len() <= usize::MAX
        &&& forall|i: int| 0 <= i < self.ready.len() ==> self.owns(#[trigger] self.ready[i])
    }

    /// Whether `a` and `b` are both ready, with `a` nearer to the front.
    pub open spec fn precedes(self, a: NonNull<TaskCore<H>>, b: NonNull<TaskCore<H>>) -> bool {
        exists|i: int, j: int|
            0 <= i < j < self.ready.len() && #[trigger] self.ready[i] == a
                && #[trigger] self.ready[j] == b
    }

    /// The task that the next spawn creates.
    pub open spec fn next_task(self) -> NonNull<TaskCore<H>> {
        NonNull::at(self.handles.len() as usize)
    }

    /// The state after spawning a computation with handle `handle`: the new
    /// task holds the handle and is queued last.
    pub open spec fn spawned(self, handle: H) -> Self {
        RuntimeView {
            ready: self.ready.push(self.next_task()),
            handles: self.handles.push(Some(handle)),
        }
    }

    /// The state after waking `task`: it is queued last, unless it is
    /// already queued.
    pub open spec fn woken(self, task: NonNull<TaskCore<H>>) -> Self {
        RuntimeView {
            ready: if self.ready.contains(task) {
                self.ready
            } else {
                self.ready.push(task)
            },
            handles: self.handles,
        }
    }

    /// The state after aborting `task`: it is not queued.
    pub open spec fn aborted(self, task: NonNull<TaskCore<H>>) -> Self {
        RuntimeView { ready: without(self.ready, task), handles: self.handles }
    }

    /// The state after `task` has been given up: it is not queued and its
    /// slot is empty.
    pub open spec fn released(self, task: NonNull<TaskCore<H>>) -> Self {
        RuntimeView {
            ready: without(self.ready, task),
            handles: self.handles.update(task.addr() as int, None),
        }
    }

    /// What a tick asks of the host: to idle if nothing is ready, else to
    /// advance the first ready task if its slot holds a handle.
    pub open spec fn tick(self) -> Tick<H> {
        if self.ready.len() == 0 {
            Tick::Idle
        } else {
            match self.handle(self.ready[0]) {
                Some(handle) => Tick::Advance(Waker { task_core: self.ready[0] }, handle),
                None => Tick::Spent(self.ready[0]),
            }
        }
    }

    /// The state after a tick: the first ready task has left the queue and
    /// its slot is empty.
    pub open spec fn ticked(self) -> Self {
        if self.ready.len() == 0 {
            self
        } else {
            RuntimeView {
                ready: self.ready.drop_first(),
                handles: self.handles.update(self.ready[0].addr() as int, None),
            }
        }
    }

    /// The state after the host has reported the outcome of a step of
    /// `task`: a step that is not yet done puts the handle back.
    pub open spec fn settled(
        self,
        task: NonNull<TaskCore<H>>,
        handle: H,
        outcome: Poll<()>,
    ) -> Self {
        if outcome is Pending {
            RuntimeView {
                ready: self.ready,
                handles: self.handles.update(task.addr() as int, Some(handle)),
            }
        } else {
            self
        }
    }
}

/// The task that a tick hands to the host, or skips: `None` for an idle
/// tick.
pub open spec fn ticked_task<H>(tick: Tick<H>) -> Option<NonNull<TaskCore<H>>> {
    match tick {
        Tick::Idle => None,
        Tick::Advance(waker, _) => Some(waker.task_core),
        Tick::Spent(task) => Some(task),
    }
}

impl<H> RuntimeView<H> {
    /// Every step of a runtime leaves its state intact.
    pub proof fn lemma_steps_keep_wf(
        self,
        task: NonNull<TaskCore<H>>,
        handle: H,
        outcome: Poll<()>,
    )
        requires
            self.wf(),
        ensures
            self.handles.len() < usize::MAX ==> self.spawned(handle).wf(),
            self.owns(task) ==> self.woken(task).wf(),
            self.aborted(task).wf(),
            self.owns(task) ==> self.released(task).wf(),
            self.ticked().wf(),
            self.owns(task) ==> self.settled(task, handle, outcome).wf(),
    {
        lemma_without(self.ready, task);
        assert forall|i: int| 0 <= i < without(self.ready, task).len() implies self.owns(
            #[trigger] without(self.ready, task)[i],
        ) by {}
        if self.handles.len() < usize::MAX {
            assert(!self.ready.contains(self.next_task()));
        }
    }

    /// First in, first out. Of two tasks spawned one after the other, the
    /// first stands before the second in the ready queue, behind what was
    /// ready before.
    pub proof fn lemma_spawn_order(self, first: H, second: H)
        requires
            self.wf(),
            self.handles.len() + 1 < usize::MAX,
        ensures
            ({
                let one = self.spawned(first);
                let two = one.spawned(second);
                &&& two.wf()
                &&& self.next_task() != one.next_task()
                &&& two.ready == self.ready.push(self.next_task()).push(one.next_task())
                &&& two.handle(self.next_task()) == Some(first)
                &&& two.handle(one.next_task()) == Some(second)
                &&& two.precedes(self.next_task(), one.next_task())
            }),
    {
        let one = self.spawned(first);
        let two = one.spawned(second);
        let a = self.next_task();
        let b = one.next_task();
        self.lemma_steps_keep_wf(a, first, Poll::Pending);
        one.lemma_steps_keep_wf(b, second, Poll::Pending);
        let n = self.ready.len() as int;
        assert(two.ready[n] == a);
        assert(two.ready[n + 1] == b);
    }

    /// A tick serves the front of the ready queue. While `a` stands before
    /// `b`, no tick hands out `b`: the tick either serves `a` itself or
    /// leaves `a` before `b`. This is so whichever join handle drives the
    /// tick.
    pub proof fn lemma_tick_serves_front(self, a: NonNull<TaskCore<H>>, b: NonNull<TaskCore<H>>)
        requires
            self.wf(),
            self.precedes(a, b),
        ensures
            ticked_task(self.tick()) is Some,
            ticked_task(self.tick()) == Some(self.ready[0]),
            ticked_task(self.tick()) != Some(b),
            ticked_task(self.tick()) == Some(a) || self.ticked().precedes(a, b),
    {
        let (i, j) = choose|i: int, j: int|
            0 <= i < j < self.ready.len() && #[trigger] self.ready[i] == a
                && #[trigger] self.ready[j] == b;
        if i > 0 {
            assert(self.ticked().ready[i - 1] == a);
            assert(self.ticked().ready[j - 1] == b);
        }
    }

    /// The order of two ready tasks is kept by everything that happens to
    /// the runtime besides ticks: a spawn, a wake of any task, a report of
    /// any step's outcome, and an abort or release of another task.
    pub proof fn lemma_order_kept(
        self,
        a: NonNull<TaskCore<H>>,
        b: NonNull<TaskCore<H>>,
        task: NonNull<TaskCore<H>>,
        handle: H,
        outcome: Poll<()>,
    )
        requires
            self.wf(),
            self.precedes(a, b),
        ensures
            self.spawned(handle).precedes(a, b),
            self.woken(task).precedes(a, b),
            self.settled(task, handle, outcome).precedes(a, b),
            task != a && task != b ==> self.aborted(task).precedes(a, b) && self.released(
                task,
            ).precedes(a, b),
    {
        let (i, j) = choose|i: int, j: int|
            0 <= i < j < self.ready.len() && #[trigger] self.ready[i] == a
                && #[trigger] self.ready[j] == b;
        assert(self.spawned(handle).ready[i] == a);
        assert(self.spawned(handle).ready[j] == b);
        assert(self.woken(task).ready[i] == a);
        assert(self.woken(task).ready[j] == b);
        assert(self.settled(task, handle, outcome).ready[i] == a);
        if task != a && task != b {
            let t = without(self.ready, task);
            assert(self.aborted(task).ready == t);
            assert(self.released(task).ready == t);
            lemma_without(self.ready, task);
            if self.ready.contains(task) {
                let k = self.ready.index_of(task);
                let i2 = if i < k {
                    i
                } else {
                    i - 1
                };
                let j2 = if j < k {
                    j
                } else {
                    j - 1
                };
                assert(t[i2] == a);
                assert(t[j2] == b);
            }
        }
    }

    /// A task that wakes itself during its own step goes to the back. The
    /// tick has taken it out of the queue, so the wake queues it behind
    /// every task that was ready beside it, and by `lemma_tick_serves_front`
    /// it is not handed out again before those have been served.
    pub proof fn lemma_self_wake_goes_last(self)
        requires
            self.wf(),
            self.ready.len() > 0,
        ensures
            ({
                let task = self.ready[0];
                let after = self.ticked().woken(task);
                &&& after.wf()
                &&& after.ready == self.ready.drop_first().push(task)
                &&& forall|i: int|
                    1 <= i < self.ready.len() ==> after.precedes(#[trigger] self.ready[i], task)
            }),
    {
        let task = self.ready[0];
        let rest = self.ready.drop_first();
        assert(!rest.contains(task)) by {
            if rest.contains(task) {
                assert(self.ready[rest.index_of(task) + 1] == task);
            }
        }
        let after = self.ticked().woken(task);
        self.lemma_steps_keep_wf(task, arbitrary(), Poll::Pending);
        self.ticked().lemma_steps_keep_wf(task, arbitrary(), Poll::Pending);
        assert forall|i: int| 1 <= i < self.ready.len() implies after.precedes(
            #[trigger] self.ready[i],
            task,
        ) by {
            assert(after.ready[i - 1] == self.ready[i]);
            assert(after.ready[self.ready.len() - 1] == task);
        }
    }

    /// An aborted or released task is out of the ready queue, so the next
    /// tick does not touch it.
    pub proof fn lemma_abort_removes(self, task: NonNull<TaskCore<H>>)
        requires
            self.wf(),
        ensures
            !self.aborted(task).ready.contains(task),
            !self.released(task).ready.contains(task),
            ticked_task(self.aborted(task).tick()) != Some(task),
            ticked_task(self.released(task).tick()) != Some(task),
            forall|other: NonNull<TaskCore<H>>|
                other != task ==> (#[trigger] self.aborted(task).ready.contains(other)
                    <==> self.ready.contains(other)),
    {
        lemma_without(self.ready, task);
    }

    /// A task that is out of the ready queue stays out, and no tick touches
    /// it, until it is woken: ticks, spawns, the outcomes of steps, wakes
    /// of other tasks and aborts or releases of any task leave it out.
    pub proof fn lemma_stays_out(
        self,
        task: NonNull<TaskCore<H>>,
        other: NonNull<TaskCore<H>>,
        handle: H,
        outcome: Poll<()>,
    )
        requires
            self.wf(),
            self.owns(task),
            !self.ready.contains(task),
        ensures
            ticked_task(self.tick()) != Some(task),
            !self.ticked().ready.contains(task),
            !self.spawned(handle).ready.contains(task),
            !self.settled(other, handle, outcome).ready.contains(task),
            other != task ==> !self.woken(other).ready.contains(task),
            !self.aborted(other).ready.contains(task),
            !self.released(other).ready.contains(task),
    {
        lemma_without(self.ready, other);
        if self.ready.len() > 0 {
            let rest = self.ready.drop_first();
            if rest.contains(task) {
                assert(self.ready[rest.index_of(task) + 1] == task);
            }
        }
        let grown = self.ready.push(self.next_task());
        if grown.contains(task) {
            assert(self.ready[grown.index_of(task)] == task);
        }
        let woken = self.ready.push(other);
        if other != task && woken.contains(task) {
            assert(self.ready[woken.index_of(task)] == task);
        }
    }

    /// A task whose slot is empty is never advanced again, unless the host
    /// reports one of its own steps as not yet done: no tick hands it out,
    /// and its slot stays empty through ticks, spawns, wakes, aborts,
    /// releases and the outcomes of other tasks' steps.
    pub proof fn lemma_spent_stays_spent(
        self,
        task: NonNull<TaskCore<H>>,
        other: NonNull<TaskCore<H>>,
        handle: H,
        outcome: Poll<()>,
    )
        requires
            self.wf(),
            self.owns(task),
            self.owns(other),
            self.handle(task) is None,
        ensures
            !(self.tick() matches Tick::Advance(waker, _) && waker.task_core == task),
            self.ticked().handle(task) is None,
            self.spawned(handle).handle(task) is None,
            self.woken(other).handle(task) is None,
            self.aborted(other).handle(task) is None,
            self.released(other).handle(task) is None,
            other != task ==> self.settled(other, handle, outcome).handle(task) is None,
            self.settled(task, handle, Poll::Ready(())).handle(task) is None,
    {
    }
}

} // verus!
