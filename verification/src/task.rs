//! Tasks, resume tokens and the runtime's ready queue.
//!
//! A spawned computation is known to the runtime as a `TaskCore`: a node of
//! the ready queue with a slot for the handle of the computation. The slot is
//! empty while the computation is being advanced and after it has finished.
//!
//! The runtime never advances a computation itself. A tick pops the first
//! ready task, takes its handle out of the slot and hands both to the host.
//! The host advances the computation by one step, outside any critical
//! section, and reports the outcome back with `Runtime::settle`. While the
//! step runs, the computation may use its `Waker` to queue itself, or any
//! other task, at the back of the ready queue.
use vstd::prelude::*;
use critical_section::CriticalSection;
use crate::interrupt::free;
use crate::interrupt::replace;
use crate::linked_list::without;
use crate::linked_list::LinkedList;
use crate::mutex::Mutex;
use crate::non_null::NonNull;

pub mod model;

pub use model::RuntimeView;

verus! {

broadcast use crate::non_null::group_non_null;

/// What one advancement step of a computation reports.
pub enum Poll<T> {
    /// The computation has finished with this output.
    Ready(T),
    /// The computation is not yet done.
    Pending,
}

impl<T> Poll<T> {
    /// Whether the step reported completion.
    pub fn is_ready(&self) -> (r: bool)
        ensures
            r == (*self is Ready),
    {
        match self {
            Poll::Ready(_) => true,
            Poll::Pending => false,
        }
    }

    /// Whether the step reported "not yet done".
    pub fn is_pending(&self) -> (r: bool)
        ensures
            r == (*self is Pending),
    {
        !self.is_ready()
    }
}

/// The queue node of a spawned computation. `H` is the handle by which the
/// host finds the computation.
pub struct TaskCore<H> {
    task_handle: Mutex<Option<H>>,
}

impl<H> TaskCore<H> {
    /// The handle in the slot: absent while the computation is being
    /// advanced, and after it has finished.
    pub closed spec fn task_handle(&self) -> Option<H> {
        self.task_handle@
    }

    /// A node whose slot holds `handle`.
    pub fn new(handle: H) -> (r: Self)
        ensures
            r.task_handle() == Some(handle),
    {
        TaskCore { task_handle: Mutex::new(Some(handle)) }
    }

    /// Begins one advancement step: takes the handle out of the slot and
    /// returns it. Returns `None`, and changes nothing, if the slot is empty.
    pub fn run_once(&mut self, cs: CriticalSection) -> (r: Option<H>)
        ensures
            r == old(self).task_handle(),
            final(self).task_handle() is None,
    {
        self.task_handle.take(cs)
    }

    /// Ends the step that `run_once` began with `handle`. If the step
    /// reported "not yet done", the handle goes back into the slot; if it
    /// reported completion, the slot stays as it is.
    pub fn settle(&mut self, cs: CriticalSection, handle: H, outcome: &Poll<()>)
        ensures
            final(self).task_handle() == (if *outcome is Pending {
                Some(handle)
            } else {
                old(self).task_handle()
            }),
    {
        if outcome.is_pending() {
            self.task_handle.set(cs, Some(handle));
        }
    }
}

/// The resume token of a task. Waking it queues the task at the back of the
/// ready queue. The token owns nothing: it can be copied freely, and
/// dropping it does nothing.
pub struct Waker<H> {
    /// The task that the token resumes.
    pub task_core: NonNull<TaskCore<H>>,
}

impl<H> Clone for Waker<H> {
    fn clone(&self) -> (r: Self)
        ensures
            r == *self,
    {
        *self
    }
}

impl<H> Copy for Waker<H> {

}

/// What a tick of the runtime asks of the host.
pub enum Tick<H> {
    /// No task is ready: idle until the next interrupt.
    Idle,
    /// Advance the computation behind this handle by one step, handing it
    /// this resume token, and report the outcome with `Runtime::settle`.
    Advance(Waker<H>, H),
    /// The first ready task had no handle in its slot: it has finished or is
    /// being advanced. It was taken out of the queue and nothing is to be
    /// done.
    Spent(NonNull<TaskCore<H>>),
}

/// The scheduler: it owns the ready queue and the nodes of all tasks spawned
/// into it.
pub struct Runtime<H> {
    tasks: LinkedList<TaskCore<H>>,
}

/// What the slots of the nodes in `tasks` hold, by slot number.
spec fn handles_of<H>(tasks: LinkedList<TaskCore<H>>) -> Seq<Option<H>> {
    tasks.values().map_values(|core: TaskCore<H>| core.task_handle())
}

impl<H> View for Runtime<H> {
    type V = RuntimeView<H>;

    closed spec fn view(&self) -> RuntimeView<H> {
        RuntimeView { ready: self.tasks@, handles: handles_of(self.tasks) }
    }
}

impl<H> Runtime<H> {
    /// The ready queue's links are intact.
    pub closed spec fn wf(&self) -> bool {
        self.tasks.wf()
    }

    /// A runtime that is intact has a state that is.
    pub proof fn lemma_wf(&self)
        requires
            self.wf(),
        ensures
            self@.wf(),
    {
        self.tasks.lemma_links();
    }

    /// A runtime with no tasks.
    pub fn new() -> (r: Self)
        ensures
            r.wf(),
            r@.ready == Seq::<NonNull<TaskCore<H>>>::empty(),
            r@.handles == Seq::<Option<H>>::empty(),
    {
        let r = Runtime { tasks: LinkedList::new() };
        r
    }

    /// Whether the slot of `task` holds a handle: whether the task is
    /// neither finished nor being advanced.
    pub fn has_handle(&self, task: NonNull<TaskCore<H>>) -> (r: bool)
        requires
            self@.owns(task),
        ensures
            r == (self@.handle(task) is Some),
    {
        free(|cs: CriticalSection| -> (r: bool)
            ensures
                r == (self@.handle(task) is Some),
            { self.tasks.get(task).task_handle.has_some(cs) })
    }

    /// Whether `task` is in the ready queue.
    pub fn is_ready(&self, task: NonNull<TaskCore<H>>) -> (r: bool)
        requires
            self.wf(),
            self@.owns(task),
        ensures
            r == self@.ready.contains(task),
    {
        free(|cs: CriticalSection| -> (r: bool)
            ensures
                r == self@.ready.contains(task),
            { self.tasks.is_in_queue(cs, task) })
    }

    /// Queues `task` at the back of the ready queue, unless it is queued
    /// already.
    pub fn wake(&mut self, task: NonNull<TaskCore<H>>)
        requires
            old(self).wf(),
            old(self)@.owns(task),
        ensures
            final(self).wf(),
            final(self)@ == old(self)@.woken(task),
    {
        let tasks = replace(&mut self.tasks, LinkedList::new());
        self.tasks = free(move |cs: CriticalSection| -> (r: LinkedList<TaskCore<H>>)
            ensures
                r.wf(),
                r.values() == tasks.values(),
                r@ == (if tasks@.contains(task) {
                    tasks@
                } else {
                    tasks@.push(task)
                }),
            {
                let mut tasks = tasks;
                tasks.insert_back(cs, task);
                tasks
            });
    }

    /// Takes `task` out of the ready queue, if it is there.
    pub fn remove(&mut self, task: NonNull<TaskCore<H>>)
        requires
            old(self).wf(),
            old(self)@.owns(task),
        ensures
            final(self).wf(),
            final(self)@ == old(self)@.aborted(task),
    {
        let tasks = replace(&mut self.tasks, LinkedList::new());
        self.tasks = free(move |cs: CriticalSection| -> (r: LinkedList<TaskCore<H>>)
            ensures
                r.wf(),
                r.values() == tasks.values(),
                r@ == without(tasks@, task),
            {
                let mut tasks = tasks;
                tasks.remove(cs, task);
                tasks
            });
    }

    /// Takes `task` out of the ready queue and empties its slot, so that no
    /// tick hands its computation out again.
    pub fn release(&mut self, task: NonNull<TaskCore<H>>)
        requires
            old(self).wf(),
            old(self)@.owns(task),
        ensures
            final(self).wf(),
            final(self)@ == old(self)@.released(task),
    {
        let tasks = replace(&mut self.tasks, LinkedList::new());
        self.tasks = free(move |cs: CriticalSection| -> (r: LinkedList<TaskCore<H>>)
            ensures
                r.wf(),
                r@ == without(tasks@, task),
                handles_of(r) == handles_of(tasks).update(task.addr() as int, None),
            {
                let mut tasks = tasks;
                let ghost before = tasks;
                tasks.remove(cs, task);
                let node = tasks.get_mut(task);
                let _ = node.run_once(cs);
                proof {
                    assert(handles_of(tasks) =~= handles_of(before).update(
                        task.addr() as int,
                        None,
                    ));
                }
                tasks
            });
    }

    /// One tick of the scheduler. Pops the first ready task and takes its
    /// handle out of its slot, for the host to advance it; asks the host to
    /// idle if no task is ready.
    pub fn run_once(&mut self) -> (r: Tick<H>)
        requires
            old(self).wf(),
        ensures
            final(self).wf(),
            r == old(self)@.tick(),
            final(self)@ == old(self)@.ticked(),
    {
        proof {
            self.tasks.lemma_links();
        }
        let ghost before = self@;
        let tasks = replace(&mut self.tasks, LinkedList::new());
        let (tasks, tick) = free(move |cs: CriticalSection| -> (r: (
            LinkedList<TaskCore<H>>,
            Tick<H>,
        ))
            ensures
                r.0.wf(),
                r.0@ == before.ticked().ready,
                handles_of(r.0) == before.ticked().handles,
                r.1 == before.tick(),
            {
                let mut tasks = tasks;
                let tick = match tasks.pop_first(cs) {
                    Some(first_task) => {
                        let node = tasks.get_mut(first_task);
                        match node.run_once(cs) {
                            Some(handle) => Tick::Advance(
                                Waker { task_core: first_task },
                                handle,
                            ),
                            None => Tick::Spent(first_task),
                        }
                    },
                    None => Tick::Idle,
                };
                proof {
                    assert(handles_of(tasks) =~= before.ticked().handles);
                }
                (tasks, tick)
            });
        self.tasks = tasks;
        tick
    }

    /// Takes the outcome of the step that the host made for `task` with
    /// `handle`. If the step is not yet done, the handle goes back into the
    /// task's slot, so that the task is advanced again once it is woken. If
    /// the computation has finished, the slot stays empty for good.
    pub fn settle(&mut self, task: NonNull<TaskCore<H>>, handle: H, outcome: Poll<()>)
        requires
            old(self).wf(),
            old(self)@.owns(task),
        ensures
            final(self).wf(),
            final(self)@ == old(self)@.settled(task, handle, outcome),
    {
        let ghost before = self@;
        let tasks = replace(&mut self.tasks, LinkedList::new());
        self.tasks = free(move |cs: CriticalSection| -> (r: LinkedList<TaskCore<H>>)
            ensures
                r.wf(),
                r@ == tasks@,
                handles_of(r) == before.settled(task, handle, outcome).handles,
            {
                let mut tasks = tasks;
                let node = tasks.get_mut(task);
                node.settle(cs, handle, &outcome);
                proof {
                    assert(handles_of(tasks) =~= before.settled(task, handle, outcome).handles);
                }
                tasks
            });
    }

    /// Spawns the task: stores `handle`, by which the host finds the
    /// computation, in the slot of a new queue node, and queues the node at
    /// the back of the ready queue. The task is not advanced until a join
    /// handle is joined.
    ///
    /// A task can be spawned once.
    pub fn spawn<T>(&mut self, task: &mut Task<T, H>, handle: H) -> (r: JoinHandle<T, H>)
        requires
            old(self).wf(),
            old(task).task_core() is None,
        ensures
            final(self).wf(),
            final(self)@ == old(self)@.spawned(handle),
            final(self)@.owns(r.task_core()),
            r.task_core() == old(self)@.next_task(),
            final(task).task_core() == Some(r.task_core()),
            final(task).result() == old(task).result(),
    {
        proof {
            self.tasks.lemma_links();
        }
        let task_core = self.tasks.register(TaskCore::new(handle));
        assert(!self.tasks@.contains(task_core));
        assert(handles_of(self.tasks) =~= old(self)@.handles.push(Some(handle)));
        self.wake(task_core);
        task.core = Some(task_core);
        JoinHandle { task_core, marker: core::marker::PhantomData }
    }
}

impl<H> Default for Runtime<H> {
    fn default() -> (r: Self)
        ensures
            r.wf(),
            r@.ready == Seq::<NonNull<TaskCore<H>>>::empty(),
            r@.handles == Seq::<Option<H>>::empty(),
    {
        Runtime::new()
    }
}

impl<H> Waker<H> {
    /// Queues the token's task at the back of the ready queue, unless it is
    /// queued already. This holds also while the task is being advanced: a
    /// task that wakes itself during its own step goes to the back.
    pub fn wake(self, runtime: &mut Runtime<H>)
        requires
            old(runtime).wf(),
            old(runtime)@.owns(self.task_core),
        ensures
            final(runtime).wf(),
            final(runtime)@ == old(runtime)@.woken(self.task_core),
    {
        runtime.wake(self.task_core);
    }

    /// The same as `wake`, without giving up the token.
    pub fn wake_by_ref(&self, runtime: &mut Runtime<H>)
        requires
            old(runtime).wf(),
            old(runtime)@.owns(self.task_core),
        ensures
            final(runtime).wf(),
            final(runtime)@ == old(runtime)@.woken(self.task_core),
    {
        runtime.wake(self.task_core);
    }
}

/// A computation in the caller's hands: whether it has been spawned, and
/// the slot that receives its output. `T` is the output's type.
pub struct Task<T, H> {
    core: Option<NonNull<TaskCore<H>>>,
    result: Mutex<Option<T>>,
}

impl<T, H> Task<T, H> {
    /// The task's queue node, once it has been spawned.
    pub closed spec fn task_core(&self) -> Option<NonNull<TaskCore<H>>> {
        self.core
    }

    /// The output of the computation, from the step that finished it until
    /// it is taken.
    pub closed spec fn result(&self) -> Option<T> {
        self.result@
    }

    /// A task that is not spawned and has no output.
    pub fn new() -> (r: Self)
        ensures
            r.task_core() is None,
            r.result() is None,
    {
        Task { core: None, result: Mutex::new(None) }
    }

    /// Whether the task has been spawned.
    pub fn is_spawned(&self) -> (r: bool)
        ensures
            r == (self.task_core() is Some),
    {
        self.core.is_some()
    }

    /// Whether the output is there to be taken.
    pub fn has_result(&self) -> (r: bool)
        ensures
            r == (self.result() is Some),
    {
        free(|cs: CriticalSection| -> (r: bool)
            ensures
                r == (self.result() is Some),
            { self.result.has_some(cs) })
    }

    /// Takes the output out of the result slot, if it is there.
    pub fn take_result(&mut self) -> (r: Option<T>)
        ensures
            r == old(self).result(),
            final(self).result() is None,
            final(self).task_core() == old(self).task_core(),
    {
        let result = replace(&mut self.result, Mutex::new(None));
        free(move |cs: CriticalSection| -> (r: Option<T>)
            ensures
                r == result@,
            {
                let mut result = result;
                result.take(cs)
            })
    }

    /// Takes what a step of the computation reported. An output is stored
    /// in the result slot, and the step counts as finished; "not yet done"
    /// is passed on and changes nothing.
    pub fn poll(&mut self, outcome: Poll<T>) -> (r: Poll<()>)
        ensures
            final(self).task_core() == old(self).task_core(),
            match outcome {
                Poll::Ready(output) => r == Poll::Ready(()) && final(self).result() == Some(
                    output,
                ),
                Poll::Pending => r == Poll::<()>::Pending && final(self).result() == old(
                    self,
                ).result(),
            },
    {
        match outcome {
            Poll::Ready(output) => {
                let result = replace(&mut self.result, Mutex::new(None));
                self.result = free(move |cs: CriticalSection| -> (r: Mutex<Option<T>>)
                    ensures
                        r@ == Some(output),
                    {
                        let mut result = result;
                        result.set(cs, Some(output));
                        result
                    });
                Poll::Ready(())
            },
            Poll::Pending => Poll::Pending,
        }
    }

    /// Gives the task up. If it was spawned, its node leaves the ready queue
    /// and loses its handle, so that no tick hands the computation out
    /// again.
    pub fn release(&mut self, runtime: &mut Runtime<H>)
        requires
            old(runtime).wf(),
            old(self).task_core() matches Some(core) ==> old(runtime)@.owns(core),
        ensures
            final(runtime).wf(),
            final(self).task_core() == old(self).task_core(),
            final(self).result() == old(self).result(),
            final(runtime)@ == (match old(self).task_core() {
                Some(core) => old(runtime)@.released(core),
                None => old(runtime)@,
            }),
    {
        if let Some(core) = self.core {
            runtime.release(core);
        }
    }
}

/// A handle for waiting until a task has finished and for taking its output.
pub struct JoinHandle<T, H> {
    task_core: NonNull<TaskCore<H>>,
    marker: core::marker::PhantomData<T>,
}

/// What one step of joining a task comes to.
pub enum Join<T, H> {
    /// The task has finished, and this is its output.
    Ready(T),
    /// The task has not finished. The runtime made one tick, and the host is
    /// to do what the tick asks and then join again with the handle.
    Pending(JoinHandle<T, H>, Tick<H>),
}

impl<T, H> JoinHandle<T, H> {
    /// The queue node of the task that the handle waits for.
    pub closed spec fn task_core(&self) -> NonNull<TaskCore<H>> {
        self.task_core
    }

    /// The task that the handle waits for.
    pub fn task(&self) -> (r: NonNull<TaskCore<H>>)
        ensures
            r == self.task_core(),
    {
        self.task_core
    }

    /// One step of driving the runtime until the handle's task completes.
    ///
    /// While the task's slot holds a handle, the task has not finished: the
    /// runtime makes one tick, whichever task is first in the ready queue,
    /// and the join handle comes back with what the tick asks of the host.
    /// Once the slot is empty, the output is taken out of the result slot
    /// and returned, the join handle is used up, and the runtime is left
    /// alone.
    ///
    /// The output must be there when the slot is empty.
    pub fn join(self, runtime: &mut Runtime<H>, task: &mut Task<T, H>) -> (r: Join<T, H>)
        requires
            old(runtime).wf(),
            old(runtime)@.owns(self.task_core()),
            old(task).task_core() == Some(self.task_core()),
            old(runtime)@.handle(self.task_core()) is None ==> old(task).result() is Some,
        ensures
            final(runtime).wf(),
            final(task).task_core() == old(task).task_core(),
            match r {
                Join::Ready(output) => {
                    &&& old(runtime)@.handle(self.task_core()) is None
                    &&& old(task).result() == Some(output)
                    &&& final(task).result() is None
                    &&& final(runtime)@ == old(runtime)@
                },
                Join::Pending(handle, tick) => {
                    &&& old(runtime)@.handle(self.task_core()) is Some
                    &&& handle == self
                    &&& tick == old(runtime)@.tick()
                    &&& final(runtime)@ == old(runtime)@.ticked()
                    &&& final(task).result() == old(task).result()
                },
            },
    {
        if runtime.has_handle(self.task_core) {
            let tick = runtime.run_once();
            Join::Pending(self, tick)
        } else {
            Join::Ready(task.take_result().expect("No Result"))
        }
    }

    /// Gives the handle up before the task has completed: the task leaves
    /// the ready queue, and its output will not be taken.
    pub fn abort(self, runtime: &mut Runtime<H>)
        requires
            old(runtime).wf(),
            old(runtime)@.owns(self.task_core()),
        ensures
            final(runtime).wf(),
            final(runtime)@ == old(runtime)@.aborted(self.task_core()),
    {
        runtime.remove(self.task_core);
    }
}

} // verus!
