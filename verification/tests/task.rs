use std::cell::Cell;
use std::cell::RefCell;

use nostd_async::interrupt::free;
use nostd_async::non_null::NonNull;
use nostd_async::sync::mpmc::Buffer;
use nostd_async::sync::mpmc::Receive;
use nostd_async::sync::mpmc::Send;
use nostd_async::task::Join;
use nostd_async::task::JoinHandle;
use nostd_async::task::Poll;
use nostd_async::task::Runtime;
use nostd_async::task::Task;
use nostd_async::task::TaskCore;
use nostd_async::task::Tick;
use nostd_async::task::Waker;

type Channel = Buffer<i32, Waker<usize>>;

/// What a computation can reach during one of its steps.
struct Context<'a> {
    waker: Waker<usize>,
    runtime: &'a mut Runtime<usize>,
    channel: &'a mut Channel,
}

impl<'a> Context<'a> {
    fn wake(&mut self, waker: Waker<usize>) {
        waker.wake(self.runtime);
    }

    fn wake_all(&mut self, wakers: Option<Waker<usize>>) {
        if let Some(waker) = wakers {
            self.wake(waker);
        }
    }

    fn yield_once(&mut self) {
        self.waker.wake_by_ref(self.runtime);
    }
}

type Computation<'a> = Box<dyn FnMut(&mut Context) -> Poll<i32> + 'a>;

/// The host of a runtime: it keeps the computations, advances the one that
/// a tick names and reports what the step came to.
struct Host<'a> {
    runtime: Runtime<usize>,
    channel: Channel,
    computations: Vec<Computation<'a>>,
    tasks: Vec<Task<i32, usize>>,
    idles: usize,
}

impl<'a> Host<'a> {
    fn new() -> Self {
        Host {
            runtime: Runtime::new(),
            channel: Buffer::new(),
            computations: Vec::new(),
            tasks: Vec::new(),
            idles: 0,
        }
    }

    fn spawn(&mut self, computation: impl FnMut(&mut Context) -> Poll<i32> + 'a) -> JoinHandle<i32, usize> {
        let handle = self.computations.len();
        self.computations.push(Box::new(computation));
        self.tasks.push(Task::new());
        assert!(!self.tasks[handle].is_spawned(), "Task already spawned");
        let join_handle = self.runtime.spawn(&mut self.tasks[handle], handle);
        assert_eq!(join_handle.task().as_ptr(), handle);
        assert!(self.tasks[handle].is_spawned());
        join_handle
    }

    fn perform(&mut self, tick: Tick<usize>) {
        match tick {
            Tick::Idle => self.idles += 1,
            Tick::Spent(_) => {}
            Tick::Advance(waker, handle) => {
                let outcome = (self.computations[handle])(&mut Context {
                    waker,
                    runtime: &mut self.runtime,
                    channel: &mut self.channel,
                });
                let outcome = self.tasks[handle].poll(outcome);
                self.runtime.settle(waker.task_core, handle, outcome);
            }
        }
    }

    fn tick(&mut self) {
        let tick = self.runtime.run_once();
        self.perform(tick);
    }

    fn join(&mut self, mut join_handle: JoinHandle<i32, usize>) -> i32 {
        let handle = join_handle.task().as_ptr();
        for _ in 0..10_000 {
            let finished = !self.runtime.has_handle(join_handle.task());
            if finished && !self.tasks[handle].has_result() {
                panic!("No Result");
            }
            match join_handle.join(&mut self.runtime, &mut self.tasks[handle]) {
                Join::Ready(output) => return output,
                Join::Pending(back, tick) => {
                    join_handle = back;
                    let before = self.idles;
                    self.perform(tick);
                    assert_eq!(self.idles, before, "nothing is ready and the task has not finished");
                }
            }
        }
        panic!("the task did not finish");
    }

    fn abort(&mut self, join_handle: JoinHandle<i32, usize>) {
        join_handle.abort(&mut self.runtime);
    }

    fn release(&mut self, handle: usize) {
        self.tasks[handle].release(&mut self.runtime);
    }

    fn is_ready(&self, handle: usize) -> bool {
        self.runtime.is_ready(NonNull::new(handle))
    }
}

#[test]
fn test_never_spawned() {
    let task = Task::<i32, usize>::new();

    drop(task);
}

#[test]
fn test_never_driven() {
    let mut host = Host::new();

    {
        let join_handle = host.spawn(|_| Poll::Ready(1));
        let handle = join_handle.task().as_ptr();

        drop(join_handle);
        host.release(handle);
    }

    {
        let join_handle = host.spawn(|_| Poll::Ready(1));

        assert_eq!(host.join(join_handle), 1);
    }
}

#[test]
fn test_drop_handle() {
    let mut host = Host::new();

    {
        host.spawn(|_| Poll::Ready(1));
    }
    let h2 = host.spawn(|_| Poll::Ready(2));

    assert_eq!(host.join(h2), 2);

    assert_eq!(host.tasks[0].take_result().unwrap(), 1);
}

/// A slot for one message, with the resume token of the task that waits
/// for it.
struct SingleMessage {
    value: Cell<Option<()>>,
    waker: Cell<Option<Waker<usize>>>,
}

impl SingleMessage {
    fn new() -> Self {
        Self {
            value: Cell::new(None),
            waker: Cell::new(None),
        }
    }

    fn send(&self, value: (), runtime: &mut Runtime<usize>) {
        if self.value.replace(Some(value)).is_some() {
            panic!("Already sending");
        }
        if let Some(waker) = self.waker.take() {
            waker.wake(runtime);
        }
    }

    fn recv(&self, waker: Waker<usize>) -> Poll<()> {
        match self.value.take() {
            Some(value) => Poll::Ready(value),
            None => {
                if self.waker.replace(Some(waker)).is_some() {
                    panic!("Already recving!");
                }
                Poll::Pending
            }
        }
    }
}

#[test]
fn test_abort() {
    let long_task_has_completed = RefCell::new([false; 10]);
    let completing_task_has_completed = Cell::new(false);

    {
        let channel = SingleMessage::new();
        let mut next_entry = 0;
        let mut host = Host::new();

        let blocking_task_handle = host.spawn(|cx| match channel.recv(cx.waker) {
            Poll::Ready(()) => panic!("Should not reach here!"),
            Poll::Pending => Poll::Pending,
        });
        let blocking_task = blocking_task_handle.task().as_ptr();

        let long_task_handle = host.spawn(|cx| {
            if next_entry < 10 {
                long_task_has_completed.borrow_mut()[next_entry] = true;
                next_entry += 1;
                cx.yield_once();
                Poll::Pending
            } else {
                Poll::Ready(0)
            }
        });

        let completing_task_handle = host.spawn(|_| {
            completing_task_has_completed.set(true);
            Poll::Ready(0)
        });

        host.join(completing_task_handle);

        host.abort(blocking_task_handle);
        host.release(blocking_task);

        channel.send((), &mut host.runtime);

        host.join(long_task_handle);
    }

    assert!(completing_task_has_completed.get());
    assert!(long_task_has_completed.borrow().iter().all(|entry| *entry));
}

#[test]
fn tasks_are_first_advanced_in_the_order_they_were_spawned() {
    let output = RefCell::new(Vec::new());
    let mut host = Host::new();

    let h1 = host.spawn(|_| {
        output.borrow_mut().push("A");
        Poll::Ready(1)
    });
    let h2 = host.spawn(|_| {
        output.borrow_mut().push("B");
        Poll::Ready(2)
    });

    // Joining the second task first still advances the first task first.
    assert_eq!(host.join(h2), 2);
    assert_eq!(*output.borrow(), vec!["A", "B"]);
    assert_eq!(host.join(h1), 1);
    assert_eq!(*output.borrow(), vec!["A", "B"]);
}

#[test]
fn a_tick_hands_out_the_first_ready_task_with_its_handle() {
    let mut runtime = Runtime::<u8>::new();
    let mut first = Task::<(), u8>::new();
    let mut second = Task::<(), u8>::new();
    let h1 = runtime.spawn(&mut first, 11);
    let h2 = runtime.spawn(&mut second, 22);
    assert_eq!(h1.task().as_ptr(), 0);
    assert_eq!(h2.task().as_ptr(), 1);

    match runtime.run_once() {
        Tick::Advance(waker, handle) => {
            assert_eq!(waker.task_core.as_ptr(), 0);
            assert_eq!(handle, 11);
        }
        _ => panic!("the first task is ready"),
    }
    assert!(!runtime.has_handle(h1.task()));
    assert!(!runtime.is_ready(h1.task()));
    assert!(runtime.is_ready(h2.task()));

    match runtime.run_once() {
        Tick::Advance(waker, handle) => {
            assert_eq!(waker.task_core.as_ptr(), 1);
            assert_eq!(handle, 22);
        }
        _ => panic!("the second task is ready"),
    }

    assert!(matches!(runtime.run_once(), Tick::Idle));
}

#[test]
fn a_step_that_is_not_done_puts_the_handle_back() {
    let mut runtime = Runtime::<u8>::new();
    let mut task = Task::<(), u8>::new();
    let join_handle = runtime.spawn(&mut task, 5);
    let core = join_handle.task();

    assert!(matches!(runtime.run_once(), Tick::Advance(_, 5)));
    assert!(!runtime.has_handle(core));

    runtime.settle(core, 5, Poll::Pending);
    assert!(runtime.has_handle(core));
    // Suspended: resumable, but not queued until it is woken.
    assert!(!runtime.is_ready(core));
    assert!(matches!(runtime.run_once(), Tick::Idle));

    Waker { task_core: core }.wake(&mut runtime);
    assert!(runtime.is_ready(core));
    assert!(matches!(runtime.run_once(), Tick::Advance(_, 5)));

    runtime.settle(core, 5, Poll::Ready(()));
    assert!(!runtime.has_handle(core));
}

#[test]
fn a_finished_task_that_is_woken_is_not_advanced_again() {
    let mut runtime = Runtime::<u8>::new();
    let mut task = Task::<u32, u8>::new();
    let join_handle = runtime.spawn(&mut task, 5);
    let core = join_handle.task();

    assert!(matches!(runtime.run_once(), Tick::Advance(_, 5)));
    let outcome = task.poll(Poll::Ready(9));
    runtime.settle(core, 5, outcome);

    let waker = Waker { task_core: core };
    waker.wake_by_ref(&mut runtime);
    waker.clone().wake(&mut runtime);
    match runtime.run_once() {
        Tick::Spent(spent) => assert_eq!(spent.as_ptr(), core.as_ptr()),
        _ => panic!("a finished task has no handle"),
    }
    assert!(matches!(runtime.run_once(), Tick::Idle));

    match join_handle.join(&mut runtime, &mut task) {
        Join::Ready(output) => assert_eq!(output, 9),
        Join::Pending(_, _) => panic!("the task has finished"),
    }
    assert!(!task.has_result());
}

#[test]
fn the_result_is_taken_once_and_joining_does_not_advance_a_finished_task() {
    let steps = Cell::new(0);
    let mut host = Host::new();

    let join_handle = host.spawn(|_| {
        steps.set(steps.get() + 1);
        Poll::Ready(42)
    });
    let other = host.spawn(|_| Poll::Ready(0));

    // Joining another task finishes the first one on the way.
    assert_eq!(host.join(other), 0);
    assert_eq!(steps.get(), 1);
    assert!(host.tasks[0].has_result());

    assert_eq!(host.join(join_handle), 42);
    assert_eq!(steps.get(), 1);
    assert!(!host.tasks[0].has_result());

    host.tick();
    host.tick();
    assert_eq!(steps.get(), 1);
    assert_eq!(host.idles, 2);
}

#[test]
fn an_aborted_task_is_not_advanced_any_more() {
    let counter = Cell::new(0);
    let mut host = Host::new();

    let counting = host.spawn(|cx| {
        counter.set(counter.get() + 1);
        cx.yield_once();
        Poll::Pending
    });

    host.tick();
    host.tick();
    host.tick();
    assert_eq!(counter.get(), 3);
    assert!(host.is_ready(0));

    host.abort(counting);
    assert!(!host.is_ready(0));

    for _ in 0..5 {
        host.tick();
    }
    assert_eq!(counter.get(), 3);
    assert_eq!(host.idles, 5);
}

#[test]
fn a_released_task_stays_out_even_if_it_is_woken() {
    let counter = Cell::new(0);
    let stored = Cell::new(None);
    let mut host = Host::new();

    let join_handle = host.spawn(|cx| {
        counter.set(counter.get() + 1);
        stored.set(Some(cx.waker));
        Poll::Pending
    });

    host.tick();
    assert_eq!(counter.get(), 1);

    drop(join_handle);
    host.release(0);

    let waker = stored.get().expect("the step kept its resume token");
    waker.wake(&mut host.runtime);
    host.tick();
    host.tick();
    assert_eq!(counter.get(), 1);
}

#[test]
fn a_task_that_wakes_itself_goes_to_the_back_of_the_queue() {
    let output = RefCell::new(Vec::new());
    let mut first_steps = 0;
    let mut host = Host::new();

    let h1 = host.spawn(|cx| {
        output.borrow_mut().push("first");
        first_steps += 1;
        if first_steps < 3 {
            // Wakes itself during its own step.
            cx.yield_once();
            cx.yield_once();
            Poll::Pending
        } else {
            Poll::Ready(1)
        }
    });
    let h2 = host.spawn(|_| {
        output.borrow_mut().push("second");
        Poll::Ready(2)
    });
    let h3 = host.spawn(|_| {
        output.borrow_mut().push("third");
        Poll::Ready(3)
    });

    assert_eq!(host.join(h1), 1);
    assert_eq!(
        *output.borrow(),
        vec!["first", "second", "third", "first", "first"]
    );
    assert_eq!(host.join(h3), 3);
    assert_eq!(host.join(h2), 2);
}

#[test]
fn a_task_is_advanced_once_per_step_however_often_it_is_woken() {
    let mut runtime = Runtime::<u8>::new();
    let mut task = Task::<(), u8>::new();
    let core = runtime.spawn(&mut task, 1).task();
    let waker = Waker { task_core: core };

    // Waking a queued task does not queue it again.
    waker.wake(&mut runtime);
    waker.wake(&mut runtime);
    assert!(matches!(runtime.run_once(), Tick::Advance(_, 1)));
    assert!(matches!(runtime.run_once(), Tick::Idle));
}

#[test]
fn a_send_completes_only_after_a_receive_took_its_value() {
    let output = RefCell::new(Vec::new());
    let mut send: Option<Send<i32, Waker<usize>>> = None;
    let mut receive: Option<Receive<i32, Waker<usize>>> = None;
    let output = &output;
    let mut host = Host::new();
    let sender = host.channel.sender();
    let receiver = host.channel.receiver();

    let sending = host.spawn(move |cx| {
        let operation = send.get_or_insert_with(|| sender.send(cx.channel, 42));
        let (outcome, wakes) = operation.poll(cx.channel, cx.waker);
        cx.wake_all(wakes);
        match outcome {
            Poll::Ready(()) => {
                output.borrow_mut().push("sent");
                Poll::Ready(0)
            }
            Poll::Pending => {
                output.borrow_mut().push("sender waits");
                Poll::Pending
            }
        }
    });
    let idling = host.spawn(move |_| {
        output.borrow_mut().push("bystander");
        Poll::Ready(0)
    });
    let receiving = host.spawn(move |cx| {
        let operation = receive.get_or_insert_with(|| receiver.receive(cx.channel));
        let (outcome, wakes) = operation.poll(cx.channel, cx.waker);
        cx.wake_all(wakes);
        match outcome {
            Poll::Ready(value) => {
                output.borrow_mut().push("received");
                Poll::Ready(value)
            }
            Poll::Pending => {
                output.borrow_mut().push("receiver waits");
                Poll::Pending
            }
        }
    });

    assert_eq!(host.join(sending), 0);
    assert_eq!(
        *output.borrow(),
        vec!["sender waits", "bystander", "received", "sent"]
    );
    assert_eq!(host.join(receiving), 42);
    assert_eq!(host.join(idling), 0);
}

#[test]
fn a_receive_that_waits_is_prompted_by_a_send() {
    let output = RefCell::new(Vec::new());
    let mut send: Option<Send<i32, Waker<usize>>> = None;
    let mut receive: Option<Receive<i32, Waker<usize>>> = None;
    let output = &output;
    let mut host = Host::new();
    let sender = host.channel.sender();
    let receiver = host.channel.receiver();

    let receiving = host.spawn(move |cx| {
        let operation = receive.get_or_insert_with(|| receiver.receive(cx.channel));
        let (outcome, wakes) = operation.poll(cx.channel, cx.waker);
        cx.wake_all(wakes);
        match outcome {
            Poll::Ready(value) => {
                output.borrow_mut().push("received");
                Poll::Ready(value)
            }
            Poll::Pending => {
                output.borrow_mut().push("receiver waits");
                Poll::Pending
            }
        }
    });
    let sending = host.spawn(move |cx| {
        let operation = send.get_or_insert_with(|| sender.send(cx.channel, 7));
        let (outcome, wakes) = operation.poll(cx.channel, cx.waker);
        cx.wake_all(wakes);
        match outcome {
            Poll::Ready(()) => {
                output.borrow_mut().push("sent");
                Poll::Ready(0)
            }
            Poll::Pending => {
                output.borrow_mut().push("sender waits");
                Poll::Pending
            }
        }
    });

    assert_eq!(host.join(receiving), 7);
    assert_eq!(
        *output.borrow(),
        vec!["receiver waits", "sender waits", "received"]
    );
    assert_eq!(host.join(sending), 0);
    assert_eq!(
        *output.borrow(),
        vec!["receiver waits", "sender waits", "received", "sent"]
    );
}

#[test]
fn poll_reports_what_a_step_came_to() {
    assert!(Poll::Ready(1).is_ready());
    assert!(!Poll::Ready(1).is_pending());
    assert!(Poll::<i32>::Pending.is_pending());
    assert!(!Poll::<i32>::Pending.is_ready());

    let mut task = Task::<i32, usize>::new();
    assert!(!task.is_spawned());
    assert!(!task.has_result());

    assert!(task.poll(Poll::Pending).is_pending());
    assert!(!task.has_result());

    assert!(task.poll(Poll::Ready(5)).is_ready());
    assert!(task.has_result());
    assert_eq!(task.take_result(), Some(5));
    assert_eq!(task.take_result(), None);
}

#[test]
fn releasing_a_task_that_was_never_spawned_changes_nothing() {
    let mut runtime = Runtime::<u8>::default();
    let mut spawned = Task::<(), u8>::new();
    let mut unspawned = Task::<(), u8>::new();
    let core = runtime.spawn(&mut spawned, 1).task();

    unspawned.release(&mut runtime);

    assert!(runtime.is_ready(core));
    assert!(runtime.has_handle(core));
    assert!(!unspawned.is_spawned());
}

#[test]
fn a_step_empties_the_slot_and_a_pending_outcome_fills_it() {
    free(|cs| {
        let mut core = TaskCore::new(5u8);

        assert_eq!(core.run_once(cs), Some(5));
        assert_eq!(core.run_once(cs), None);

        core.settle(cs, 5, &Poll::Ready(()));
        assert_eq!(core.run_once(cs), None);

        core.settle(cs, 6, &Poll::Pending);
        assert_eq!(core.run_once(cs), Some(6));
    });
}

#[test]
fn a_joined_task_yields_the_output_of_its_computation() {
    let mut host = Host::new();

    let join_handle = host.spawn(|_| Poll::Ready(42));

    assert_eq!(host.join(join_handle), 42);
}

#[test]
fn a_task_that_yields_is_advanced_until_it_is_done() {
    let sections = RefCell::new(Vec::new());
    let mut first_section = 0;
    let mut second_section = 0;
    let mut host = Host::new();

    let h1 = host.spawn(|cx| {
        if first_section < 4 {
            first_section += 1;
            sections.borrow_mut().push((1, first_section));
            cx.yield_once();
            Poll::Pending
        } else {
            Poll::Ready(1)
        }
    });
    let h2 = host.spawn(|cx| {
        if second_section < 4 {
            second_section += 1;
            sections.borrow_mut().push((2, second_section));
            cx.yield_once();
            Poll::Pending
        } else {
            Poll::Ready(2)
        }
    });

    assert_eq!(host.join(h1), 1);
    assert_eq!(host.join(h2), 2);
    assert_eq!(
        *sections.borrow(),
        vec![(1, 1), (2, 1), (1, 2), (2, 2), (1, 3), (2, 3), (1, 4), (2, 4)]
    );
}

#[test]
fn the_crate_root_names_the_runtime_the_task_and_the_join_handle() {
    let mut runtime = nostd_async::Runtime::<u8>::new();
    let mut task = nostd_async::Task::<u8, u8>::new();

    let join_handle: nostd_async::JoinHandle<u8, u8> = runtime.spawn(&mut task, 1);

    assert!(task.is_spawned());
    assert!(runtime.is_ready(join_handle.task()));
    assert!(runtime.has_handle(join_handle.task()));
}
