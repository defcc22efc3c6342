//! A rendezvous channel: a value passes from a sender to a receiver only
//! when both are there.
//!
//! The buffer holds no values. It holds two wait queues, one of pending
//! sends and one of pending receives. A send waits in its queue, keeping its
//! value, until a receive takes the value from the first waiting send. Each
//! waiting operation keeps the resume token of the task that waits on it;
//! an operation that makes progress for its peer hands the peer's token back
//! to the host, which wakes it.
use vstd::prelude::*;
use critical_section::CriticalSection;
use crate::interrupt::free;
use crate::interrupt::replace;
use crate::linked_list::without;
use crate::linked_list::LinkedList;
use crate::mutex::Mutex;
use crate::non_null::NonNull;
use crate::task::Poll;

pub mod model;

pub use model::BufferView;

verus! {

broadcast use crate::non_null::group_non_null;

/// A value that could not be sent.
#[derive(Copy, Clone, Debug)]
pub struct SendError<T>(pub T);

/// The queue node of a send: the value on its way and the resume token of
/// the task that waits for it to be taken.
pub struct SendState<T, W> {
    value: Mutex<Option<T>>,
    waker: Mutex<Option<W>>,
}

/// The queue node of a receive: the resume token of the task that waits for
/// a value.
pub struct ReceiveState<W> {
    waker: Mutex<Option<W>>,
}

/// The channel's shared state: the wait queue of sends and the wait queue of
/// receives, with their nodes.
pub struct Buffer<T, W> {
    senders: LinkedList<SendState<T, W>>,
    receivers: LinkedList<ReceiveState<W>>,
}

impl<T, W> View for Buffer<T, W> {
    type V = BufferView<T, W>;

    closed spec fn view(&self) -> BufferView<T, W> {
        BufferView {
            senders: self.senders@,
            receivers: self.receivers@,
            values: self.senders.values().map_values(|node: SendState<T, W>| node.value@),
            send_wakers: self.senders.values().map_values(|node: SendState<T, W>| node.waker@),
            receive_wakers: self.receivers.values().map_values(
                |node: ReceiveState<W>| node.waker@,
            ),
        }
    }
}

/// The capability to send on a channel.
pub struct Sender<T, W> {
    marker: core::marker::PhantomData<(T, W)>,
}

/// The capability to receive on a channel.
pub struct Receiver<T, W> {
    marker: core::marker::PhantomData<(T, W)>,
}

/// A send in flight. It does nothing until it is polled.
pub struct Send<T, W> {
    node: NonNull<SendState<T, W>>,
}

/// A receive in flight. It does nothing until it is polled.
pub struct Receive<T, W> {
    node: NonNull<ReceiveState<W>>,
    marker: core::marker::PhantomData<T>,
}

impl<T, W> Buffer<T, W> {
    /// The links of both wait queues are intact, and the channel's state is
    /// too.
    pub closed spec fn wf(&self) -> bool {
        &&& self.senders.wf()
        &&& self.receivers.wf()
        &&& self@.wf()
    }

    /// A channel that is intact has a state that is.
    pub proof fn lemma_wf(&self)
        requires
            self.wf(),
        ensures
            self@.wf(),
    {
    }

    /// A channel on which nothing waits.
    pub fn new() -> (r: Self)
        ensures
            r.wf(),
            r@.senders.len() == 0,
            r@.receivers.len() == 0,
            r@.values.len() == 0,
            r@.send_wakers.len() == 0,
            r@.receive_wakers.len() == 0,
    {
        Buffer { senders: LinkedList::new(), receivers: LinkedList::new() }
    }

    /// A capability to send. It holds no state: `send` is handed the channel.
    pub fn sender(&self) -> Sender<T, W> {
        Sender { marker: core::marker::PhantomData }
    }

    /// A capability to receive. It holds no state: `receive` is handed the channel.
    pub fn receiver(&self) -> Receiver<T, W> {
        Receiver { marker: core::marker::PhantomData }
    }
}

impl<T, W> Default for Buffer<T, W> {
    fn default() -> (r: Self)
        ensures
            r.wf(),
            r@.senders.len() == 0,
            r@.receivers.len() == 0,
            r@.values.len() == 0,
            r@.send_wakers.len() == 0,
            r@.receive_wakers.len() == 0,
    {
        Buffer::new()
    }
}

impl<T, W> Sender<T, W> {
    /// Makes a send of `value` on `buffer`. The send holds the value and
    /// does not wait until it is polled.
    #[must_use]
    pub fn send(&self, buffer: &mut Buffer<T, W>, value: T) -> (r: Send<T, W>)
        requires
            old(buffer).wf(),
        ensures
            final(buffer).wf(),
            final(buffer)@ == old(buffer)@.sent(value),
            r.node() == old(buffer)@.next_send(),
            final(buffer)@.owns_send(r.node()),
    {
        let node = buffer.senders.register(
            SendState { value: Mutex::new(Some(value)), waker: Mutex::new(None) },
        );
        proof {
            buffer.senders.lemma_links();
            old(buffer)@.lemma_steps_keep_wf(node, arbitrary(), value, arbitrary());
            assert(buffer@.values =~= old(buffer)@.sent(value).values);
            assert(buffer@.send_wakers =~= old(buffer)@.sent(value).send_wakers);
        }
        Send { node }
    }
}

impl<T, W> Receiver<T, W> {
    /// Makes a receive on `buffer`. The receive does not wait until it is
    /// polled.
    #[must_use]
    pub fn receive(&self, buffer: &mut Buffer<T, W>) -> (r: Receive<T, W>)
        requires
            old(buffer).wf(),
        ensures
            final(buffer).wf(),
            final(buffer)@ == old(buffer)@.received(),
            r.node() == old(buffer)@.next_receive(),
            final(buffer)@.owns_receive(r.node()),
    {
        let node = buffer.receivers.register(ReceiveState { waker: Mutex::new(None) });
        proof {
            buffer.receivers.lemma_links();
            old(buffer)@.lemma_steps_keep_wf(arbitrary(), node, arbitrary(), arbitrary());
            assert(buffer@.receive_wakers =~= old(buffer)@.received().receive_wakers);
        }
        Receive { node, marker: core::marker::PhantomData }
    }
}

impl<T, W> Send<T, W> {
    /// The queue node of this send.
    pub closed spec fn node(&self) -> NonNull<SendState<T, W>> {
        self.node
    }

    /// One step of the send, made for a task whose resume token is `waker`.
    ///
    /// If the value has been taken, the send is complete. Otherwise the send
    /// waits in the queue of sends and keeps `waker`, and the first waiting
    /// receive, if there is one, is prompted to try again: its resume token
    /// is returned for the host to wake. The receive stays in its queue.
    pub fn poll(&self, buffer: &mut Buffer<T, W>, waker: W) -> (r: (Poll<()>, Option<W>))
        requires
            old(buffer).wf(),
            old(buffer)@.owns_send(self.node()),
        ensures
            final(buffer).wf(),
            r.0 == old(buffer)@.send_outcome(self.node()),
            r.1 == old(buffer)@.send_wakes(self.node()),
            final(buffer)@ == old(buffer)@.send_polled(self.node(), waker),
    {
        proof {
            buffer.senders.lemma_links();
            buffer.receivers.lemma_links();
            buffer@.lemma_steps_keep_wf(self.node, arbitrary(), arbitrary(), waker);
        }
        let ghost before = buffer@;
        let send = self.node;
        let owned = replace(buffer, Buffer::new());
        let (owned, outcome, wakes) = free(move |cs: CriticalSection| -> (r: (
            Buffer<T, W>,
            Poll<()>,
            Option<W>,
        ))
            ensures
                r.0.wf(),
                r.0@ == before.send_polled(send, waker),
                r.1 == before.send_outcome(send),
                r.2 == before.send_wakes(send),
            {
                let mut buffer = owned;
                let ghost after = before.send_polled(send, waker);
                if buffer.senders.get(send).value.has_none(cs) {
                    buffer.senders.remove(cs, send);
                    (buffer, Poll::Ready(()), None)
                } else {
                    buffer.senders.insert_back(cs, send);
                    let node = buffer.senders.get_mut(send);
                    node.waker.set(cs, Some(waker));
                    let wakes = match buffer.receivers.first(cs) {
                        Some(receiver) => {
                            let peer = buffer.receivers.get_mut(receiver);
                            peer.waker.take(cs)
                        },
                        None => None,
                    };
                    proof {
                        assert(buffer@.values =~= after.values);
                        assert(buffer@.send_wakers =~= after.send_wakers);
                        assert(buffer@.receive_wakers =~= after.receive_wakers);
                    }
                    (buffer, Poll::Pending, wakes)
                }
            });
        *buffer = owned;
        (outcome, wakes)
    }

    /// Gives the send up. It leaves the queue of sends if it waits there,
    /// so that no receive finds it.
    pub fn cancel(self, buffer: &mut Buffer<T, W>)
        requires
            old(buffer).wf(),
            old(buffer)@.owns_send(self.node()),
        ensures
            final(buffer).wf(),
            final(buffer)@ == old(buffer)@.send_cancelled(self.node()),
    {
        proof {
            buffer@.lemma_steps_keep_wf(self.node, arbitrary(), arbitrary(), arbitrary());
        }
        let send = self.node;
        let senders = replace(&mut buffer.senders, LinkedList::new());
        buffer.senders = free(move |cs: CriticalSection| -> (r: LinkedList<SendState<T, W>>)
            ensures
                r.wf(),
                r.values() == senders.values(),
                r@ == without(senders@, send),
            {
                let mut senders = senders;
                senders.remove(cs, send);
                senders
            });
    }
}

impl<T, W> Receive<T, W> {
    /// The queue node of this receive.
    pub closed spec fn node(&self) -> NonNull<ReceiveState<W>> {
        self.node
    }

    /// One step of the receive, made for a task whose resume token is
    /// `waker`.
    ///
    /// If a send waits, the first one is taken out of its queue, its value
    /// is the receive's output, and its resume token is returned for the
    /// host to wake. Otherwise the receive waits in the queue of receives
    /// and keeps `waker`.
    pub fn poll(&self, buffer: &mut Buffer<T, W>, waker: W) -> (r: (Poll<T>, Option<W>))
        requires
            old(buffer).wf(),
            old(buffer)@.owns_receive(self.node()),
        ensures
            final(buffer).wf(),
            r.0 == old(buffer)@.receive_outcome(),
            r.1 == old(buffer)@.receive_wakes(),
            final(buffer)@ == old(buffer)@.receive_polled(self.node(), waker),
    {
        proof {
            buffer.senders.lemma_links();
            buffer.receivers.lemma_links();
            buffer@.lemma_steps_keep_wf(arbitrary(), self.node, arbitrary(), waker);
        }
        let ghost before = buffer@;
        let receive = self.node;
        let owned = replace(buffer, Buffer::new());
        let (owned, outcome, wakes) = free(move |cs: CriticalSection| -> (r: (
            Buffer<T, W>,
            Poll<T>,
            Option<W>,
        ))
            ensures
                r.0.wf(),
                r.0@ == before.receive_polled(receive, waker),
                r.1 == before.receive_outcome(),
                r.2 == before.receive_wakes(),
            {
                let mut buffer = owned;
                let ghost after = before.receive_polled(receive, waker);
                match buffer.senders.pop_first(cs) {
                    Some(sender) => {
                        let node = buffer.senders.get_mut(sender);
                        let wakes = node.waker.take(cs).expect("Sender has waker");
                        let value = node.value.take(cs).expect("Sender has value");
                        buffer.receivers.remove(cs, receive);
                        proof {
                            assert(buffer@.values =~= after.values);
                            assert(buffer@.send_wakers =~= after.send_wakers);
                        }
                        (buffer, Poll::Ready(value), Some(wakes))
                    },
                    None => {
                        buffer.receivers.insert_back(cs, receive);
                        let node = buffer.receivers.get_mut(receive);
                        node.waker.set(cs, Some(waker));
                        proof {
                            assert(buffer@.receive_wakers =~= after.receive_wakers);
                        }
                        (buffer, Poll::Pending, None)
                    },
                }
            });
        *buffer = owned;
        (outcome, wakes)
    }

    /// Gives the receive up. It leaves the queue of receives if it waits
    /// there, so that no send prompts it.
    pub fn cancel(self, buffer: &mut Buffer<T, W>)
        requires
            old(buffer).wf(),
            old(buffer)@.owns_receive(self.node()),
        ensures
            final(buffer).wf(),
            final(buffer)@ == old(buffer)@.receive_cancelled(self.node()),
    {
        proof {
            buffer@.lemma_steps_keep_wf(arbitrary(), self.node, arbitrary(), arbitrary());
        }
        let receive = self.node;
        let receivers = replace(&mut buffer.receivers, LinkedList::new());
        buffer.receivers = free(move |cs: CriticalSection| -> (r: LinkedList<ReceiveState<W>>)
            ensures
                r.wf(),
                r.values() == receivers.values(),
                r@ == without(receivers@, receive),
            {
                let mut receivers = receivers;
                receivers.remove(cs, receive);
                receivers
            });
    }
}

} // verus!
