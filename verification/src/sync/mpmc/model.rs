//! The state of a channel as plain values, its steps, and what holds of
//! every run of steps.
//!
//! `BufferView` is what a `Buffer` looks like from outside: the two wait
//! queues and what every send and receive holds. Each operation of the
//! channel is one of the steps defined here.
use vstd::prelude::*;
use crate::linked_list::lemma_without;
use crate::linked_list::without;
use crate::non_null::NonNull;
use crate::sync::mpmc::ReceiveState;
use crate::sync::mpmc::SendState;
use crate::task::Poll;

verus! {

broadcast use crate::non_null::group_non_null;

/// The state of a channel: the sends and the receives that wait, first to
/// last, and what every send and receive ever made holds, by its number.
pub struct BufferView<T, W> {
    pub senders: Seq<NonNull<SendState<T, W>>>,
    pub receivers: Seq<NonNull<ReceiveState<W>>>,
    pub values: Seq<Option<T>>,
    pub send_wakers: Seq<Option<W>>,
    pub receive_wakers: Seq<Option<W>>,
}

impl<T, W> BufferView<T, W> {
    /// Whether `send` was made on this channel.
    pub open spec fn owns_send(self, send: NonNull<SendState<T, W>>) -> bool {
        (send.addr() as int) < self.values.len()
    }

    /// Whether `receive` was made on this channel.
    pub open spec fn owns_receive(self, receive: NonNull<ReceiveState<W>>) -> bool {
        (receive.addr() as int) < self.receive_wakers.len()
    }

    /// The value that `send` still holds.
    pub open spec fn value(self, send: NonNull<SendState<T, W>>) -> Option<T> {
        self.values[send.addr() as int]
    }

    /// The resume token that `send` keeps.
    pub open spec fn send_waker(self, send: NonNull<SendState<T, W>>) -> Option<W> {
        self.send_wakers[send.addr() as int]
    }

    /// The resume token that `receive` keeps.
    pub open spec fn receive_waker(self, receive: NonNull<ReceiveState<W>>) -> Option<W> {
        self.receive_wakers[receive.addr() as int]
    }

    /// Nothing waits twice, only operations of this channel wait, and every
    /// waiting send has its value and a resume token.
    pub open spec fn wf(self) -> bool {
        &&& self.senders.no_duplicates()
        &&& self.receivers.no_duplicates()
        &&& self.values.len() == self.send_wakers.len()
        &&& self.values.len() <= usize::MAX
        &&& self.receive_wakers.len() <= usize::MAX
        &&& forall|i: int|
            0 <= i < self.senders.len() ==> {
                &&& self.owns_send(#[trigger] self.senders[i])
                &&& self.value(self.senders[i]) is Some
                &&& self.send_waker(self.senders[i]) is Some
            }
        &&& forall|i: int|
            0 <= i < self.receivers.len() ==> self.owns_receive(#[trigger] self.receivers[i])
    }

    /// The send that the next call of `Sender::send` makes.
    pub open spec fn next_send(self) -> NonNull<SendState<T, W>> {
        NonNull::at(self.values.len() as usize)
    }

    /// The receive that the next call of `Receiver::receive` makes.
    pub open spec fn next_receive(self) -> NonNull<ReceiveState<W>> {
        NonNull::at(self.receive_wakers.len() as usize)
    }

    /// The state after a send of `value` has been made: it holds the value
    /// and does not wait yet.
    pub open spec fn sent(self, value: T) -> Self {
        BufferView {
            values: self.values.push(Some(value)),
            send_wakers: self.send_wakers.push(None),
            ..self
        }
    }

    /// The state after a receive has been made: it does not wait yet.
    pub open spec fn received(self) -> Self {
        BufferView { receive_wakers: self.receive_wakers.push(None), ..self }
    }

    /// What a step of `send` reports: completion once its value has been
    /// taken, and "not yet done" as long as it holds its value.
    pub open spec fn send_outcome(self, send: NonNull<SendState<T, W>>) -> Poll<()> {
        if self.value(send) is None {
            Poll::Ready(())
        } else {
            Poll::Pending
        }
    }

    /// The resume token that a step of `send` hands to the host to wake: the
    /// token of the first waiting receive, if the send still holds its value
    /// and that receive keeps a token.
    pub open spec fn send_wakes(self, send: NonNull<SendState<T, W>>) -> Option<W> {
        if self.value(send) is Some && self.receivers.len() > 0 {
            self.receive_waker(self.receivers[0])
        } else {
            None
        }
    }

    /// The state after a step of `send` with resume token `waker`. A send
    /// whose value has been taken leaves the queue. A send that holds its
    /// value waits, last in the queue unless it waits already, and keeps
    /// `waker`; the first waiting receive gives up its token and goes on
    /// waiting.
    pub open spec fn send_polled(self, send: NonNull<SendState<T, W>>, waker: W) -> Self {
        if self.value(send) is None {
            BufferView { senders: without(self.senders, send), ..self }
        } else {
            BufferView {
                senders: if self.senders.contains(send) {
                    self.senders
                } else {
                    self.senders.push(send)
                },
                send_wakers: self.send_wakers.update(send.addr() as int, Some(waker)),
                receive_wakers: if self.receivers.len() > 0 {
                    self.receive_wakers.update(self.receivers[0].addr() as int, None)
                } else {
                    self.receive_wakers
                },
                ..self
            }
        }
    }

    /// What a step of a receive reports: the value of the first waiting
    /// send, or "not yet done" if no send waits.
    pub open spec fn receive_outcome(self) -> Poll<T> {
        if self.senders.len() > 0 {
            match self.value(self.senders[0]) {
                Some(value) => Poll::Ready(value),
                None => Poll::Pending,
            }
        } else {
            Poll::Pending
        }
    }

    /// The resume token that a step of a receive hands to the host to wake:
    /// the token of the first waiting send, whose value it took.
    pub open spec fn receive_wakes(self) -> Option<W> {
        if self.senders.len() > 0 {
            self.send_waker(self.senders[0])
        } else {
            None
        }
    }

    /// The state after a step of `receive` with resume token `waker`. If a
    /// send waits, the first one leaves its queue and gives up its value and
    /// its token, and the receive leaves its own queue. If none waits, the
    /// receive waits, last in the queue unless it waits already, and keeps
    /// `waker`.
    pub open spec fn receive_polled(self, receive: NonNull<ReceiveState<W>>, waker: W) -> Self {
        if self.senders.len() > 0 {
            BufferView {
                senders: self.senders.drop_first(),
                values: self.values.update(self.senders[0].addr() as int, None),
                send_wakers: self.send_wakers.update(self.senders[0].addr() as int, None),
                receivers: without(self.receivers, receive),
                ..self
            }
        } else {
            BufferView {
                receivers: if self.receivers.contains(receive) {
                    self.receivers
                } else {
                    self.receivers.push(receive)
                },
                receive_wakers: self.receive_wakers.update(receive.addr() as int, Some(waker)),
                ..self
            }
        }
    }

    /// The state after `send` has been cancelled: it does not wait.
    pub open spec fn send_cancelled(self, send: NonNull<SendState<T, W>>) -> Self {
        BufferView { senders: without(self.senders, send), ..self }
    }

    /// The state after `receive` has been cancelled: it does not wait.
    pub open spec fn receive_cancelled(self, receive: NonNull<ReceiveState<W>>) -> Self {
        BufferView { receivers: without(self.receivers, receive), ..self }
    }
}

impl<T, W> BufferView<T, W> {
    /// Every step of a channel leaves its state intact.
    pub proof fn lemma_steps_keep_wf(
        self,
        send: NonNull<SendState<T, W>>,
        receive: NonNull<ReceiveState<W>>,
        value: T,
        waker: W,
    )
        requires
            self.wf(),
        ensures
            self.values.len() < usize::MAX ==> self.sent(value).wf(),
            self.receive_wakers.len() < usize::MAX ==> self.received().wf(),
            self.owns_send(send) ==> self.send_polled(send, waker).wf(),
            self.owns_receive(receive) ==> self.receive_polled(receive, waker).wf(),
            self.send_cancelled(send).wf(),
            self.receive_cancelled(receive).wf(),
    {
        lemma_without(self.senders, send);
        lemma_without(self.receivers, receive);
    }

    /// A send that has just been made holds its value and is not complete.
    pub proof fn lemma_fresh_send_holds_value(self, value: T)
        requires
            self.wf(),
            self.values.len() < usize::MAX,
        ensures
            self.sent(value).owns_send(self.next_send()),
            self.sent(value).value(self.next_send()) == Some(value),
            self.sent(value).send_outcome(self.next_send()) == Poll::<()>::Pending,
            !self.sent(value).senders.contains(self.next_send()),
    {
    }

    /// A send completes only after a receive has taken its value.
    ///
    /// A step of a send reports completion exactly when its value is gone.
    /// As long as a send holds its value, no step of any send, no new send
    /// or receive and no cancellation takes the value away. The one step
    /// that does is a step of a receive that finds the send first in the
    /// queue of sends: it outputs exactly the send's value, takes the send
    /// out of the queue and hands out the send's resume token.
    pub proof fn lemma_send_completes_after_receive(
        self,
        send: NonNull<SendState<T, W>>,
        other: NonNull<SendState<T, W>>,
        receive: NonNull<ReceiveState<W>>,
        value: T,
        waker: W,
    )
        requires
            self.wf(),
            self.owns_send(send),
            self.owns_send(other),
            self.owns_receive(receive),
        ensures
            self.send_outcome(send) is Ready <==> self.value(send) is None,
            self.sent(value).value(send) == self.value(send),
            self.received().value(send) == self.value(send),
            self.send_polled(other, waker).value(send) == self.value(send),
            self.send_cancelled(other).value(send) == self.value(send),
            self.receive_cancelled(receive).value(send) == self.value(send),
            self.senders.len() == 0 || self.senders[0] != send ==> self.receive_polled(
                receive,
                waker,
            ).value(send) == self.value(send),
            self.senders.len() > 0 && self.senders[0] == send ==> {
                &&& self.value(send) is Some
                &&& self.receive_outcome() == Poll::Ready(self.value(send)->0)
                &&& self.receive_wakes() == self.send_waker(send)
                &&& self.receive_polled(receive, waker).value(send) is None
                &&& !self.receive_polled(receive, waker).senders.contains(send)
            },
    {
        if self.senders.len() > 0 && self.senders[0] == send {
            let rest = self.senders.drop_first();
            if rest.contains(send) {
                assert(self.senders[rest.index_of(send) + 1] == send);
            }
        }
    }

    /// A cancelled send leaves nothing behind in the queue of sends. It
    /// does not wait, so a step of a receive that follows neither finds it
    /// nor takes its value nor hands out its resume token: that step serves
    /// the first of the sends that still wait, if any.
    pub proof fn lemma_cancelled_send_is_not_received(
        self,
        send: NonNull<SendState<T, W>>,
        receive: NonNull<ReceiveState<W>>,
        waker: W,
    )
        requires
            self.wf(),
            self.owns_send(send),
            self.owns_receive(receive),
        ensures
            ({
                let cancelled = self.send_cancelled(send);
                let after = cancelled.receive_polled(receive, waker);
                &&& cancelled.wf()
                &&& !cancelled.senders.contains(send)
                &&& forall|other: NonNull<SendState<T, W>>|
                    other != send ==> (#[trigger] cancelled.senders.contains(other)
                        <==> self.senders.contains(other))
                &&& cancelled.senders.len() > 0 ==> cancelled.senders[0] != send
                &&& after.value(send) == self.value(send)
                &&& after.send_waker(send) == self.send_waker(send)
                &&& !after.senders.contains(send)
            }),
    {
        self.lemma_steps_keep_wf(send, receive, arbitrary(), waker);
        lemma_without(self.senders, send);
        let cancelled = self.send_cancelled(send);
        if cancelled.senders.len() > 0 {
            let rest = cancelled.senders.drop_first();
            if rest.contains(send) {
                assert(cancelled.senders[rest.index_of(send) + 1] == send);
            }
        }
    }

    /// A cancelled receive leaves nothing behind in the queue of receives.
    /// It does not wait, so a step of a send that follows does not prompt
    /// it: its resume token stays where it is, and the token that the step
    /// hands out is that of the first receive that still waits, if any.
    pub proof fn lemma_cancelled_receive_is_not_prompted(
        self,
        receive: NonNull<ReceiveState<W>>,
        send: NonNull<SendState<T, W>>,
        waker: W,
    )
        requires
            self.wf(),
            self.owns_send(send),
            self.owns_receive(receive),
        ensures
            ({
                let cancelled = self.receive_cancelled(receive);
                let after = cancelled.send_polled(send, waker);
                &&& cancelled.wf()
                &&& !cancelled.receivers.contains(receive)
                &&& forall|other: NonNull<ReceiveState<W>>|
                    other != receive ==> (#[trigger] cancelled.receivers.contains(other)
                        <==> self.receivers.contains(other))
                &&& cancelled.receivers.len() > 0 ==> cancelled.receivers[0] != receive
                &&& after.receive_waker(receive) == self.receive_waker(receive)
                &&& !after.receivers.contains(receive)
            }),
    {
        self.lemma_steps_keep_wf(send, receive, arbitrary(), waker);
        lemma_without(self.receivers, receive);
    }

    /// An operation that does not wait stays out of its queue until it is
    /// polled again: no step of another operation, no new operation and no
    /// cancellation queues it.
    pub proof fn lemma_stays_out(
        self,
        send: NonNull<SendState<T, W>>,
        receive: NonNull<ReceiveState<W>>,
        other_send: NonNull<SendState<T, W>>,
        other_receive: NonNull<ReceiveState<W>>,
        value: T,
        waker: W,
    )
        requires
            self.wf(),
            self.owns_send(send),
            self.owns_receive(receive),
            other_send != send,
            other_receive != receive,
        ensures
            !self.senders.contains(send) ==> {
                &&& !self.sent(value).senders.contains(send)
                &&& !self.received().senders.contains(send)
                &&& !self.send_polled(other_send, waker).senders.contains(send)
                &&& !self.receive_polled(receive, waker).senders.contains(send)
                &&& !self.receive_polled(other_receive, waker).senders.contains(send)
                &&& !self.send_cancelled(other_send).senders.contains(send)
                &&& !self.receive_cancelled(other_receive).senders.contains(send)
            },
            !self.receivers.contains(receive) ==> {
                &&& !self.sent(value).receivers.contains(receive)
                &&& !self.received().receivers.contains(receive)
                &&& !self.send_polled(send, waker).receivers.contains(receive)
                &&& !self.send_polled(other_send, waker).receivers.contains(receive)
                &&& !self.receive_polled(other_receive, waker).receivers.contains(receive)
                &&& !self.send_cancelled(other_send).receivers.contains(receive)
                &&& !self.receive_cancelled(other_receive).receivers.contains(receive)
            },
    {
        lemma_without(self.senders, other_send);
        lemma_without(self.receivers, other_receive);
        lemma_without(self.receivers, receive);
        if !self.senders.contains(send) {
            let grown = self.senders.push(other_send);
            if grown.contains(send) {
                assert(self.senders[grown.index_of(send)] == send);
            }
            if self.senders.len() > 0 {
                let rest = self.senders.drop_first();
                if rest.contains(send) {
                    assert(self.senders[rest.index_of(send) + 1] == send);
                }
            }
        }
        if !self.receivers.contains(receive) {
            let grown = self.receivers.push(other_receive);
            if grown.contains(receive) {
                assert(self.receivers[grown.index_of(receive)] == receive);
            }
        }
    }
}

} // verus!
