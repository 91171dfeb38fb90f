//! The stream bridge: one listener registration exposed as a pollable,
//! cancellable sequence of argument tuples.
//!
//! A `SignalStream` owns the receiving side of an unbounded FIFO channel
//! that the emission driver pushes marshaled argument tuples into, a
//! non-owning reference to the target instance, and the listener's handle
//! while the registration is live. Ending the stream disconnects that
//! listener exactly once; a second disconnect is a no-op. `OnceFuture`
//! narrows a stream to its first tuple, and `SignalStreamSelf` resolves the
//! target alongside each tuple.

use vstd::prelude::*;

use futures_channel::mpsc;

use crate::descriptor::ConnectDetails;
use crate::dispatch::{keeps_other_handles, ConnectError, Dispatcher, WeakRef};
use crate::marshal::ArgumentTuple;
use crate::value::DynamicValue;

verus! {

/// The channel between the bus-side listener and the stream: the sending
/// and receiving halves of an unbounded FIFO queue of argument tuples,
/// held together so the queue's whole state is owned here.
#[verifier::external_body]
pub struct ArgQueue {
    tx: mpsc::UnboundedSender<ArgumentTuple>,
    rx: mpsc::UnboundedReceiver<ArgumentTuple>,
}

/// The buffered argument tuples of the channel, oldest first, each as its
/// sequence of dynamic values.
pub uninterp spec fn queue_view(q: &ArgQueue) -> Seq<Seq<DynamicValue>>;

/// Whether the channel still accepts pushes: true until the queue is
/// closed, after which buffered tuples can still be drained.
pub uninterp spec fn queue_open(q: &ArgQueue) -> bool;

/// Relies on futures_channel::mpsc::unbounded: a fresh channel is open and
/// buffers nothing.
#[verifier::external_body]
fn queue_new() -> (q: ArgQueue)
    ensures
        queue_view(&q) == Seq::<Seq<DynamicValue>>::empty(),
        queue_open(&q),
{
    let (tx, rx) = mpsc::unbounded();
    ArgQueue { tx, rx }
}

/// Relies on futures_channel::mpsc::UnboundedSender::unbounded_send: while
/// the receiver is not closed a send always succeeds and appends the value;
/// after closing, sends fail and the buffer stays as it is.
#[verifier::external_body]
fn queue_push(q: &mut ArgQueue, v: ArgumentTuple) -> (ok: bool)
    ensures
        queue_open(&*old(q)) ==> ok && queue_view(final(q)) == queue_view(&*old(q)).push(v@)
            && queue_open(final(q)),
        !queue_open(&*old(q)) ==> !ok && queue_view(final(q)) == queue_view(&*old(q))
            && !queue_open(final(q)),
{
    q.tx.unbounded_send(v).is_ok()
}

/// Relies on futures_channel::mpsc::UnboundedReceiver::close: no further
/// message can be sent, while already buffered messages stay receivable.
#[verifier::external_body]
fn queue_close(q: &mut ArgQueue)
    ensures
        !queue_open(final(q)),
        queue_view(final(q)) == queue_view(&*old(q)),
{
    q.rx.close();
}

/// What one poll of the stream's channel yielded.
#[derive(Debug, PartialEq, Eq)]
pub enum StreamPoll {
    /// The oldest buffered argument tuple, removed from the buffer.
    Item(ArgumentTuple),
    /// The channel is closed and drained: no tuple will ever come.
    Ended,
    /// No tuple is buffered yet, but the channel is still open.
    Pending,
}

/// Relies on futures_channel::mpsc::UnboundedReceiver::try_recv: it yields
/// buffered values oldest first, reports an empty open channel as `Empty`,
/// and a drained closed channel as `Closed`.
#[verifier::external_body]
fn queue_try_pop(q: &mut ArgQueue) -> (r: StreamPoll)
    ensures
        queue_view(&*old(q)).len() > 0 ==> (r matches StreamPoll::Item(t) && t@ == queue_view(
            &*old(q),
        )[0]) && queue_view(final(q)) == queue_view(&*old(q)).drop_first() && queue_open(final(q))
            == queue_open(&*old(q)),
        queue_view(&*old(q)).len() == 0 && queue_open(&*old(q)) ==> r == StreamPoll::Pending
            && queue_view(final(q)) == queue_view(&*old(q)) && queue_open(final(q)),
        queue_view(&*old(q)).len() == 0 && !queue_open(&*old(q)) ==> r == StreamPoll::Ended
            && queue_view(final(q)) == queue_view(&*old(q)) && !queue_open(final(q)),
{
    match q.rx.try_recv() {
        Ok(v) => StreamPoll::Item(v),
        Err(mpsc::TryRecvError::Empty) => StreamPoll::Pending,
        Err(mpsc::TryRecvError::Closed) => StreamPoll::Ended,
    }
}

/// A listener registration exposed as a pollable sequence of argument
/// tuples: tuples are yielded in emission order, none lost, none
/// duplicated, none reordered. While `handle` is present the registration
/// is live; ending the stream disconnects it exactly once.
#[must_use]
pub struct SignalStream {
    /// The FIFO channel the emission driver delivers into.
    pub queue: ArgQueue,
    /// A non-owning reference to the target instance.
    pub target: WeakRef,
    /// The live listener registration, until the stream is ended.
    pub handle: Option<u64>,
    /// Whether a poll has already observed the end of the channel.
    pub terminated: bool,
}

impl SignalStream {
    /// Connects a listener for the routing triple on `target` and exposes
    /// it as a stream. The bus rejects the connection exactly as it does
    /// for a plain connect; nothing is registered then.
    pub fn connect(bus: &mut Dispatcher, target: u64, details: &ConnectDetails) -> (r: Result<
        SignalStream,
        ConnectError,
    >)
        requires
            old(bus).wf(),
            old(bus).next_handle < u64::MAX,
        ensures
            final(bus).wf(),
            r is Ok <==> old(bus).connect_ok(target, *details),
            r matches Ok(st) ==> {
                &&& st.handle == Some(old(bus).next_handle)
                &&& st.target == (WeakRef { id: target })
                &&& !st.terminated
                &&& queue_view(&st.queue) == Seq::<Seq<DynamicValue>>::empty()
                &&& queue_open(&st.queue)
                &&& final(bus).listeners@ == old(bus).listeners@.push(
                    crate::dispatch::Listener {
                        handle: old(bus).next_handle,
                        instance: target,
                        signal: details.signal,
                        detail: details.detail,
                        run_after: details.run_after,
                    },
                )
                &&& final(bus).next_handle == old(bus).next_handle + 1
                &&& final(bus).descriptors@ == old(bus).descriptors@
                &&& final(bus).details@ == old(bus).details@
                &&& final(bus).instances@ == old(bus).instances@
                &&& final(bus).next_instance == old(bus).next_instance
            },
            r is Err ==> *final(bus) == *old(bus),
    {
        let handle = match bus.connect(target, details) {
            Ok(h) => h,
            Err(e) => {
                return Err(e);
            },
        };
        Ok(
            SignalStream {
                queue: queue_new(),
                target: bus.downgrade(target),
                handle: Some(handle),
                terminated: false,
            },
        )
    }

    /// Delivers one marshaled argument tuple into the stream, in emission
    /// order. The push succeeds exactly while the stream's channel is
    /// open; a stream that was ended takes nothing more.
    pub fn deliver(&mut self, args: ArgumentTuple) -> (ok: bool)
        ensures
            queue_open(&old(self).queue) ==> ok && queue_view(&final(self).queue) == queue_view(
                &old(self).queue,
            ).push(args@) && queue_open(&final(self).queue),
            !queue_open(&old(self).queue) ==> !ok && queue_view(&final(self).queue) == queue_view(
                &old(self).queue,
            ) && !queue_open(&final(self).queue),
            final(self).target == old(self).target,
            final(self).handle == old(self).handle,
            final(self).terminated == old(self).terminated,
    {
        queue_push(&mut self.queue, args)
    }

    /// Polls the stream: the oldest buffered tuple, or `Pending` while the
    /// channel is open and empty, or `Ended` once the channel is closed and
    /// drained. After `Ended` the stream is terminated and every further
    /// poll yields `Ended` again.
    pub fn poll_next(&mut self) -> (r: StreamPoll)
        ensures
            final(self).target == old(self).target,
            final(self).handle == old(self).handle,
            old(self).terminated ==> r == StreamPoll::Ended && final(self).terminated
                && queue_view(&final(self).queue) == queue_view(&old(self).queue) && queue_open(
                &final(self).queue,
            ) == queue_open(&old(self).queue),
            !old(self).terminated && queue_view(&old(self).queue).len() > 0 ==> (
            r matches StreamPoll::Item(t) && t@ == queue_view(&old(self).queue)[0]) && queue_view(
                &final(self).queue,
            ) == queue_view(&old(self).queue).drop_first() && !final(self).terminated
                && queue_open(&final(self).queue) == queue_open(&old(self).queue),
            !old(self).terminated && queue_view(&old(self).queue).len() == 0 && queue_open(
                &old(self).queue,
            ) ==> r == StreamPoll::Pending && !final(self).terminated && queue_view(
                &final(self).queue,
            ) == queue_view(&old(self).queue) && queue_open(&final(self).queue),
            !old(self).terminated && queue_view(&old(self).queue).len() == 0 && !queue_open(
                &old(self).queue,
            ) ==> r == StreamPoll::Ended && final(self).terminated && queue_view(
                &final(self).queue,
            ) == queue_view(&old(self).queue) && !queue_open(&final(self).queue),
    {
        if self.terminated {
            return StreamPoll::Ended;
        }
        let r = queue_try_pop(&mut self.queue);
        if let StreamPoll::Ended = r {
            self.terminated = true;
        }
        r
    }

    /// Whether a poll has already observed the end of the channel.
    pub fn is_terminated(&self) -> (b: bool)
        ensures
            b == self.terminated,
    {
        self.terminated
    }

    /// The non-owning reference to the target instance.
    pub fn target(&self) -> (r: WeakRef)
        ensures
            r == self.target,
    {
        self.target
    }

    /// Ends the stream's registration: closes the channel for further
    /// deliveries and disconnects the listener if it is still connected.
    /// The handle is consumed by the first call; calling again is a no-op
    /// and does not error.
    pub fn disconnect(&mut self, bus: &mut Dispatcher)
        requires
            old(bus).wf(),
        ensures
            final(bus).wf(),
            final(self).handle is None,
            final(self).target == old(self).target,
            final(self).terminated == old(self).terminated,
            old(self).handle is None ==> *final(self) == *old(self) && *final(bus) == *old(bus),
            old(self).handle matches Some(h) ==> !queue_open(&final(self).queue) && queue_view(
                &final(self).queue,
            ) == queue_view(&old(self).queue) && (old(bus).spec_is_connected(h) ==> final(bus).listeners@ == old(bus).listeners@.filter(keeps_other_handles(h)) && !final(bus).spec_is_connected(h) && final(bus).descriptors@ == old(bus).descriptors@ && final(bus).details@ == old(bus).details@ && final(bus).instances@ == old(bus).instances@
                && final(bus).next_handle == old(bus).next_handle && final(bus).next_instance
                == old(bus).next_instance) && (!old(bus).spec_is_connected(h) ==> *final(bus)
                == *old(bus)),
    {
        let taken = self.handle.take();
        if let Some(h) = taken {
            queue_close(&mut self.queue);
            if bus.is_connected(h) {
                bus.remove_handle(h);
            }
        }
    }

    /// Ends the stream and keeps only the non-owning reference to its
    /// target, disconnecting the listener if it is still connected.
    pub fn into_target(self, bus: &mut Dispatcher) -> (r: WeakRef)
        requires
            old(bus).wf(),
        ensures
            final(bus).wf(),
            r == self.target,
            self.handle is None ==> *final(bus) == *old(bus),
            self.handle matches Some(h) ==> (old(bus).spec_is_connected(h) ==> final(bus).listeners@ == old(bus).listeners@.filter(keeps_other_handles(h)) && !final(bus).spec_is_connected(h) && final(bus).descriptors@ == old(bus).descriptors@ && final(bus).details@ == old(bus).details@ && final(bus).instances@ == old(bus).instances@
                && final(bus).next_handle == old(bus).next_handle && final(bus).next_instance
                == old(bus).next_instance) && (!old(bus).spec_is_connected(h) ==> *final(bus)
                == *old(bus)),
    {
        let mut this = self;
        this.disconnect(bus);
        this.target
    }

    /// Narrows the stream to its first tuple.
    pub fn once(self) -> (r: OnceFuture)
        ensures
            r.stream == Some(self),
            r.done is None,
    {
        OnceFuture::new(self)
    }

    /// Attaches the resolved target to each yielded tuple.
    pub fn attach_target(self) -> (r: SignalStreamSelf)
        ensures
            r.inner == self,
    {
        SignalStreamSelf { inner: self }
    }
}

/// The typed end-of-stream condition: the stream's channel closed before a
/// tuple was delivered.
#[derive(Copy, Clone, Debug, PartialEq, Eq, Structural)]
pub struct ConnectEof;

/// What one poll of a `OnceFuture` yielded.
#[derive(Debug, PartialEq, Eq)]
pub enum OncePoll {
    /// The first delivered tuple and the non-owning target reference.
    Ready(ArgumentTuple, WeakRef),
    /// The channel closed before any tuple arrived.
    EndOfStream,
    /// Nothing decided yet: no tuple buffered, channel still open.
    Pending,
}

/// Exactly one event out of a stream: resolves with the first delivered
/// tuple plus the (possibly expired) target reference, or fails with the
/// end-of-stream condition if the channel closes first. The future is
/// fused: after resolving it stays in its terminal state, and every later
/// poll yields that state again. Resolving disconnects the underlying
/// listener.
pub struct OnceFuture {
    /// The stream still being polled, until the future resolves.
    pub stream: Option<SignalStream>,
    /// The terminal state, once resolved.
    pub done: Option<Result<(ArgumentTuple, WeakRef), ConnectEof>>,
}

impl OnceFuture {
    /// Whether the future's state is consistent: it either still holds the
    /// stream or has resolved, never both and never neither.
    pub open spec fn wf(&self) -> bool {
        self.stream is Some <==> self.done is None
    }

    /// Wraps a stream, resolving with its first tuple.
    pub fn new(stream: SignalStream) -> (r: OnceFuture)
        ensures
            r.stream == Some(stream),
            r.done is None,
            r.wf(),
    {
        OnceFuture { stream: Some(stream), done: None }
    }

    /// The stream back out of an unresolved future. Check `is_terminated`
    /// first: a resolved future holds no stream any more.
    pub fn into_inner(self) -> (r: SignalStream)
        requires
            self.done is None,
            self.wf(),
        ensures
            Some(r) == self.stream,
    {
        match self.stream {
            Some(s) => s,
            None => {
                proof {
                    assert(false);
                }
                unreached()
            },
        }
    }

    /// Whether polling can no longer yield a first tuple: the future has
    /// resolved, or its stream has already observed the end of the channel.
    pub fn is_terminated(&self) -> (b: bool)
        requires
            self.wf(),
        ensures
            b == (self.done is Some || (self.stream matches Some(st) && st.terminated)),
    {
        match &self.stream {
            Some(st) => st.is_terminated(),
            None => true,
        }
    }

    /// Polls for the first tuple. The first poll that finds a buffered
    /// tuple resolves to it and disconnects the listener; the first poll
    /// that finds the channel closed and drained resolves to the
    /// end-of-stream condition, exactly once. Either terminal state is
    /// repeated on every later poll, the bus untouched.
    pub fn poll_once(&mut self, bus: &mut Dispatcher) -> (r: OncePoll)
        requires
            old(self).wf(),
            old(bus).wf(),
        ensures
            final(self).wf(),
            final(bus).wf(),
            old(self).done matches Some(Err(e)) ==> r == OncePoll::EndOfStream && *final(self)
                == *old(self) && *final(bus) == *old(bus),
            old(self).done matches Some(Ok(done)) ==> (r matches OncePoll::Ready(x, w) && x@
                == done.0@ && w == done.1) && *final(self) == *old(self) && *final(bus) == *old(bus),
            old(self).done is None ==> (old(self).stream matches Some(st) ==> (!st.terminated
                && queue_view(&st.queue).len() == 0 && queue_open(&st.queue)) ==> (r
                == OncePoll::Pending && final(self).done is None && *final(bus) == *old(bus) && (
            final(self).stream matches Some(st2) && st2.handle == st.handle && st2.target
                == st.target && !st2.terminated && queue_view(&st2.queue) == queue_view(&st.queue)
                && queue_open(&st2.queue)))),
            old(self).done is None && (old(self).stream matches Some(st) && (st.terminated || (
            queue_view(&st.queue).len() == 0 && !queue_open(&st.queue)))) ==> r
                == OncePoll::EndOfStream && final(self).done == Some(
                Err::<(ArgumentTuple, WeakRef), ConnectEof>(ConnectEof),
            ) && final(self).stream is None,
            old(self).done is None ==> (old(self).stream matches Some(st) ==> (!st.terminated
                && queue_view(&st.queue).len() > 0) ==> ((r matches OncePoll::Ready(x, w) && x@
                == queue_view(&st.queue)[0] && w == st.target) && (final(self).done matches Some(
                Ok(done),
            ) && done.0@ == queue_view(&st.queue)[0] && done.1 == st.target) && final(self).stream is None)),
            old(self).done is None ==> (old(self).stream matches Some(st) ==> ((st.terminated
                || queue_view(&st.queue).len() > 0 || !queue_open(&st.queue))
                && st.handle is None) ==> *final(bus) == *old(bus)),
            old(self).done is None ==> (old(self).stream matches Some(st) ==> ((st.terminated
                || queue_view(&st.queue).len() > 0 || !queue_open(&st.queue))
                && st.handle is Some && old(bus).spec_is_connected(st.handle->Some_0)) ==> final(
                bus).listeners@ == old(bus).listeners@.filter(
                keeps_other_handles(st.handle->Some_0),
            ) && !final(bus).spec_is_connected(st.handle->Some_0)),
            old(self).done is None ==> (old(self).stream matches Some(st) ==> ((st.terminated
                || queue_view(&st.queue).len() > 0 || !queue_open(&st.queue))
                && st.handle is Some && !old(bus).spec_is_connected(st.handle->Some_0)) ==> *final(
                bus) == *old(bus)),
    {
        match &self.done {
            Some(Ok(done)) => {
                let x = done.0.clone();
                let w = done.1;
                return OncePoll::Ready(x, w);
            },
            Some(Err(_)) => {
                return OncePoll::EndOfStream;
            },
            None => {},
        }
        let taken = self.stream.take();
        let mut st = match taken {
            Some(s) => s,
            None => {
                proof {
                    assert(false);
                }
                return OncePoll::Pending;
            },
        };
        let polled = st.poll_next();
        match polled {
            StreamPoll::Item(args) => {
                let weak = st.into_target(bus);
                let out = args.clone();
                self.done = Some(Ok((args, weak)));
                OncePoll::Ready(out, weak)
            },
            StreamPoll::Ended => {
                let _ = st.into_target(bus);
                self.done = Some(Err(ConnectEof));
                OncePoll::EndOfStream
            },
            StreamPoll::Pending => {
                self.stream = Some(st);
                OncePoll::Pending
            },
        }
    }
}

/// What one poll of a `SignalStreamSelf` yielded.
#[derive(Debug, PartialEq, Eq)]
pub enum SelfPoll {
    /// The resolved target — none if it has been destroyed — and the
    /// oldest buffered argument tuple.
    Item(Option<u64>, ArgumentTuple),
    /// The channel is closed and drained.
    Ended,
    /// No tuple is buffered yet, but the channel is still open.
    Pending,
}

/// A stream that resolves the non-owning target reference alongside each
/// tuple, for consumers that need the object itself without separately
/// tracking its lifetime.
pub struct SignalStreamSelf {
    /// The underlying stream.
    pub inner: SignalStream,
}

impl SignalStreamSelf {
    /// Polls the underlying stream and resolves the target: the instance
    /// id if the target is still alive, none if it has been destroyed.
    pub fn poll_next(&mut self, bus: &Dispatcher) -> (r: SelfPoll)
        ensures
            final(self).inner.target == old(self).inner.target,
            final(self).inner.handle == old(self).inner.handle,
            old(self).inner.terminated ==> r == SelfPoll::Ended && final(self).inner.terminated,
            !old(self).inner.terminated && queue_view(&old(self).inner.queue).len() > 0 ==> (
            r matches SelfPoll::Item(t, a) && a@ == queue_view(&old(self).inner.queue)[0] && t == (
            if bus.alive(old(self).inner.target.id) {
                Some(old(self).inner.target.id)
            } else {
                None::<u64>
            })) && queue_view(&final(self).inner.queue) == queue_view(
                &old(self).inner.queue,
            ).drop_first(),
            !old(self).inner.terminated && queue_view(&old(self).inner.queue).len() == 0
                && queue_open(&old(self).inner.queue) ==> r == SelfPoll::Pending && queue_view(
                &final(self).inner.queue,
            ) == queue_view(&old(self).inner.queue),
            !old(self).inner.terminated && queue_view(&old(self).inner.queue).len() == 0
                && !queue_open(&old(self).inner.queue) ==> r == SelfPoll::Ended && final(self).inner.terminated,
    {
        match self.inner.poll_next() {
            StreamPoll::Item(args) => {
                let target = bus.upgrade(self.inner.target());
                SelfPoll::Item(target, args)
            },
            StreamPoll::Ended => SelfPoll::Ended,
            StreamPoll::Pending => SelfPoll::Pending,
        }
    }

    /// Whether a poll has already observed the end of the channel.
    pub fn is_terminated(&self) -> (b: bool)
        ensures
            b == self.inner.terminated,
    {
        self.inner.is_terminated()
    }

    /// The underlying stream back out.
    pub fn into_inner(self) -> (r: SignalStream)
        ensures
            r == self.inner,
    {
        self.inner
    }
}

} // verus!
