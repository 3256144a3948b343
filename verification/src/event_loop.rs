//! The reactor: it keeps the state of every stream that was created against
//! it, takes the announcements of the devices, and hands out and takes back
//! the buffers.

use vstd::prelude::*;
use crate::buffer::{Buffer, UnknownTypeBuffer};
use crate::format::SampleFormat;
use crate::protocol::{
    StreamEvent, StreamOp, StreamState, lemma_delivery_within_capacity, lemma_fresh_is_wf,
    lemma_run_then_step, lemma_step_keeps_wf,
};

verus! {

/// What a device tells the reactor: the stream `stream` can take `frames`
/// frames now.
#[derive(Debug, Clone, Copy, PartialEq, Eq, Structural)]
pub struct Notification {
    pub stream: usize,
    pub frames: usize,
}

/// The answer of a stream that was asked for its next item.
pub enum Poll<T> {
    /// The item is there.
    Ready(T),
    /// There is no item now. The stream has noted that its consumer waits.
    NotReady,
}

/// The state of one stream in machine numbers.
#[derive(Clone, Copy)]
struct Slot {
    data_type: SampleFormat,
    channels: usize,
    max_frames: usize,
    pending: usize,
    delivered: u64,
    committed: u64,
    waiting: bool,
}

impl View for Slot {
    type V = StreamState;

    closed spec fn view(&self) -> StreamState {
        StreamState {
            data_type: self.data_type,
            channels: self.channels as nat,
            max_frames: self.max_frames as nat,
            pending: self.pending as nat,
            delivered: self.delivered as nat,
            committed: self.committed as nat,
            waiting: self.waiting,
        }
    }
}

impl Slot {
    fn announce(self, frames: usize) -> (next: Slot)
        ensures
            next@ == self@.step(StreamOp::Announce(frames as nat)),
    {
        let pending = if frames <= self.max_frames {
            frames
        } else {
            self.max_frames
        };
        Slot { pending, ..self }
    }

    fn is_deliverable(self) -> (deliverable: bool)
        ensures
            deliverable == self@.deliverable(),
    {
        self.pending > 0 && self.delivered <= self.committed && self.delivered < u64::MAX
    }

    fn is_exhausted(self) -> (exhausted: bool)
        ensures
            exhausted == self@.exhausted(),
    {
        self.delivered >= u64::MAX && self.delivered <= self.committed
    }

    fn wake(self) -> (next: Slot)
        ensures
            next@ == self@.step(StreamOp::Wake),
    {
        if self.waiting && self.is_deliverable() {
            Slot { waiting: false, ..self }
        } else {
            self
        }
    }
}

/// The streams after the devices' announcements, taken in order. One for a
/// stream that the reactor does not hold is passed over.
pub open spec fn announced(streams: Seq<StreamState>, notifications: Seq<Notification>) -> Seq<
    StreamState,
>
    decreases notifications.len(),
{
    if notifications.len() == 0 {
        streams
    } else {
        let before = announced(streams, notifications.drop_last());
        let last = notifications.last();
        if last.stream < before.len() {
            before.update(
                last.stream as int,
                before[last.stream as int].step(StreamOp::Announce(last.frames as nat)),
            )
        } else {
            before
        }
    }
}

/// The numbers of the streams among the first `n` whose consumer waits and
/// can have a buffer, in rising order.
pub open spec fn due_among(streams: Seq<StreamState>, n: nat) -> Seq<usize>
    decreases n,
{
    if n == 0 {
        Seq::empty()
    } else if streams[n - 1].due() {
        due_among(streams, (n - 1) as nat).push((n - 1) as usize)
    } else {
        due_among(streams, (n - 1) as nat)
    }
}

/// The streams after the reactor has woken every consumer that is due.
pub open spec fn woken(streams: Seq<StreamState>) -> Seq<StreamState> {
    streams.map_values(|s: StreamState| s.step(StreamOp::Wake))
}

/// Drives the streams of the voices that were created against it.
pub struct EventLoop {
    slots: Vec<Slot>,
}

impl View for EventLoop {
    type V = Seq<StreamState>;

    /// The states of the streams, each at the place of its number.
    closed spec fn view(&self) -> Seq<StreamState> {
        self.slots@.map_values(|slot: Slot| slot@)
    }
}

/// A handle to the fill requests of one voice.
pub struct SamplesStream {
    id: usize,
}

impl View for SamplesStream {
    type V = nat;

    /// The number of the stream in its reactor.
    closed spec fn view(&self) -> nat {
        self.id as nat
    }
}

impl EventLoop {
    /// Every stream of the reactor is in a state that a stream can reach.
    #[verifier::type_invariant]
    pub open spec fn wf(&self) -> bool {
        forall|i: int| 0 <= i < self@.len() ==> (#[trigger] self@[i]).wf()
    }

    /// A reactor without streams.
    pub fn new() -> (event_loop: EventLoop)
        ensures
            event_loop.wf(),
            event_loop@.len() == 0,
    {
        EventLoop { slots: Vec::new() }
    }

    /// Number of streams that were created against the reactor.
    pub fn streams(&self) -> (count: usize)
        ensures
            count == self@.len(),
    {
        self.slots.len()
    }

    /// Adds a stream for samples of `data_type` in frames of `channels`
    /// samples, on a device that takes at most `device_frames` frames at
    /// once.
    pub(crate) fn register(
        &mut self,
        data_type: SampleFormat,
        channels: usize,
        device_frames: usize,
    ) -> (stream: SamplesStream)
        requires
            channels >= 1,
        ensures
            final(self).wf(),
            final(self)@ == old(self)@.push(
                StreamState::fresh(data_type, channels as nat, device_frames as nat),
            ),
            stream@ == old(self)@.len(),
    {
        let fitting = usize::MAX / channels;
        let max_frames = if device_frames > fitting {
            fitting
        } else {
            device_frames
        };
        let slot = Slot {
            data_type,
            channels,
            max_frames,
            pending: 0,
            delivered: 0,
            committed: 0,
            waiting: false,
        };
        let id = self.slots.len();
        proof {
            lemma_fresh_is_wf(data_type, channels as nat, device_frames as nat);
            assert(slot@ == StreamState::fresh(data_type, channels as nat, device_frames as nat));
        }
        proof {
            use_type_invariant(&*self);
        }
        let mut slots: Vec<Slot> = Vec::new();
        std::mem::swap(&mut slots, &mut self.slots);
        slots.push(slot);
        assert(slots@.map_values(|slot: Slot| slot@) == old(self)@.push(slot@));
        self.slots = slots;
        SamplesStream { id }
    }

    /// Puts `slot` at place `id`.
    fn store(&mut self, id: usize, slot: Slot)
        requires
            id < old(self)@.len(),
            slot@.wf(),
        ensures
            final(self).wf(),
            final(self)@ == old(self)@.update(id as int, slot@),
    {
        proof {
            use_type_invariant(&*self);
        }
        let mut slots: Vec<Slot> = Vec::new();
        std::mem::swap(&mut slots, &mut self.slots);
        slots.set(id, slot);
        assert(slots@.map_values(|slot: Slot| slot@) == old(self)@.update(id as int, slot@));
        self.slots = slots;
    }

    /// One turn of the reactor. Takes what the devices announced since the
    /// last turn, in order, and returns the numbers of the streams whose
    /// consumer waits and can now have a buffer, in rising order: those are
    /// to be woken, and no longer count as waiting.
    pub fn run(&mut self, notifications: &[Notification]) -> (wake: Vec<usize>)
        ensures
            final(self).wf(),
            final(self)@ == woken(announced(old(self)@, notifications@)),
            wake@ == due_among(
                announced(old(self)@, notifications@),
                old(self)@.len(),
            ),
    {
        proof {
            use_type_invariant(&*self);
        }
        let count = self.slots.len();
        let mut i: usize = 0;
        while i < notifications.len()
            invariant
                i <= notifications.len(),
                self.wf(),
                self@.len() == count,
                self@ == announced(old(self)@, notifications@.take(i as int)),
            decreases notifications.len() - i,
        {
            let notification = notifications[i];
            assert(notifications@.take(i + 1).drop_last() == notifications@.take(i as int));
            if notification.stream < count {
                let slot = self.slots[notification.stream];
                proof {
                    assert(slot@ == self@[notification.stream as int]);
                    lemma_step_keeps_wf(slot@, StreamOp::Announce(notification.frames as nat));
                }
                self.store(notification.stream, slot.announce(notification.frames));
            }
            i += 1;
        }
        assert(notifications@.take(i as int) == notifications@);
        let ghost heard = self@;
        let mut wake: Vec<usize> = Vec::new();
        let mut j: usize = 0;
        while j < count
            invariant
                j <= count,
                count == heard.len(),
                self.wf(),
                self@.len() == count,
                forall|k: int| 0 <= k < j ==> self@[k] == heard[k].step(StreamOp::Wake),
                forall|k: int| j <= k < count ==> self@[k] == heard[k],
                wake@ == due_among(heard, j as nat),
            decreases count - j,
        {
            let slot = self.slots[j];
            proof {
                assert(slot@ == self@[j as int]);
                lemma_step_keeps_wf(slot@, StreamOp::Wake);
            }
            if slot.waiting && slot.is_deliverable() {
                wake.push(j);
            }
            self.store(j, slot.wake());
            j += 1;
        }
        assert(self@ == woken(heard));
        wake
    }
}

impl SamplesStream {
    /// The number of the stream in its reactor: announcements for the stream
    /// carry it.
    pub fn id(&self) -> (id: usize)
        ensures
            id == self@,
    {
        self.id
    }

    /// The number of samples of the largest buffer that the stream hands
    /// out, or 0 if `event_loop` does not hold the stream.
    pub fn capacity(&self, event_loop: &EventLoop) -> (samples: usize)
        ensures
            self@ < event_loop@.len() ==> samples == event_loop@[self@ as int].capacity(),
            self@ >= event_loop@.len() ==> samples == 0,
    {
        proof {
            use_type_invariant(event_loop);
        }
        if self.id < event_loop.slots.len() {
            let slot = event_loop.slots[self.id];
            assert(slot@ == event_loop@[self@ as int]);
            slot.max_frames * slot.channels
        } else {
            0
        }
    }

    /// Asks for the next buffer of the stream.
    ///
    /// A buffer is handed out when the device has announced frames and the
    /// buffer before has been finished. It holds one sample for each channel
    /// of each frame, all zero, and carries the number of its fill cycle.
    /// Otherwise the stream notes that its consumer waits, unless it has
    /// ended: then, and for a stream that `event_loop` does not hold, the
    /// answer is `Ready(None)`.
    pub fn poll(&mut self, event_loop: &mut EventLoop) -> (item: Poll<Option<UnknownTypeBuffer>>)
        ensures
            final(self)@ == old(self)@,
            final(event_loop).wf(),
            old(self)@ >= old(event_loop)@.len() ==> item == Poll::Ready(
                None::<UnknownTypeBuffer>,
            ) && final(event_loop)@ == old(event_loop)@,
            old(self)@ < old(event_loop)@.len() ==> ({
                let state = old(event_loop)@[old(self)@ as int];
                &&& final(event_loop)@ == old(event_loop)@.update(
                    old(self)@ as int,
                    state.step(StreamOp::Poll),
                )
                &&& state.deliverable() ==> (item matches Poll::Ready(Some(buffer))
                    && buffer.spec_stream() == old(self)@ && buffer.spec_cycle()
                    == state.delivered && buffer.spec_data_type() == state.data_type
                    && buffer.spec_len() == state.pending * state.channels && 0
                    < buffer.spec_len() <= state.capacity() && buffer.is_zeroed())
                &&& !state.deliverable() && state.exhausted() ==> item == Poll::Ready(
                    None::<UnknownTypeBuffer>,
                )
                &&& !state.deliverable() && !state.exhausted() ==> item is NotReady
            }),
    {
        proof {
            use_type_invariant(&*event_loop);
        }
        let id = self.id;
        if id >= event_loop.slots.len() {
            return Poll::Ready(None);
        }
        let slot = event_loop.slots[id];
        proof {
            lemma_step_keeps_wf(slot@, StreamOp::Poll);
        }
        if slot.is_deliverable() {
            proof {
                lemma_delivery_within_capacity(slot@);
            }
            let len = slot.pending * slot.channels;
            let buffer = match slot.data_type {
                SampleFormat::U16 => UnknownTypeBuffer::U16(
                    Buffer::new(id, slot.delivered, len, 0u16),
                ),
                SampleFormat::I16 => UnknownTypeBuffer::I16(
                    Buffer::new(id, slot.delivered, len, 0i16),
                ),
                SampleFormat::F32 => UnknownTypeBuffer::F32(
                    Buffer::new(id, slot.delivered, len, 0u32),
                ),
            };
            event_loop.store(
                id,
                Slot { pending: 0, delivered: slot.delivered + 1, waiting: false, ..slot },
            );
            Poll::Ready(Some(buffer))
        } else if slot.is_exhausted() {
            assert(event_loop@ == event_loop@.update(id as int, slot@));
            Poll::Ready(None)
        } else {
            event_loop.store(id, Slot { waiting: true, ..slot });
            Poll::NotReady
        }
    }

    /// Notes that the consumer of the stream waits, without asking for a
    /// buffer. Without effect on a reactor that does not hold the stream.
    pub fn schedule(&mut self, event_loop: &mut EventLoop)
        ensures
            final(self)@ == old(self)@,
            final(event_loop).wf(),
            old(self)@ >= old(event_loop)@.len() ==> final(event_loop)@ == old(event_loop)@,
            old(self)@ < old(event_loop)@.len() ==> final(event_loop)@ == old(event_loop)@.update(
                old(self)@ as int,
                old(event_loop)@[old(self)@ as int].step(StreamOp::Schedule),
            ),
    {
        proof {
            use_type_invariant(&*event_loop);
        }
        let id = self.id;
        if id < event_loop.slots.len() {
            let slot = event_loop.slots[id];
            proof {
                lemma_step_keeps_wf(slot@, StreamOp::Schedule);
            }
            event_loop.store(id, Slot { waiting: true, ..slot });
        }
    }
}

impl<T: Copy> Buffer<T> {
    /// Lets go of the buffer: its fill cycle is over, and the samples are
    /// returned for the device, as they were written.
    ///
    /// This is the one and only commit of the buffer, and the stream hands
    /// out no other buffer before it. A buffer that is not the one that
    /// `event_loop` waits for on that stream is thrown away: the answer is
    /// `None` and nothing changes.
    pub fn finish(self, event_loop: &mut EventLoop) -> (committed: Option<Vec<T>>)
        ensures
            final(event_loop).wf(),
            self@.stream >= old(event_loop)@.len() ==> committed is None && final(event_loop)@
                == old(event_loop)@,
            self@.stream < old(event_loop)@.len() ==> ({
                let state = old(event_loop)@[self@.stream as int];
                let op = StreamOp::Finish(self@.cycle);
                &&& final(event_loop)@ == old(event_loop)@.update(
                    self@.stream as int,
                    state.step(op),
                )
                &&& state.emits(op) is Some ==> committed is Some && committed->0@
                    == self@.samples
                &&& state.emits(op) is None ==> committed is None
            }),
    {
        proof {
            use_type_invariant(&*event_loop);
        }
        let (id, cycle, samples) = self.into_parts();
        if id >= event_loop.slots.len() {
            return None;
        }
        let slot = event_loop.slots[id];
        proof {
            lemma_step_keeps_wf(slot@, StreamOp::Finish(cycle as nat));
        }
        if slot.delivered > slot.committed && cycle == slot.committed {
            event_loop.store(id, Slot { committed: slot.committed + 1, ..slot });
            Some(samples)
        } else {
            assert(event_loop@ == event_loop@.update(id as int, slot@));
            None
        }
    }
}


/// What one turn of the reactor does to the stream with number `stream`:
/// the announcements for it, in order, and then the waking.
pub open spec fn turn_ops(notifications: Seq<Notification>, stream: nat) -> Seq<StreamOp> {
    announcements_for(notifications, stream).push(StreamOp::Wake)
}

/// The announcements among `notifications` that are for the stream with
/// number `stream`, in order.
pub open spec fn announcements_for(notifications: Seq<Notification>, stream: nat) -> Seq<StreamOp>
    decreases notifications.len(),
{
    if notifications.len() == 0 {
        Seq::empty()
    } else if notifications.last().stream == stream {
        announcements_for(notifications.drop_last(), stream).push(
            StreamOp::Announce(notifications.last().frames as nat),
        )
    } else {
        announcements_for(notifications.drop_last(), stream)
    }
}

proof fn lemma_announced_is_steps(
    streams: Seq<StreamState>,
    notifications: Seq<Notification>,
    stream: nat,
)
    requires
        stream < streams.len(),
    ensures
        announced(streams, notifications).len() == streams.len(),
        announced(streams, notifications)[stream as int] == streams[stream as int].run(
            announcements_for(notifications, stream),
        ),
        streams[stream as int].events(announcements_for(notifications, stream))
            == Seq::<StreamEvent>::empty(),
    decreases notifications.len(),
{
    if notifications.len() > 0 {
        let earlier = notifications.drop_last();
        let last = notifications.last();
        lemma_announced_is_steps(streams, earlier, stream);
        if last.stream == stream {
            lemma_run_then_step(
                streams[stream as int],
                announcements_for(earlier, stream),
                StreamOp::Announce(last.frames as nat),
            );
        }
    }
}

/// A turn of the reactor keeps the streams it has, takes each of them
/// through steps of the fill protocol: the announcements for it and a
/// waking, and neither hands out nor commits a buffer.
pub proof fn lemma_turn_is_steps(
    streams: Seq<StreamState>,
    notifications: Seq<Notification>,
    stream: nat,
)
    requires
        stream < streams.len(),
    ensures
        woken(announced(streams, notifications)).len() == streams.len(),
        woken(announced(streams, notifications))[stream as int] == streams[stream as int].run(
            turn_ops(notifications, stream),
        ),
        streams[stream as int].events(turn_ops(notifications, stream))
            == Seq::<StreamEvent>::empty(),
{
    lemma_announced_is_steps(streams, notifications, stream);
    lemma_run_then_step(
        streams[stream as int],
        announcements_for(notifications, stream),
        StreamOp::Wake,
    );
}

/// The streams that a turn of the reactor wakes are those whose consumer
/// waits and can have a buffer once the announcements are taken, each
/// named once.
pub proof fn lemma_due_among(streams: Seq<StreamState>, n: nat, stream: usize)
    requires
        n <= streams.len() <= usize::MAX,
    ensures
        due_among(streams, n).contains(stream) <==> stream < n && streams[stream as int].due(),
        forall|i: int, j: int|
            0 <= i < j < due_among(streams, n).len() ==> due_among(streams, n)[i] < due_among(
                streams,
                n,
            )[j],
        forall|i: int| 0 <= i < due_among(streams, n).len() ==> due_among(streams, n)[i] < n,
    decreases n,
{
    if n > 0 {
        let before = due_among(streams, (n - 1) as nat);
        lemma_due_among(streams, (n - 1) as nat, stream);
        if streams[n - 1].due() {
            let all = before.push((n - 1) as usize);
            assert(all[before.len() as int] == (n - 1) as usize);
            if before.contains(stream) {
                let i = choose|i: int| 0 <= i < before.len() && before[i] == stream;
                assert(all[i] == stream);
            }
            if all.contains(stream) {
                let i = choose|i: int| 0 <= i < all.len() && all[i] == stream;
                if i < before.len() {
                    assert(before[i] == stream);
                }
            }
        }
    }
}

} // verus!
