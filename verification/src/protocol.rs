//! The fill protocol of one stream, as a state machine over plain numbers.
//!
//! A device announces how many frames it can take; a poll hands out one
//! buffer for them; nothing more is handed out until that buffer has been
//! committed. The laws at the end of this file hold of every run of the
//! machine.

use vstd::prelude::*;
use crate::format::SampleFormat;

verus! {

/// The largest number of buffers that one stream hands out.
pub open spec fn cycle_limit() -> nat {
    u64::MAX as nat
}

/// The state of one stream.
pub ghost struct StreamState {
    /// The encoding of the samples of every buffer of the stream.
    pub data_type: SampleFormat,
    /// The number of samples in one frame.
    pub channels: nat,
    /// The largest number of frames of one buffer.
    pub max_frames: nat,
    /// The frames that the device announced and that no buffer was handed
    /// out for yet.
    pub pending: nat,
    /// The number of buffers handed out so far.
    pub delivered: nat,
    /// The number of buffers committed so far.
    pub committed: nat,
    /// Whether the consumer asked to be woken when a buffer can be had.
    pub waiting: bool,
}

/// What can happen to a stream.
pub ghost enum StreamOp {
    /// The device announces that it can take this many frames.
    Announce(nat),
    /// The consumer asks for the next buffer.
    Poll,
    /// The consumer asks to be woken.
    Schedule,
    /// The reactor wakes the consumer if it waits and a buffer can be had.
    Wake,
    /// The consumer lets go of a buffer that carries this cycle number.
    Finish(nat),
}

/// What a consumer or a device can observe of a step.
pub ghost enum StreamEvent {
    /// A buffer of `samples` samples was handed out for fill cycle `cycle`.
    Delivered { cycle: nat, samples: nat },
    /// The buffer of fill cycle `cycle` was committed to the device.
    Committed { cycle: nat },
}

impl StreamState {
    /// The state of a stream that has handed out nothing yet. The largest
    /// buffer holds as many whole frames as the device takes at once, and no
    /// more samples than a length can count.
    pub open spec fn fresh(data_type: SampleFormat, channels: nat, device_frames: nat)
        -> StreamState {
        StreamState {
            data_type,
            channels,
            max_frames: if channels > 0 && device_frames > usize::MAX as nat / channels {
                usize::MAX as nat / channels
            } else {
                device_frames
            },
            pending: 0,
            delivered: 0,
            committed: 0,
            waiting: false,
        }
    }

    /// What holds of every state that a stream can reach.
    pub open spec fn wf(self) -> bool {
        &&& self.channels >= 1
        &&& self.max_frames * self.channels <= usize::MAX
        &&& self.pending <= self.max_frames
        &&& self.committed <= self.delivered <= self.committed + 1
        &&& self.delivered <= cycle_limit()
    }

    /// Whether a buffer is in the hands of the consumer.
    pub open spec fn in_flight(self) -> bool {
        self.delivered > self.committed
    }

    /// The number of samples of the largest buffer of the stream.
    pub open spec fn capacity(self) -> nat {
        self.max_frames * self.channels
    }

    /// Whether the next poll hands out a buffer.
    pub open spec fn deliverable(self) -> bool {
        self.pending > 0 && !self.in_flight() && self.delivered < cycle_limit()
    }

    /// Whether the stream has ended: it has handed out and got back all the
    /// buffers it ever will.
    pub open spec fn exhausted(self) -> bool {
        self.delivered >= cycle_limit() && !self.in_flight()
    }

    /// Whether the reactor has to wake the consumer.
    pub open spec fn due(self) -> bool {
        self.waiting && self.deliverable()
    }

    /// The state after `op`.
    pub open spec fn step(self, op: StreamOp) -> StreamState {
        match op {
            StreamOp::Announce(frames) => StreamState {
                pending: if frames <= self.max_frames {
                    frames
                } else {
                    self.max_frames
                },
                ..self
            },
            StreamOp::Poll => if self.deliverable() {
                StreamState {
                    pending: 0,
                    delivered: self.delivered + 1,
                    waiting: false,
                    ..self
                }
            } else if self.exhausted() {
                self
            } else {
                StreamState { waiting: true, ..self }
            },
            StreamOp::Schedule => StreamState { waiting: true, ..self },
            StreamOp::Wake => if self.due() {
                StreamState { waiting: false, ..self }
            } else {
                self
            },
            StreamOp::Finish(cycle) => if self.in_flight() && cycle == self.committed {
                StreamState { committed: self.committed + 1, ..self }
            } else {
                self
            },
        }
    }

    /// What `op` lets the outside see, if anything.
    pub open spec fn emits(self, op: StreamOp) -> Option<StreamEvent> {
        match op {
            StreamOp::Poll => if self.deliverable() {
                Some(
                    StreamEvent::Delivered {
                        cycle: self.delivered,
                        samples: self.pending * self.channels,
                    },
                )
            } else {
                None
            },
            StreamOp::Finish(cycle) => if self.in_flight() && cycle == self.committed {
                Some(StreamEvent::Committed { cycle })
            } else {
                None
            },
            _ => None,
        }
    }

    /// The state after all of `ops`, the first one first.
    pub open spec fn run(self, ops: Seq<StreamOp>) -> StreamState
        decreases ops.len(),
    {
        if ops.len() == 0 {
            self
        } else {
            self.step(ops[0]).run(ops.skip(1))
        }
    }

    /// What `ops` let the outside see, in order.
    pub open spec fn events(self, ops: Seq<StreamOp>) -> Seq<StreamEvent>
        decreases ops.len(),
    {
        if ops.len() == 0 {
            Seq::empty()
        } else {
            let rest = self.step(ops[0]).events(ops.skip(1));
            match self.emits(ops[0]) {
                Some(event) => seq![event] + rest,
                None => rest,
            }
        }
    }

    /// The place of the `k`-th event from now on in the alternation of
    /// deliveries and commits: even places are deliveries, odd ones commits.
    pub open spec fn place(self, k: int) -> int {
        k + (self.delivered - self.committed)
    }
}

/// A new stream is in a state that a stream can reach.
pub proof fn lemma_fresh_is_wf(data_type: SampleFormat, channels: nat, device_frames: nat)
    requires
        channels >= 1,
        device_frames <= usize::MAX,
    ensures
        StreamState::fresh(data_type, channels, device_frames).wf(),
        StreamState::fresh(data_type, channels, device_frames).max_frames <= device_frames,
        !StreamState::fresh(data_type, channels, device_frames).in_flight(),
{
    let limit = usize::MAX as nat;
    let fresh = StreamState::fresh(data_type, channels, device_frames);
    assert(fresh.max_frames <= limit / channels);
    assert((limit / channels) * channels <= limit) by (nonlinear_arith)
        requires
            channels >= 1,
    ;
    assert(fresh.max_frames * channels <= (limit / channels) * channels) by (nonlinear_arith)
        requires
            fresh.max_frames <= limit / channels,
    ;
}

/// No step leads out of the states that a stream can reach, and none
/// changes what the stream was made with.
pub proof fn lemma_step_keeps_wf(s: StreamState, op: StreamOp)
    requires
        s.wf(),
    ensures
        s.step(op).wf(),
        s.step(op).data_type == s.data_type,
        s.step(op).channels == s.channels,
        s.step(op).max_frames == s.max_frames,
{
}

/// The same of any number of steps.
pub proof fn lemma_run_keeps_wf(s: StreamState, ops: Seq<StreamOp>)
    requires
        s.wf(),
    ensures
        s.run(ops).wf(),
        s.run(ops).data_type == s.data_type,
        s.run(ops).channels == s.channels,
        s.run(ops).max_frames == s.max_frames,
    decreases ops.len(),
{
    if ops.len() > 0 {
        lemma_step_keeps_wf(s, ops[0]);
        lemma_run_keeps_wf(s.step(ops[0]), ops.skip(1));
    }
}

/// A buffer that is handed out holds at least one whole frame, whole frames
/// only, and no more samples than the largest buffer of the stream.
pub proof fn lemma_delivery_within_capacity(s: StreamState)
    requires
        s.wf(),
        s.deliverable(),
    ensures
        0 < s.pending * s.channels <= s.capacity(),
        (s.pending * s.channels) % s.channels == 0,
{
    assert(0 < s.pending * s.channels <= s.max_frames * s.channels) by (nonlinear_arith)
        requires
            0 < s.pending <= s.max_frames,
            s.channels >= 1,
    ;
    assert((s.pending * s.channels) % s.channels == 0) by (nonlinear_arith)
        requires
            s.channels >= 1,
    ;
}

/// Whatever happens to a stream, what the outside sees of it is an
/// alternation of deliveries and commits. The `k`-th event is fixed by the
/// state at the start: at an even place a buffer is handed out, at an odd
/// place that same buffer is committed, and the cycle numbers count up by
/// one from delivery to delivery. Every buffer that is handed out is within
/// the capacity of the stream.
pub proof fn lemma_events_alternate(s: StreamState, ops: Seq<StreamOp>, k: int)
    requires
        s.wf(),
        0 <= k < s.events(ops).len(),
    ensures
        s.place(k) % 2 == 0 ==> (s.events(ops)[k] matches StreamEvent::Delivered { cycle, samples }
            && cycle == s.committed + s.place(k) / 2 && 0 < samples <= s.capacity() && samples
            % s.channels == 0),
        s.place(k) % 2 == 1 ==> s.events(ops)[k] == (StreamEvent::Committed {
            cycle: (s.committed + s.place(k) / 2) as nat,
        }),
    decreases ops.len(),
{
    let op = ops[0];
    let next = s.step(op);
    let rest = next.events(ops.skip(1));
    lemma_step_keeps_wf(s, op);
    match s.emits(op) {
        Some(event) => {
            assert(s.events(ops) == seq![event] + rest);
            if k == 0 {
                if op is Poll {
                    lemma_delivery_within_capacity(s);
                }
            } else {
                assert(s.events(ops)[k] == rest[k - 1]);
                lemma_events_alternate(next, ops.skip(1), k - 1);
                assert(next.capacity() == s.capacity());
            }
        },
        None => {
            assert(s.events(ops) == rest);
            lemma_events_alternate(next, ops.skip(1), k);
            assert(next.capacity() == s.capacity());
        },
    }
}

/// Exactly one commit per buffer, and none without one: a delivery is
/// followed by the commit of the buffer it handed out, before anything else
/// is handed out or committed; a commit is followed by the delivery of the
/// next fill cycle.
pub proof fn lemma_one_commit_per_delivery(s: StreamState, ops: Seq<StreamOp>, k: int)
    requires
        s.wf(),
        0 <= k,
        k + 1 < s.events(ops).len(),
    ensures
        s.events(ops)[k] matches StreamEvent::Delivered { cycle, .. } ==> s.events(ops)[k + 1] == (
        StreamEvent::Committed { cycle }),
        s.events(ops)[k] matches StreamEvent::Committed { cycle } ==> (s.events(ops)[k
            + 1] matches StreamEvent::Delivered { cycle: next, .. } && next == cycle + 1),
{
    lemma_events_alternate(s, ops, k);
    lemma_events_alternate(s, ops, k + 1);
}

/// The buffers of one stream reach the consumer in the order of their fill
/// cycles: of two deliveries the later one carries the larger cycle number.
pub proof fn lemma_cycles_increase(s: StreamState, ops: Seq<StreamOp>, i: int, j: int)
    requires
        s.wf(),
        0 <= i < j < s.events(ops).len(),
        s.events(ops)[i] is Delivered,
        s.events(ops)[j] is Delivered,
    ensures
        s.events(ops)[i]->Delivered_cycle < s.events(ops)[j]->Delivered_cycle,
{
    lemma_events_alternate(s, ops, i);
    lemma_events_alternate(s, ops, j);
}


/// Running a stream through `ops` and then `op` is running it through `ops`
/// with `op` at the end, and shows the outside what `ops` showed and then
/// what `op` shows.
pub proof fn lemma_run_then_step(s: StreamState, ops: Seq<StreamOp>, op: StreamOp)
    ensures
        s.run(ops.push(op)) == s.run(ops).step(op),
        s.events(ops.push(op)) == s.events(ops) + (match s.run(ops).emits(op) {
            Some(event) => seq![event],
            None => Seq::empty(),
        }),
    decreases ops.len(),
{
    let all = ops.push(op);
    let last = match s.run(ops).emits(op) {
        Some(event) => seq![event],
        None => Seq::empty(),
    };
    assert(s.run(all) == s.step(all[0]).run(all.skip(1)));
    if ops.len() == 0 {
        assert(all[0] == op);
        assert(all.skip(1) == Seq::<StreamOp>::empty());
        assert(s.step(op).run(all.skip(1)) == s.step(op));
        assert(s.run(ops) == s);
        assert(s.step(op).events(all.skip(1)) == Seq::<StreamEvent>::empty());
        assert(s.events(all) == last);
    } else {
        assert(all[0] == ops[0]);
        assert(all.skip(1) == ops.skip(1).push(op));
        lemma_run_then_step(s.step(ops[0]), ops.skip(1), op);
        let rest = s.step(ops[0]).events(ops.skip(1));
        assert(s.step(ops[0]).events(all.skip(1)) == rest + last);
        match s.emits(ops[0]) {
            Some(event) => {
                assert(seq![event] + (rest + last) == (seq![event] + rest) + last);
            },
            None => {},
        }
    }
}


/// A stream that has ended stays ended: whatever happens to it, it hands
/// out no buffer and takes none back.
pub proof fn lemma_exhausted_is_final(s: StreamState, ops: Seq<StreamOp>)
    requires
        s.wf(),
        s.exhausted(),
    ensures
        s.run(ops).exhausted(),
        s.events(ops) == Seq::<StreamEvent>::empty(),
    decreases ops.len(),
{
    if ops.len() > 0 {
        lemma_step_keeps_wf(s, ops[0]);
        lemma_exhausted_is_final(s.step(ops[0]), ops.skip(1));
    }
}

/// While a buffer is in the hands of the consumer, the stream hands out no
/// other, whatever the devices announce: the next thing that the outside
/// sees is the commit of that buffer.
pub proof fn lemma_one_buffer_in_flight(s: StreamState, ops: Seq<StreamOp>)
    requires
        s.wf(),
        s.in_flight(),
        s.events(ops).len() > 0,
    ensures
        s.events(ops)[0] == (StreamEvent::Committed { cycle: s.committed }),
{
    lemma_events_alternate(s, ops, 0);
}

} // verus!
