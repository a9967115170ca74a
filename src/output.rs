use vstd::prelude::*;

use crate::clock::AudioClock;
use crate::queue::{SampleConsumer, SampleQueue};

verus! {

/// What the output side remembers between frames.
#[derive(Clone, Copy, Debug, PartialEq, Eq, Structural)]
pub struct OutputState {
    /// The last sample taken from the queue; silence before the first one.
    pub last: i32,
    /// Number of frames for which the queue had nothing.
    pub underruns: u64,
}

/// `a + b`, held at `u64::MAX`.
pub open spec fn saturating_sum(a: int, b: int) -> int {
    if a + b > u64::MAX {
        u64::MAX as int
    } else {
        a + b
    }
}

/// The sample emitted for frame `f` of a callback that found `items` queued
/// and `last` remembered: the frame's own sample while the queue lasts, then
/// the last sample taken, or `last` if none was.
pub open spec fn frame_output(items: Seq<i32>, last: i32, f: int) -> i32 {
    if f < items.len() {
        items[f]
    } else if items.len() > 0 {
        items.last()
    } else {
        last
    }
}

/// Number of samples a callback of `frames` frames takes from `items`.
pub open spec fn taken(items: Seq<i32>, frames: int) -> int {
    if frames < items.len() {
        frames
    } else {
        items.len() as int
    }
}

/// Position of channel `c` of frame `f` in an interleaved buffer.
pub open spec fn slot(f: int, c: int, channels: int) -> int {
    f * channels + c
}

/// How one callback of `len / channels` frames relates the state, the queued
/// samples and the buffer before it to those after it.
pub open spec fn rendered(
    state: OutputState,
    items: Seq<i32>,
    len: int,
    channels: int,
    state_after: OutputState,
    items_after: Seq<i32>,
    out: Seq<i32>,
) -> bool {
    let frames = len / channels;
    let k = taken(items, frames);
    &&& out.len() == len
    &&& forall|f: int, c: int|
        0 <= f < frames && 0 <= c < channels ==> #[trigger] out[slot(f, c, channels)]
            == frame_output(items, state.last, f)
    &&& items_after == items.skip(k)
    &&& state_after.last == (if k > 0 {
        items[k - 1]
    } else {
        state.last
    })
    &&& state_after.underruns == saturating_sum(state.underruns as int, frames - k)
}

/// The state after frames whose pops returned `popped`, in order.
pub open spec fn after_frames(state: OutputState, popped: Seq<Option<i32>>) -> OutputState
    decreases popped.len(),
{
    if popped.len() == 0 {
        state
    } else {
        after_frames(state, popped.drop_last()).after_frame(popped.last())
    }
}

/// What a callback writes into `out` when its pops returned `popped`: every
/// channel of frame `f` holds the sample remembered after that frame.
pub open spec fn rendered_from(
    state: OutputState,
    popped: Seq<Option<i32>>,
    channels: int,
    out: Seq<i32>,
) -> bool {
    forall|f: int, c: int|
        0 <= f < popped.len() && 0 <= c < channels ==> #[trigger] out[slot(f, c, channels)]
            == after_frames(state, popped.take(f + 1)).last
}

impl OutputState {
    /// Nothing emitted yet: silence remembered, no underrun.
    pub fn new() -> (r: OutputState)
        ensures
            r.last == 0,
            r.underruns == 0,
    {
        OutputState { last: 0, underruns: 0 }
    }

    /// The state after one frame whose pop returned `popped`.
    pub open spec fn after_frame(self, popped: Option<i32>) -> OutputState {
        match popped {
            Some(v) => OutputState { last: v, ..self },
            None => OutputState {
                underruns: saturating_sum(self.underruns as int, 1) as u64,
                ..self
            },
        }
    }

    /// The sample for one frame, given what the pop from the queue returned: the
    /// popped sample, or on underrun the last one (silence if there was none),
    /// counting the underrun.
    pub fn next_frame(&mut self, popped: Option<i32>) -> (r: i32)
        ensures
            *final(self) == old(self).after_frame(popped),
            r == final(self).last,
            popped matches Some(v) ==> r == v,
            popped is None ==> r == old(self).last,
    {
        match popped {
            Some(v) => {
                self.last = v;
            },
            None => {
                self.underruns = self.underruns.saturating_add(1);
            },
        }
        self.last
    }

    /// Fills an interleaved buffer of whole frames: one sample from the queue per
    /// frame, copied to every channel, with the clock advanced after each frame.
    pub fn render(
        &mut self,
        queue: &mut SampleQueue,
        clock: &AudioClock,
        out: &mut Vec<i32>,
        channels: usize,
    )
        requires
            channels > 0,
            (old(out)@.len() as int) % (channels as int) == 0,
        ensures
            rendered(*old(self), old(queue)@, old(out)@.len() as int, channels as int, *final(self), final(queue)@, final(out)@),
            final(queue).capacity_spec() == old(queue).capacity_spec(),
    {
        let ghost items = queue@;
        let ghost last0 = self.last;
        let ghost under0 = self.underruns;
        let total = out.len();
        let frames = total / channels;
        proof {
            assert(frames * channels == out@.len()) by (nonlinear_arith)
                requires
                    frames == (out@.len() as int) / (channels as int),
                    (out@.len() as int) % (channels as int) == 0,
                    channels > 0,
            ;
        }
        let mut f: usize = 0;
        while f < frames
            invariant
                channels > 0,
                frames * channels == out@.len(),
                total == out@.len(),
                frames == (old(out)@.len() as int) / (channels as int),
                out@.len() == old(out)@.len(),
                items == old(queue)@,
                last0 == old(self).last,
                under0 == old(self).underruns,
                0 <= f <= frames,
                queue@ == items.skip(taken(items, f as int)),
                queue.capacity_spec() == old(queue).capacity_spec(),
                self.last == (if taken(items, f as int) > 0 {
                    items[taken(items, f as int) - 1]
                } else {
                    last0
                }),
                self.underruns == saturating_sum(under0 as int, f - taken(items, f as int)),
                forall|g: int, c: int|
                    0 <= g < f && 0 <= c < channels ==> #[trigger] out@[slot(
                        g,
                        c,
                        channels as int,
                    )] == frame_output(items, last0, g),
            decreases frames - f,
        {
            let popped = queue.pop();
            let v = self.next_frame(popped);
            assert(v == frame_output(items, last0, f as int)) by {
                if (f as int) < items.len() {
                    assert(items.skip(f as int)[0] == items[f as int]);
                }
            }
            proof {
                assert(queue@ =~= items.skip(taken(items, f as int + 1)));
            }
            let mut c: usize = 0;
            while c < channels
                invariant
                    channels > 0,
                    frames * channels == out@.len(),
                    total == out@.len(),
                    0 <= f < frames,
                    0 <= c <= channels,
                    v == frame_output(items, last0, f as int),
                    forall|g: int, d: int|
                        0 <= g < f && 0 <= d < channels ==> #[trigger] out@[slot(
                            g,
                            d,
                            channels as int,
                        )] == frame_output(items, last0, g),
                    forall|d: int|
                        0 <= d < c ==> #[trigger] out@[slot(f as int, d, channels as int)] == v,
                decreases channels - c,
            {
                proof {
                    lemma_slot_in_frame(f as int, c as int, channels as int, frames as int);
                }
                let ghost before = out@;
                out.set(f * channels + c, v);
                proof {
                    assert forall|g: int, d: int|
                        0 <= g < f && 0 <= d < channels implies #[trigger] out@[slot(
                            g,
                            d,
                            channels as int,
                        )] == frame_output(items, last0, g) by {
                        lemma_slot_distinct(g, d, f as int, c as int, channels as int);
                        assert(before[slot(g, d, channels as int)] == frame_output(items, last0, g));
                    }
                    assert forall|d: int| 0 <= d < c + 1 implies #[trigger] out@[slot(
                        f as int,
                        d,
                        channels as int,
                    )] == v by {
                        if d < c {
                            lemma_slot_distinct_same_frame(f as int, d, c as int, channels as int);
                            assert(before[slot(f as int, d, channels as int)] == v);
                        }
                    }
                }
                c = c + 1;
            }
            clock.advance();
            f = f + 1;
        }
        proof {
            assert(taken(items, frames as int) == taken(items, (old(out)@.len() as int) / (channels as int)));
        }
    }
}

impl OutputState {
    /// Fills an interleaved buffer of whole frames from a queue that a producer
    /// thread fills concurrently: one pop per frame, its outcome copied to every
    /// channel as `next_frame` decides, with the clock advanced after each
    /// frame. Whatever the pops returned, the buffer and the state follow from
    /// them.
    pub fn render_from(
        &mut self,
        consumer: &mut SampleConsumer,
        clock: &AudioClock,
        out: &mut Vec<i32>,
        channels: usize,
    )
        requires
            channels > 0,
            (old(out)@.len() as int) % (channels as int) == 0,
        ensures
            final(out)@.len() == old(out)@.len(),
            exists|popped: Seq<Option<i32>>|
                popped.len() == (old(out)@.len() as int) / (channels as int) && *final(self)
                    == #[trigger] after_frames(*old(self), popped) && rendered_from(
                    *old(self),
                    popped,
                    channels as int,
                    final(out)@,
                ),
    {
        let ghost start = *self;
        let ghost mut popped: Seq<Option<i32>> = Seq::empty();
        let total = out.len();
        let frames = total / channels;
        proof {
            assert(frames * channels == out@.len()) by (nonlinear_arith)
                requires
                    frames == (out@.len() as int) / (channels as int),
                    (out@.len() as int) % (channels as int) == 0,
                    channels > 0,
            ;
        }
        let mut f: usize = 0;
        while f < frames
            invariant
                channels > 0,
                frames * channels == out@.len(),
                total == out@.len(),
                frames == (old(out)@.len() as int) / (channels as int),
                out@.len() == old(out)@.len(),
                start == *old(self),
                0 <= f <= frames,
                popped.len() == f,
                *self == after_frames(start, popped),
                rendered_from(start, popped, channels as int, out@),
            decreases frames - f,
        {
            let p = consumer.pop();
            let v = self.next_frame(p);
            proof {
                let next = popped.push(p);
                assert(next.drop_last() =~= popped);
                assert(next.take(f as int + 1) =~= next);
                assert forall|g: int| 0 <= g < f implies #[trigger] next.take(g + 1) == popped.take(g + 1) by {
                    assert(next.take(g + 1) =~= popped.take(g + 1));
                }
                popped = next;
            }
            let mut c: usize = 0;
            while c < channels
                invariant
                    channels > 0,
                    frames * channels == out@.len(),
                    total == out@.len(),
                    0 <= f < frames,
                    0 <= c <= channels,
                    popped.len() == f + 1,
                    v == after_frames(start, popped.take(f as int + 1)).last,
                    forall|g: int, d: int|
                        0 <= g < f && 0 <= d < channels ==> #[trigger] out@[slot(
                            g,
                            d,
                            channels as int,
                        )] == after_frames(start, popped.take(g + 1)).last,
                    forall|d: int|
                        0 <= d < c ==> #[trigger] out@[slot(f as int, d, channels as int)] == v,
                decreases channels - c,
            {
                proof {
                    lemma_slot_in_frame(f as int, c as int, channels as int, frames as int);
                }
                let ghost before = out@;
                out.set(f * channels + c, v);
                proof {
                    assert forall|g: int, d: int|
                        0 <= g < f && 0 <= d < channels implies #[trigger] out@[slot(
                            g,
                            d,
                            channels as int,
                        )] == after_frames(start, popped.take(g + 1)).last by {
                        lemma_slot_distinct(g, d, f as int, c as int, channels as int);
                        assert(before[slot(g, d, channels as int)] == after_frames(
                            start,
                            popped.take(g + 1),
                        ).last);
                    }
                    assert forall|d: int| 0 <= d < c + 1 implies #[trigger] out@[slot(
                        f as int,
                        d,
                        channels as int,
                    )] == v by {
                        if d < c {
                            lemma_slot_distinct_same_frame(f as int, d, c as int, channels as int);
                            assert(before[slot(f as int, d, channels as int)] == v);
                        }
                    }
                }
                c = c + 1;
            }
            clock.advance();
            f = f + 1;
        }
        proof {
            assert(popped.len() == (old(out)@.len() as int) / (channels as int));
            assert(*self == after_frames(*old(self), popped));
        }
    }
}

proof fn lemma_slot_in_frame(f: int, c: int, channels: int, frames: int)
    requires
        0 <= f < frames,
        0 <= c < channels,
    ensures
        0 <= slot(f, c, channels) < frames * channels,
        slot(f, c, channels) == f * channels + c,
{
    assert(0 <= f * channels + c < frames * channels) by (nonlinear_arith)
        requires
            0 <= f < frames,
            0 <= c < channels,
    ;
}

proof fn lemma_slot_distinct(g: int, d: int, f: int, c: int, channels: int)
    requires
        0 <= g < f,
        0 <= d < channels,
        0 <= c < channels,
    ensures
        slot(g, d, channels) < slot(f, c, channels),
{
    assert(g * channels + d < f * channels + c) by (nonlinear_arith)
        requires
            0 <= g < f,
            0 <= d < channels,
            0 <= c,
    ;
}

proof fn lemma_slot_distinct_same_frame(f: int, d: int, c: int, channels: int)
    requires
        d < c,
    ensures
        slot(f, d, channels) < slot(f, c, channels),
{
}

/// With nothing ever pushed, a callback emits only silence, leaves the queue
/// empty, and counts one underrun per frame.
pub proof fn lemma_underrun_is_silence(
    len: int,
    channels: int,
    state_after: OutputState,
    items_after: Seq<i32>,
    out: Seq<i32>,
)
    requires
        channels > 0,
        0 <= len <= u64::MAX,
        rendered(OutputState { last: 0, underruns: 0 }, Seq::empty(), len, channels, state_after, items_after, out),
    ensures
        forall|f: int, c: int|
            0 <= f < len / channels && 0 <= c < channels ==> #[trigger] out[slot(f, c, channels)] == 0,
        state_after.underruns == len / channels,
        state_after.last == 0,
        items_after.len() == 0,
{
    assert(0 <= len / channels <= len) by (nonlinear_arith)
        requires
            0 <= len,
            channels > 0,
    ;
}

/// A callback one frame longer than the queue plays every queued sample in
/// order, empties the queue, and counts exactly one underrun, for which it
/// repeats the last sample.
pub proof fn lemma_drain_then_one_underrun(
    state: OutputState,
    items: Seq<i32>,
    channels: int,
    state_after: OutputState,
    items_after: Seq<i32>,
    out: Seq<i32>,
)
    requires
        channels > 0,
        items.len() > 0,
        state.underruns < u64::MAX,
        rendered(state, items, (items.len() + 1) * channels, channels, state_after, items_after, out),
    ensures
        forall|f: int, c: int|
            0 <= f < items.len() && 0 <= c < channels ==> #[trigger] out[slot(f, c, channels)]
                == items[f],
        forall|c: int| 0 <= c < channels ==> #[trigger] out[slot(items.len() as int, c, channels)] == items.last(),
        items_after.len() == 0,
        state_after.underruns == state.underruns + 1,
        state_after.last == items.last(),
{
    let n = items.len() as int;
    assert(((n + 1) * channels) / channels == n + 1) by (nonlinear_arith)
        requires
            channels > 0,
            n >= 0,
    ;
    assert(items.skip(n).len() == 0);
}

} // verus!
