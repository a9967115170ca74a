use vstd::prelude::*;

use crate::oscillator::AMPLITUDE;
use crate::queue::{producer_capacity, SampleProducer, SampleQueue};
use crate::sequencer::Sequencer;

verus! {

/// Every voice after one update at `elapsed`.
pub open spec fn voices_updated(voices: Seq<Sequencer>, elapsed: u64) -> Seq<Sequencer> {
    voices.map_values(|s: Sequencer| s.updated(elapsed))
}

/// Sum of the voices' last samples.
pub open spec fn signal_sum(voices: Seq<Sequencer>) -> int
    decreases voices.len(),
{
    if voices.len() == 0 {
        0
    } else {
        signal_sum(voices.drop_last()) + voices.last().signal
    }
}

/// `sum / n`, rounded toward zero.
pub open spec fn mean(sum: int, n: int) -> int {
    if sum >= 0 {
        sum / n
    } else {
        -((-sum) / n)
    }
}

/// The mixed sample of one update of every voice at `elapsed`: the mean of
/// their outputs.
pub open spec fn mixed(voices: Seq<Sequencer>, elapsed: u64) -> int {
    mean(signal_sum(voices_updated(voices, elapsed)), voices.len() as int)
}

pub open spec fn all_wf(voices: Seq<Sequencer>) -> bool {
    forall|i: int| 0 <= i < voices.len() ==> #[trigger] voices[i].wf()
}

/// The voices after `n` rounds of mixing at `elapsed`.
pub open spec fn voices_after(voices: Seq<Sequencer>, elapsed: u64, n: nat) -> Seq<Sequencer>
    decreases n,
{
    if n == 0 {
        voices
    } else {
        voices_updated(voices_after(voices, elapsed, (n - 1) as nat), elapsed)
    }
}

/// The samples of `n` rounds of mixing at `elapsed`, in order.
pub open spec fn mix_rounds(voices: Seq<Sequencer>, elapsed: u64, n: nat) -> Seq<i32>
    decreases n,
{
    if n == 0 {
        Seq::empty()
    } else {
        let m = (n - 1) as nat;
        mix_rounds(voices, elapsed, m).push(mixed(voices_after(voices, elapsed, m), elapsed) as i32)
    }
}

/// Updates every voice once at `elapsed` and returns the mean of their samples.
pub fn mix(voices: &mut Vec<Sequencer>, elapsed: u64) -> (r: i32)
    requires
        0 < old(voices)@.len() <= u32::MAX,
        all_wf(old(voices)@),
    ensures
        final(voices)@ == voices_updated(old(voices)@, elapsed),
        all_wf(final(voices)@),
        r == mixed(old(voices)@, elapsed),
        -AMPLITUDE <= r <= AMPLITUDE,
{
    let n = voices.len();
    let mut sum: i64 = 0;
    let mut i: usize = 0;
    while i < n
        invariant
            n == voices@.len(),
            n == old(voices)@.len(),
            n <= u32::MAX,
            0 <= i <= n,
            all_wf(old(voices)@),
            all_wf(voices@),
            forall|j: int| 0 <= j < i ==> #[trigger] voices@[j] == old(voices)@[j].updated(elapsed),
            forall|j: int| i <= j < n ==> #[trigger] voices@[j] == old(voices)@[j],
            sum == signal_sum(voices@.subrange(0, i as int)),
            -(AMPLITUDE as int) * (i as int) <= sum <= (AMPLITUDE as int) * (i as int),
        decreases n - i,
    {
        let ghost before = voices@;
        let v = voices[i].update(elapsed);
        assert(-0x1_0000_0000_0000 <= sum <= 0x1_0000_0000_0000) by (nonlinear_arith)
            requires
                -(AMPLITUDE as int) * (i as int) <= sum <= (AMPLITUDE as int) * (i as int),
                i < n,
                n <= u32::MAX,
        ;
        proof {
            assert(voices@.subrange(0, i as int + 1).drop_last() =~= before.subrange(0, i as int));
            assert(voices@.subrange(0, i as int) =~= before.subrange(0, i as int));
        }
        assert((AMPLITUDE as int) * (i as int) + AMPLITUDE == (AMPLITUDE as int) * (i as int + 1)
            && -(AMPLITUDE as int) * (i as int) - AMPLITUDE == -(AMPLITUDE as int) * (i as int + 1))
            by (nonlinear_arith)
            requires
                i < n,
                n <= u32::MAX,
        ;
        sum = sum + v as i64;
        i = i + 1;
    }
    proof {
        assert(voices@.subrange(0, n as int) =~= voices@);
        assert(voices@ =~= voices_updated(old(voices)@, elapsed));
    }
    let magnitude: i64 = if sum >= 0 { sum } else { -sum };
    let q: i64 = magnitude / (n as i64);
    assert(q <= AMPLITUDE) by (nonlinear_arith)
        requires
            q == (magnitude as int) / (n as int),
            0 <= magnitude <= (AMPLITUDE as int) * (n as int),
            n > 0,
    ;
    if sum >= 0 {
        q as i32
    } else {
        -(q as i32)
    }
}

/// Fills the queue to capacity with mixed samples at `elapsed`; returns how many
/// were pushed.
pub fn fill_queue(queue: &mut SampleQueue, voices: &mut Vec<Sequencer>, elapsed: u64) -> (r:
    usize)
    requires
        old(queue).wf(),
        0 < old(voices)@.len() <= u32::MAX,
        all_wf(old(voices)@),
    ensures
        r == old(queue).capacity_spec() - old(queue)@.len(),
        final(queue).capacity_spec() == old(queue).capacity_spec(),
        final(queue)@ == old(queue)@ + mix_rounds(old(voices)@, elapsed, r as nat),
        final(queue).is_full_spec(),
        final(voices)@ == voices_after(old(voices)@, elapsed, r as nat),
        final(voices)@.len() == old(voices)@.len(),
        all_wf(final(voices)@),
{
    let mut pushed: usize = 0;
    let capacity = queue.capacity();
    while !queue.is_full()
        invariant
            queue.wf(),
            capacity == queue.capacity_spec(),
            0 < old(voices)@.len() <= u32::MAX,
            queue.capacity_spec() == old(queue).capacity_spec(),
            pushed == queue@.len() - old(queue)@.len(),
            queue@ == old(queue)@ + mix_rounds(old(voices)@, elapsed, pushed as nat),
            voices@ == voices_after(old(voices)@, elapsed, pushed as nat),
            voices@.len() == old(voices)@.len(),
            all_wf(voices@),
        decreases queue.capacity_spec() - queue@.len(),
    {
        let x = mix(voices, elapsed);
        let ok = queue.push(x);
        assert(ok);
        pushed = pushed + 1;
        proof {
            assert(queue@ =~= old(queue)@ + mix_rounds(old(voices)@, elapsed, pushed as nat));
        }
    }
    pushed
}

/// Tops up a queue shared with a consumer thread: mixes a sample at `elapsed`
/// and pushes it while the queue reports room, at most one capacity's worth per
/// call. Returns how many samples were mixed; the voices have advanced by that
/// many rounds. A sample the queue refused ends the call.
pub fn top_up(producer: &mut SampleProducer, voices: &mut Vec<Sequencer>, elapsed: u64) -> (r:
    usize)
    requires
        0 < old(voices)@.len() <= u32::MAX,
        all_wf(old(voices)@),
    ensures
        r <= producer_capacity(*old(producer)),
        producer_capacity(*final(producer)) == producer_capacity(*old(producer)),
        final(voices)@ == voices_after(old(voices)@, elapsed, r as nat),
        final(voices)@.len() == old(voices)@.len(),
        all_wf(final(voices)@),
{
    let capacity = producer.capacity();
    let mut mixed_count: usize = 0;
    while mixed_count < capacity && !producer.is_full()
        invariant
            capacity == producer_capacity(*old(producer)),
            producer_capacity(*producer) == producer_capacity(*old(producer)),
            mixed_count <= capacity,
            0 < old(voices)@.len() <= u32::MAX,
            voices@ == voices_after(old(voices)@, elapsed, mixed_count as nat),
            voices@.len() == old(voices)@.len(),
            all_wf(voices@),
        decreases capacity - mixed_count,
    {
        let x = mix(voices, elapsed);
        mixed_count = mixed_count + 1;
        if !producer.push(x) {
            break;
        }
    }
    mixed_count
}

} // verus!
