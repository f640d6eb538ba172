//! The watch loop's accounting.
//!
//! In watch mode the driver runs one iteration immediately, then one more
//! per debounced batch of filesystem changes: change events separated by no
//! more than the debounce window coalesce into a single batch, and each
//! batch triggers exactly one iteration. The pump here is the loop's
//! verified bookkeeping; the blocking receive on the notifier's channel is
//! the surrounding binary's.

use vstd::prelude::*;

use crate::options::Options;

verus! {

/// The number of debounced batches a sequence of event times produces: the
/// first event opens a batch, and every event that follows its predecessor
/// by more than the window opens another.
pub open spec fn batch_count(times: Seq<u64>, window: u64) -> int
    decreases times.len(),
{
    if times.len() == 0 {
        0
    } else if times.len() == 1 {
        1
    } else {
        batch_count(times.drop_last(), window) + (
        if times.last() - times[times.len() - 2] > window {
            1int
        } else {
            0int
        })
    }
}

/// Counts the debounced batches of an ascending sequence of event times.
pub fn count_batches(times: &Vec<u64>, window: u64) -> (r: usize)
    requires
        forall|i: int| 0 <= i < times@.len() - 1 ==> #[trigger] times@[i] <= times@[i + 1],
    ensures
        r == batch_count(times@, window),
{
    if times.len() == 0 {
        return 0;
    }
    let mut r: usize = 1;
    let mut i: usize = 1;
    proof {
        assert(times@.subrange(0, 1).len() == 1);
        assert(batch_count(times@.subrange(0, 1), window) == 1);
    }
    while i < times.len()
        invariant
            1 <= i <= times.len(),
            r <= i,
            r == batch_count(times@.subrange(0, i as int), window),
            forall|k: int| 0 <= k < times@.len() - 1 ==> #[trigger] times@[k] <= times@[k + 1],
        decreases times.len() - i,
    {
        let ghost prefix = times@.subrange(0, i as int);
        let ghost next = times@.subrange(0, i + 1);
        proof {
            assert(next.drop_last() =~= prefix);
            assert(next.last() == times@[i as int]);
            assert(next[next.len() - 2] == times@[i - 1]);
        }
        if times[i] - times[i - 1] > window {
            r += 1;
        }
        i += 1;
    }
    proof {
        assert(times@.subrange(0, times@.len() as int) =~= times@);
    }
    r
}

/// Consecutive change events within the debounce window coalesce: a
/// nonempty burst whose consecutive gaps all stay within the window forms
/// exactly one batch, so it triggers exactly one iteration.
pub proof fn lemma_burst_single_batch(times: Seq<u64>, window: u64)
    requires
        times.len() > 0,
        forall|i: int| 0 <= i < times.len() - 1 ==> #[trigger] times[i + 1] - times[i] <= window,
        forall|i: int| 0 <= i < times.len() - 1 ==> #[trigger] times[i] <= times[i + 1],
    ensures
        batch_count(times, window) == 1,
    decreases times.len(),
{
    if times.len() > 1 {
        let init = times.drop_last();
        assert(forall|i: int|
            0 <= i < init.len() - 1 ==> #[trigger] init[i + 1] - init[i] <= window);
        assert(forall|i: int| 0 <= i < init.len() - 1 ==> #[trigger] init[i] <= init[i + 1]);
        lemma_burst_single_batch(init, window);
        assert(times[times.len() - 1] - times[times.len() - 2] <= window);
    }
}

/// The watch loop's bookkeeping: one iteration at start, then one per
/// debounced batch, never more.
pub struct WatchPump {
    /// Whether the initial iteration has run.
    pub started: bool,
    /// How many debounced batches have been handled.
    pub batches: u64,
    /// How many iterations have been triggered.
    pub iterations: u64,
}

impl WatchPump {
    /// The pump's accounting invariant: before the start no iteration has
    /// run; afterwards, exactly one more iteration than batches handled.
    pub open spec fn wf(&self) -> bool {
        if self.started {
            self.iterations == 1 + self.batches
        } else {
            self.iterations == 0 && self.batches == 0
        }
    }

    /// A pump that has not run anything yet.
    pub fn new() -> (r: Self)
        ensures
            r.wf(),
            !r.started,
            r.iterations == 0,
    {
        WatchPump { started: false, batches: 0, iterations: 0 }
    }

    /// The immediate first iteration, run once when the loop begins.
    pub fn start(&mut self)
        requires
            old(self).wf(),
            !old(self).started,
        ensures
            final(self).wf(),
            final(self).started,
            final(self).iterations == 1,
            final(self).batches == 0,
    {
        self.started = true;
        self.iterations = 1;
    }

    /// One debounced batch arrived: exactly one more iteration runs.
    pub fn on_batch(&mut self)
        requires
            old(self).wf(),
            old(self).started,
            old(self).batches < u64::MAX - 1,
        ensures
            final(self).wf(),
            final(self).started,
            final(self).batches == old(self).batches + 1,
            final(self).iterations == old(self).iterations + 1,
    {
        self.batches = self.batches + 1;
        self.iterations = self.iterations + 1;
    }
}

/// Entering the watch loop suppresses the watch flag, so the action run per
/// iteration cannot recurse back into the loop. Every other option is kept.
pub fn suppress_watch(opts: &mut Options)
    ensures
        !final(opts).watch,
        final(opts).verbose == old(opts).verbose,
        final(opts).package@ == old(opts).package@,
        final(opts)@.bin == old(opts)@.bin,
        final(opts).release == old(opts).release,
        final(opts)@.symbol == old(opts)@.symbol,
        final(opts)@.forward == old(opts)@.forward,
{
    opts.watch = false;
}

} // verus!
