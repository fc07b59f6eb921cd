//! The decisions of the background worker that batches posts.
//!
//! The worker waits on its control channel for at most `timeout`
//! milliseconds at a time. A post is framed into the in-memory buffer; after
//! every post and every wait that timed out, a non-empty buffer is flushed
//! once at least `interval` milliseconds have passed since the last flush.
//! A shutdown flushes what is left and ends the worker. `timeout` should not
//! exceed `interval`, or flushes come every `timeout` instead.
//!
//! The caller performs the waiting, the clock and the connections: it hands
//! each event to [`Worker::step`] with the time in milliseconds since the
//! worker started, and carries out the action that comes back.
use vstd::prelude::*;
use crate::wire::{encode_post, frames_of, post_frame, Record, RecordView};

verus! {

/// What the worker holds, mathematically.
pub struct WorkerModel {
    pub buffer: Seq<u8>,
    pub last_flush: int,
    pub interval: int,
    pub stopped: bool,
}

/// What reaches the worker, mathematically.
pub enum Signal {
    Post(RecordView),
    Timeout,
    Shutdown,
}

/// What reaches the worker: a record to post, the end of a wait with no
/// message, or the request to shut down.
pub enum Event {
    Post(Record),
    Timeout,
    Shutdown,
}

impl View for Event {
    type V = Signal;

    open spec fn view(&self) -> Signal {
        match self {
            Event::Post(r) => Signal::Post(r@),
            Event::Timeout => Signal::Timeout,
            Event::Shutdown => Signal::Shutdown,
        }
    }
}

/// What the worker asks of its caller after an event.
pub enum Action {
    /// Wait for the next event.
    Continue,
    /// Open a connection, write these bytes, close it, and go on.
    Flush(Vec<u8>),
    /// Open a connection, write these bytes, close it, and stop.
    FlushAndStop(Vec<u8>),
    /// Stop without writing anything.
    Stop,
}

/// The bytes that an action writes.
pub open spec fn written(a: Action) -> Seq<u8> {
    match a {
        Action::Flush(b) => b@,
        Action::FlushAndStop(b) => b@,
        _ => Seq::empty(),
    }
}

/// Whether an action ends the worker.
pub open spec fn stops(a: Action) -> bool {
    a is FlushAndStop || a is Stop
}

/// The flush that is due at time `now`, if the buffer holds something and
/// at least `interval` has passed since the last flush.
pub open spec fn periodic(s: WorkerModel, now: int) -> (WorkerModel, Seq<u8>) {
    if s.buffer.len() > 0 && now - s.last_flush >= s.interval {
        (WorkerModel { buffer: Seq::empty(), last_flush: now, ..s }, s.buffer)
    } else {
        (s, Seq::empty())
    }
}

/// The next state of the worker after `sig` at time `now`, and the bytes
/// written on the way.
pub open spec fn next(s: WorkerModel, sig: Signal, now: int) -> (WorkerModel, Seq<u8>) {
    if s.stopped {
        (s, Seq::empty())
    } else {
        match sig {
            Signal::Post(r) => periodic(WorkerModel { buffer: s.buffer + post_frame(r), ..s }, now),
            Signal::Timeout => periodic(s, now),
            Signal::Shutdown => (WorkerModel { buffer: Seq::empty(), stopped: true, ..s }, s.buffer),
        }
    }
}

/// The state after the timed signals `evs` in order, and all bytes written.
pub open spec fn run(s: WorkerModel, evs: Seq<(Signal, int)>) -> (WorkerModel, Seq<u8>)
    decreases evs.len(),
{
    if evs.len() == 0 {
        (s, Seq::empty())
    } else {
        let (s1, w1) = run(s, evs.drop_last());
        let (s2, w2) = next(s1, evs.last().0, evs.last().1);
        (s2, w1 + w2)
    }
}

/// The records posted by `evs`, in order.
pub open spec fn posted(evs: Seq<(Signal, int)>) -> Seq<RecordView>
    decreases evs.len(),
{
    if evs.len() == 0 {
        Seq::empty()
    } else {
        match evs.last().0 {
            Signal::Post(r) => posted(evs.drop_last()).push(r),
            _ => posted(evs.drop_last()),
        }
    }
}

/// Whether `evs` holds no shutdown.
pub open spec fn no_shutdown(evs: Seq<(Signal, int)>) -> bool {
    forall|i: int| 0 <= i < evs.len() ==> !(#[trigger] evs[i].0 is Shutdown)
}

/// A fresh worker's state: nothing buffered, last flushed at time zero.
pub open spec fn fresh(interval: int) -> WorkerModel {
    WorkerModel { buffer: Seq::empty(), last_flush: 0, interval, stopped: false }
}

/// The state of the background worker: its frame buffer and its clock.
pub struct Worker {
    buffer: Vec<u8>,
    last_flush: u64,
    timeout: u64,
    interval: u64,
    stopped: bool,
}

impl View for Worker {
    type V = WorkerModel;

    closed spec fn view(&self) -> WorkerModel {
        WorkerModel {
            buffer: self.buffer@,
            last_flush: self.last_flush as int,
            interval: self.interval as int,
            stopped: self.stopped,
        }
    }
}

impl Worker {
    /// The wait bound that the worker was made with, in milliseconds.
    pub closed spec fn spec_timeout(&self) -> u64 {
        self.timeout
    }

    /// A worker that waits `timeout` and flushes at most every `interval`
    /// milliseconds, started at time zero with nothing buffered.
    pub fn new(timeout: u64, interval: u64) -> (r: Worker)
        ensures
            r@ == fresh(interval as int),
            r.spec_timeout() == timeout,
    {
        Worker { buffer: Vec::new(), last_flush: 0, timeout, interval, stopped: false }
    }

    /// How long to wait for the next event, in milliseconds.
    pub fn timeout(&self) -> (r: u64)
        ensures
            r == self.spec_timeout(),
    {
        self.timeout
    }

    /// Whether the worker has shut down.
    pub fn is_stopped(&self) -> (r: bool)
        ensures
            r == self@.stopped,
    {
        self.stopped
    }

    /// Whether the buffer holds frames that were not flushed yet.
    pub fn has_pending(&self) -> (r: bool)
        ensures
            r == (self@.buffer.len() > 0),
    {
        self.buffer.len() > 0
    }

    fn flush_if_due(&mut self, now: u64) -> (r: Action)
        requires
            !old(self)@.stopped,
        ensures
            final(self)@ == periodic(old(self)@, now as int).0,
            written(r) == periodic(old(self)@, now as int).1,
            !stops(r),
            r is Flush ==> written(r).len() > 0,
            final(self).timeout == old(self).timeout,
    {
        if self.buffer.len() > 0 && now >= self.last_flush && now - self.last_flush >= self.interval {
            let mut out: Vec<u8> = Vec::new();
            out.append(&mut self.buffer);
            self.last_flush = now;
            Action::Flush(out)
        } else {
            Action::Continue
        }
    }

    /// Takes one event at time `now` (milliseconds since the start) and says
    /// what to write and whether to stop.
    pub fn step(&mut self, event: Event, now: u64) -> (r: Action)
        ensures
            final(self)@ == next(old(self)@, event@, now as int).0,
            written(r) == next(old(self)@, event@, now as int).1,
            stops(r) == final(self)@.stopped,
            r is Flush || r is FlushAndStop ==> written(r).len() > 0,
            final(self).spec_timeout() == old(self).spec_timeout(),
    {
        if self.stopped {
            return Action::Stop;
        }
        let ghost sig = event@;
        match event {
            Event::Post(record) => {
                let mut frame = encode_post(&record);
                self.buffer.append(&mut frame);
                assert(sig == Signal::Post(record@));
                assert(self@ == WorkerModel {
                    buffer: old(self)@.buffer + post_frame(record@),
                    ..old(self)@
                });
                self.flush_if_due(now)
            },
            Event::Timeout => {
                assert(sig == Signal::Timeout);
                self.flush_if_due(now)
            },
            Event::Shutdown => {
                self.stopped = true;
                assert(sig == Signal::Shutdown);
                if self.buffer.len() > 0 {
                    let mut out: Vec<u8> = Vec::new();
                    out.append(&mut self.buffer);
                    Action::FlushAndStop(out)
                } else {
                    assert(self.buffer@ =~= Seq::empty());
                    Action::Stop
                }
            },
        }
    }
}

/// Timeouts at the given times, in order.
pub open spec fn timeouts(ticks: Seq<int>) -> Seq<(Signal, int)> {
    ticks.map_values(|x: int| (Signal::Timeout, x))
}

proof fn lemma_frames_push(rs: Seq<RecordView>, r: RecordView)
    ensures
        frames_of(rs.push(r)) == frames_of(rs) + post_frame(r),
{
    assert(rs.push(r).drop_last() =~= rs);
}

/// Before any shutdown, what the worker has written followed by what it
/// still buffers is what it started with followed by the frames of every
/// record posted since, in order.
pub proof fn lemma_nothing_lost(s: WorkerModel, evs: Seq<(Signal, int)>)
    requires
        !s.stopped,
        no_shutdown(evs),
    ensures
        run(s, evs).1 + run(s, evs).0.buffer == s.buffer + frames_of(posted(evs)),
        !run(s, evs).0.stopped,
    decreases evs.len(),
{
    if evs.len() > 0 {
        let d = evs.drop_last();
        assert forall|i: int| 0 <= i < d.len() implies !(#[trigger] d[i].0 is Shutdown) by {
            assert(d[i] == evs[i]);
        }
        lemma_nothing_lost(s, d);
        let (s1, w1) = run(s, d);
        let (e, now) = evs.last();
        assert(!(evs[evs.len() - 1].0 is Shutdown));
        match e {
            Signal::Post(r) => {
                lemma_frames_push(posted(d), r);
                assert(w1 + (s1.buffer + post_frame(r)) == s.buffer + frames_of(posted(d))
                    + post_frame(r));
                assert(run(s, evs).1 + run(s, evs).0.buffer =~= w1 + (s1.buffer + post_frame(r)));
            },
            _ => {
                assert(run(s, evs).1 + run(s, evs).0.buffer =~= w1 + s1.buffer);
            },
        }
    }
}

/// Shutting down drains: after any posts and timeouts, a shutdown leaves the
/// worker stopped with nothing buffered, and all it ever wrote is the frames
/// of the posted records, each exactly once, in order.
pub proof fn lemma_shutdown_drains(interval: int, evs: Seq<(Signal, int)>, now: int)
    requires
        no_shutdown(evs),
    ensures
        run(fresh(interval), evs.push((Signal::Shutdown, now))).1 == frames_of(posted(evs)),
        run(fresh(interval), evs.push((Signal::Shutdown, now))).0.stopped,
        run(fresh(interval), evs.push((Signal::Shutdown, now))).0.buffer.len() == 0,
{
    let s = fresh(interval);
    lemma_nothing_lost(s, evs);
    assert(evs.push((Signal::Shutdown, now)).drop_last() =~= evs);
    assert(s.buffer + frames_of(posted(evs)) =~= frames_of(posted(evs)));
}

/// The buffered path and the direct path put the same bytes on the wire:
/// posting `records` to a fresh worker, with timeouts anywhere in between,
/// and shutting it down writes exactly `frames_of(records)`, which is what
/// [`crate::wire::encode_posts`] writes on the direct path.
pub proof fn lemma_buffered_matches_direct(
    records: Seq<RecordView>,
    interval: int,
    evs: Seq<(Signal, int)>,
    now: int,
)
    requires
        no_shutdown(evs),
        posted(evs) == records,
    ensures
        run(fresh(interval), evs.push((Signal::Shutdown, now))).1 == frames_of(records),
{
    lemma_shutdown_drains(interval, evs, now);
}

proof fn lemma_ticks_flush(s: WorkerModel, t: int, ticks: Seq<int>, k: int)
    requires
        !s.stopped,
        s.last_flush <= t,
        0 <= k <= ticks.len(),
    ensures
        ({
            let (sk, wk) = run(s, timeouts(ticks.take(k)));
            &&& (sk == s && wk.len() == 0) || (sk.buffer.len() == 0 && wk == s.buffer
                && !sk.stopped)
            &&& (exists|i: int| 0 <= i < k && ticks[i] >= t + s.interval) ==> (sk.buffer.len()
                == 0 && wk == s.buffer)
        }),
    decreases k,
{
    if k == 0 {
        assert(timeouts(ticks.take(0)) =~= Seq::empty());
    } else {
        lemma_ticks_flush(s, t, ticks, k - 1);
        let evs = timeouts(ticks.take(k));
        assert(evs.drop_last() =~= timeouts(ticks.take(k - 1)));
        assert(evs.last() == (Signal::Timeout, ticks[k - 1]));
        let (s1, w1) = run(s, timeouts(ticks.take(k - 1)));
        if s1 == s && w1.len() == 0 {
            assert(w1 =~= Seq::empty());
            assert(Seq::<u8>::empty() + s.buffer =~= s.buffer);
            assert(w1 + Seq::empty() =~= w1);
        } else {
            assert(w1 + Seq::empty() =~= w1);
        }
        if exists|i: int| 0 <= i < k && ticks[i] >= t + s.interval {
            let i = choose|i: int| 0 <= i < k && ticks[i] >= t + s.interval;
            if i < k - 1 {
                assert(exists|i: int| 0 <= i < k - 1 && ticks[i] >= t + s.interval);
            }
        }
    }
}

proof fn lemma_first_late_tick(t: int, interval: int, timeout: int, ticks: Seq<int>, k: int)
    requires
        0 <= interval,
        0 <= k < ticks.len(),
        ticks[0] <= t + timeout,
        forall|i: int| 0 <= i < ticks.len() - 1 ==> ticks[i + 1] <= #[trigger] ticks[i] + timeout,
        ticks[k] >= t + interval,
    ensures
        exists|j: int|
            0 <= j < ticks.len() && t + interval <= #[trigger] ticks[j] <= t + interval + timeout,
    decreases k,
{
    if k == 0 {
        assert(t + interval <= ticks[0] <= t + interval + timeout);
    } else if ticks[k - 1] >= t + interval {
        lemma_first_late_tick(t, interval, timeout, ticks, k - 1);
    } else {
        assert(ticks[k] <= ticks[k - 1] + timeout);
    }
}

/// Flush latency: with `timeout <= interval`, take a record in the buffer
/// at time `t` (no flush since), and waits that each end within `timeout`
/// of the one before, the first within `timeout` of `t`. Every wait that ends
/// at or after `t + interval` has found the buffer flushed whole, and one such
/// wait ends no later than `t + interval + timeout`.
pub proof fn lemma_flush_latency(s: WorkerModel, t: int, timeout: int, ticks: Seq<int>)
    requires
        !s.stopped,
        s.buffer.len() > 0,
        s.last_flush <= t,
        timeout <= s.interval,
        ticks.len() > 0,
        t < ticks[0] <= t + timeout,
        forall|i: int|
            0 <= i < ticks.len() - 1 ==> #[trigger] ticks[i] <= ticks[i + 1] <= ticks[i] + timeout,
        ticks.last() >= t + s.interval,
    ensures
        forall|j: int|
            0 <= j < ticks.len() && ticks[j] >= t + s.interval ==> {
                let (sj, wj) = #[trigger] run(s, timeouts(ticks.take(j + 1)));
                sj.buffer.len() == 0 && wj == s.buffer
            },
        exists|j: int|
            0 <= j < ticks.len() && t + s.interval <= #[trigger] ticks[j] <= t + s.interval + timeout,
{
    assert forall|j: int| 0 <= j < ticks.len() && ticks[j] >= t + s.interval implies {
        let (sj, wj) = #[trigger] run(s, timeouts(ticks.take(j + 1)));
        sj.buffer.len() == 0 && wj == s.buffer
    } by {
        lemma_ticks_flush(s, t, ticks, j + 1);
        assert(exists|i: int| 0 <= i < j + 1 && ticks[i] >= t + s.interval);
    }
    lemma_first_late_tick(t, s.interval, timeout, ticks, ticks.len() - 1);
}

} // verus!
