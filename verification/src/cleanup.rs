//! Taking the daemon down.

use vstd::prelude::*;

verus! {

/// How long to wait for threads in all, in milliseconds.
pub const JOIN_DEADLINE_MILLIS: u64 = 3_000;

/// A step in taking the daemon down.
#[derive(Debug, Clone, Copy, PartialEq, Eq, Structural)]
pub enum CleanupStep {
    /// Tell all threads to stop.
    SetFlag,
    /// Remove the sockets' paths.
    RemoveListeners,
    /// Tell the clients' writers to stop.
    StopWriters,
    /// Wait for a thread until it ends, but for no more than so many milliseconds.
    Join { millis: u64 },
    /// Give up the capture sockets, which unmaps the rings and closes the sockets.
    ReleaseRings,
    /// Nothing more.
    Finished,
}

/// The daemon's workers: whether they were taken down, how many threads are left to
/// wait for, and what to do next.
#[derive(Debug, Clone, Copy, PartialEq, Eq, Structural)]
pub struct Workers {
    pub cleaned_up: bool,
    pub threads: usize,
    pub step: CleanupStep,
}

impl Workers {
    /// Nothing was taken down, and there is nothing to take down.
    pub fn new() -> (r: Workers)
        ensures
            r == (Workers { cleaned_up: false, threads: 0, step: CleanupStep::Finished }),
    {
        Workers { cleaned_up: false, threads: 0, step: CleanupStep::Finished }
    }

    /// Begins to take the daemon down, with so many threads. A daemon is taken down
    /// only once.
    pub fn cleanup(&mut self, threads: usize)
        ensures
            *final(self) == (if old(self).cleaned_up {
                *old(self)
            } else {
                Workers { cleaned_up: true, threads, step: CleanupStep::SetFlag }
            }),
    {
        if self.cleaned_up {
            return;
        }
        *self = Workers { cleaned_up: true, threads, step: CleanupStep::SetFlag };
    }

    /// Whether to wait for a thread `elapsed` milliseconds after the writers were
    /// told to stop: there is one, and there is time.
    pub open spec fn waits(self, elapsed: u64) -> bool {
        self.threads > 0 && elapsed < JOIN_DEADLINE_MILLIS
    }

    /// What follows the step, `elapsed` milliseconds after the writers were told to
    /// stop: a thread is waited for until the deadline, and threads that do not end in
    /// time are left alone.
    pub open spec fn next(self, elapsed: u64) -> Workers {
        match self.step {
            CleanupStep::SetFlag => Workers { step: CleanupStep::RemoveListeners, ..self },
            CleanupStep::RemoveListeners => Workers { step: CleanupStep::StopWriters, ..self },
            CleanupStep::StopWriters | CleanupStep::Join { .. } => if self.waits(elapsed) {
                Workers {
                    threads: (self.threads - 1) as usize,
                    step: CleanupStep::Join { millis: (JOIN_DEADLINE_MILLIS - elapsed) as u64 },
                    ..self
                }
            } else {
                Workers { threads: 0, step: CleanupStep::ReleaseRings, ..self }
            },
            _ => Workers { step: CleanupStep::Finished, ..self },
        }
    }

    /// Goes on after a step.
    pub fn advance(&mut self, elapsed: u64)
        ensures
            *final(self) == old(self).next(elapsed),
    {
        match self.step {
            CleanupStep::SetFlag => {
                self.step = CleanupStep::RemoveListeners;
            },
            CleanupStep::RemoveListeners => {
                self.step = CleanupStep::StopWriters;
            },
            CleanupStep::StopWriters | CleanupStep::Join { .. } => {
                if self.threads > 0 && elapsed < JOIN_DEADLINE_MILLIS {
                    self.threads = self.threads - 1;
                    self.step = CleanupStep::Join { millis: JOIN_DEADLINE_MILLIS - elapsed };
                } else {
                    self.threads = 0;
                    self.step = CleanupStep::ReleaseRings;
                }
            },
            _ => {
                self.step = CleanupStep::Finished;
            },
        }
    }
}

/// The steps from `w` on, where `elapsed[i]` milliseconds have passed after step `i`.
pub open spec fn steps(w: Workers, elapsed: Seq<u64>) -> Seq<CleanupStep>
    decreases elapsed.len(),
{
    if elapsed.len() == 0 {
        seq![w.step]
    } else {
        seq![w.step] + steps(w.next(elapsed[0]), elapsed.drop_first())
    }
}

/// Whatever time passes, the daemon is taken down: the threads are told to stop, the
/// listeners are gone before the writers are told to stop, and once the threads have
/// ended or their time is over the rings are released, at the latest after one step
/// for each thread.
pub proof fn law_rings_are_released(threads: usize, elapsed: Seq<u64>)
    requires
        elapsed.len() >= threads + 4,
    ensures
        ({
            let w = Workers { cleaned_up: true, threads, step: CleanupStep::SetFlag };
            let all = steps(w, elapsed);
            &&& all.take(3) == seq![
                CleanupStep::SetFlag,
                CleanupStep::RemoveListeners,
                CleanupStep::StopWriters,
            ]
            &&& all.contains(CleanupStep::ReleaseRings)
            &&& all.last() is Finished
        }),
{
    let w = Workers { cleaned_up: true, threads, step: CleanupStep::SetFlag };
    let all = steps(w, elapsed);
    let rest = elapsed.drop_first().drop_first();
    let stop = Workers { step: CleanupStep::StopWriters, ..w };
    reveal_with_fuel(steps, 3);
    lemma_released(stop, rest);
    let tail = steps(stop, rest);
    assert(all =~= seq![CleanupStep::SetFlag, CleanupStep::RemoveListeners] + tail);
    let i = tail.index_of(CleanupStep::ReleaseRings);
    assert(all[i + 2] is ReleaseRings);
    assert(all.take(3) =~= seq![
        CleanupStep::SetFlag,
        CleanupStep::RemoveListeners,
        CleanupStep::StopWriters,
    ]);
}

proof fn lemma_released(w: Workers, elapsed: Seq<u64>)
    requires
        w.step is StopWriters || w.step is Join,
        elapsed.len() >= w.threads + 2,
    ensures
        steps(w, elapsed).contains(CleanupStep::ReleaseRings),
        steps(w, elapsed).last() is Finished,
        steps(w, elapsed)[0] == w.step,
    decreases w.threads,
{
    let next = w.next(elapsed[0]);
    let rest = elapsed.drop_first();
    let all = seq![w.step] + steps(next, rest);
    if next.step is ReleaseRings {
        assert(steps(next, rest)[0] is ReleaseRings);
        assert(all[1] is ReleaseRings);
        lemma_stays_finished(next.next(rest[0]), rest.drop_first());
        assert(steps(next, rest) == seq![next.step] + steps(
            next.next(rest[0]),
            rest.drop_first(),
        ));
    } else {
        lemma_released(next, rest);
        let i = steps(next, rest).index_of(CleanupStep::ReleaseRings);
        assert(all[i + 1] is ReleaseRings);
    }
}

/// Whether no wait takes longer than it may, from `w` on, which is reached after `before`
/// milliseconds: it ends when its thread does or when its time is over.
pub open spec fn in_time(w: Workers, before: u64, elapsed: Seq<u64>) -> bool
    decreases elapsed.len(),
{
    elapsed.len() > 0 ==> {
        &&& w.step matches CleanupStep::Join { millis } ==> elapsed[0] <= before + millis
        &&& in_time(w.next(elapsed[0]), elapsed[0], elapsed.drop_first())
    }
}

/// No thread holds up the end, be it one that never ends: after the writers are told to
/// stop, the rings are released at the latest after one wait for each thread, and no
/// later than the deadline, unless the writers took longer than that already.
pub proof fn law_deadline_is_kept(threads: usize, elapsed: Seq<u64>)
    requires
        elapsed.len() >= threads + 1,
        in_time(
            Workers { cleaned_up: true, threads, step: CleanupStep::StopWriters },
            0,
            elapsed,
        ),
    ensures
        ({
            let w = Workers { cleaned_up: true, threads, step: CleanupStep::StopWriters };
            exists|k: int|
                1 <= k <= threads + 1 && #[trigger] steps(w, elapsed)[k] is ReleaseRings && (
                elapsed[k - 1] <= JOIN_DEADLINE_MILLIS || k == 1)
        }),
{
    let w = Workers { cleaned_up: true, threads, step: CleanupStep::StopWriters };
    lemma_deadline(w, 0, elapsed);
}

proof fn lemma_deadline(w: Workers, before: u64, elapsed: Seq<u64>)
    requires
        w.step is StopWriters || w.step is Join,
        w.step matches CleanupStep::Join { millis } ==> before + millis <= JOIN_DEADLINE_MILLIS,
        elapsed.len() >= w.threads + 1,
        in_time(w, before, elapsed),
    ensures
        exists|k: int|
            1 <= k <= w.threads + 1 && #[trigger] steps(w, elapsed)[k] is ReleaseRings && (
            elapsed[k - 1] <= JOIN_DEADLINE_MILLIS || (k == 1 && w.step is StopWriters)),
    decreases w.threads,
{
    let next = w.next(elapsed[0]);
    let rest = elapsed.drop_first();
    let all = seq![w.step] + steps(next, rest);
    assert(steps(w, elapsed) == all);
    lemma_one_step_more(next, rest);
    if next.step is ReleaseRings {
        assert(steps(next, rest)[0] is ReleaseRings);
        assert(steps(w, elapsed)[1] is ReleaseRings);
    } else {
        lemma_deadline(next, elapsed[0], rest);
        let k = choose|k: int|
            1 <= k <= next.threads + 1 && #[trigger] steps(next, rest)[k] is ReleaseRings && (
            rest[k - 1] <= JOIN_DEADLINE_MILLIS || (k == 1 && next.step is StopWriters));
        assert(steps(w, elapsed)[k + 1] == steps(next, rest)[k]);
        assert(elapsed[k] == rest[k - 1]);
    }
}

proof fn lemma_one_step_more(w: Workers, elapsed: Seq<u64>)
    ensures
        steps(w, elapsed).len() == elapsed.len() + 1,
    decreases elapsed.len(),
{
    if elapsed.len() > 0 {
        lemma_one_step_more(w.next(elapsed[0]), elapsed.drop_first());
    }
}

proof fn lemma_stays_finished(w: Workers, elapsed: Seq<u64>)
    requires
        w.step is Finished,
    ensures
        steps(w, elapsed).last() is Finished,
        steps(w, elapsed).len() > 0,
    decreases elapsed.len(),
{
    if elapsed.len() > 0 {
        lemma_stays_finished(w.next(elapsed[0]), elapsed.drop_first());
    }
}

/// How taking down goes on: the flag, the listeners and the writers in this order, then a
/// wait for each thread, for what is left of three seconds, and the rings when no thread is
/// left or no time is. A wait uses up one thread.
pub proof fn law_taking_down_goes_on(w: Workers, elapsed: u64)
    ensures
        ({
            let next = w.next(elapsed);
            let waiting = w.step is StopWriters || w.step is Join;
            &&& next.cleaned_up == w.cleaned_up
            &&& w.step is SetFlag ==> next.step is RemoveListeners && next.threads == w.threads
            &&& w.step is RemoveListeners ==> next.step is StopWriters && next.threads == w.threads
            &&& waiting && w.threads > 0 && elapsed < 3_000 ==> (next.step matches
                CleanupStep::Join { millis } && millis + elapsed == 3_000) && next.threads
                == w.threads - 1
            &&& waiting && (w.threads == 0 || elapsed >= 3_000) ==> next.step is ReleaseRings
            &&& w.step is ReleaseRings ==> next.step is Finished
            &&& w.step is Finished ==> next.step is Finished
        }),
{
}

} // verus!
