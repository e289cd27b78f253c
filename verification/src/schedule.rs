//! The order of a benchmark's executions: first some to warm up, then those that are timed.

use vstd::prelude::*;

verus! {

/// What a benchmark does next. Executions are numbered from one.
#[derive(Clone, Copy, Debug, PartialEq, Eq, Structural)]
pub enum BenchStep {
    /// An execution that does not count.
    Warmup(usize),
    /// An execution that counts.
    Timed(usize),
    /// Nothing is left to do.
    Done,
}

/// How far a benchmark has come.
#[derive(Clone, Copy, Debug)]
pub struct Schedule {
    pub warmup: usize,
    pub iterations: usize,
    /// How many executions to warm up are over.
    pub warmed: usize,
    /// How many timed executions are over.
    pub timed: usize,
}

/// What comes after `done` executions.
pub open spec fn step_after(warmup: int, iterations: int, done: int) -> BenchStep {
    if done < warmup {
        BenchStep::Warmup((done + 1) as usize)
    } else if done < warmup + iterations {
        BenchStep::Timed((done - warmup + 1) as usize)
    } else {
        BenchStep::Done
    }
}

impl Schedule {
    /// No more executions are over than there are, and timed ones only after all of the others.
    pub open spec fn valid(self) -> bool {
        &&& self.warmed <= self.warmup
        &&& self.timed <= self.iterations
        &&& self.timed > 0 ==> self.warmed == self.warmup
    }

    /// How many executions are over.
    pub open spec fn done(self) -> int {
        self.warmed + self.timed
    }

    /// What comes next.
    pub open spec fn next(self) -> BenchStep {
        step_after(self.warmup as int, self.iterations as int, self.done())
    }

    /// Nothing is over yet.
    pub fn new(warmup: usize, iterations: usize) -> (r: Schedule)
        ensures
            r.valid(),
            r.warmup == warmup,
            r.iterations == iterations,
            r.done() == 0,
    {
        Schedule { warmup, iterations, warmed: 0, timed: 0 }
    }

    /// What comes next.
    pub fn step(&self) -> (r: BenchStep)
        requires
            self.valid(),
        ensures
            r == self.next(),
    {
        if self.warmed < self.warmup {
            BenchStep::Warmup(self.warmed + 1)
        } else if self.timed < self.iterations {
            BenchStep::Timed(self.timed + 1)
        } else {
            BenchStep::Done
        }
    }

    /// One more execution is over.
    pub fn advance(&mut self)
        requires
            old(self).valid(),
            old(self).next() != BenchStep::Done,
        ensures
            final(self).valid(),
            final(self).warmup == old(self).warmup,
            final(self).iterations == old(self).iterations,
            final(self).done() == old(self).done() + 1,
            old(self).next() is Timed ==> final(self).timed == old(self).timed + 1,
            old(self).next() is Warmup ==> final(self).timed == old(self).timed,
    {
        if self.warmed < self.warmup {
            self.warmed = self.warmed + 1;
        } else {
            self.timed = self.timed + 1;
        }
    }
}

/// How many of the first `done` executions are timed.
pub open spec fn timed_among(warmup: int, iterations: int, done: int) -> int
    decreases done,
{
    if done <= 0 {
        0
    } else {
        timed_among(warmup, iterations, done - 1) + if step_after(warmup, iterations, done - 1)
            is Timed {
            1int
        } else {
            0
        }
    }
}

/// None of the executions to warm up counts and every later one does, up to exactly as many as were
/// asked for. The number of a timed execution is how many count once it is over, and there is
/// nothing left to do when all are over and not before.
pub proof fn only_timed_executions_count(warmup: usize, iterations: usize, done: int)
    requires
        0 <= done <= warmup + iterations,
    ensures
        done <= warmup ==> timed_among(warmup as int, iterations as int, done) == 0,
        done >= warmup ==> timed_among(warmup as int, iterations as int, done) == done - warmup,
        step_after(warmup as int, iterations as int, done) matches BenchStep::Timed(number)
            ==> number == timed_among(warmup as int, iterations as int, done + 1),
        done == warmup + iterations <==> step_after(warmup as int, iterations as int, done) is Done,
    decreases done,
{
    if done > 0 {
        only_timed_executions_count(warmup, iterations, done - 1);
    }
    let next = done + 1;
    assert(timed_among(warmup as int, iterations as int, next) == timed_among(
        warmup as int,
        iterations as int,
        next - 1,
    ) + if step_after(warmup as int, iterations as int, next - 1) is Timed {
        1int
    } else {
        0
    });
}

/// What comes next is told by how many executions are over and by nothing else: while not all of
/// those to warm up are, the next of them, then the next timed one, and then nothing. Each is
/// numbered from one within its kind.
pub proof fn next_step_follows_from_what_is_over(s: Schedule)
    requires
        s.valid(),
    ensures
        s.done() == s.warmed + s.timed,
        s.warmed < s.warmup ==> s.timed == 0 && s.next() == BenchStep::Warmup((s.warmed + 1) as usize),
        s.warmed == s.warmup && s.timed < s.iterations ==> s.next() == BenchStep::Timed(
            (s.timed + 1) as usize,
        ),
        s.warmed == s.warmup && s.timed == s.iterations ==> s.next() == BenchStep::Done,
        s.warmed <= s.warmup,
        s.timed <= s.iterations,
{
}

} // verus!
