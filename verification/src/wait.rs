//! The count of tasks that have not yet seen `Exit`.

use vstd::prelude::*;

verus! {

/// Counts the tasks of a pipeline that are still running. A task is added
/// when it is set up and takes itself off when it has handled `Exit`; the
/// pipeline has drained when nobody is left.
#[derive(Debug)]
pub struct FastLogWaitGroup {
    outstanding: usize,
}

impl FastLogWaitGroup {
    /// How many tasks are still running.
    pub closed spec fn count(&self) -> nat {
        self.outstanding as nat
    }

    /// A group that waits for nobody.
    pub fn new() -> (g: FastLogWaitGroup)
        ensures
            g.count() == 0,
    {
        FastLogWaitGroup { outstanding: 0 }
    }

    /// A group that waits for `tasks` tasks.
    pub fn with_tasks(tasks: usize) -> (g: FastLogWaitGroup)
        ensures
            g.count() == tasks,
    {
        FastLogWaitGroup { outstanding: tasks }
    }

    /// One more task to wait for.
    pub fn add(&mut self)
        requires
            old(self).count() < usize::MAX,
        ensures
            final(self).count() == old(self).count() + 1,
    {
        self.outstanding = self.outstanding + 1;
    }

    /// One task has handled `Exit`. A group that waits for nobody stays so.
    pub fn done(&mut self)
        ensures
            final(self).count() == (if old(self).count() > 0 {
                old(self).count() - 1
            } else {
                0
            }),
    {
        if self.outstanding > 0 {
            self.outstanding = self.outstanding - 1;
        }
    }

    /// How many tasks are still running.
    pub fn outstanding(&self) -> (n: usize)
        ensures
            n == self.count(),
    {
        self.outstanding
    }

    /// Whether every task has handled `Exit`.
    pub fn is_drained(&self) -> (b: bool)
        ensures
            b == (self.count() == 0),
    {
        self.outstanding == 0
    }
}

} // verus!
