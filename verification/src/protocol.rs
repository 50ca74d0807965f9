//! The pipeline as a transition system, and what holds of all its runs.
//!
//! Channels are queues; a step is a producer putting a record in, the
//! dispatcher passing one on, or a worker taking one. Any interleaving of
//! such steps is a run. `Dispatcher::dispatch` and `Worker::handle` are these
//! steps: what they pass on and when they stop is stated with the functions
//! that the steps are made of here.

use vstd::prelude::*;
use crate::appender::{Command, RecordView};

verus! {

/// The pipeline at one moment.
pub struct PipelineState {
    /// Every record that the ingest channel has taken, in order.
    pub accepted: Seq<RecordView>,
    /// What waits in the ingest channel.
    pub ingest: Seq<RecordView>,
    /// Every record that the dispatcher has passed on, as it was passed on.
    pub dispatched: Seq<RecordView>,
    /// What waits in each appender's channel.
    pub queues: Seq<Seq<RecordView>>,
    /// Every message that each worker has taken from its channel.
    pub seen: Seq<Seq<RecordView>>,
    /// Whether the dispatcher has not yet passed on `Exit`.
    pub dispatcher_running: bool,
    /// Whether each worker has not yet taken `Exit`.
    pub workers_running: Seq<bool>,
    /// What the wait group counts.
    pub waiting: nat,
}

/// One step of a run.
pub enum Step {
    /// A producer's record enters the ingest channel.
    Submit(RecordView),
    /// The dispatcher takes the next record and passes it on.
    Dispatch,
    /// The worker of this appender takes its next message.
    Deliver(int),
}

/// A formatter: the text for a record, a function of the record alone.
pub type Formatter = spec_fn(RecordView) -> Seq<char>;

/// The record as every appender receives it.
pub open spec fn rendered(r: RecordView, fmt: Formatter) -> RecordView {
    r.formatted_with(fmt(r))
}

/// Whether a task goes on after it has handled `msg`: it stops with `Exit`
/// and does not start again.
pub open spec fn still_running(running: bool, msg: RecordView) -> bool {
    running && msg.command != Command::CommandExit
}

/// What the wait group counts after a task has handled `msg`: one less where
/// the task has stopped.
pub open spec fn still_waiting(waiting: nat, running: bool, msg: RecordView) -> nat {
    if running && !still_running(running, msg) {
        (waiting - 1) as nat
    } else {
        waiting
    }
}

/// Whether no message of `msgs` is `Exit`.
pub open spec fn no_exit(msgs: Seq<RecordView>) -> bool {
    forall|j: int| 0 <= j < msgs.len() ==> (#[trigger] msgs[j]).command != Command::CommandExit
}

/// How many of the flags are set.
pub open spec fn count_set(flags: Seq<bool>) -> nat
    decreases flags.len(),
{
    if flags.len() == 0 {
        0
    } else {
        count_set(flags.drop_last()) + (if flags.last() {
            1nat
        } else {
            0nat
        })
    }
}

/// The number of appenders.
pub open spec fn appenders(s: PipelineState) -> nat {
    s.queues.len()
}

/// How many tasks have not yet handled `Exit`.
pub open spec fn running_tasks(s: PipelineState) -> nat {
    count_set(s.workers_running) + (if s.dispatcher_running {
        1nat
    } else {
        0nat
    })
}

/// A pipeline for `n` appenders before its first record.
pub open spec fn init(n: nat) -> PipelineState {
    PipelineState {
        accepted: Seq::empty(),
        ingest: Seq::empty(),
        dispatched: Seq::empty(),
        queues: Seq::new(n, |i: int| Seq::empty()),
        seen: Seq::new(n, |i: int| Seq::empty()),
        dispatcher_running: true,
        workers_running: Seq::new(n, |i: int| true),
        waiting: n + 1,
    }
}

/// Whether the step can be taken: a producer can always submit, a task
/// steps while it runs and its channel holds something.
pub open spec fn enabled(s: PipelineState, step: Step) -> bool {
    match step {
        Step::Submit(_) => true,
        Step::Dispatch => s.dispatcher_running && s.ingest.len() > 0,
        Step::Deliver(i) => 0 <= i < s.queues.len() && s.workers_running[i] && s.queues[i].len()
            > 0,
    }
}

/// The pipeline after the step.
pub open spec fn next(s: PipelineState, step: Step, fmt: Formatter) -> PipelineState {
    match step {
        Step::Submit(r) => PipelineState {
            accepted: s.accepted.push(r),
            ingest: s.ingest.push(r),
            ..s
        },
        Step::Dispatch => {
            let out = rendered(s.ingest[0], fmt);
            PipelineState {
                ingest: s.ingest.drop_first(),
                dispatched: s.dispatched.push(out),
                queues: Seq::new(s.queues.len(), |i: int| s.queues[i].push(out)),
                dispatcher_running: still_running(s.dispatcher_running, s.ingest[0]),
                waiting: still_waiting(s.waiting, s.dispatcher_running, s.ingest[0]),
                ..s
            }
        },
        Step::Deliver(i) => {
            let msg = s.queues[i][0];
            PipelineState {
                queues: s.queues.update(i, s.queues[i].drop_first()),
                seen: s.seen.update(i, s.seen[i].push(msg)),
                workers_running: s.workers_running.update(i, still_running(s.workers_running[i], msg)),
                waiting: still_waiting(s.waiting, s.workers_running[i], msg),
                ..s
            }
        },
    }
}

/// Whether every step of `steps` can be taken in turn, from `s` on.
pub open spec fn valid_run(s: PipelineState, steps: Seq<Step>, fmt: Formatter) -> bool
    decreases steps.len(),
{
    if steps.len() == 0 {
        true
    } else {
        &&& valid_run(s, steps.drop_last(), fmt)
        &&& enabled(run(s, steps.drop_last(), fmt), steps.last())
    }
}

/// The pipeline after the steps of `steps`, taken in turn from `s` on.
pub open spec fn run(s: PipelineState, steps: Seq<Step>, fmt: Formatter) -> PipelineState
    decreases steps.len(),
{
    if steps.len() == 0 {
        s
    } else {
        next(run(s, steps.drop_last(), fmt), steps.last(), fmt)
    }
}

/// What the records of appender `i` were given to its appender: all that its
/// worker has taken but `Exit`.
pub open spec fn delivered(s: PipelineState, i: int) -> Seq<RecordView> {
    s.seen[i].filter(|m: RecordView| m.command != Command::CommandExit)
}

/// Whether every task has handled `Exit`.
pub open spec fn drained(s: PipelineState) -> bool {
    &&& !s.dispatcher_running
    &&& forall|i: int| 0 <= i < s.workers_running.len() ==> !#[trigger] s.workers_running[i]
}

/// What holds of the pipeline at every moment of every run.
pub open spec fn inv(s: PipelineState, fmt: Formatter) -> bool {
    &&& s.seen.len() == s.queues.len()
    &&& s.workers_running.len() == s.queues.len()
    &&& s.dispatched.len() + s.ingest.len() == s.accepted.len()
    &&& forall|j: int|
        0 <= j < s.dispatched.len() ==> #[trigger] s.dispatched[j] == rendered(s.accepted[j], fmt)
    &&& forall|j: int|
        0 <= j < s.ingest.len() ==> #[trigger] s.ingest[j] == s.accepted[s.dispatched.len() + j]
    &&& forall|i: int|
        0 <= i < s.queues.len() ==> (#[trigger] s.seen[i]) + s.queues[i] == s.dispatched
    &&& s.dispatcher_running == no_exit(s.dispatched)
    &&& forall|j: int|
        0 <= j < s.dispatched.len() - 1 ==> (#[trigger] s.dispatched[j]).command
            != Command::CommandExit
    &&& forall|i: int|
        0 <= i < s.queues.len() ==> #[trigger] s.workers_running[i] == no_exit(s.seen[i])
    &&& s.waiting == running_tasks(s)
}

proof fn lemma_count_all_set(n: nat)
    ensures
        count_set(Seq::new(n, |i: int| true)) == n,
    decreases n,
{
    if n > 0 {
        assert(Seq::new(n, |i: int| true).drop_last() == Seq::new((n - 1) as nat, |i: int| true));
        lemma_count_all_set((n - 1) as nat);
    }
}

proof fn lemma_count_update(flags: Seq<bool>, i: int, b: bool)
    requires
        0 <= i < flags.len(),
    ensures
        count_set(flags.update(i, b)) + (if flags[i] {
            1nat
        } else {
            0nat
        }) == count_set(flags) + (if b {
            1nat
        } else {
            0nat
        }),
    decreases flags.len(),
{
    if i == flags.len() - 1 {
        assert(flags.update(i, b).drop_last() == flags.drop_last());
    } else {
        assert(flags.update(i, b).drop_last() == flags.drop_last().update(i, b));
        lemma_count_update(flags.drop_last(), i, b);
    }
}

proof fn lemma_count_zero(flags: Seq<bool>)
    ensures
        count_set(flags) == 0 <==> (forall|i: int| 0 <= i < flags.len() ==> !#[trigger] flags[i]),
    decreases flags.len(),
{
    if flags.len() > 0 {
        lemma_count_zero(flags.drop_last());
        if count_set(flags) == 0 {
            assert forall|i: int| 0 <= i < flags.len() implies !#[trigger] flags[i] by {
                if i < flags.len() - 1 {
                    assert(flags.drop_last()[i] == flags[i]);
                }
            }
        } else if forall|i: int| 0 <= i < flags.len() ==> !#[trigger] flags[i] {
            assert forall|i: int| 0 <= i < flags.drop_last().len() implies !#[trigger] flags.drop_last()[i] by {
                assert(flags.drop_last()[i] == flags[i]);
            }
            assert(!flags.last());
        }
    }
}

/// The pipeline starts in a state of which the invariant holds.
pub proof fn lemma_inv_init(n: nat, fmt: Formatter)
    ensures
        inv(init(n), fmt),
{
    let s = init(n);
    lemma_count_all_set(n);
    assert forall|i: int| 0 <= i < s.queues.len() implies (#[trigger] s.seen[i]) + s.queues[i]
        == s.dispatched by {}
}

/// Every step that can be taken keeps the invariant.
pub proof fn lemma_inv_next(s: PipelineState, step: Step, fmt: Formatter)
    requires
        inv(s, fmt),
        enabled(s, step),
    ensures
        inv(next(s, step, fmt), fmt),
{
    let t = next(s, step, fmt);
    match step {
        Step::Submit(r) => {
            assert forall|j: int| 0 <= j < t.ingest.len() implies #[trigger] t.ingest[j]
                == t.accepted[t.dispatched.len() + j] by {
                if j < s.ingest.len() {
                    assert(s.ingest[j] == s.accepted[s.dispatched.len() + j]);
                }
            }
            assert forall|j: int| 0 <= j < t.dispatched.len() implies #[trigger] t.dispatched[j]
                == rendered(t.accepted[j], fmt) by {
                assert(s.dispatched[j] == rendered(s.accepted[j], fmt));
            }
        },
        Step::Dispatch => {
            let out = rendered(s.ingest[0], fmt);
            assert(s.ingest[0] == s.accepted[s.dispatched.len() + 0int]);
            assert forall|j: int| 0 <= j < t.dispatched.len() implies #[trigger] t.dispatched[j]
                == rendered(t.accepted[j], fmt) by {
                if j < s.dispatched.len() {
                    assert(s.dispatched[j] == rendered(s.accepted[j], fmt));
                }
            }
            assert forall|j: int| 0 <= j < t.ingest.len() implies #[trigger] t.ingest[j]
                == t.accepted[t.dispatched.len() + j] by {
                assert(s.ingest[j + 1] == s.accepted[s.dispatched.len() + (j + 1)]);
            }
            assert forall|i: int| 0 <= i < t.queues.len() implies (#[trigger] t.seen[i])
                + t.queues[i] == t.dispatched by {
                assert(s.seen[i] + s.queues[i] == s.dispatched);
                assert(s.seen[i] + s.queues[i].push(out) == (s.seen[i] + s.queues[i]).push(out));
            }
            assert forall|j: int| 0 <= j < t.dispatched.len() - 1 implies (
            #[trigger] t.dispatched[j]).command != Command::CommandExit by {
                assert(s.dispatched[j].command != Command::CommandExit);
            }
            if out.command == Command::CommandExit {
                assert(t.dispatched[t.dispatched.len() - 1].command == Command::CommandExit);
            } else {
                assert forall|j: int| 0 <= j < t.dispatched.len() implies (
                #[trigger] t.dispatched[j]).command != Command::CommandExit by {
                    if j < s.dispatched.len() {
                        assert(s.dispatched[j].command != Command::CommandExit);
                    }
                }
            }
        },
        Step::Deliver(i) => {
            let msg = s.queues[i][0];
            assert(s.seen[i] + s.queues[i] == s.dispatched);
            assert forall|k: int| 0 <= k < t.queues.len() implies (#[trigger] t.seen[k])
                + t.queues[k] == t.dispatched by {
                assert(s.seen[k] + s.queues[k] == s.dispatched);
                if k == i {
                    assert(s.seen[i].push(msg) + s.queues[i].drop_first() == s.seen[i]
                        + s.queues[i]);
                }
            }
            assert forall|k: int| 0 <= k < t.queues.len() implies #[trigger] t.workers_running[k]
                == no_exit(t.seen[k]) by {
                assert(s.workers_running[k] == no_exit(s.seen[k]));
                if k == i {
                    if msg.command == Command::CommandExit {
                        assert(t.seen[i][s.seen[i].len() as int].command
                            == Command::CommandExit);
                    } else {
                        assert forall|j: int| 0 <= j < t.seen[i].len() implies (
                        #[trigger] t.seen[i][j]).command != Command::CommandExit by {
                            if j < s.seen[i].len() {
                                assert(s.seen[i][j].command != Command::CommandExit);
                            }
                        }
                    }
                }
            }
            lemma_count_update(s.workers_running, i, msg.command != Command::CommandExit);
        },
    }
}

/// The invariant holds after every run from a state of which it holds.
pub proof fn lemma_inv_run(s: PipelineState, steps: Seq<Step>, fmt: Formatter)
    requires
        inv(s, fmt),
        valid_run(s, steps, fmt),
    ensures
        inv(run(s, steps, fmt), fmt),
    decreases steps.len(),
{
    if steps.len() > 0 {
        lemma_inv_run(s, steps.drop_last(), fmt);
        lemma_inv_next(run(s, steps.drop_last(), fmt), steps.last(), fmt);
    }
}

/// No step changes the number of appenders.
pub proof fn lemma_run_appenders(s: PipelineState, steps: Seq<Step>, fmt: Formatter)
    requires
        valid_run(s, steps, fmt),
    ensures
        appenders(run(s, steps, fmt)) == appenders(s),
    decreases steps.len(),
{
    if steps.len() > 0 {
        lemma_run_appenders(s, steps.drop_last(), fmt);
    }
}

/// Order is kept. In every run, the messages that an appender's worker has
/// taken are the records that the ingest channel took first, one for one and
/// in the same order, each with the text that the formatter gives it.
pub proof fn law_order_preserved(n: nat, steps: Seq<Step>, fmt: Formatter, i: int)
    requires
        valid_run(init(n), steps, fmt),
        0 <= i < n,
    ensures
        ({
            let s = run(init(n), steps, fmt);
            &&& appenders(s) == n
            &&& s.seen[i].len() <= s.accepted.len()
            &&& forall|j: int|
                0 <= j < s.seen[i].len() ==> #[trigger] s.seen[i][j] == rendered(
                    s.accepted[j],
                    fmt,
                )
        }),
{
    let s = run(init(n), steps, fmt);
    lemma_inv_init(n, fmt);
    lemma_inv_run(init(n), steps, fmt);
    lemma_run_appenders(init(n), steps, fmt);
    assert(s.seen[i] + s.queues[i] == s.dispatched);
    assert forall|j: int| 0 <= j < s.seen[i].len() implies #[trigger] s.seen[i][j] == rendered(
        s.accepted[j],
        fmt,
    ) by {
        assert((s.seen[i] + s.queues[i])[j] == s.seen[i][j]);
        assert(s.dispatched[j] == rendered(s.accepted[j], fmt));
    }
}

/// The records of every producer arrive in that producer's order. Whatever
/// picks out one stream among the records, the part of that stream that an
/// appender's worker has taken is the beginning of the stream as the ingest
/// channel took it.
pub proof fn law_stream_order(
    n: nat,
    steps: Seq<Step>,
    fmt: Formatter,
    i: int,
    stream: spec_fn(RecordView) -> bool,
)
    requires
        valid_run(init(n), steps, fmt),
        0 <= i < n,
    ensures
        ({
            let s = run(init(n), steps, fmt);
            let taken = s.seen[i].filter(stream);
            let sent = s.accepted.map_values(|r: RecordView| rendered(r, fmt)).filter(stream);
            taken.len() <= sent.len() && taken == sent.take(taken.len() as int)
        }),
{
    let s = run(init(n), steps, fmt);
    let all = s.accepted.map_values(|r: RecordView| rendered(r, fmt));
    law_order_preserved(n, steps, fmt, i);
    let k = s.seen[i].len() as int;
    assert(all == s.seen[i] + all.skip(k)) by {
        assert forall|j: int| 0 <= j < all.len() implies all[j] == (s.seen[i] + all.skip(k))[j] by {
            if j < k {
                assert(s.seen[i][j] == rendered(s.accepted[j], fmt));
            }
        }
    }
    Seq::filter_distributes_over_add(s.seen[i], all.skip(k), stream);
    let taken = s.seen[i].filter(stream);
    let later = all.skip(k).filter(stream);
    assert((taken + later).take(taken.len() as int) == taken);
}

/// A sequence without `Exit` loses nothing when `Exit` is taken out.
proof fn lemma_filter_keeps(msgs: Seq<RecordView>)
    requires
        no_exit(msgs),
    ensures
        msgs.filter(|m: RecordView| m.command != Command::CommandExit) == msgs,
    decreases msgs.len(),
{
    reveal(Seq::filter);
    if msgs.len() > 0 {
        assert(no_exit(msgs.drop_last())) by {
            assert forall|j: int| 0 <= j < msgs.drop_last().len() implies (
            #[trigger] msgs.drop_last()[j]).command != Command::CommandExit by {
                assert(msgs[j].command != Command::CommandExit);
            }
        }
        lemma_filter_keeps(msgs.drop_last());
        assert(msgs.last().command != Command::CommandExit);
        assert(msgs.drop_last().push(msgs.last()) == msgs);
    }
}

/// Nothing is lost at the end. Once a worker has stopped, its appender has
/// been given every record that the ingest channel took before `Exit`, in
/// that order, and nothing else.
pub proof fn law_delivered_before_exit(n: nat, steps: Seq<Step>, fmt: Formatter, i: int)
    requires
        valid_run(init(n), steps, fmt),
        0 <= i < n,
        !run(init(n), steps, fmt).workers_running[i],
    ensures
        ({
            let s = run(init(n), steps, fmt);
            let e = s.seen[i].len() - 1;
            &&& 0 <= e < s.accepted.len()
            &&& s.accepted[e].command == Command::CommandExit
            &&& no_exit(s.accepted.take(e))
            &&& delivered(s, i) == s.accepted.take(e).map_values(|r: RecordView| rendered(r, fmt))
        }),
{
    let s = run(init(n), steps, fmt);
    lemma_inv_init(n, fmt);
    lemma_inv_run(init(n), steps, fmt);
    law_order_preserved(n, steps, fmt, i);
    let seen = s.seen[i];
    assert(seen + s.queues[i] == s.dispatched);
    assert(s.workers_running[i] == no_exit(seen));
    let x = choose|j: int| 0 <= j < seen.len() && (#[trigger] seen[j]).command
        == Command::CommandExit;
    assert((seen + s.queues[i])[x] == seen[x]);
    assert(s.dispatched[x].command == Command::CommandExit);
    assert(x == s.dispatched.len() - 1);
    let e = seen.len() - 1;
    assert(x == e);
    assert(seen[e] == rendered(s.accepted[e], fmt));
    let before = s.accepted.take(e);
    let given = before.map_values(|r: RecordView| rendered(r, fmt));
    assert forall|j: int| 0 <= j < before.len() implies (#[trigger] before[j]).command
        != Command::CommandExit by {
        assert(seen[j] == rendered(s.accepted[j], fmt));
        assert((seen + s.queues[i])[j] == seen[j]);
        assert(s.dispatched[j].command != Command::CommandExit);
    }
    assert(seen.drop_last() == given) by {
        assert forall|j: int| 0 <= j < given.len() implies seen.drop_last()[j] == given[j] by {
            assert(seen[j] == rendered(s.accepted[j], fmt));
        }
    }
    assert(no_exit(given)) by {
        assert forall|j: int| 0 <= j < given.len() implies (#[trigger] given[j]).command
            != Command::CommandExit by {
            assert(before[j].command != Command::CommandExit);
        }
    }
    lemma_filter_keeps(given);
    reveal(Seq::filter);
    assert(seen.drop_last().push(seen.last()) == seen);
}

/// Whether `Exit` has entered the pipeline, for the first time as the record
/// number `e`.
pub open spec fn exit_accepted_at(s: PipelineState, e: int) -> bool {
    &&& 0 <= e < s.accepted.len()
    &&& s.accepted[e].command == Command::CommandExit
    &&& no_exit(s.accepted.take(e))
}

/// How many messages the workers have yet to take, if each takes `e + 1`.
pub open spec fn budget(seen: Seq<Seq<RecordView>>, e: int) -> int
    decreases seen.len(),
{
    if seen.len() == 0 {
        0
    } else {
        budget(seen.drop_last(), e) + (e + 1 - seen.last().len())
    }
}

/// How many steps the tasks have yet to take before all have handled the
/// `Exit` that entered as record number `e`.
pub open spec fn remaining(s: PipelineState, e: int) -> int {
    (e + 1 - s.dispatched.len()) + budget(s.seen, e)
}

/// How many steps of `steps` are steps of a task.
pub open spec fn task_steps(steps: Seq<Step>) -> nat
    decreases steps.len(),
{
    if steps.len() == 0 {
        0
    } else {
        task_steps(steps.drop_last()) + (if steps.last() is Submit {
            0nat
        } else {
            1nat
        })
    }
}

proof fn lemma_budget_update(seen: Seq<Seq<RecordView>>, e: int, i: int, msg: RecordView)
    requires
        0 <= i < seen.len(),
    ensures
        budget(seen.update(i, seen[i].push(msg)), e) == budget(seen, e) - 1,
    decreases seen.len(),
{
    let after = seen.update(i, seen[i].push(msg));
    if i == seen.len() - 1 {
        assert(after.drop_last() == seen.drop_last());
    } else {
        assert(after.drop_last() == seen.drop_last().update(i, seen[i].push(msg)));
        assert(seen.drop_last()[i] == seen[i]);
        lemma_budget_update(seen.drop_last(), e, i, msg);
    }
}

proof fn lemma_budget_bounds(seen: Seq<Seq<RecordView>>, e: int)
    requires
        forall|i: int| 0 <= i < seen.len() ==> (#[trigger] seen[i]).len() <= e + 1,
    ensures
        budget(seen, e) >= 0,
        budget(seen, e) == 0 ==> forall|i: int|
            0 <= i < seen.len() ==> (#[trigger] seen[i]).len() == e + 1,
    decreases seen.len(),
{
    if seen.len() > 0 {
        assert forall|i: int| 0 <= i < seen.drop_last().len() implies (
        #[trigger] seen.drop_last()[i]).len() <= e + 1 by {
            assert(seen.drop_last()[i] == seen[i]);
        }
        lemma_budget_bounds(seen.drop_last(), e);
        assert(seen.last() == seen[seen.len() - 1]);
        if budget(seen, e) == 0 {
            assert forall|i: int| 0 <= i < seen.len() implies (#[trigger] seen[i]).len() == e
                + 1 by {
                if i < seen.len() - 1 {
                    assert(seen.drop_last()[i] == seen[i]);
                }
            }
        }
    }
}

/// Where `Exit` entered as record number `e`: nothing beyond it is ever
/// passed on, and a task runs as long as it has not come that far.
proof fn lemma_exit_position(s: PipelineState, e: int, fmt: Formatter)
    requires
        inv(s, fmt),
        exit_accepted_at(s, e),
    ensures
        s.dispatched.len() <= e + 1,
        s.dispatcher_running == (s.dispatched.len() <= e),
        forall|i: int|
            0 <= i < s.queues.len() ==> (#[trigger] s.seen[i]).len() <= s.dispatched.len(),
        forall|i: int|
            0 <= i < s.queues.len() ==> #[trigger] s.workers_running[i] == (s.seen[i].len() <= e),
{
    assert forall|j: int| 0 <= j < s.dispatched.len() implies ((#[trigger] s.dispatched[j]).command
        == Command::CommandExit) == (j == e) by {
        assert(s.dispatched[j] == rendered(s.accepted[j], fmt));
        if j < e {
            assert(s.accepted.take(e)[j] == s.accepted[j]);
        } else if j > e {
            assert(s.dispatched[e] == rendered(s.accepted[e], fmt));
            assert(s.dispatched[e].command == Command::CommandExit);
        }
    }
    if s.dispatched.len() > e {
        assert(s.dispatched[e].command == Command::CommandExit);
    }
    assert forall|i: int| 0 <= i < s.queues.len() implies (#[trigger] s.seen[i]).len()
        <= s.dispatched.len() && s.workers_running[i] == (s.seen[i].len() <= e) by {
        assert(s.seen[i] + s.queues[i] == s.dispatched);
        assert(s.workers_running[i] == no_exit(s.seen[i]));
        assert forall|j: int| 0 <= j < s.seen[i].len() implies (#[trigger] s.seen[i][j])
            == s.dispatched[j] by {
            assert((s.seen[i] + s.queues[i])[j] == s.seen[i][j]);
        }
        if s.seen[i].len() > e {
            assert(s.seen[i][e] == s.dispatched[e]);
        }
    }
}

/// The first `Exit` stays where it entered, whatever enters after it.
proof fn lemma_exit_stays(s: PipelineState, e: int, step: Step, fmt: Formatter)
    requires
        exit_accepted_at(s, e),
    ensures
        exit_accepted_at(next(s, step, fmt), e),
{
    let t = next(s, step, fmt);
    assert(t.accepted.take(e) == s.accepted.take(e));
}

/// A pipeline that has been told to stop makes progress: while any task of
/// it still runs, some task can take a step.
pub proof fn law_exit_progress(s: PipelineState, e: int, fmt: Formatter) -> (step: Step)
    requires
        inv(s, fmt),
        exit_accepted_at(s, e),
        !drained(s),
    ensures
        !(step is Submit),
        enabled(s, step),
{
    lemma_exit_position(s, e, fmt);
    if s.dispatcher_running {
        Step::Dispatch
    } else {
        let i = choose|i: int| 0 <= i < s.workers_running.len() && #[trigger] s.workers_running[i];
        assert(s.seen[i] + s.queues[i] == s.dispatched);
        Step::Deliver(i)
    }
}

/// A pipeline that has been told to stop does stop. From the moment `Exit`
/// has entered, every step of a task uses up one of the steps that remain;
/// that number never falls below zero; and when none remains every task has
/// handled `Exit` and the wait group counts nobody. So whoever waits for the
/// group after `exit` waits for at most that many steps.
pub proof fn law_exit_drains(s: PipelineState, e: int, steps: Seq<Step>, fmt: Formatter)
    requires
        inv(s, fmt),
        exit_accepted_at(s, e),
        valid_run(s, steps, fmt),
    ensures
        task_steps(steps) + remaining(run(s, steps, fmt), e) == remaining(s, e),
        remaining(run(s, steps, fmt), e) >= 0,
        remaining(run(s, steps, fmt), e) == 0 ==> drained(run(s, steps, fmt)),
        drained(run(s, steps, fmt)) <==> run(s, steps, fmt).waiting == 0,
        exit_accepted_at(run(s, steps, fmt), e),
    decreases steps.len(),
{
    let t = run(s, steps, fmt);
    lemma_inv_run(s, steps, fmt);
    if steps.len() > 0 {
        let mid = run(s, steps.drop_last(), fmt);
        law_exit_drains(s, e, steps.drop_last(), fmt);
        lemma_inv_run(s, steps.drop_last(), fmt);
        lemma_exit_stays(mid, e, steps.last(), fmt);
        match steps.last() {
            Step::Submit(r) => {},
            Step::Dispatch => {},
            Step::Deliver(i) => {
                lemma_budget_update(mid.seen, e, i, mid.queues[i][0]);
            },
        }
    }
    lemma_exit_position(t, e, fmt);
    lemma_budget_bounds(t.seen, e);
    lemma_count_zero(t.workers_running);
    if remaining(t, e) == 0 {
        assert forall|i: int| 0 <= i < t.workers_running.len() implies !#[trigger] t.workers_running[i] by {
            assert(t.seen[i].len() == e + 1);
        }
    }
}

} // verus!
