//! The front of the pipeline and its tasks: the logger that admits records,
//! the dispatcher that formats and fans out, the workers that deliver, and
//! the set-up that puts them together.
//!
//! Nothing here waits or spawns. A task is a value with a step function: the
//! program that embeds the crate receives a record from a channel, hands it
//! to the step, and carries out what the step returns.

use vstd::prelude::*;
use vstd::string::StringExecFns;
use crate::appender::{
    record_bytes, Command, ExecutionHint, FastLogRecord, Filter, Level, LogAppender, NoFilter,
    RawRecord, RecordFormat, RecordView,
};
use crate::consts::LogSize;
use crate::error::LogError;
use crate::plugin::file_split::{logged, taken, valid_dir, FileSplitAppender, SplitWrite};
use crate::protocol::{init, running_tasks, still_running};
use crate::wait::FastLogWaitGroup;

verus! {

/// The producers' end of the ingest channel, with the filter that guards it.
pub struct LoggerSender {
    pub filter: Box<dyn Filter>,
    pub inner: crossbeam_channel::Sender<FastLogRecord>,
}

impl LoggerSender {
    /// A fresh ingest channel: the guarded sending end, and the receiving
    /// end for the dispatcher.
    pub fn new(filter: Box<dyn Filter>) -> (ends: (
        LoggerSender,
        crossbeam_channel::Receiver<FastLogRecord>,
    ))
        ensures
            ends.0.filter === filter,
    {
        let (s, r) = crossbeam::channel::unbounded();
        (LoggerSender { inner: s, filter }, r)
    }

    /// Puts a record into the ingest channel. This fails once the
    /// dispatcher's end is gone; whether it is, only the other side knows.
    /// A record that did not go in comes back in the error.
    pub fn send(&self, data: FastLogRecord) -> (sent: Result<
        (),
        crossbeam_channel::SendError<FastLogRecord>,
    >)
        ensures
            sent matches Err(e) ==> e.0 == data,
    {
        self.inner.send(data)
    }
}

/// The severity threshold in front of the pipeline: the most verbose level
/// that passes.
#[derive(Debug)]
pub struct Logger {
    level: Level,
}

impl Logger {
    /// The most verbose level that passes.
    pub closed spec fn level(&self) -> Level {
        self.level
    }

    /// Whether a record of this level passes the threshold.
    pub open spec fn lets_pass(&self, level: Level) -> bool {
        level.rank() <= self.level().rank()
    }

    /// Whether a record enters the pipeline, given what the filter said.
    pub open spec fn accepts(&self, record: RawRecord, dropped: bool) -> bool {
        &&& self.lets_pass(record.level)
        &&& !dropped
    }

    /// A logger that lets only errors pass.
    pub fn new() -> (logger: Logger)
        ensures
            logger.level() == Level::Error,
    {
        Logger { level: Level::Error }
    }

    /// From now on `level` is the most verbose level that passes.
    pub fn set_level(&mut self, level: Level)
        ensures
            final(self).level() == level,
    {
        self.level = level;
    }

    /// The most verbose level that passes.
    pub fn get_level(&self) -> (level: Level)
        ensures
            level == self.level(),
    {
        self.level
    }

    /// Whether a record of this level passes the threshold.
    pub fn enabled(&self, level: Level) -> (b: bool)
        ensures
            b == self.lets_pass(level),
    {
        level.as_number() <= self.level.as_number()
    }

    /// The record that enters the pipeline for what a call site reported at
    /// time `now`, if any does. `dropped` is the filter's word.
    pub fn accept(&self, record: &RawRecord, dropped: bool, now: std::time::SystemTime) -> (r:
        Option<FastLogRecord>)
        ensures
            match r {
                Some(accepted) => {
                    &&& self.accepts(*record, dropped)
                    &&& accepted@ == RecordView::payload(*record, now)
                },
                None => !self.accepts(*record, dropped),
            },
    {
        if !self.enabled(record.level) || dropped {
            return None;
        }
        Some(FastLogRecord::payload(record, now))
    }

    /// Hands what a call site reported to the pipeline, if the threshold, the
    /// filter and the pipeline take it. Says whether the record went in;
    /// no failure reaches the caller.
    pub fn log(&self, sender: Option<&LoggerSender>, record: &RawRecord) -> (sent: bool)
        ensures
            sent ==> sender is Some && self.lets_pass(record.level),
    {
        match sender {
            Some(s) => {
                let dropped = s.filter.filter(record);
                match self.accept(record, dropped, std::time::SystemTime::now()) {
                    Some(accepted) => {
                        match s.send(accepted) {
                            Ok(()) => true,
                            Err(_) => false,
                        }
                    },
                    None => false,
                }
            },
            None => false,
        }
    }
}

/// The level for a new pipeline, and its ingest channel.
fn set_log(logger: &mut Logger, level: Level) -> (ends: (
    crossbeam_channel::Sender<FastLogRecord>,
    crossbeam_channel::Receiver<FastLogRecord>,
))
    ensures
        final(logger).level() == level,
{
    logger.set_level(level);
    crossbeam::channel::unbounded()
}

/// A destination, known by its kind.
pub enum Appender {
    /// The console.
    Console,
    /// One file that grows.
    File { path: String },
    /// A file that is rolled over at a size.
    FileSplit(FileSplitAppender),
    /// Anything else that takes records, with the way its task should run,
    /// declared when it is registered.
    Custom(Box<dyn LogAppender>, ExecutionHint),
}

impl Appender {
    /// How the task that serves this appender should run: the appenders
    /// that write to a device block, the others run as they were declared.
    pub open spec fn declared_hint(self) -> ExecutionHint {
        match self {
            Appender::Custom(_, hint) => hint,
            _ => ExecutionHint::BlockingIO,
        }
    }

    /// How the task that serves this appender should run: the appenders
    /// that write to a device block, the others run as they were declared.
    pub fn hint(&self) -> (h: ExecutionHint)
        ensures
            h == self.declared_hint(),
    {
        match self {
            Appender::Custom(_, hint) => *hint,
            _ => ExecutionHint::BlockingIO,
        }
    }
}

/// What a worker has done with a message, or wants done.
pub enum Delivery {
    /// The message was `Exit`, or one that came after it: the worker has
    /// stopped, and its place in the wait group is to be given up.
    Stop,
    /// The appender took the record itself.
    Handled,
    /// Print this text on the console.
    Print(String),
    /// Append these bytes to the file.
    Append(Vec<u8>),
    /// Roll the file over as said, then append.
    Split(SplitWrite),
}

/// The task that serves one appender.
pub struct Worker {
    appender: Appender,
    hint: ExecutionHint,
    running: bool,
}

impl Worker {
    /// The appender that the worker serves, in its present state.
    pub closed spec fn serves(&self) -> Appender {
        self.appender
    }

    /// How the worker's task should run.
    pub closed spec fn scheduling(&self) -> ExecutionHint {
        self.hint
    }

    /// Whether the worker has not yet handled `Exit`.
    pub closed spec fn running(&self) -> bool {
        self.running
    }

    /// A worker as it stands before its first message.
    pub open spec fn fresh(&self, appender: Appender) -> bool {
        &&& self.running()
        &&& self.serves() == appender
        &&& self.scheduling() == appender.declared_hint()
    }

    /// A running worker for `appender`.
    pub fn new(appender: Appender) -> (w: Worker)
        ensures
            w.fresh(appender),
    {
        let hint = appender.hint();
        Worker { appender, hint, running: true }
    }

    /// The appender that the worker serves.
    pub fn appender(&self) -> (a: &Appender)
        ensures
            *a == self.serves(),
    {
        &self.appender
    }

    /// How the worker's task should run.
    pub fn hint(&self) -> (h: ExecutionHint)
        ensures
            h == self.scheduling(),
    {
        self.hint
    }

    /// Whether the worker has not yet handled `Exit`.
    pub fn is_running(&self) -> (b: bool)
        ensures
            b == self.running(),
    {
        self.running
    }

    /// One step of the worker: `Exit` stops it; every other message goes to
    /// the appender. After `Exit` nothing is delivered any more.
    pub fn handle(&mut self, msg: &FastLogRecord) -> (d: Delivery)
        ensures
            final(self).scheduling() == old(self).scheduling(),
            final(self).running() == still_running(old(self).running(), msg@),
            d is Stop <==> !final(self).running(),
            final(self).running() ==> match old(self).serves() {
                Appender::Console => {
                    &&& d matches Delivery::Print(text)
                    &&& text@ == msg@.formated
                    &&& final(self).serves() == old(self).serves()
                },
                Appender::File { path } => {
                    &&& d matches Delivery::Append(bytes)
                    &&& bytes@ == record_bytes(msg@)
                    &&& final(self).serves() == old(self).serves()
                },
                Appender::FileSplit(before) => {
                    &&& d matches Delivery::Split(w)
                    &&& final(self).serves() matches Appender::FileSplit(after)
                    &&& logged(before, after, msg@, w)
                },
                Appender::Custom(a, hint) => {
                    &&& d is Handled
                    &&& final(self).serves() == old(self).serves()
                },
            },
            !final(self).running() ==> final(self).serves() == old(self).serves(),
    {
        if !self.running {
            return Delivery::Stop;
        }
        if msg.is_exit() {
            self.running = false;
            return Delivery::Stop;
        }
        match &mut self.appender {
            Appender::Console => Delivery::Print(msg.formated.clone()),
            Appender::File { path } => Delivery::Append(msg.text_bytes()),
            Appender::FileSplit(split) => Delivery::Split(split.do_log(msg)),
            Appender::Custom(a, _) => {
                a.do_log(msg);
                Delivery::Handled
            },
        }
    }

    /// Takes note of what a write to the rolling file took of `data`. A
    /// worker for any other appender has nothing to note.
    pub fn written(&mut self, data: &[u8], written: Option<usize>)
        ensures
            final(self).scheduling() == old(self).scheduling(),
            final(self).running() == old(self).running(),
            match old(self).serves() {
                Appender::FileSplit(before) => {
                    &&& final(self).serves() matches Appender::FileSplit(after)
                    &&& after.same_settings(&before)
                    &&& after.mirror() == before.mirror() + taken(data@, written)
                },
                _ => final(self).serves() == old(self).serves(),
            },
    {
        match &mut self.appender {
            Appender::FileSplit(split) => split.written(data, written),
            _ => {},
        }
    }
}

/// What the dispatcher sends to every appender for one record.
pub struct Fanout {
    /// The record as every appender receives it.
    pub record: FastLogRecord,
    /// Whether this is the last message: the dispatcher has stopped, and its
    /// place in the wait group is to be given up.
    pub last: bool,
}

/// The task that formats each record once and passes it to every appender.
pub struct Dispatcher {
    /// The formatter that gives every payload its text.
    pub format: Box<dyn RecordFormat>,
    /// Whether `Exit` has not yet been passed on.
    pub running: bool,
}

impl Dispatcher {
    /// Whether the dispatcher has not yet passed on `Exit`.
    pub open spec fn running(&self) -> bool {
        self.running
    }

    /// A running dispatcher that formats with `format`.
    pub fn new(format: Box<dyn RecordFormat>) -> (d: Dispatcher)
        ensures
            d.running(),
            d.format === format,
    {
        Dispatcher { format, running: true }
    }

    /// Whether the dispatcher has not yet passed on `Exit`.
    pub fn is_running(&self) -> (b: bool)
        ensures
            b == self.running(),
    {
        self.running
    }

    /// One step of the dispatcher: a payload gets its text, a command passes
    /// as it came, and `Exit` is the last thing passed on. After `Exit`
    /// nothing is passed on any more.
    pub fn dispatch(&mut self, data: FastLogRecord) -> (out: Option<Fanout>)
        ensures
            final(self).running() == still_running(old(self).running(), data@),
            *final(self) === (Dispatcher {
                running: still_running(old(self).running(), data@),
                ..*old(self)
            }),
            match out {
                Some(fan) => {
                    &&& old(self).running()
                    &&& fan.last == (data@.command == Command::CommandExit)
                    &&& exists|text: Seq<char>| fan.record@ == data@.formatted_with(text)
                },
                None => !old(self).running(),
            },
    {
        if !self.running {
            return None;
        }
        let text = if data.command == Command::CommandRecord {
            self.format.do_format(&data)
        } else {
            String::new()
        };
        let last = data.is_exit();
        if last {
            self.running = false;
        }
        let record = data.with_text(text);
        Some(Fanout { record, last })
    }
}

/// A pipeline, set up and not yet running: what each task of the program
/// needs to start.
pub struct LogPipeline {
    /// The logger, at the level asked for.
    pub logger: Logger,
    /// The producers' end of the ingest channel.
    pub sender: LoggerSender,
    /// The dispatcher's end of the ingest channel.
    pub receiver: crossbeam_channel::Receiver<FastLogRecord>,
    pub dispatcher: Dispatcher,
    /// One worker for each appender, in the order given.
    pub workers: Vec<Worker>,
    /// Waits for the dispatcher and for every worker.
    pub wait_group: FastLogWaitGroup,
}

impl LogPipeline {
    /// A pipeline as it stands before its first record: everything runs, the
    /// workers serve `appenders` in order, and the wait group waits for all.
    pub open spec fn fresh(&self, appenders: Seq<Appender>, level: Level) -> bool {
        &&& self.logger.level() == level
        &&& self.dispatcher.running()
        &&& self.workers@.len() == appenders.len()
        &&& forall|i: int|
            0 <= i < appenders.len() ==> (#[trigger] self.workers@[i]).fresh(appenders[i])
        &&& self.wait_group.count() == appenders.len() + 1
    }
}

/// A pipeline as it is set up is the first state of the protocol: the
/// dispatcher and every worker run, and the wait group counts them all.
pub proof fn law_fresh_pipeline_is_initial(p: LogPipeline, appenders: Seq<Appender>, level: Level)
    requires
        p.fresh(appenders, level),
    ensures
        ({
            let s = init(appenders.len());
            &&& s.dispatcher_running == p.dispatcher.running()
            &&& s.workers_running.len() == p.workers@.len()
            &&& forall|i: int|
                0 <= i < appenders.len() ==> s.workers_running[i] == (
                #[trigger] p.workers@[i]).running()
            &&& s.waiting == p.wait_group.count()
            &&& running_tasks(s) == p.wait_group.count()
        }),
{
    crate::protocol::lemma_inv_init(appenders.len(), |r: RecordView| r.formated);
    assert forall|i: int| 0 <= i < appenders.len() implies init(
        appenders.len(),
    ).workers_running[i] == (#[trigger] p.workers@[i]).running() by {
        assert(p.workers@[i].fresh(appenders[i]));
    }
}

/// One running worker for each appender, in the order given.
fn staff(appenders: Vec<Appender>) -> (workers: Vec<Worker>)
    ensures
        workers@.len() == appenders@.len(),
        forall|i: int| 0 <= i < appenders@.len() ==> (#[trigger] workers@[i]).fresh(appenders@[i]),
{
    let total: usize = appenders.len();
    let ghost given = appenders@;
    let mut rest = appenders;
    let mut reversed: Vec<Worker> = Vec::new();
    while rest.len() > 0
        invariant
            given.len() == total,
            rest@.len() + reversed@.len() == total,
            rest@ == given.take(rest@.len() as int),
            forall|j: int|
                0 <= j < reversed@.len() ==> (#[trigger] reversed@[j]).fresh(
                    given[total - 1 - j],
                ),
        decreases rest@.len(),
    {
        let ghost before = rest@;
        match rest.pop() {
            Some(a) => {
                assert(a == given[before.len() - 1]);
                assert(rest@ == given.take(rest@.len() as int));
                reversed.push(Worker::new(a));
            },
            None => {},
        }
    }
    let mut workers: Vec<Worker> = Vec::new();
    while reversed.len() > 0
        invariant
            given.len() == total,
            reversed@.len() + workers@.len() == total,
            forall|j: int|
                0 <= j < reversed@.len() ==> (#[trigger] reversed@[j]).fresh(
                    given[total - 1 - j],
                ),
            forall|i: int|
                0 <= i < workers@.len() ==> (#[trigger] workers@[i]).fresh(given[i]),
        decreases reversed@.len(),
    {
        let ghost before = reversed@;
        match reversed.pop() {
            Some(w) => {
                assert(w == before[before.len() - 1]);
                workers.push(w);
            },
            None => {},
        }
    }
    workers
}

/// Sets up a pipeline for the given appenders, with the given filter in front
/// and the given formatter in the dispatcher. A pipeline without appenders
/// is an error, and nothing is set up for it.
pub fn init_custom_log(
    appenders: Vec<Appender>,
    level: Level,
    filter: Box<dyn Filter>,
    format: Box<dyn RecordFormat>,
) -> (r: Result<LogPipeline, LogError>)
    requires
        appenders.len() < usize::MAX,
    ensures
        match r {
            Ok(p) => {
                &&& appenders.len() > 0
                &&& p.fresh(appenders@, level)
                &&& p.sender.filter === filter
                &&& p.dispatcher.format === format
            },
            Err(e) => appenders.len() == 0 && e.msg() == "[fast_log] appenders can not be empty!"@,
        },
{
    if appenders.len() == 0 {
        return Err(LogError::from("[fast_log] appenders can not be empty!"));
    }
    let total: usize = appenders.len();
    let workers = staff(appenders);
    let mut logger = Logger::new();
    let (s, receiver) = set_log(&mut logger, level);
    Ok(
        LogPipeline {
            logger,
            sender: LoggerSender { inner: s, filter },
            receiver,
            dispatcher: Dispatcher { format, running: true },
            workers,
            wait_group: FastLogWaitGroup::with_tasks(total + 1),
        },
    )
}

/// Sets up a pipeline that writes to one file, and to the console as well
/// where `debug_mode` is set. Without a filter of the caller's, every record
/// passes.
pub fn init_log(
    log_file_path: &str,
    level: Level,
    filter: Option<Box<dyn Filter>>,
    debug_mode: bool,
    format: Box<dyn RecordFormat>,
) -> (r: Result<LogPipeline, LogError>)
    ensures
        r matches Ok(p) && {
            &&& p.logger.level() == level
            &&& p.dispatcher.running()
            &&& p.workers@.len() == (if debug_mode {
                2int
            } else {
                1int
            })
            &&& p.wait_group.count() == p.workers@.len() + 1
            &&& filter matches Some(f) ==> p.sender.filter === f
            &&& p.dispatcher.format === format
            &&& p.workers@[0].running()
            &&& p.workers@[0].scheduling() == ExecutionHint::BlockingIO
            &&& p.workers@[0].serves() matches Appender::File { path }
            &&& path@ == log_file_path@
            &&& debug_mode ==> {
                &&& p.workers@[1].running()
                &&& p.workers@[1].scheduling() == ExecutionHint::BlockingIO
                &&& p.workers@[1].serves() is Console
            }
        },
{
    let mut appenders: Vec<Appender> = Vec::new();
    appenders.push(Appender::File { path: String::from_str(log_file_path) });
    if debug_mode {
        appenders.push(Appender::Console);
    }
    let ghost given = appenders@;
    let total: usize = appenders.len();
    let workers = staff(appenders);
    assert(workers@[0].fresh(given[0]));
    assert(debug_mode ==> workers@[1].fresh(given[1]));
    let mut logger = Logger::new();
    let (s, receiver) = set_log(&mut logger, level);
    let sender = match filter {
        Some(f) => LoggerSender { inner: s, filter: f },
        None => LoggerSender { inner: s, filter: Box::new(NoFilter {}) },
    };
    Ok(
        LogPipeline {
            logger,
            sender,
            receiver,
            dispatcher: Dispatcher { format, running: true },
            workers,
            wait_group: FastLogWaitGroup::with_tasks(total + 1),
        },
    )
}

/// Sets up a pipeline that writes to a rolling file in `log_dir_path`, and
/// to the console as well where `allow_console_log` is set. `existing` is
/// what the active file holds when the pipeline takes it over. A path that
/// names something other than a directory is turned down, and nothing is
/// set up.
pub fn init_split_log(
    log_dir_path: &str,
    max_temp_size: LogSize,
    allow_zip_compress: bool,
    level: Level,
    filter: Option<Box<dyn Filter>>,
    allow_console_log: bool,
    existing: Vec<u8>,
    format: Box<dyn RecordFormat>,
) -> (r: Result<LogPipeline, LogError>)
    requires
        max_temp_size.bytes() <= usize::MAX,
    ensures
        match r {
            Ok(p) => {
                &&& valid_dir(log_dir_path@)
                &&& p.logger.level() == level
                &&& p.dispatcher.running()
                &&& p.workers@.len() == (if allow_console_log {
                    2int
                } else {
                    1int
                })
                &&& p.wait_group.count() == p.workers@.len() + 1
                &&& filter matches Some(f) ==> p.sender.filter === f
                &&& p.dispatcher.format === format
                &&& p.workers@[0].running()
                &&& p.workers@[0].scheduling() == ExecutionHint::BlockingIO
                &&& p.workers@[0].serves() matches Appender::FileSplit(a)
                &&& a.mirror() == existing@
                &&& a.threshold() == max_temp_size.bytes()
                &&& a.dir() == log_dir_path@
                &&& a.compress() == allow_zip_compress
                &&& allow_console_log ==> {
                    &&& p.workers@[1].running()
                    &&& p.workers@[1].scheduling() == ExecutionHint::BlockingIO
                    &&& p.workers@[1].serves() is Console
                }
            },
            Err(e) => {
                &&& !valid_dir(log_dir_path@)
                &&& e.msg()
                    == "FileCompactionAppender only support new from path,for example: 'logs/xx/'"@
            },
        },
{
    let split = match FileSplitAppender::new(
        log_dir_path,
        max_temp_size,
        allow_zip_compress,
        existing,
    ) {
        Ok(a) => a,
        Err(e) => {
            return Err(e);
        },
    };
    let mut appenders: Vec<Appender> = Vec::new();
    appenders.push(Appender::FileSplit(split));
    if allow_console_log {
        appenders.push(Appender::Console);
    }
    let ghost given = appenders@;
    let total: usize = appenders.len();
    let workers = staff(appenders);
    assert(workers@[0].fresh(given[0]));
    assert(allow_console_log ==> workers@[1].fresh(given[1]));
    let mut logger = Logger::new();
    let (s, receiver) = set_log(&mut logger, level);
    let sender = match filter {
        Some(f) => LoggerSender { inner: s, filter: f },
        None => LoggerSender { inner: s, filter: Box::new(NoFilter {}) },
    };
    Ok(
        LogPipeline {
            logger,
            sender,
            receiver,
            dispatcher: Dispatcher { format, running: true },
            workers,
            wait_group: FastLogWaitGroup::with_tasks(total + 1),
        },
    )
}

/// The record that asks the pipeline to stop: `Exit` at time `now`, and
/// nothing else.
pub fn exit_record(now: std::time::SystemTime) -> (r: FastLogRecord)
    ensures
        r@ == RecordView::control(Command::CommandExit, now),
{
    FastLogRecord::control(Command::CommandExit, now)
}

/// The record that asks every appender to make its writes durable: `Flush`
/// at time `now`, and nothing else.
pub fn flush_record(now: std::time::SystemTime) -> (r: FastLogRecord)
    ensures
        r@ == RecordView::control(Command::CommandFlush, now),
{
    FastLogRecord::control(Command::CommandFlush, now)
}

/// Asks the pipeline to stop: sends the exit record after everything sent so
/// far, and returns at once. Only without a pipeline the caller is told of
/// a failure; a record that the pipeline no longer takes is lost in
/// silence, as every record is.
pub fn exit(sender: Option<&LoggerSender>) -> (r: Result<(), LogError>)
    ensures
        r is Err <==> sender is None,
        r matches Err(e) ==> e.msg() == "[fast_log] exit fail!"@,
{
    match sender {
        Some(s) => {
            let _ = s.send(exit_record(std::time::SystemTime::now()));
            Ok(())
        },
        None => Err(LogError::from("[fast_log] exit fail!")),
    }
}

/// Asks every appender to make its writes durable: sends the flush record
/// after everything sent so far. Only without a pipeline the caller is told
/// of a failure.
pub fn flush(sender: Option<&LoggerSender>) -> (r: Result<(), LogError>)
    ensures
        r is Err <==> sender is None,
        r matches Err(e) ==> e.msg() == "[fast_log] flush fail!"@,
{
    match sender {
        Some(s) => {
            let _ = s.send(flush_record(std::time::SystemTime::now()));
            Ok(())
        },
        None => Err(LogError::from("[fast_log] flush fail!")),
    }
}

} // verus!
