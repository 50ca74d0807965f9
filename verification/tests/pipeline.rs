use fast_log::appender::{
    Command, ExecutionHint, FastLogRecord, Filter, Level, LogAppender, NoFilter, RawRecord,
    RecordFormat,
};
use fast_log::consts::LogSize;
use fast_log::fast_log::{
    exit, exit_record, flush, flush_record, init_custom_log, init_log, init_split_log, Appender,
    Delivery, Dispatcher, LogPipeline, Logger, LoggerSender, Worker,
};
use fast_log::plugin::file_split::Roll;
use fast_log::wait::FastLogWaitGroup;
use std::sync::{Arc, Mutex};
use std::time::SystemTime;

/// Renders a record as `<level number>|<target>|<args>`.
struct PlainFormat {}

impl RecordFormat for PlainFormat {
    fn do_format(&self, arg: &FastLogRecord) -> String {
        format!("{}|{}|{}\n", arg.level.as_number(), arg.target, arg.args)
    }
}

/// Keeps what it is given.
struct Recorder {
    seen: Arc<Mutex<Vec<String>>>,
}

impl LogAppender for Recorder {
    fn do_log(&self, record: &FastLogRecord) {
        self.seen.lock().unwrap().push(record.formated.clone());
    }
}

/// Drops the records of one target.
struct DropTarget {
    target: String,
}

impl Filter for DropTarget {
    fn filter(&self, record: &RawRecord) -> bool {
        record.target == self.target
    }
}

fn raw(level: Level, target: &str, args: &str) -> RawRecord {
    RawRecord {
        level,
        target: target.to_string(),
        args: args.to_string(),
        module: Some("app::main".to_string()),
        file: Some("main.rs".to_string()),
        line: Some(7),
    }
}

fn recorder(hint: ExecutionHint) -> (Appender, Arc<Mutex<Vec<String>>>) {
    let seen = Arc::new(Mutex::new(Vec::new()));
    (Appender::Custom(Box::new(Recorder { seen: seen.clone() }), hint), seen)
}

fn pipeline(appenders: Vec<Appender>, level: Level) -> LogPipeline {
    match init_custom_log(appenders, level, Box::new(NoFilter {}), Box::new(PlainFormat {})) {
        Ok(p) => p,
        Err(e) => panic!("{}", e.message()),
    }
}

/// Runs the dispatcher and the workers, in turn, until nothing is left to
/// do. Channels to the appenders are plain queues here.
fn drain(p: &mut LogPipeline) -> usize {
    let mut steps = 0;
    let mut queues: Vec<Vec<FastLogRecord>> = p.workers.iter().map(|_| Vec::new()).collect();
    while let Ok(data) = p.receiver.try_recv() {
        match p.dispatcher.dispatch(data) {
            Some(fan) => {
                steps += 1;
                for q in queues.iter_mut() {
                    q.push(copy_of(&fan.record));
                }
                if fan.last {
                    p.wait_group.done();
                }
            }
            None => {}
        }
    }
    for (w, q) in p.workers.iter_mut().zip(queues.iter()) {
        for msg in q {
            if !w.is_running() {
                break;
            }
            steps += 1;
            if let Delivery::Stop = w.handle(msg) {
                p.wait_group.done();
            }
        }
    }
    steps
}

fn copy_of(r: &FastLogRecord) -> FastLogRecord {
    FastLogRecord {
        command: r.command,
        level: r.level,
        target: r.target.clone(),
        args: r.args.clone(),
        module: r.module.clone(),
        file: r.file.clone(),
        line: r.line,
        now: r.now,
        formated: r.formated.clone(),
    }
}

#[test]
fn level_numbers() {
    assert_eq!(Level::Error.as_number(), 1);
    assert_eq!(Level::Warn.as_number(), 2);
    assert_eq!(Level::Info.as_number(), 3);
    assert_eq!(Level::Debug.as_number(), 4);
    assert_eq!(Level::Trace.as_number(), 5);
    for n in 1..=5 {
        assert_eq!(Level::from_number(n).map(|l| l.as_number()), Some(n));
    }
    assert_eq!(Level::from_number(0), None);
    assert_eq!(Level::from_number(6), None);
    assert_eq!(Level::from_number(-1), None);
}

#[test]
fn logger_starts_at_error() {
    let logger = Logger::new();
    assert_eq!(logger.get_level(), Level::Error);
}

#[test]
fn logger_keeps_the_level_it_was_set_to() {
    let mut logger = Logger::new();
    for l in [Level::Trace, Level::Warn, Level::Info, Level::Debug, Level::Error] {
        logger.set_level(l);
        assert_eq!(logger.get_level(), l);
    }
}

#[test]
fn logger_lets_the_more_severe_pass() {
    let mut logger = Logger::new();
    logger.set_level(Level::Info);
    assert!(logger.enabled(Level::Error));
    assert!(logger.enabled(Level::Warn));
    assert!(logger.enabled(Level::Info));
    assert!(!logger.enabled(Level::Debug));
    assert!(!logger.enabled(Level::Trace));
}

#[test]
fn accept_builds_the_record() {
    let mut logger = Logger::new();
    logger.set_level(Level::Info);
    let now = SystemTime::now();
    let r = logger.accept(&raw(Level::Warn, "db", "slow query"), false, now).expect("accepted");
    assert_eq!(r.command, Command::CommandRecord);
    assert_eq!(r.level, Level::Warn);
    assert_eq!(r.target, "db");
    assert_eq!(r.args, "slow query");
    assert_eq!(r.module, "app::main");
    assert_eq!(r.file, "main.rs");
    assert_eq!(r.line, Some(7));
    assert_eq!(r.now, now);
    assert_eq!(r.formated, "");
}

#[test]
fn accept_fills_in_what_is_missing() {
    let mut logger = Logger::new();
    logger.set_level(Level::Trace);
    let mut record = raw(Level::Debug, "t", "a");
    record.module = None;
    record.file = None;
    record.line = None;
    let r = logger.accept(&record, false, SystemTime::now()).expect("accepted");
    assert_eq!(r.module, "");
    assert_eq!(r.file, "");
    assert_eq!(r.line, None);
}

#[test]
fn accept_turns_down_what_is_too_verbose() {
    let mut logger = Logger::new();
    logger.set_level(Level::Info);
    assert!(logger.accept(&raw(Level::Debug, "t", "a"), false, SystemTime::now()).is_none());
    assert!(logger.accept(&raw(Level::Info, "t", "a"), false, SystemTime::now()).is_some());
}

#[test]
fn accept_turns_down_what_the_filter_dropped() {
    let mut logger = Logger::new();
    logger.set_level(Level::Trace);
    assert!(logger.accept(&raw(Level::Error, "t", "a"), true, SystemTime::now()).is_none());
}

#[test]
fn accept_takes_every_module() {
    let mut logger = Logger::new();
    logger.set_level(Level::Trace);
    let mut record = raw(Level::Error, "t", "a");
    record.module = Some("cogo::io::sys::select".to_string());
    let r = logger.accept(&record, false, SystemTime::now()).expect("accepted");
    assert_eq!(r.module, "cogo::io::sys::select");
    assert_eq!(r.command, Command::CommandRecord);
}

#[test]
fn log_sends_what_passes() {
    let (sender, receiver) = LoggerSender::new(Box::new(DropTarget { target: "noisy".to_string() }));
    let mut logger = Logger::new();
    logger.set_level(Level::Info);
    assert!(logger.log(Some(&sender), &raw(Level::Info, "db", "one")));
    assert!(!logger.log(Some(&sender), &raw(Level::Debug, "db", "two")));
    assert!(!logger.log(Some(&sender), &raw(Level::Error, "noisy", "three")));
    assert!(!logger.log(None, &raw(Level::Error, "db", "four")));
    assert!(logger.log(Some(&sender), &raw(Level::Error, "db", "five")));
    let got: Vec<String> = receiver.try_iter().map(|r| r.args).collect();
    assert_eq!(got, vec!["one".to_string(), "five".to_string()]);
}

#[test]
fn log_swallows_a_dead_pipeline() {
    let (sender, receiver) = LoggerSender::new(Box::new(NoFilter {}));
    drop(receiver);
    let logger = Logger::new();
    assert!(!logger.log(Some(&sender), &raw(Level::Error, "db", "lost")));
}

#[test]
fn sender_sends_in_order() {
    let (sender, receiver) = LoggerSender::new(Box::new(NoFilter {}));
    for c in [Command::CommandRecord, Command::CommandFlush, Command::CommandExit] {
        assert!(sender.send(FastLogRecord::control(c, SystemTime::now())).is_ok());
    }
    let got: Vec<Command> = receiver.try_iter().map(|r| r.command).collect();
    assert_eq!(got, vec![Command::CommandRecord, Command::CommandFlush, Command::CommandExit]);
}

#[test]
fn sender_hands_back_what_did_not_go_in() {
    let (sender, receiver) = LoggerSender::new(Box::new(NoFilter {}));
    drop(receiver);
    let now = SystemTime::now();
    let logger = {
        let mut l = Logger::new();
        l.set_level(Level::Trace);
        l
    };
    let record = logger.accept(&raw(Level::Warn, "db", "lost"), false, now).expect("accepted");
    match sender.send(record) {
        Ok(()) => panic!("nobody listens"),
        Err(e) => {
            assert_eq!(e.0.command, Command::CommandRecord);
            assert_eq!(e.0.level, Level::Warn);
            assert_eq!(e.0.target, "db");
            assert_eq!(e.0.args, "lost");
            assert_eq!(e.0.module, "app::main");
            assert_eq!(e.0.file, "main.rs");
            assert_eq!(e.0.line, Some(7));
            assert_eq!(e.0.now, now);
            assert_eq!(e.0.formated, "");
        }
    }
}

#[test]
fn sender_keeps_its_filter() {
    let (sender, _receiver) = LoggerSender::new(Box::new(DropTarget { target: "noisy".to_string() }));
    assert!(sender.filter.filter(&raw(Level::Info, "noisy", "a")));
    assert!(!sender.filter.filter(&raw(Level::Info, "db", "a")));
}

#[test]
fn appender_runs_as_declared() {
    let (light, _) = recorder(ExecutionHint::Lightweight);
    let (heavy, _) = recorder(ExecutionHint::BlockingIO);
    assert_eq!(light.hint(), ExecutionHint::Lightweight);
    assert_eq!(heavy.hint(), ExecutionHint::BlockingIO);
    assert_eq!(Appender::Console.hint(), ExecutionHint::BlockingIO);
    assert_eq!(Appender::File { path: "x.log".to_string() }.hint(), ExecutionHint::BlockingIO);
    let split = fast_log::plugin::file_split::FileSplitAppender::new("logs/", LogSize::KB(1), false, Vec::new())
        .ok()
        .expect("an appender");
    assert_eq!(Appender::FileSplit(split).hint(), ExecutionHint::BlockingIO);
}

#[test]
fn exit_without_a_pipeline_fails() {
    match exit(None) {
        Ok(()) => panic!("no pipeline"),
        Err(e) => assert_eq!(e.message(), "[fast_log] exit fail!"),
    }
}

#[test]
fn flush_without_a_pipeline_fails() {
    match flush(None) {
        Ok(()) => panic!("no pipeline"),
        Err(e) => assert_eq!(e.message(), "[fast_log] flush fail!"),
    }
}

#[test]
fn exit_sends_the_exit_record() {
    let (sender, receiver) = LoggerSender::new(Box::new(NoFilter {}));
    assert!(exit(Some(&sender)).is_ok());
    let r = receiver.try_recv().expect("a record");
    assert_eq!(r.command, Command::CommandExit);
    assert_eq!(r.level, Level::Info);
    assert_eq!(r.target, "");
    assert_eq!(r.args, "");
    assert_eq!(r.module, "");
    assert_eq!(r.file, "");
    assert_eq!(r.line, None);
    assert_eq!(r.formated, "");
    assert!(receiver.try_recv().is_err());
}

#[test]
fn flush_sends_the_flush_record() {
    let (sender, receiver) = LoggerSender::new(Box::new(NoFilter {}));
    assert!(flush(Some(&sender)).is_ok());
    assert!(flush(Some(&sender)).is_ok());
    let got: Vec<Command> = receiver.try_iter().map(|r| r.command).collect();
    assert_eq!(got, vec![Command::CommandFlush, Command::CommandFlush]);
}

#[test]
fn exit_and_flush_fail_only_without_a_pipeline() {
    let (sender, receiver) = LoggerSender::new(Box::new(NoFilter {}));
    drop(receiver);
    // nobody listens any more: the records are lost, and the caller is not told
    assert!(exit(Some(&sender)).is_ok());
    assert!(flush(Some(&sender)).is_ok());
}

#[test]
fn exit_record_is_exit_and_nothing_else() {
    let now = SystemTime::now();
    let r = exit_record(now);
    assert_eq!(r.command, Command::CommandExit);
    assert_eq!(r.level, Level::Info);
    assert_eq!(r.target, "");
    assert_eq!(r.args, "");
    assert_eq!(r.module, "");
    assert_eq!(r.file, "");
    assert_eq!(r.line, None);
    assert_eq!(r.now, now);
    assert_eq!(r.formated, "");
}

#[test]
fn flush_record_is_flush_and_nothing_else() {
    let now = SystemTime::now();
    let r = flush_record(now);
    assert_eq!(r.command, Command::CommandFlush);
    assert_eq!(r.level, Level::Info);
    assert_eq!(r.target, "");
    assert_eq!(r.args, "");
    assert_eq!(r.module, "");
    assert_eq!(r.file, "");
    assert_eq!(r.line, None);
    assert_eq!(r.now, now);
    assert_eq!(r.formated, "");
}

#[test]
fn pipeline_holds_the_given_filter_and_formatter() {
    let (a, _) = recorder(ExecutionHint::Lightweight);
    let p = match init_custom_log(
        vec![a],
        Level::Trace,
        Box::new(DropTarget { target: "noisy".to_string() }),
        Box::new(PlainFormat {}),
    ) {
        Ok(p) => p,
        Err(e) => panic!("{}", e.message()),
    };
    assert!(p.sender.filter.filter(&raw(Level::Info, "noisy", "a")));
    assert!(!p.sender.filter.filter(&raw(Level::Info, "db", "a")));
    let r = p.logger.accept(&raw(Level::Warn, "db", "slow"), false, SystemTime::now()).expect("accepted");
    assert_eq!(p.dispatcher.format.do_format(&r), "2|db|slow\n");
}

#[test]
fn init_custom_log_needs_an_appender() {
    match init_custom_log(Vec::new(), Level::Info, Box::new(NoFilter {}), Box::new(PlainFormat {})) {
        Ok(_) => panic!("a pipeline without appenders"),
        Err(e) => assert_eq!(e.message(), "[fast_log] appenders can not be empty!"),
    }
}

#[test]
fn init_custom_log_sets_up_one_worker_each() {
    let (a, _) = recorder(ExecutionHint::Lightweight);
    let (b, _) = recorder(ExecutionHint::BlockingIO);
    let p = pipeline(vec![Appender::Console, a, Appender::File { path: "x.log".to_string() }, b], Level::Debug);
    assert_eq!(p.logger.get_level(), Level::Debug);
    assert!(p.dispatcher.is_running());
    assert_eq!(p.workers.len(), 4);
    assert_eq!(p.wait_group.outstanding(), 5);
    assert!(!p.wait_group.is_drained());
    assert!(matches!(p.workers[0].appender(), Appender::Console));
    assert!(matches!(p.workers[1].appender(), Appender::Custom(..)));
    assert!(matches!(p.workers[2].appender(), Appender::File { .. }));
    assert!(matches!(p.workers[3].appender(), Appender::Custom(..)));
    assert_eq!(p.workers[0].hint(), ExecutionHint::BlockingIO);
    assert_eq!(p.workers[1].hint(), ExecutionHint::Lightweight);
    assert_eq!(p.workers[2].hint(), ExecutionHint::BlockingIO);
    assert_eq!(p.workers[3].hint(), ExecutionHint::BlockingIO);
    for w in &p.workers {
        assert!(w.is_running());
    }
}

#[test]
fn init_log_writes_to_one_file() {
    let p = init_log("test.log", Level::Info, None, false, Box::new(PlainFormat {})).ok().expect("a pipeline");
    assert_eq!(p.workers.len(), 1);
    assert_eq!(p.wait_group.outstanding(), 2);
    assert_eq!(p.logger.get_level(), Level::Info);
    match p.workers[0].appender() {
        Appender::File { path } => assert_eq!(path, "test.log"),
        _ => panic!("not a file"),
    }
}

#[test]
fn init_log_adds_the_console_in_debug_mode() {
    let filter: Box<dyn Filter> = Box::new(DropTarget { target: "noisy".to_string() });
    let p = init_log("test.log", Level::Trace, Some(filter), true, Box::new(PlainFormat {})).ok().expect("a pipeline");
    assert_eq!(p.workers.len(), 2);
    assert_eq!(p.wait_group.outstanding(), 3);
    assert!(matches!(p.workers[0].appender(), Appender::File { .. }));
    assert!(matches!(p.workers[1].appender(), Appender::Console));
    assert!(p.logger.log(Some(&p.sender), &raw(Level::Trace, "db", "in")));
    assert!(!p.logger.log(Some(&p.sender), &raw(Level::Trace, "noisy", "out")));
}

#[test]
fn init_split_log_sets_up_the_rolling_file() {
    let p = init_split_log("logs/", LogSize::MB(1), true, Level::Warn, None, true, b"old".to_vec(), Box::new(PlainFormat {}))
        .ok()
        .expect("a pipeline");
    assert_eq!(p.workers.len(), 2);
    assert_eq!(p.wait_group.outstanding(), 3);
    assert_eq!(p.logger.get_level(), Level::Warn);
    match p.workers[0].appender() {
        Appender::FileSplit(a) => {
            assert_eq!(a.dir_path(), "logs/");
            assert_eq!(a.max_split_bytes(), 1024 * 1024);
            assert!(a.zip_compress());
            assert_eq!(a.temp_data().as_slice(), b"old");
        }
        _ => panic!("not a rolling file"),
    }
    assert!(matches!(p.workers[1].appender(), Appender::Console));
}

#[test]
fn init_split_log_turns_a_file_name_down() {
    match init_split_log("logs/temp.log", LogSize::MB(1), false, Level::Warn, None, false, Vec::new(), Box::new(PlainFormat {})) {
        Ok(_) => panic!("accepted a file name"),
        Err(e) => assert_eq!(
            e.message(),
            "FileCompactionAppender only support new from path,for example: 'logs/xx/'"
        ),
    }
}

#[test]
fn dispatcher_formats_records_only() {
    let mut d = Dispatcher::new(Box::new(PlainFormat {}));
    let logger = {
        let mut l = Logger::new();
        l.set_level(Level::Trace);
        l
    };
    let r = logger.accept(&raw(Level::Warn, "db", "slow"), false, SystemTime::now()).expect("accepted");
    let fan = d.dispatch(r).expect("running");
    assert_eq!(fan.record.formated, "2|db|slow\n");
    assert_eq!(fan.record.command, Command::CommandRecord);
    assert_eq!(fan.record.args, "slow");
    assert!(!fan.last);
    let fan = d.dispatch(FastLogRecord::control(Command::CommandFlush, SystemTime::now())).expect("running");
    assert_eq!(fan.record.formated, "");
    assert_eq!(fan.record.command, Command::CommandFlush);
    assert!(!fan.last);
    assert!(d.is_running());
}

#[test]
fn dispatcher_stops_with_exit() {
    let mut d = Dispatcher::new(Box::new(PlainFormat {}));
    let fan = d.dispatch(FastLogRecord::control(Command::CommandExit, SystemTime::now())).expect("running");
    assert!(fan.last);
    assert_eq!(fan.record.command, Command::CommandExit);
    assert_eq!(fan.record.formated, "");
    assert!(!d.is_running());
    assert!(d.dispatch(FastLogRecord::control(Command::CommandRecord, SystemTime::now())).is_none());
    assert!(d.dispatch(FastLogRecord::control(Command::CommandExit, SystemTime::now())).is_none());
    assert!(!d.is_running());
}

#[test]
fn worker_hands_the_console_its_text() {
    let mut w = Worker::new(Appender::Console);
    let mut r = FastLogRecord::control(Command::CommandRecord, SystemTime::now());
    r.formated = "line\n".to_string();
    match w.handle(&r) {
        Delivery::Print(text) => assert_eq!(text, "line\n"),
        _ => panic!("not printed"),
    }
    assert!(w.is_running());
}

#[test]
fn worker_hands_the_file_its_bytes() {
    let mut w = Worker::new(Appender::File { path: "x.log".to_string() });
    let mut r = FastLogRecord::control(Command::CommandRecord, SystemTime::now());
    r.formated = "日志\n".to_string();
    match w.handle(&r) {
        Delivery::Append(bytes) => assert_eq!(bytes, "日志\n".as_bytes()),
        _ => panic!("not appended"),
    }
}

#[test]
fn worker_rolls_the_split_file() {
    let p = init_split_log("logs/", LogSize::B(4), false, Level::Info, None, false, b"full".to_vec(), Box::new(PlainFormat {}))
        .ok()
        .expect("a pipeline");
    let mut workers = p.workers;
    let w = &mut workers[0];
    let mut r = FastLogRecord::control(Command::CommandRecord, SystemTime::now());
    r.formated = "new\n".to_string();
    match w.handle(&r) {
        Delivery::Split(s) => {
            match s.roll {
                Roll::CopyThenTruncate { data, .. } => assert_eq!(data, b"full"),
                _ => panic!("no rotation"),
            }
            assert_eq!(s.bytes, b"new\n");
            w.written(&s.bytes, Some(4));
        }
        _ => panic!("not split"),
    }
    match w.appender() {
        Appender::FileSplit(a) => assert_eq!(a.temp_data().as_slice(), b"new\n"),
        _ => panic!("not a rolling file"),
    }
}

#[test]
fn worker_written_is_nothing_to_other_appenders() {
    let mut w = Worker::new(Appender::Console);
    w.written(b"abc", Some(3));
    assert!(matches!(w.appender(), Appender::Console));
    assert!(w.is_running());
}

#[test]
fn worker_stops_with_exit() {
    let (a, seen) = recorder(ExecutionHint::Lightweight);
    let mut w = Worker::new(a);
    let mut r = FastLogRecord::control(Command::CommandRecord, SystemTime::now());
    r.formated = "one".to_string();
    assert!(matches!(w.handle(&r), Delivery::Handled));
    assert!(matches!(w.handle(&FastLogRecord::control(Command::CommandExit, SystemTime::now())), Delivery::Stop));
    assert!(!w.is_running());
    // nothing is delivered after Exit
    assert!(matches!(w.handle(&r), Delivery::Stop));
    assert_eq!(*seen.lock().unwrap(), vec!["one".to_string()]);
}

#[test]
fn worker_gives_flush_to_the_appender() {
    let (a, seen) = recorder(ExecutionHint::Lightweight);
    let mut w = Worker::new(a);
    assert!(matches!(w.handle(&FastLogRecord::control(Command::CommandFlush, SystemTime::now())), Delivery::Handled));
    assert!(w.is_running());
    assert_eq!(*seen.lock().unwrap(), vec![String::new()]);
}

#[test]
fn record_is_delivered_before_exit() {
    let (a, seen) = recorder(ExecutionHint::Lightweight);
    let mut p = pipeline(vec![a], Level::Info);
    assert!(p.logger.log(Some(&p.sender), &raw(Level::Info, "db", "last words")));
    assert!(exit(Some(&p.sender)).is_ok());
    let first = p.receiver.try_recv().expect("the record");
    let fan = p.dispatcher.dispatch(first).expect("running");
    assert!(!fan.last);
    let second = p.receiver.try_recv().expect("exit");
    let end = p.dispatcher.dispatch(second).expect("running");
    assert!(end.last);
    p.wait_group.done();
    assert!(seen.lock().unwrap().is_empty());
    assert!(matches!(p.workers[0].handle(&fan.record), Delivery::Handled));
    assert_eq!(*seen.lock().unwrap(), vec!["3|db|last words\n".to_string()]);
    assert!(matches!(p.workers[0].handle(&end.record), Delivery::Stop));
    p.wait_group.done();
    assert_eq!(*seen.lock().unwrap(), vec!["3|db|last words\n".to_string()]);
    assert!(p.wait_group.is_drained());
}

#[test]
fn every_producer_keeps_its_order_at_every_appender() {
    let (a, seen_a) = recorder(ExecutionHint::Lightweight);
    let (b, seen_b) = recorder(ExecutionHint::BlockingIO);
    let mut p = pipeline(vec![a, b], Level::Trace);
    // three producers, interleaved unevenly
    let mut next = [0usize; 3];
    let turns = [0, 1, 1, 2, 0, 2, 2, 1, 0, 0, 1, 2, 2, 2, 0, 1, 1, 0];
    for who in turns {
        let text = format!("{}", next[who]);
        next[who] += 1;
        assert!(p.logger.log(Some(&p.sender), &raw(Level::Info, &format!("p{}", who), &text)));
    }
    assert!(exit(Some(&p.sender)).is_ok());
    drain(&mut p);
    let a = seen_a.lock().unwrap().clone();
    let b = seen_b.lock().unwrap().clone();
    assert_eq!(a.len(), turns.len());
    assert_eq!(a, b);
    for who in 0..3 {
        let prefix = format!("3|p{}|", who);
        let stream: Vec<String> = a.iter().filter(|l| l.starts_with(&prefix)).cloned().collect();
        let expected: Vec<String> = (0..next[who]).map(|k| format!("3|p{}|{}\n", who, k)).collect();
        assert_eq!(stream, expected);
    }
}

#[test]
fn exit_drains_the_pipeline() {
    let (a, seen_a) = recorder(ExecutionHint::Lightweight);
    let mut p = pipeline(vec![a, Appender::Console, Appender::File { path: "x.log".to_string() }], Level::Info);
    for i in 0..10 {
        assert!(p.logger.log(Some(&p.sender), &raw(Level::Info, "t", &format!("{}", i))));
    }
    assert!(flush(Some(&p.sender)).is_ok());
    assert!(exit(Some(&p.sender)).is_ok());
    // whatever comes after Exit is never passed on
    assert!(p.logger.log(Some(&p.sender), &raw(Level::Info, "t", "late")));
    assert_eq!(p.wait_group.outstanding(), 4);
    let steps = drain(&mut p);
    // 12 messages: once through the dispatcher, once through each worker
    assert_eq!(steps, 12 * 4);
    assert!(p.wait_group.is_drained());
    assert!(!p.dispatcher.is_running());
    for w in &p.workers {
        assert!(!w.is_running());
    }
    let seen = seen_a.lock().unwrap();
    assert_eq!(seen.len(), 11);
    assert_eq!(seen[0], "3|t|0\n");
    assert_eq!(seen[9], "3|t|9\n");
    assert_eq!(seen[10], "");
}

#[test]
fn wait_group_counts_down_to_zero() {
    let mut g = FastLogWaitGroup::new();
    assert!(g.is_drained());
    g.add();
    g.add();
    assert_eq!(g.outstanding(), 2);
    assert!(!g.is_drained());
    g.done();
    assert_eq!(g.outstanding(), 1);
    g.done();
    assert!(g.is_drained());
    g.done();
    assert_eq!(g.outstanding(), 0);
    let g = FastLogWaitGroup::with_tasks(3);
    assert_eq!(g.outstanding(), 3);
}
