//! Records, commands and the capabilities that the pipeline is built from.

use vstd::prelude::*;
use vstd::string::StrSliceExecFns;

verus! {

/// What a record asks of the pipeline. `CommandExit` is the last message that
/// any task handles.
#[derive(Clone, Copy, Debug, PartialEq, Eq, Structural)]
pub enum Command {
    CommandRecord,
    CommandExit,
    CommandFlush,
}

/// Severity, from the most severe (`Error`) to the most verbose (`Trace`).
#[derive(Clone, Copy, Debug, PartialEq, Eq, Structural)]
pub enum Level {
    Error,
    Warn,
    Info,
    Debug,
    Trace,
}

impl Level {
    /// The number of the level: 1 for `Error` up to 5 for `Trace`.
    pub open spec fn rank(self) -> int {
        match self {
            Level::Error => 1,
            Level::Warn => 2,
            Level::Info => 3,
            Level::Debug => 4,
            Level::Trace => 5,
        }
    }

    /// The number of the level: 1 for `Error` up to 5 for `Trace`.
    pub fn as_number(&self) -> (n: i32)
        ensures
            n == self.rank(),
    {
        match self {
            Level::Error => 1,
            Level::Warn => 2,
            Level::Info => 3,
            Level::Debug => 4,
            Level::Trace => 5,
        }
    }

    /// The level with the given number, if there is one.
    pub fn from_number(n: i32) -> (level: Option<Level>)
        ensures
            match level {
                Some(l) => l.rank() == n,
                None => n < 1 || n > 5,
            },
    {
        if n == 1 {
            Some(Level::Error)
        } else if n == 2 {
            Some(Level::Warn)
        } else if n == 3 {
            Some(Level::Info)
        } else if n == 4 {
            Some(Level::Debug)
        } else if n == 5 {
            Some(Level::Trace)
        } else {
            None
        }
    }
}

/// How the task that serves an appender should be scheduled. An appender
/// declares it once, when it is registered.
#[derive(Clone, Copy, Debug, PartialEq, Eq, Structural)]
pub enum ExecutionHint {
    /// Writes may block on a device: give it a thread of its own.
    BlockingIO,
    /// Cheap and cooperative: a lightweight task will do.
    Lightweight,
}

/// What a call site reports, before the pipeline has accepted it.
pub struct RawRecord {
    pub level: Level,
    pub target: String,
    pub args: String,
    pub module: Option<String>,
    pub file: Option<String>,
    pub line: Option<u32>,
}

/// One log event or control command on its way through the pipeline.
pub struct FastLogRecord {
    pub command: Command,
    pub level: Level,
    pub target: String,
    pub args: String,
    pub module: String,
    pub file: String,
    pub line: Option<u32>,
    pub now: std::time::SystemTime,
    pub formated: String,
}

/// A record as a mathematical value.
pub struct RecordView {
    pub command: Command,
    pub level: Level,
    pub target: Seq<char>,
    pub args: Seq<char>,
    pub module: Seq<char>,
    pub file: Seq<char>,
    pub line: Option<u32>,
    pub now: std::time::SystemTime,
    pub formated: Seq<char>,
}

impl View for FastLogRecord {
    type V = RecordView;

    open spec fn view(&self) -> RecordView {
        RecordView {
            command: self.command,
            level: self.level,
            target: self.target@,
            args: self.args@,
            module: self.module@,
            file: self.file@,
            line: self.line,
            now: self.now,
            formated: self.formated@,
        }
    }
}

/// The text of an optional string; empty where there is none.
pub open spec fn text_or_empty(s: Option<String>) -> Seq<char> {
    match s {
        Some(t) => t@,
        None => Seq::empty(),
    }
}

impl RecordView {
    /// A control record: nothing but the command and the time.
    pub open spec fn control(command: Command, now: std::time::SystemTime) -> RecordView {
        RecordView {
            command,
            level: Level::Info,
            target: Seq::empty(),
            args: Seq::empty(),
            module: Seq::empty(),
            file: Seq::empty(),
            line: None,
            now,
            formated: Seq::empty(),
        }
    }

    /// The payload record that stands for a raw one, not yet formatted.
    pub open spec fn payload(raw: RawRecord, now: std::time::SystemTime) -> RecordView {
        RecordView {
            command: Command::CommandRecord,
            level: raw.level,
            target: raw.target@,
            args: raw.args@,
            module: text_or_empty(raw.module),
            file: text_or_empty(raw.file),
            line: raw.line,
            now,
            formated: Seq::empty(),
        }
    }

    /// The record as the dispatcher hands it on: a payload carries `text`,
    /// a command passes as it came.
    pub open spec fn formatted_with(self, text: Seq<char>) -> RecordView {
        if self.command == Command::CommandRecord {
            RecordView { formated: text, ..self }
        } else {
            self
        }
    }
}

/// The bytes that an appender writes for a record: its formatted text in
/// UTF-8.
pub open spec fn record_bytes(r: RecordView) -> Seq<u8> {
    vstd::utf8::encode_utf8(r.formated)
}

/// A copy of an optional string's text; empty where there is none.
fn owned_or_empty(s: &Option<String>) -> (t: String)
    ensures
        t@ == text_or_empty(*s),
{
    match s {
        Some(x) => x.clone(),
        None => String::new(),
    }
}

impl FastLogRecord {
    /// A control record: `command` at time `now`, with level `Info` and every
    /// text empty.
    pub fn control(command: Command, now: std::time::SystemTime) -> (r: FastLogRecord)
        ensures
            r@ == RecordView::control(command, now),
    {
        FastLogRecord {
            command,
            level: Level::Info,
            target: String::new(),
            args: String::new(),
            module: String::new(),
            file: String::new(),
            line: None,
            now,
            formated: String::new(),
        }
    }

    /// The payload record for what a call site reported at time `now`.
    pub fn payload(raw: &RawRecord, now: std::time::SystemTime) -> (r: FastLogRecord)
        ensures
            r@ == RecordView::payload(*raw, now),
    {
        FastLogRecord {
            command: Command::CommandRecord,
            level: raw.level,
            target: raw.target.clone(),
            args: raw.args.clone(),
            module: owned_or_empty(&raw.module),
            file: owned_or_empty(&raw.file),
            line: raw.line,
            now,
            formated: String::new(),
        }
    }

    /// The record as the dispatcher hands it on: a payload carries `text`,
    /// a command passes as it came.
    pub fn with_text(self, text: String) -> (r: FastLogRecord)
        ensures
            r@ == self@.formatted_with(text@),
    {
        if self.command == Command::CommandRecord {
            FastLogRecord { formated: text, ..self }
        } else {
            self
        }
    }

    /// The bytes of the formatted text.
    pub fn text_bytes(&self) -> (bytes: Vec<u8>)
        ensures
            bytes@ == record_bytes(self@),
    {
        self.formated.as_str().as_bytes_vec()
    }

    /// Whether this record ends the pipeline.
    pub fn is_exit(&self) -> (b: bool)
        ensures
            b == (self@.command == Command::CommandExit),
    {
        self.command == Command::CommandExit
    }
}

/// Decides whether a record is dropped before it enters the pipeline.
pub trait Filter: Send + Sync {
    /// `true` means: drop it.
    fn filter(&self, record: &RawRecord) -> bool;
}

/// The filter that lets everything pass.
pub struct NoFilter {}

impl Filter for NoFilter {
    fn filter(&self, record: &RawRecord) -> (dropped: bool)
        ensures
            !dropped,
    {
        false
    }
}

/// Renders a record's fields into the text that every appender receives.
pub trait RecordFormat: Send + Sync {
    fn do_format(&self, arg: &FastLogRecord) -> String;
}

/// A destination for formatted records, supplied from outside the crate.
pub trait LogAppender: Send {
    /// Takes one record. Failures stay inside.
    fn do_log(&self, record: &FastLogRecord);
}

} // verus!
