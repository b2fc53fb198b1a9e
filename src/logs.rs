//! Log entries and a bounded log buffer of the dashboard.
use vstd::prelude::*;

use std::collections::VecDeque;

verus! {

#[derive(PartialEq, Eq, Structural, Debug, Clone, Copy)]
pub enum LogLevel {
    Info,
    Warning,
    Error,
    Success,
    Debug,
}

impl LogLevel {
    /// The label shown for a level.
    pub fn as_str(&self) -> (r: &'static str)
        ensures
            r@ == match *self {
                LogLevel::Info => "INFO"@,
                LogLevel::Warning => "WARN"@,
                LogLevel::Error => "ERROR"@,
                LogLevel::Success => "SUCCESS"@,
                LogLevel::Debug => "DEBUG"@,
            },
    {
        match self {
            LogLevel::Info => "INFO",
            LogLevel::Warning => "WARN",
            LogLevel::Error => "ERROR",
            LogLevel::Success => "SUCCESS",
            LogLevel::Debug => "DEBUG",
        }
    }
}

/// One log line; the time is a clock reading in milliseconds.
pub struct LogEntry {
    pub timestamp_ms: u64,
    pub level: LogLevel,
    pub message: String,
    pub component: String,
}

/// The most recent log entries, at most `max_size` of them.
pub struct LogBuffer {
    entries: VecDeque<LogEntry>,
    max_size: usize,
}

impl LogBuffer {
    pub closed spec fn contents(&self) -> Seq<LogEntry> {
        self.entries@
    }

    pub closed spec fn capacity(&self) -> nat {
        self.max_size as nat
    }

    pub closed spec fn wf(&self) -> bool {
        self.max_size >= 1 && self.entries@.len() <= self.max_size
    }

    /// An empty buffer holding up to `max_size` entries.
    pub fn with_capacity(max_size: usize) -> (r: LogBuffer)
        requires
            max_size >= 1,
        ensures
            r.wf(),
            r.contents().len() == 0,
            r.capacity() == max_size,
    {
        LogBuffer { entries: VecDeque::new(), max_size }
    }

    pub fn len(&self) -> (r: usize)
        ensures
            r == self.contents().len(),
    {
        self.entries.len()
    }

    /// Appends an entry, dropping the oldest when the buffer is full.
    pub fn add_entry(&mut self, level: LogLevel, message: String, component: String, now_ms: u64)
        requires
            old(self).wf(),
        ensures
            final(self).wf(),
            final(self).capacity() == old(self).capacity(),
            final(self).contents().last() == (LogEntry { timestamp_ms: now_ms, level, message, component }),
            old(self).contents().len() < old(self).capacity() ==> final(self).contents()
                == old(self).contents().push(LogEntry { timestamp_ms: now_ms, level, message, component }),
            old(self).contents().len() >= old(self).capacity() ==> final(self).contents()
                == old(self).contents().drop_first().push(LogEntry { timestamp_ms: now_ms, level, message, component }),
    {
        if self.entries.len() >= self.max_size {
            let _ = self.entries.pop_front();
        }
        self.entries.push_back(LogEntry { timestamp_ms: now_ms, level, message, component });
    }
}

impl Default for LogBuffer {
    fn default() -> (r: LogBuffer)
        ensures
            r.wf(),
            r.contents().len() == 0,
            r.capacity() == 1000,
    {
        LogBuffer::with_capacity(1000)
    }
}

/// Export file formats.
#[derive(PartialEq, Eq, Structural, Debug, Clone, Copy)]
pub enum ExportFormat {
    Json,
    Csv,
}

impl ExportFormat {
    pub fn as_str(&self) -> (r: &'static str)
        ensures
            r@ == match *self {
                ExportFormat::Json => "JSON"@,
                ExportFormat::Csv => "CSV"@,
            },
    {
        match self {
            ExportFormat::Json => "JSON",
            ExportFormat::Csv => "CSV",
        }
    }
}

} // verus!
