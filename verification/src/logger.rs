//! In-memory logging: levels, timestamped entries, a bounded entry buffer,
//! and the line formats of the error log. Writing lines to disk is the
//! caller's concern.

use vstd::prelude::*;

use crate::error::AppError;
use crate::error::spec_user_message;

verus! {

/// Relies on `chrono::Local::now` and chrono's `format`: the current local
/// time rendered as `YYYY-MM-DD HH:MM:SS`. Nothing is assumed of the value.
#[verifier::external_body]
pub(crate) fn local_timestamp_string() -> (r: String) {
    chrono::Local::now().format("%Y-%m-%d %H:%M:%S").to_string()
}

/// The severity of a log entry.
#[derive(Debug, Clone, Copy, PartialEq, Eq, Structural)]
pub enum LogLevel {
    Debug,
    Info,
    Warning,
    Error,
}

/// The fixed tag of each level.
pub open spec fn spec_level_str(level: LogLevel) -> Seq<char> {
    match level {
        LogLevel::Debug => "DEBUG"@,
        LogLevel::Info => "INFO"@,
        LogLevel::Warning => "WARN"@,
        LogLevel::Error => "ERROR"@,
    }
}

impl LogLevel {
    /// The level's tag: `DEBUG`, `INFO`, `WARN` or `ERROR`.
    pub fn as_str(&self) -> (r: &str)
        ensures
            r@ == spec_level_str(*self),
    {
        match self {
            LogLevel::Debug => "DEBUG",
            LogLevel::Info => "INFO",
            LogLevel::Warning => "WARN",
            LogLevel::Error => "ERROR",
        }
    }
}

/// One log entry: when, how severe, and what.
#[derive(Debug, Clone)]
pub struct LogEntry {
    pub timestamp: String,
    pub level: LogLevel,
    pub message: String,
}

impl LogEntry {
    /// Builds an entry stamped with the current local time.
    pub fn new(level: LogLevel, message: String) -> (e: LogEntry)
        ensures
            e.level == level,
            e.message == message,
    {
        LogEntry { timestamp: local_timestamp_string(), level, message }
    }

    /// The entry's rendered line: `[timestamp] [LEVEL] message`.
    pub fn format(&self) -> (r: String)
        ensures
            r@ == "["@ + self.timestamp@ + "] ["@ + spec_level_str(self.level) + "] "@
                + self.message@,
    {
        let mut s = "[".to_owned();
        s.append(self.timestamp.as_str());
        s.append("] [");
        s.append(self.level.as_str());
        s.append("] ");
        s.append(self.message.as_str());
        s
    }

    /// A structurally equal copy of this entry.
    pub fn duplicate(&self) -> (e: LogEntry)
        ensures
            e == *self,
    {
        LogEntry {
            timestamp: self.timestamp.clone(),
            level: self.level,
            message: self.message.clone(),
        }
    }
}

/// A bounded in-memory log: keeps at most `max_entries` entries, dropping
/// the oldest when full. The optional log file path only records where the
/// caller persists lines.
#[derive(Debug)]
pub struct Logger {
    pub entries: Vec<LogEntry>,
    pub max_entries: usize,
    pub log_file: Option<String>,
}

impl Logger {
    /// Builds an empty log with the given bound and no file path.
    pub fn new(max_entries: usize) -> (l: Logger)
        ensures
            l.entries@.len() == 0,
            l.max_entries == max_entries,
            l.log_file is None,
    {
        Logger { entries: Vec::new(), max_entries, log_file: None }
    }

    /// Appends a timestamped entry; when the buffer would exceed its bound,
    /// the oldest entry is dropped.
    pub fn log(&mut self, level: LogLevel, message: &str)
        ensures
            final(self).max_entries == old(self).max_entries,
            final(self).log_file == old(self).log_file,
            exists|e: LogEntry|
                e.level == level && e.message@ == message@ && final(self).entries@ == (if old(
                    self,
                ).entries@.len() + 1 > old(self).max_entries {
                    old(self).entries@.push(e).subrange(
                        1,
                        old(self).entries@.len() as int + 1,
                    )
                } else {
                    old(self).entries@.push(e)
                }),
    {
        let entry = LogEntry::new(level, message.to_owned());
        let ghost witness = entry;
        let ghost entries0 = self.entries@;
        self.entries.push(entry);
        if self.entries.len() > self.max_entries {
            self.entries.remove(0);
            proof {
                assert(self.entries@ =~= entries0.push(witness).subrange(
                    1,
                    entries0.len() as int + 1,
                ));
            }
        }
    }

    /// Appends a debug entry.
    pub fn debug(&mut self, message: &str)
        ensures
            final(self).max_entries == old(self).max_entries,
            final(self).log_file == old(self).log_file,
            exists|e: LogEntry|
                e.level == LogLevel::Debug && e.message@ == message@ && final(self).entries@ == (
                if old(self).entries@.len() + 1 > old(self).max_entries {
                    old(self).entries@.push(e).subrange(
                        1,
                        old(self).entries@.len() as int + 1,
                    )
                } else {
                    old(self).entries@.push(e)
                }),
    {
        self.log(LogLevel::Debug, message);
    }

    /// Appends an informational entry.
    pub fn info(&mut self, message: &str)
        ensures
            final(self).max_entries == old(self).max_entries,
            final(self).log_file == old(self).log_file,
            exists|e: LogEntry|
                e.level == LogLevel::Info && e.message@ == message@ && final(self).entries@ == (
                if old(self).entries@.len() + 1 > old(self).max_entries {
                    old(self).entries@.push(e).subrange(
                        1,
                        old(self).entries@.len() as int + 1,
                    )
                } else {
                    old(self).entries@.push(e)
                }),
    {
        self.log(LogLevel::Info, message);
    }

    /// Appends a warning entry.
    pub fn warning(&mut self, message: &str)
        ensures
            final(self).max_entries == old(self).max_entries,
            final(self).log_file == old(self).log_file,
            exists|e: LogEntry|
                e.level == LogLevel::Warning && e.message@ == message@ && final(self).entries@ == (
                if old(self).entries@.len() + 1 > old(self).max_entries {
                    old(self).entries@.push(e).subrange(
                        1,
                        old(self).entries@.len() as int + 1,
                    )
                } else {
                    old(self).entries@.push(e)
                }),
    {
        self.log(LogLevel::Warning, message);
    }

    /// Appends an error entry.
    pub fn error(&mut self, message: &str)
        ensures
            final(self).max_entries == old(self).max_entries,
            final(self).log_file == old(self).log_file,
            exists|e: LogEntry|
                e.level == LogLevel::Error && e.message@ == message@ && final(self).entries@ == (
                if old(self).entries@.len() + 1 > old(self).max_entries {
                    old(self).entries@.push(e).subrange(
                        1,
                        old(self).entries@.len() as int + 1,
                    )
                } else {
                    old(self).entries@.push(e)
                }),
    {
        self.log(LogLevel::Error, message);
    }

    /// A copy of the buffered entries, oldest first.
    #[verifier::loop_isolation(false)]
    pub fn get_entries(&self) -> (r: Vec<LogEntry>)
        ensures
            r@ == self.entries@,
    {
        let n = self.entries.len();
        let mut r: Vec<LogEntry> = Vec::new();
        let mut i: usize = 0;
        while i < n
            invariant
                i <= n,
                r@.len() == i,
                forall|k: int| 0 <= k < i ==> r@[k] == self.entries@[k],
            decreases n - i,
        {
            r.push(self.entries[i].duplicate());
            i += 1;
        }
        proof {
            assert(r@ =~= self.entries@);
        }
        r
    }

    /// Drops every buffered entry.
    pub fn clear(&mut self)
        ensures
            final(self).entries@.len() == 0,
            final(self).max_entries == old(self).max_entries,
            final(self).log_file == old(self).log_file,
    {
        self.entries.clear();
    }

    /// The recorded log file path, if one was set.
    pub fn get_log_file_path_str(&self) -> (r: Option<String>)
        ensures
            (r is Some) == (self.log_file is Some),
            r matches Some(p) ==> self.log_file matches Some(q) && p == q,
    {
        match &self.log_file {
            Some(p) => Some(p.clone()),
            None => None,
        }
    }
}

/// Formats the lines of the error log kept beside the application; the
/// caller appends them to the file at `log_file`.
#[derive(Debug)]
pub struct ErrorLogger {
    pub log_file: String,
}

impl ErrorLogger {
    /// Builds a formatter for the given log file path.
    pub fn new(log_file: String) -> (l: ErrorLogger)
        ensures
            l.log_file == log_file,
    {
        ErrorLogger { log_file }
    }

    /// The path of the log file.
    pub fn log_file_path(&self) -> (r: &String)
        ensures
            *r == self.log_file,
    {
        &self.log_file
    }

    /// The line recorded for an error: `[timestamp] [ERROR] context: message`,
    /// ending in a newline.
    pub fn error_line(&self, error: &AppError, context: &str) -> (r: String)
        ensures
            exists|ts: Seq<char>|
                r@ == "["@ + ts + "] [ERROR] "@ + context@ + ": "@ + spec_user_message(*error)
                    + "\n"@,
    {
        let ts = local_timestamp_string();
        let ghost ts_view = ts@;
        let mut s = "[".to_owned();
        s.append(ts.as_str());
        s.append("] [ERROR] ");
        s.append(context);
        s.append(": ");
        s.append(error.user_message().as_str());
        s.append("\n");
        s
    }

    /// The line recorded for a warning: `[timestamp] [WARN] context: message`,
    /// ending in a newline.
    pub fn warning_line(&self, message: &str, context: &str) -> (r: String)
        ensures
            exists|ts: Seq<char>|
                r@ == "["@ + ts + "] [WARN] "@ + context@ + ": "@ + message@ + "\n"@,
    {
        let ts = local_timestamp_string();
        let mut s = "[".to_owned();
        s.append(ts.as_str());
        s.append("] [WARN] ");
        s.append(context);
        s.append(": ");
        s.append(message);
        s.append("\n");
        s
    }

    /// The line recorded for information: `[timestamp] [INFO] context: message`,
    /// ending in a newline.
    pub fn info_line(&self, message: &str, context: &str) -> (r: String)
        ensures
            exists|ts: Seq<char>|
                r@ == "["@ + ts + "] [INFO] "@ + context@ + ": "@ + message@ + "\n"@,
    {
        let ts = local_timestamp_string();
        let mut s = "[".to_owned();
        s.append(ts.as_str());
        s.append("] [INFO] ");
        s.append(context);
        s.append(": ");
        s.append(message);
        s.append("\n");
        s
    }

    /// Keeps, newest first, the lines that record errors: those that contain
    /// the `[ERROR]` tag, up to `count` of them. The caller supplies the
    /// file's lines.
    #[verifier::loop_isolation(false)]
    pub fn recent_error_lines(&self, lines: &Vec<String>, count: usize) -> (r: Vec<String>)
        ensures
            ({
                let flt = lines@.reverse().filter(
                    |s: String| crate::text::spec_contains_seq(s@, "[ERROR]"@),
                );
                r@ == if count <= flt.len() {
                    flt.subrange(0, count as int)
                } else {
                    flt
                }
            }),
    {
        let n = lines.len();
        let mut r: Vec<String> = Vec::new();
        let mut i: usize = n;
        proof {
            assert(lines@.subrange(n as int, n as int).reverse() =~= Seq::<String>::empty());
            assert(r@ =~= lines@.subrange(n as int, n as int).reverse().filter(
                |s: String| crate::text::spec_contains_seq(s@, "[ERROR]"@),
            ));
        }
        while i > 0
            invariant
                i <= n,
                r@ == lines@.subrange(i as int, n as int).reverse().filter(
                    |s: String| crate::text::spec_contains_seq(s@, "[ERROR]"@),
                ),
            decreases i,
        {
            i -= 1;
            let ghost pre = lines@.subrange(i as int + 1, n as int).reverse();
            let ghost post = lines@.subrange(i as int, n as int).reverse();
            proof {
                assert(post.drop_last() =~= pre);
                assert(post.last() == lines@[i as int]);
                reveal_with_fuel(Seq::filter, 2);
            }
            let ghost old_r = r@;
            if crate::text::str_contains(lines[i].as_str(), "[ERROR]") {
                r.push(lines[i].clone());
                proof {
                    assert(r@ =~= old_r.push(lines@[i as int]));
                    assert(post.filter(
                        |s: String| crate::text::spec_contains_seq(s@, "[ERROR]"@),
                    ) =~= pre.filter(
                        |s: String| crate::text::spec_contains_seq(s@, "[ERROR]"@),
                    ).push(lines@[i as int]));
                }
            } else {
                proof {
                    assert(post.filter(
                        |s: String| crate::text::spec_contains_seq(s@, "[ERROR]"@),
                    ) =~= pre.filter(
                        |s: String| crate::text::spec_contains_seq(s@, "[ERROR]"@),
                    ));
                }
            }
        }
        proof {
            assert(lines@.subrange(0, n as int) =~= lines@);
        }
        if r.len() > count {
            r.truncate(count);
            proof {
                assert(r@ =~= lines@.reverse().filter(
                    |s: String| crate::text::spec_contains_seq(s@, "[ERROR]"@),
                ).subrange(0, count as int));
            }
        }
        r
    }
}

} // verus!
