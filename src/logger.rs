use vstd::prelude::*;

verus! {

/// Severity of a log record, most severe first. A logger set to a level
/// emits the records of that level and of every level before it.
#[derive(Debug, Clone, Copy, PartialEq, Eq, Structural)]
pub enum LogLevel {
    Error,
    Success,
    Warning,
    Info,
    Debug,
}

pub open spec fn rank_spec(level: LogLevel) -> nat {
    match level {
        LogLevel::Error => 0,
        LogLevel::Success => 1,
        LogLevel::Warning => 2,
        LogLevel::Info => 3,
        LogLevel::Debug => 4,
    }
}

pub fn rank(level: LogLevel) -> (r: u8)
    ensures
        r as nat == rank_spec(level),
{
    match level {
        LogLevel::Error => 0,
        LogLevel::Success => 1,
        LogLevel::Warning => 2,
        LogLevel::Info => 3,
        LogLevel::Debug => 4,
    }
}

/// The upper-case name of a level.
pub open spec fn level_name_spec(level: LogLevel) -> Seq<char> {
    match level {
        LogLevel::Error => "ERROR"@,
        LogLevel::Success => "SUCCESS"@,
        LogLevel::Warning => "WARNING"@,
        LogLevel::Info => "INFO"@,
        LogLevel::Debug => "DEBUG"@,
    }
}

pub fn level_name(level: LogLevel) -> (r: String)
    ensures
        r@ == level_name_spec(level),
{
    match level {
        LogLevel::Error => String::from_str("ERROR"),
        LogLevel::Success => String::from_str("SUCCESS"),
        LogLevel::Warning => String::from_str("WARNING"),
        LogLevel::Info => String::from_str("INFO"),
        LogLevel::Debug => String::from_str("DEBUG"),
    }
}

/// The name of a level as its variant is written.
pub open spec fn level_label_spec(level: LogLevel) -> Seq<char> {
    match level {
        LogLevel::Error => "Error"@,
        LogLevel::Success => "Success"@,
        LogLevel::Warning => "Warning"@,
        LogLevel::Info => "Info"@,
        LogLevel::Debug => "Debug"@,
    }
}

pub fn level_label(level: LogLevel) -> (r: String)
    ensures
        r@ == level_label_spec(level),
{
    match level {
        LogLevel::Error => String::from_str("Error"),
        LogLevel::Success => String::from_str("Success"),
        LogLevel::Warning => String::from_str("Warning"),
        LogLevel::Info => String::from_str("Info"),
        LogLevel::Debug => String::from_str("Debug"),
    }
}

/// The terminal colour escape that opens a record of each level.
pub open spec fn colour_spec(level: LogLevel) -> Seq<char> {
    match level {
        LogLevel::Error => "\x1b[91m"@,
        LogLevel::Success => "\x1b[94m"@,
        LogLevel::Warning => "\x1b[33m"@,
        LogLevel::Info => "\x1b[90m"@,
        LogLevel::Debug => "\x1b[95m"@,
    }
}

pub fn colour(level: LogLevel) -> (r: String)
    ensures
        r@ == colour_spec(level),
{
    match level {
        LogLevel::Error => String::from_str("\x1b[91m"),
        LogLevel::Success => String::from_str("\x1b[94m"),
        LogLevel::Warning => String::from_str("\x1b[33m"),
        LogLevel::Info => String::from_str("\x1b[90m"),
        LogLevel::Debug => String::from_str("\x1b[95m"),
    }
}

/// The level that an upper-cased level name selects; an unknown name
/// selects `Info`.
pub open spec fn level_from_upper_spec(name: Seq<char>) -> LogLevel {
    if name == "SUCCESS"@ {
        LogLevel::Success
    } else if name == "DEBUG"@ {
        LogLevel::Debug
    } else if name == "INFO"@ {
        LogLevel::Info
    } else if name == "WARNING"@ {
        LogLevel::Warning
    } else if name == "ERROR"@ {
        LogLevel::Error
    } else {
        LogLevel::Info
    }
}

pub fn level_from_upper(name: &String) -> (r: LogLevel)
    ensures
        r == level_from_upper_spec(name@),
{
    if *name == String::from_str("SUCCESS") {
        LogLevel::Success
    } else if *name == String::from_str("DEBUG") {
        LogLevel::Debug
    } else if *name == String::from_str("INFO") {
        LogLevel::Info
    } else if *name == String::from_str("WARNING") {
        LogLevel::Warning
    } else if *name == String::from_str("ERROR") {
        LogLevel::Error
    } else {
        LogLevel::Info
    }
}

/// What `str::to_uppercase` makes of a text.
pub uninterp spec fn upper_of(s: Seq<char>) -> Seq<char>;

/// Relies on `str::to_uppercase`: the upper-case form of the text, which
/// depends on its characters alone.
#[verifier::external_body]
fn uppercase(s: &str) -> (r: String)
    ensures
        r@ == upper_of(s@),
{
    s.to_uppercase()
}

/// The level a level name selects, whatever its case.
pub fn parse_level(name: &str) -> (r: LogLevel)
    ensures
        r == level_from_upper_spec(upper_of(name@)),
{
    let upper = uppercase(name);
    level_from_upper(&upper)
}

/// One message to log: its level, the module it comes from, its text.
pub struct LogRecord {
    pub level: LogLevel,
    pub module: String,
    pub message: String,
}

fn record(level: LogLevel, msg: &str, module: &str) -> (r: LogRecord)
    ensures
        r.level == level,
        r.message@ == msg@,
        r.module@ == module@,
{
    LogRecord { level, module: String::from_str(module), message: String::from_str(msg) }
}

/// A record of a success.
pub fn success(msg: &str, module: &str) -> (r: LogRecord)
    ensures
        r.level == LogLevel::Success,
        r.message@ == msg@,
        r.module@ == module@,
{
    record(LogLevel::Success, msg, module)
}

/// A record of an error.
pub fn error(msg: &str, module: &str) -> (r: LogRecord)
    ensures
        r.level == LogLevel::Error,
        r.message@ == msg@,
        r.module@ == module@,
{
    record(LogLevel::Error, msg, module)
}

/// A record of a warning.
pub fn warning(msg: &str, module: &str) -> (r: LogRecord)
    ensures
        r.level == LogLevel::Warning,
        r.message@ == msg@,
        r.module@ == module@,
{
    record(LogLevel::Warning, msg, module)
}

/// A record of information.
pub fn info(msg: &str, module: &str) -> (r: LogRecord)
    ensures
        r.level == LogLevel::Info,
        r.message@ == msg@,
        r.module@ == module@,
{
    record(LogLevel::Info, msg, module)
}

/// A record of debugging detail.
pub fn debug(msg: &str, module: &str) -> (r: LogRecord)
    ensures
        r.level == LogLevel::Debug,
        r.message@ == msg@,
        r.module@ == module@,
{
    record(LogLevel::Debug, msg, module)
}

/// A plain record, at the information level.
pub fn log(msg: &str, module: &str) -> (r: LogRecord)
    ensures
        r.level == LogLevel::Info,
        r.message@ == msg@,
        r.module@ == module@,
{
    record(LogLevel::Info, msg, module)
}

/// The line written for a record at time `stamp`: colour, level, module,
/// time, message, then the reset escape.
pub open spec fn line_spec(level: LogLevel, module: Seq<char>, stamp: Seq<char>, message: Seq<char>) -> Seq<char> {
    colour_spec(level) + "["@ + level_name_spec(level) + "] [ 模块: "@ + module + " ] [ 时间: "@ + stamp
        + " ] "@ + message + "\x1b[0m"@
}

/// Formats one record as a line stamped with `stamp`.
pub fn render_line(record: &LogRecord, stamp: &str) -> (r: String)
    ensures
        r@ == line_spec(record.level, record.module@, stamp@, record.message@),
{
    let mut line = colour(record.level);
    line.append("[");
    let name = level_name(record.level);
    line.append(name.as_str());
    line.append("] [ 模块: ");
    line.append(record.module.as_str());
    line.append(" ] [ 时间: ");
    line.append(stamp);
    line.append(" ] ");
    line.append(record.message.as_str());
    line.append("\x1b[0m");
    line
}

/// Relies on `chrono::Local::now` and `format`: the local time now, as
/// year-month-day hours:minutes:seconds. Nothing is known of its value.
#[verifier::external_body]
fn now_stamp() -> (r: String) {
    chrono::Local::now().format("%Y-%m-%d %H:%M:%S").to_string()
}

/// Formats one record as a line stamped with the local time now.
pub fn line_now(record: &LogRecord) -> (r: String)
    ensures
        exists|stamp: Seq<char>| r@ == line_spec(record.level, record.module@, stamp, record.message@),
{
    let stamp = now_stamp();
    let line = render_line(record, stamp.as_str());
    assert(line@ == line_spec(record.level, record.module@, stamp@, record.message@));
    line
}

/// The module name under which the logger reports on itself.
pub open spec fn logger_module_spec() -> Seq<char> {
    "Logger"@
}

/// The file a log is appended to, or `None` for standard output: an
/// absent or empty path means standard output.
pub fn log_file_target(output_file: &Option<String>) -> (r: Option<String>)
    ensures
        match output_file {
            Some(path) => if path@.len() == 0 { r is None } else { r matches Some(p) && p@ == path@ },
            None => r is None,
        },
{
    match output_file {
        Some(path) => {
            if path.as_str().is_empty() {
                None
            } else {
                Some(path.clone())
            }
        },
        None => None,
    }
}

/// The filter of a log: records less severe than its level are dropped.
pub struct Logger {
    log_level: LogLevel,
}

impl Default for Logger {
    fn default() -> (r: Logger)
        ensures
            r.spec_level() == LogLevel::Info,
    {
        Logger::new()
    }
}

impl Logger {
    pub closed spec fn spec_level(&self) -> LogLevel {
        self.log_level
    }

    /// A logger at the information level.
    pub fn new() -> (r: Logger)
        ensures
            r.spec_level() == LogLevel::Info,
    {
        Logger { log_level: LogLevel::Info }
    }

    pub fn level(&self) -> (r: LogLevel)
        ensures
            r == self.spec_level(),
    {
        self.log_level
    }

    /// Whether a record of `level` is written.
    pub fn accepts(&self, level: LogLevel) -> (r: bool)
        ensures
            r == (rank_spec(level) <= rank_spec(self.spec_level())),
    {
        rank(level) <= rank(self.log_level)
    }

    /// The line to write for `record` now, or `None` when the level drops
    /// it. The time stamp is the one read at the call.
    pub fn output_log(&self, record: &LogRecord) -> (r: Option<String>)
        ensures
            !(rank_spec(record.level) <= rank_spec(self.spec_level())) ==> r is None,
            rank_spec(record.level) <= rank_spec(self.spec_level()) ==> (r matches Some(line)
                && exists|stamp: Seq<char>| line@ == line_spec(record.level, record.module@, stamp, record.message@)),
    {
        if !self.accepts(record.level) {
            return None;
        }
        Some(line_now(record))
    }

    /// Sets the level from its name, in any case; an unknown name sets
    /// `Info`. The change is announced by an information record, which
    /// comes back only where the level before the change lets it through.
    pub fn set_level(&mut self, level: &str) -> (r: Option<LogRecord>)
        ensures
            final(self).spec_level() == level_from_upper_spec(upper_of(level@)),
            rank_spec(LogLevel::Info) <= rank_spec(old(self).spec_level()) ==> (r matches Some(rec)
                && rec.level == LogLevel::Info
                && rec.module@ == logger_module_spec()
                && rec.message@ == "Logger 日志级别设置为: "@ + level_label_spec(final(self).spec_level())),
            !(rank_spec(LogLevel::Info) <= rank_spec(old(self).spec_level())) ==> r is None,
    {
        let new_level = parse_level(level);
        let announce = if self.accepts(LogLevel::Info) {
            let mut message = String::from_str("Logger 日志级别设置为: ");
            let name = level_label(new_level);
            message.append(name.as_str());
            Some(LogRecord { level: LogLevel::Info, module: String::from_str("Logger"), message })
        } else {
            None
        };
        self.log_level = new_level;
        announce
    }
}

} // verus!
