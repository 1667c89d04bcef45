//! Log lines, in JSON or in logfmt, and where they go.
//!
//! ```text
//! JSON:   {"time": "<time>", "level": "INFO", "msg": "..."}
//! logfmt: time=<time> level=INFO msg="..."
//! ```
//!
//! A configuration file in YAML can set the level of the root logger, one
//! console handler, which writes to the standard error stream or to a file
//! that is rotated by size, and its formatter.

use vstd::prelude::*;

use crate::env::EnvVars;
use crate::number::{decimal, decimal_differs, decimal_string};
use crate::outside::{
    is_time, is_time_char, is_utc, json_quoted, local_now, utc_now, yaml_document,
    yaml_entry, yaml_number, yaml_numbers, yaml_parsed, yaml_text, yaml_texts, TIME_FORMAT,
};
use crate::text::{
    cat2, cat3, cat4, chars_of, contains_char, contains_part, each_char, each_char_avoids,
    each_char_differs, has_part, in_upper_case, is_code, json_escape, json_string, opt_view, raised, same,
};

verus! {

// ---------------------------------------------------------------------------
// Levels and entries
// ---------------------------------------------------------------------------

/// How severe a log message is.
#[derive(Clone, Copy, PartialEq, Eq, Structural, Debug)]
pub enum Level {
    Debug,
    Info,
    Warning,
    Error,
    Critical,
}

/// The number that levels are compared by.
pub open spec fn level_rank(level: Level) -> int {
    match level {
        Level::Debug => 10,
        Level::Info => 20,
        Level::Warning => 30,
        Level::Error => 40,
        Level::Critical => 50,
    }
}

/// The name of a level.
pub open spec fn level_name(level: Level) -> Seq<char> {
    match level {
        Level::Debug => "DEBUG"@,
        Level::Info => "INFO"@,
        Level::Warning => "WARNING"@,
        Level::Error => "ERROR"@,
        Level::Critical => "CRITICAL"@,
    }
}

/// The level with an upper-case name.
pub open spec fn level_named(name: Seq<char>) -> Option<Level> {
    if name == "DEBUG"@ {
        Some(Level::Debug)
    } else if name == "INFO"@ {
        Some(Level::Info)
    } else if name == "WARNING"@ || name == "WARN"@ {
        Some(Level::Warning)
    } else if name == "ERROR"@ {
        Some(Level::Error)
    } else if name == "CRITICAL"@ || name == "FATAL"@ {
        Some(Level::Critical)
    } else {
        None
    }
}

impl Level {
    /// The number that levels are compared by.
    pub fn rank(self) -> (r: u8)
        ensures
            r == level_rank(self),
    {
        match self {
            Level::Debug => 10,
            Level::Info => 20,
            Level::Warning => 30,
            Level::Error => 40,
            Level::Critical => 50,
        }
    }

    /// The name of the level.
    pub fn name(self) -> (r: &'static str)
        ensures
            r@ == level_name(self),
    {
        match self {
            Level::Debug => "DEBUG",
            Level::Info => "INFO",
            Level::Warning => "WARNING",
            Level::Error => "ERROR",
            Level::Critical => "CRITICAL",
        }
    }

    /// The level with this upper-case name.
    pub fn named(name: &str) -> (r: Option<Level>)
        ensures
            r == level_named(name@),
    {
        if same(name, "DEBUG") {
            Some(Level::Debug)
        } else if same(name, "INFO") {
            Some(Level::Info)
        } else if same(name, "WARNING") || same(name, "WARN") {
            Some(Level::Warning)
        } else if same(name, "ERROR") {
            Some(Level::Error)
        } else if same(name, "CRITICAL") || same(name, "FATAL") {
            Some(Level::Critical)
        } else {
            None
        }
    }

    /// The level with this name, in upper or lower case.
    pub fn parse(s: &str) -> (r: Option<Level>)
        ensures
            r == level_named(raised(s@)),
    {
        let name = in_upper_case(s);
        Level::named(name.as_str())
    }
}

/// The level that a name stands for is the one that has the name.
pub proof fn level_names_are_read_back(level: Level)
    ensures
        level_named(level_name(level)) == Some(level),
{
    reveal_strlit("DEBUG");
    reveal_strlit("INFO");
    reveal_strlit("WARNING");
    reveal_strlit("WARN");
    reveal_strlit("ERROR");
    reveal_strlit("CRITICAL");
    reveal_strlit("FATAL");
    assert("DEBUG"@[0] == 'D' && "ERROR"@[0] == 'E' && "FATAL"@[0] == 'F');
    assert("DEBUG"@.len() == 5 && "INFO"@.len() == 4 && "WARNING"@.len() == 7 && "WARN"@.len() == 4
        && "CRITICAL"@.len() == 8);
    assert("INFO"@[0] == 'I' && "WARN"@[0] == 'W');
}

/// A message to be logged.
pub struct LogEntry {
    pub level: Level,
    pub message: String,
}

impl View for LogEntry {
    type V = (Level, Seq<char>);

    open spec fn view(&self) -> (Level, Seq<char>) {
        (self.level, self.message@)
    }
}

/// The models of a list of messages.
pub open spec fn entry_views(entries: Seq<LogEntry>) -> Seq<(Level, Seq<char>)> {
    entries.map_values(|e: LogEntry| e@)
}

// ---------------------------------------------------------------------------
// Settings
// ---------------------------------------------------------------------------

/// How log lines are written.
#[derive(Clone, Copy, PartialEq, Eq, Structural, Debug)]
pub enum Format {
    Json,
    Logfmt,
}

/// Where log lines go.
pub enum Sink {
    /// The standard error stream.
    Stderr,
    /// A file that is rotated by size.
    RotatingFile { path: String, max_bytes: u64, backup_count: u32 },
}

/// How and where messages are logged.
pub struct Logger {
    /// Messages below this level are not logged.
    pub level: Level,
    pub format: Format,
    /// Whether times are in UTC, else in the zone of the machine.
    pub utc: bool,
    pub sink: Sink,
}

/// A variable is set to a word, in upper or lower case, which is given in
/// upper case.
pub open spec fn says(vars: Map<Seq<char>, Seq<char>>, name: Seq<char>, word: Seq<char>) -> bool {
    vars.contains_key(name) && raised(vars[name]) == word
}

fn var_says(vars: &EnvVars, name: &str, word: &str) -> (r: bool)
    ensures
        r == says(vars@, name@, word@),
{
    match vars.get(name) {
        Some(v) => same(in_upper_case(v.as_str()).as_str(), word),
        None => false,
    }
}

/// The level in `LOG_LEVEL`, or else Info.
pub open spec fn env_level(vars: Map<Seq<char>, Seq<char>>) -> Level {
    if vars.contains_key("LOG_LEVEL"@) && level_named(raised(vars["LOG_LEVEL"@])) is Some {
        level_named(raised(vars["LOG_LEVEL"@]))->0
    } else {
        Level::Info
    }
}

/// How messages are logged by `LOG_LEVEL`, `LOG_FORMAT` and `LOG_TZ`.
pub fn init(vars: &EnvVars) -> (r: Logger)
    ensures
        r.level == env_level(vars@),
        r.format == (if says(vars@, "LOG_FORMAT"@, "LOGFMT"@) {
            Format::Logfmt
        } else {
            Format::Json
        }),
        r.utc == says(vars@, "LOG_TZ"@, "UTC"@),
        r.sink is Stderr,
{
    let level = match vars.get("LOG_LEVEL") {
        Some(s) => match Level::parse(s.as_str()) {
            Some(l) => l,
            None => Level::Info,
        },
        None => Level::Info,
    };
    let format = if var_says(vars, "LOG_FORMAT", "LOGFMT") {
        Format::Logfmt
    } else {
        Format::Json
    };
    let utc = var_says(vars, "LOG_TZ", "UTC");
    Logger { level, format, utc, sink: Sink::Stderr }
}

/// The configuration file that `LOG_CONFIG` names, if it names one.
pub fn log_config_path(vars: &EnvVars) -> (r: Option<String>)
    ensures
        match r {
            Some(p) => vars@.contains_key("LOG_CONFIG"@) && p@ == vars@["LOG_CONFIG"@] && p@.len() > 0,
            None => !vars@.contains_key("LOG_CONFIG"@) || vars@["LOG_CONFIG"@].len() == 0,
        },
{
    match vars.get("LOG_CONFIG") {
        Some(p) if !p.as_str().is_empty() => Some(p.clone()),
        _ => None,
    }
}

// ---------------------------------------------------------------------------
// The configuration file
// ---------------------------------------------------------------------------

/// What a configuration file says of the root logger and the console handler.
pub struct ConsoleConfig {
    /// The level of the root logger.
    pub root_level: Option<String>,
    /// The level of the handler.
    pub level: Option<String>,
    /// The name of the handler's formatter.
    pub formatter: Option<String>,
    /// The class of the formatter with that name.
    pub formatter_class: Option<String>,
    /// The class of the handler.
    pub class: Option<String>,
    /// The file that the handler writes to.
    pub filename: Option<String>,
    /// The size from which the file is rotated.
    pub max_bytes: Option<u64>,
    /// How many rotated files are kept.
    pub backup_count: Option<u64>,
}

/// What a [`ConsoleConfig`] stands for.
pub struct ConsoleModel {
    pub root_level: Option<Seq<char>>,
    pub level: Option<Seq<char>>,
    pub formatter: Option<Seq<char>>,
    pub formatter_class: Option<Seq<char>>,
    pub class: Option<Seq<char>>,
    pub filename: Option<Seq<char>>,
    pub max_bytes: Option<u64>,
    pub backup_count: Option<u64>,
}

impl View for ConsoleConfig {
    type V = ConsoleModel;

    open spec fn view(&self) -> ConsoleModel {
        ConsoleModel {
            root_level: opt_view(self.root_level),
            level: opt_view(self.level),
            formatter: opt_view(self.formatter),
            formatter_class: opt_view(self.formatter_class),
            class: opt_view(self.class),
            filename: opt_view(self.filename),
            max_bytes: self.max_bytes,
            backup_count: self.backup_count,
        }
    }
}

/// What stands at a path.
pub open spec fn at<T>(map: Map<Seq<Seq<char>>, T>, path: Seq<Seq<char>>) -> Option<T> {
    if map.contains_key(path) {
        Some(map[path])
    } else {
        None
    }
}

/// What a document says of the root logger and the console handler, given the
/// strings and the numbers in it by their paths.
pub open spec fn console_config(
    texts: Map<Seq<Seq<char>>, Seq<char>>,
    numbers: Map<Seq<Seq<char>>, u64>,
) -> ConsoleModel {
    let handler = |name: Seq<char>| seq!["handlers"@, "console"@, name];
    let formatter = at(texts, handler("formatter"@));
    ConsoleModel {
        root_level: at(texts, seq!["root"@, "level"@]),
        level: at(texts, handler("level"@)),
        formatter,
        formatter_class: match formatter {
            Some(name) => at(texts, seq!["formatters"@, name, "()"@]),
            None => None,
        },
        class: at(texts, handler("class"@)),
        filename: at(texts, handler("filename"@)),
        max_bytes: at(numbers, handler("maxBytes"@)),
        backup_count: at(numbers, handler("backupCount"@)),
    }
}

/// The string at a path of two keys.
fn text_at2(doc: &serde_yaml::Value, a: &str, b: &str) -> (r: Option<String>)
    ensures
        opt_view(r) == at(yaml_texts(*doc), seq![a@, b@]),
{
    let inner = yaml_entry(doc, a);
    let leaf = yaml_entry(inner, b);
    assert(seq![b@] + Seq::<Seq<char>>::empty() =~= seq![b@]);
    assert(seq![a@] + seq![b@] =~= seq![a@, b@]);
    assert(yaml_texts(*inner).contains_key(seq![b@]) == yaml_texts(*doc).contains_key(seq![a@, b@]));
    assert(yaml_texts(*inner).contains_key(seq![b@]) ==> yaml_texts(*inner)[seq![b@]] == yaml_texts(
        *doc,
    )[seq![a@, b@]]);
    yaml_text(leaf)
}

/// The string at a path of three keys.
fn text_at3(doc: &serde_yaml::Value, a: &str, b: &str, c: &str) -> (r: Option<String>)
    ensures
        opt_view(r) == at(yaml_texts(*doc), seq![a@, b@, c@]),
{
    let inner = yaml_entry(doc, a);
    let r = text_at2(inner, b, c);
    assert(seq![a@] + seq![b@, c@] =~= seq![a@, b@, c@]);
    assert(yaml_texts(*inner).contains_key(seq![b@, c@]) == yaml_texts(*doc).contains_key(
        seq![a@, b@, c@],
    ));
    assert(yaml_texts(*inner).contains_key(seq![b@, c@]) ==> yaml_texts(*inner)[seq![b@, c@]]
        == yaml_texts(*doc)[seq![a@, b@, c@]]);
    r
}

/// The number at a path of three keys.
fn number_at3(doc: &serde_yaml::Value, a: &str, b: &str, c: &str) -> (r: Option<u64>)
    ensures
        r == at(yaml_numbers(*doc), seq![a@, b@, c@]),
{
    let outer = yaml_entry(doc, a);
    let inner = yaml_entry(outer, b);
    let leaf = yaml_entry(inner, c);
    assert(seq![c@] + Seq::<Seq<char>>::empty() =~= seq![c@]);
    assert(seq![b@] + seq![c@] =~= seq![b@, c@]);
    assert(seq![a@] + seq![b@, c@] =~= seq![a@, b@, c@]);
    assert(yaml_numbers(*inner).contains_key(seq![c@]) == yaml_numbers(*outer).contains_key(
        seq![b@, c@],
    ));
    assert(yaml_numbers(*outer).contains_key(seq![b@, c@]) == yaml_numbers(*doc).contains_key(
        seq![a@, b@, c@],
    ));
    assert(yaml_numbers(*inner).contains_key(seq![c@]) ==> yaml_numbers(*inner)[seq![c@]]
        == yaml_numbers(*outer)[seq![b@, c@]]);
    assert(yaml_numbers(*outer).contains_key(seq![b@, c@]) ==> yaml_numbers(*outer)[seq![b@, c@]]
        == yaml_numbers(*doc)[seq![a@, b@, c@]]);
    yaml_number(leaf)
}

/// Reads a configuration file, or says what is wrong with it.
pub fn read_console_config(text: &str) -> (r: Result<ConsoleConfig, String>)
    ensures
        match yaml_parsed(text@) {
            Ok((texts, numbers)) => r is Ok && r->Ok_0@ == console_config(texts, numbers),
            Err(e) => r is Err && r->Err_0@ == e,
        },
{
    let doc = match yaml_document(text) {
        Ok(d) => d,
        Err(e) => {
            return Err(e);
        },
    };
    let formatter = text_at3(&doc, "handlers", "console", "formatter");
    let formatter_class = match &formatter {
        Some(name) => text_at3(&doc, "formatters", name.as_str(), "()"),
        None => None,
    };
    Ok(
        ConsoleConfig {
            root_level: text_at2(&doc, "root", "level"),
            level: text_at3(&doc, "handlers", "console", "level"),
            formatter,
            formatter_class,
            class: text_at3(&doc, "handlers", "console", "class"),
            filename: text_at3(&doc, "handlers", "console", "filename"),
            max_bytes: number_at3(&doc, "handlers", "console", "maxBytes"),
            backup_count: number_at3(&doc, "handlers", "console", "backupCount"),
        },
    )
}

/// The level that a configuration sets: that of the root logger if it has one,
/// or else that of the handler; nothing if it is no name of a level.
pub open spec fn config_level(config: ConsoleModel) -> Option<Level> {
    match config.root_level {
        Some(l) => level_named(raised(l)),
        None => match config.level {
            Some(l) => level_named(raised(l)),
            None => None,
        },
    }
}

/// The format that a configuration sets: by the class of the formatter if that
/// is known, or else by its name.
pub open spec fn config_format(config: ConsoleModel) -> Option<Format> {
    match (config.formatter, config.formatter_class) {
        (Some(_), Some(class)) => Some(
            if has_part(class, "Logfmt"@) {
                Format::Logfmt
            } else {
                Format::Json
            },
        ),
        (Some(name), None) => if has_part(raised(name), "LOGFMT"@) {
            Some(Format::Logfmt)
        } else {
            None
        },
        _ => None,
    }
}

/// The handler writes to a file, which the configuration names.
pub open spec fn config_has_file(config: ConsoleModel) -> bool {
    config.class is Some && has_part(config.class->0, "FileHandler"@) && config.filename is Some
}

/// The number, or zero.
pub open spec fn or_zero(n: Option<u64>) -> u64 {
    match n {
        Some(v) => v,
        None => 0,
    }
}

/// The lower half of the bits of a number.
fn low_half(n: u64) -> (r: u32)
    ensures
        r == n % 0x1_0000_0000,
{
    let m: u64 = n % 0x1_0000_0000;
    m as u32
}

/// What the settings become by a configuration.
pub open spec fn configured(before: Logger, config: ConsoleModel, after: Logger) -> bool {
    &&& after.level == (match config_level(config) {
        Some(l) => l,
        None => before.level,
    })
    &&& after.format == (match config_format(config) {
        Some(f) => f,
        None => before.format,
    })
    &&& after.utc == before.utc
    &&& if config_has_file(config) {
        &&& after.sink matches Sink::RotatingFile { path, max_bytes, backup_count }
        &&& path@ == config.filename->0
        &&& max_bytes == or_zero(config.max_bytes)
        &&& backup_count == or_zero(config.backup_count) % 0x1_0000_0000
    } else {
        after.sink == before.sink
    }
}

/// Changes the settings as a configuration says.
pub fn apply_console_config(logger: Logger, config: &ConsoleConfig) -> (r: Logger)
    ensures
        configured(logger, config@, r),
{
    let wanted = match (&config.root_level, &config.level) {
        (Some(l), _) => Level::parse(l.as_str()),
        (None, Some(l)) => Level::parse(l.as_str()),
        (None, None) => None,
    };
    let level = match wanted {
        Some(l) => l,
        None => logger.level,
    };
    let format = match (&config.formatter, &config.formatter_class) {
        (Some(_), Some(class)) => if contains_part(class.as_str(), "Logfmt") {
            Format::Logfmt
        } else {
            Format::Json
        },
        (Some(name), None) => if contains_part(in_upper_case(name.as_str()).as_str(), "LOGFMT") {
            Format::Logfmt
        } else {
            logger.format
        },
        _ => logger.format,
    };
    let sink = match (&config.class, &config.filename) {
        (Some(class), Some(filename)) => if contains_part(class.as_str(), "FileHandler") {
            Sink::RotatingFile {
                path: filename.clone(),
                max_bytes: match config.max_bytes {
                    Some(n) => n,
                    None => 0,
                },
                backup_count: match config.backup_count {
                    Some(n) => low_half(n),
                    None => 0,
                },
            }
        } else {
            logger.sink
        },
        _ => logger.sink,
    };
    Logger { level, format, utc: logger.utc, sink }
}

/// Lines to be printed before the program ends, and its exit code.
pub struct Failure {
    pub lines: Vec<String>,
    pub code: i32,
}

/// The failure prints these lines.
pub open spec fn fails_with(failure: Failure, lines: Seq<Seq<char>>, code: int) -> bool {
    &&& failure.lines@.len() == lines.len()
    &&& forall|i: int| 0 <= i < lines.len() ==> (#[trigger] failure.lines@[i])@ == lines[i]
    &&& failure.code == code
}

/// The configuration file could not be read.
pub fn config_missing(path: &str) -> (r: Failure)
    ensures
        fails_with(r, seq!["Config file: "@ + path@ + " Not Found"@], 1),
{
    let mut lines: Vec<String> = Vec::new();
    lines.push(cat3("Config file: ", path, " Not Found"));
    Failure { lines, code: 1 }
}

/// The configuration file could not be used.
pub fn config_unusable(error: &str) -> (r: Failure)
    ensures
        fails_with(r, seq!["Error loading yaml file:"@, error@], 2),
{
    let mut lines: Vec<String> = Vec::new();
    lines.push("Error loading yaml file:".to_string());
    lines.push(error.to_string());
    Failure { lines, code: 2 }
}

/// The log file could not be opened.
pub fn log_file_unopened(filename: &str, error: &str) -> (r: Failure)
    ensures
        fails_with(
            r,
            seq![
                "Error loading yaml file:"@,
                "cannot open log file "@ + filename@ + ": "@ + error@,
            ],
            2,
        ),
{
    let message = cat4("cannot open log file ", filename, ": ", error);
    config_unusable(message.as_str())
}

/// Changes the settings as a configuration file with this text says.
pub fn load_log_config(logger: Logger, text: &str) -> (r: Result<Logger, Failure>)
    ensures
        match yaml_parsed(text@) {
            Ok((texts, numbers)) => r is Ok && configured(
                logger,
                console_config(texts, numbers),
                r->Ok_0,
            ),
            Err(e) => r is Err && fails_with(r->Err_0, seq!["Error loading yaml file:"@, e], 2),
        },
{
    match read_console_config(text) {
        Ok(config) => Ok(apply_console_config(logger, &config)),
        Err(e) => Err(config_unusable(e.as_str())),
    }
}

// ---------------------------------------------------------------------------
// Lines
// ---------------------------------------------------------------------------

/// A value has to be quoted in logfmt.
pub open spec fn needs_quotes(v: Seq<char>) -> bool {
    v.len() == 0 || v.contains(' ') || v.contains('=') || v.contains('"')
}

/// How a character stands in a quoted value.
pub open spec fn logfmt_escape(c: char) -> Seq<char> {
    if c == '\\' {
        seq!['\\', '\\']
    } else if c == '"' {
        seq!['\\', '"']
    } else if c == '\n' {
        seq!['\\', 'n']
    } else {
        seq![c]
    }
}

/// A value in logfmt.
pub open spec fn logfmt_text(v: Seq<char>) -> Seq<char> {
    if needs_quotes(v) {
        seq!['"'] + each_char(v, |c: char| logfmt_escape(c)) + seq!['"']
    } else {
        v
    }
}

/// A value in logfmt.
pub fn logfmt_value(v: &str) -> (r: String)
    ensures
        r@ == logfmt_text(v@),
{
    if !(v.is_empty() || contains_char(v, ' ') || contains_char(v, '=') || contains_char(v, '"')) {
        return v.to_string();
    }
    let ghost escape = |c: char| logfmt_escape(c);
    let chars = chars_of(v);
    let mut out = String::new();
    out.push('"');
    let mut i: usize = 0;
    assert(out@ =~= seq!['"'] + each_char(v@.take(0), escape));
    while i < chars.len()
        invariant
            chars@ == v@,
            i <= chars@.len(),
            escape == (|c: char| logfmt_escape(c)),
            out@ == seq!['"'] + each_char(v@.take(i as int), escape),
        decreases chars@.len() - i,
    {
        let c = chars[i];
        let ghost before = out@;
        if c == '\\' {
            out.push('\\');
            out.push('\\');
        } else if c == '"' {
            out.push('\\');
            out.push('"');
        } else if c == '\n' {
            out.push('\\');
            out.push('n');
        } else {
            out.push(c);
        }
        assert(out@ =~= before + logfmt_escape(c));
        assert(v@.take(i + 1).drop_last() =~= v@.take(i as int));
        assert(v@.take(i + 1).last() == c);
        i += 1;
        assert(out@ =~= seq!['"'] + each_char(v@.take(i as int), escape));
    }
    assert(v@.take(i as int) =~= v@);
    out.push('"');
    assert(out@ =~= logfmt_text(v@));
    out
}

/// A log line.
pub open spec fn line_text(format: Format, time: Seq<char>, level: Level, message: Seq<char>) -> Seq<
    char,
> {
    match format {
        Format::Json => "{\"time\": "@ + json_string(time) + ", \"level\": "@ + json_string(
            level_name(level),
        ) + ", \"msg\": "@ + json_string(message) + "}\n"@,
        Format::Logfmt => "time="@ + time + " level="@ + level_name(level) + " msg="@ + logfmt_text(
            message,
        ) + "\n"@,
    }
}

/// A log line.
pub fn format_line(format: Format, time: &str, level: Level, message: &str) -> (r: String)
    ensures
        r@ == line_text(format, time@, level, message@),
{
    match format {
        Format::Json => {
            let mut out = cat2("{\"time\": ", json_quoted(time).as_str());
            out.append(", \"level\": ");
            out.append(json_quoted(level.name()).as_str());
            out.append(", \"msg\": ");
            out.append(json_quoted(message).as_str());
            out.append("}\n");
            out
        },
        Format::Logfmt => {
            let mut out = cat4("time=", time, " level=", level.name());
            out.append(" msg=");
            out.append(logfmt_value(message).as_str());
            out.append("\n");
            out
        },
    }
}

/// What is written for a message at a time: nothing if its level is below that
/// of the logger, and a plain line if there is no logger yet.
pub open spec fn emitted(
    logger: Option<&Logger>,
    time: Seq<char>,
    level: Level,
    message: Seq<char>,
) -> Option<Seq<char>> {
    match logger {
        None => Some(level_name(level) + " "@ + message + "\n"@),
        Some(l) => if level_rank(level) < level_rank(l.level) {
            None
        } else {
            Some(line_text(l.format, time, level, message))
        },
    }
}

/// What is written for a message at a time.
pub fn emit(logger: Option<&Logger>, time: &str, level: Level, message: &str) -> (r: Option<String>)
    ensures
        opt_view(r) == emitted(logger, time@, level, message@),
{
    match logger {
        None => Some(cat4(level.name(), " ", message, "\n")),
        Some(l) => if level.rank() < l.level.rank() {
            None
        } else {
            Some(format_line(l.format, time, level, message))
        },
    }
}

/// The current time, in UTC or in the zone of the machine. Which time it is, is
/// up to the clock.
pub fn timestamp(utc: bool) -> (r: String)
    ensures
        is_time(r@),
        utc ==> is_utc(r@),
{
    if utc {
        utc_now(TIME_FORMAT)
    } else {
        local_now(TIME_FORMAT)
    }
}

/// A message is written with the time: there is a logger, and the level is not
/// below that of the logger.
pub open spec fn has_time(logger: Option<&Logger>, level: Level) -> bool {
    logger is Some && level_rank(level) >= level_rank(logger->0.level)
}

/// `r` is what is written for a message now. Where the time is written, it is
/// in the format of log lines, and in UTC if the logger says so.
pub open spec fn logged(
    logger: Option<&Logger>,
    level: Level,
    message: Seq<char>,
    r: Option<Seq<char>>,
) -> bool {
    exists|time: Seq<char>|
        {
            &&& has_time(logger, level) ==> is_time(time) && (logger->0.utc ==> is_utc(time))
            &&& r == #[trigger] emitted(logger, time, level, message)
        }
}

/// What is written for a message now.
pub fn log(logger: Option<&Logger>, level: Level, message: &str) -> (r: Option<String>)
    ensures
        logged(logger, level, message@, opt_view(r)),
{
    let time = match logger {
        Some(l) => if level.rank() >= l.level.rank() {
            timestamp(l.utc)
        } else {
            String::new()
        },
        None => String::new(),
    };
    let r = emit(logger, time.as_str(), level, message);
    assert(opt_view(r) == emitted(logger, time@, level, message@));
    r
}

/// What is written for a debug message.
pub fn debug(logger: Option<&Logger>, message: &str) -> (r: Option<String>)
    ensures
        logged(logger, Level::Debug, message@, opt_view(r)),
{
    log(logger, Level::Debug, message)
}

/// What is written for an info message.
pub fn info(logger: Option<&Logger>, message: &str) -> (r: Option<String>)
    ensures
        logged(logger, Level::Info, message@, opt_view(r)),
{
    log(logger, Level::Info, message)
}

/// What is written for a warning.
pub fn warning(logger: Option<&Logger>, message: &str) -> (r: Option<String>)
    ensures
        logged(logger, Level::Warning, message@, opt_view(r)),
{
    log(logger, Level::Warning, message)
}

/// What is written for an error message.
pub fn error(logger: Option<&Logger>, message: &str) -> (r: Option<String>)
    ensures
        logged(logger, Level::Error, message@, opt_view(r)),
{
    log(logger, Level::Error, message)
}

/// What is written for a critical message. It does not end the program.
pub fn fatal(logger: Option<&Logger>, message: &str) -> (r: Option<String>)
    ensures
        logged(logger, Level::Critical, message@, opt_view(r)),
{
    log(logger, Level::Critical, message)
}

/// A message is written if and only if there is no logger yet or its level is
/// not below that of the logger.
pub proof fn emitted_by_level(logger: Option<&Logger>, time: Seq<char>, level: Level, message: Seq<char>)
    ensures
        emitted(logger, time, level, message) is Some <==> (logger is None || level_rank(level)
            >= level_rank(logger->0.level)),
{
}

/// A line ends with a newline and holds no other.
pub open spec fn is_one_line(s: Seq<char>) -> bool {
    s.len() > 0 && s.last() == '\n' && !s.drop_last().contains('\n')
}

proof fn no_newline_concat(a: Seq<char>, b: Seq<char>)
    requires
        !a.contains('\n'),
        !b.contains('\n'),
    ensures
        !(a + b).contains('\n'),
{
    if (a + b).contains('\n') {
        let i = choose|i: int| 0 <= i < (a + b).len() && (a + b)[i] == '\n';
        if i < a.len() {
            assert(a[i] == '\n');
        } else {
            assert(b[i - a.len()] == '\n');
        }
    }
}

proof fn json_string_has_no_newline(s: Seq<char>)
    ensures
        !json_string(s).contains('\n'),
{
    let escape = |c: char| json_escape(c);
    assert forall|c: char| !(#[trigger] escape(c)).contains('\n') by {
        let e = json_escape(c);
        if e.contains('\n') {
            let i = choose|i: int| 0 <= i < e.len() && e[i] == '\n';
            assert(e[i] as u32 >= 0x20);
        }
    }
    each_char_avoids(s, escape, '\n');
    no_newline_concat(seq!['"'], each_char(s, escape));
    no_newline_concat(seq!['"'] + each_char(s, escape), seq!['"']);
}

proof fn level_name_has_no_newline(level: Level)
    ensures
        !level_name(level).contains('\n'),
{
    reveal_strlit("DEBUG");
    reveal_strlit("INFO");
    reveal_strlit("WARNING");
    reveal_strlit("ERROR");
    reveal_strlit("CRITICAL");
}

/// A message in JSON is one line, whatever the message holds.
pub proof fn json_is_one_line(time: Seq<char>, level: Level, message: Seq<char>)
    ensures
        is_one_line(line_text(Format::Json, time, level, message)),
{
    reveal_strlit("{\"time\": ");
    reveal_strlit(", \"level\": ");
    reveal_strlit(", \"msg\": ");
    reveal_strlit("}\n");
    json_string_has_no_newline(time);
    json_string_has_no_newline(level_name(level));
    json_string_has_no_newline(message);
    let a = "{\"time\": "@ + json_string(time);
    let b = a + ", \"level\": "@;
    let c = b + json_string(level_name(level));
    let d = c + ", \"msg\": "@;
    let e = d + json_string(message);
    no_newline_concat("{\"time\": "@, json_string(time));
    no_newline_concat(a, ", \"level\": "@);
    no_newline_concat(b, json_string(level_name(level)));
    no_newline_concat(c, ", \"msg\": "@);
    no_newline_concat(d, json_string(message));
    no_newline_concat(e, seq!['}']);
    let line = line_text(Format::Json, time, level, message);
    assert(line.drop_last() =~= e + seq!['}']);
    assert(line.last() == '\n');
}

/// A message in logfmt is one line, if it holds no newline or is quoted.
pub proof fn logfmt_is_one_line(time: Seq<char>, level: Level, message: Seq<char>)
    requires
        is_time(time),
        !message.contains('\n') || needs_quotes(message),
    ensures
        is_one_line(line_text(Format::Logfmt, time, level, message)),
{
    reveal_strlit("time=");
    reveal_strlit(" level=");
    reveal_strlit(" msg=");
    reveal_strlit("\n");
    level_name_has_no_newline(level);
    if needs_quotes(message) {
        let escape = |c: char| logfmt_escape(c);
        assert forall|c: char| !(#[trigger] escape(c)).contains('\n') by {
            let e = logfmt_escape(c);
            if e.contains('\n') {
                let i = choose|i: int| 0 <= i < e.len() && e[i] == '\n';
                assert(e[i] == '\n');
            }
        }
        each_char_avoids(message, escape, '\n');
        no_newline_concat(seq!['"'], each_char(message, escape));
        no_newline_concat(seq!['"'] + each_char(message, escape), seq!['"']);
    }
    assert(!time.contains('\n')) by {
        if time.contains('\n') {
            let i = choose|i: int| 0 <= i < time.len() && time[i] == '\n';
            assert(is_time_char(time[i]));
        }
    }
    let a = "time="@ + time;
    let b = a + " level="@;
    let c = b + level_name(level);
    let d = c + " msg="@;
    let e = d + logfmt_text(message);
    no_newline_concat("time="@, time);
    no_newline_concat(a, " level="@);
    no_newline_concat(b, level_name(level));
    no_newline_concat(c, " msg="@);
    no_newline_concat(d, logfmt_text(message));
    let line = line_text(Format::Logfmt, time, level, message);
    assert(line.drop_last() =~= e);
    assert(line.last() == '\n');
}

proof fn logfmt_escape_is_code()
    ensures
        is_code(|c: char| logfmt_escape(c)),
{
    let f = |c: char| logfmt_escape(c);
    assert forall|x: char, y: char| (#[trigger] f(x)).is_prefix_of(#[trigger] f(y)) implies x == y by {
        let fx = logfmt_escape(x);
        let fy = logfmt_escape(y);
        assert(fx =~= fy.take(fx.len() as int));
        assert(fx[0] == fy[0]);
        if fx.len() > 1 && fy.len() > 1 {
            assert(fx[1] == fy[1]);
        }
    }
}

/// Different messages are written differently in logfmt.
pub proof fn logfmt_differs(a: Seq<char>, b: Seq<char>)
    requires
        logfmt_text(a) == logfmt_text(b),
    ensures
        a == b,
{
    let escape = |c: char| logfmt_escape(c);
    if needs_quotes(a) {
        assert(logfmt_text(a)[0] == '"');
    }
    if needs_quotes(b) {
        assert(logfmt_text(b)[0] == '"');
    }
    if needs_quotes(a) && needs_quotes(b) {
        let n = logfmt_text(a).len() as int;
        assert(logfmt_text(a).subrange(1, n - 1) =~= each_char(a, escape));
        assert(logfmt_text(b).subrange(1, n - 1) =~= each_char(b, escape));
        logfmt_escape_is_code();
        each_char_differs(a, b, escape);
    }
}

// ---------------------------------------------------------------------------
// Rotation
// ---------------------------------------------------------------------------

/// Something to be done to a file. That it fails does not matter.
pub enum FileMove {
    Remove(String),
    Rename(String, String),
}

/// What a [`FileMove`] stands for.
pub enum MoveModel {
    Remove(Seq<char>),
    Rename(Seq<char>, Seq<char>),
}

impl View for FileMove {
    type V = MoveModel;

    open spec fn view(&self) -> MoveModel {
        match self {
            FileMove::Remove(p) => MoveModel::Remove(p@),
            FileMove::Rename(p, q) => MoveModel::Rename(p@, q@),
        }
    }
}

/// The models of a list of moves.
pub open spec fn move_views(moves: Seq<FileMove>) -> Seq<MoveModel> {
    moves.map_values(|m: FileMove| m@)
}

/// The name of backup `i` of a file; the first is the newest.
pub open spec fn backup_name(path: Seq<char>, i: nat) -> Seq<char> {
    path + "."@ + decimal(i)
}

/// The name of backup `i` of a file.
pub fn bak(path: &str, i: u32) -> (r: String)
    ensures
        r@ == backup_name(path@, i as nat),
{
    cat3(path, ".", decimal_string(i as u64).as_str())
}

/// The file is rotated before a line is written: it would grow beyond its
/// limit, if it has one, and backups are kept.
pub open spec fn is_full(size: u64, line: nat, max_bytes: u64, backup_count: u32) -> bool {
    max_bytes > 0 && size + line > max_bytes && backup_count > 0
}

/// Each backup from `n - 1` down to `low` becomes the next older one.
pub open spec fn shifts(path: Seq<char>, n: nat, low: nat) -> Seq<MoveModel>
    decreases n - low,
{
    if low >= n {
        Seq::empty()
    } else {
        shifts(path, n, low + 1).push(
            MoveModel::Rename(backup_name(path, low), backup_name(path, low + 1)),
        )
    }
}

/// What rotates a file: the oldest backup goes, the others age by one, and the
/// file becomes the newest one.
pub open spec fn rotation_moves(path: Seq<char>, backup_count: nat) -> Seq<MoveModel> {
    seq![MoveModel::Remove(backup_name(path, backup_count))] + shifts(path, backup_count, 1) + seq![
        MoveModel::Rename(path, backup_name(path, 1)),
    ]
}

/// What is done to the files before a line of `line_len` bytes is written to
/// a file of `size` bytes.
pub fn rotation(path: &str, max_bytes: u64, backup_count: u32, size: u64, line_len: usize) -> (r: Vec<
    FileMove,
>)
    ensures
        move_views(r@) == (if is_full(size, line_len as nat, max_bytes, backup_count) {
            rotation_moves(path@, backup_count as nat)
        } else {
            Seq::empty()
        }),
{
    let mut moves: Vec<FileMove> = Vec::new();
    let total: u128 = size as u128 + line_len as u128;
    if !(max_bytes > 0 && total > max_bytes as u128 && backup_count > 0) {
        assert(move_views(moves@) =~= Seq::empty());
        return moves;
    }
    let ghost n = backup_count as nat;
    let ghost first = seq![MoveModel::Remove(backup_name(path@, n))];
    moves.push(FileMove::Remove(bak(path, backup_count)));
    let mut i: u32 = backup_count;
    assert(move_views(moves@) =~= first + shifts(path@, n, i as nat));
    while i > 1
        invariant
            1 <= i <= backup_count,
            n == backup_count,
            first == seq![MoveModel::Remove(backup_name(path@, n))],
            move_views(moves@) == first + shifts(path@, n, i as nat),
        decreases i,
    {
        let ghost before = moves@;
        i -= 1;
        let step = FileMove::Rename(bak(path, i), bak(path, i + 1));
        moves.push(step);
        assert(move_views(moves@) =~= move_views(before).push(step@));
        assert(move_views(moves@) =~= first + shifts(path@, n, i as nat));
    }
    let ghost before = moves@;
    let step = FileMove::Rename(path.to_string(), bak(path, 1));
    moves.push(step);
    assert(move_views(moves@) =~= move_views(before).push(step@));
    assert(move_views(moves@) =~= rotation_moves(path@, n));
    moves
}

/// What files hold, by their names, after a move. Renaming a file that is not
/// there does nothing.
pub open spec fn moved<C>(files: Map<Seq<char>, C>, m: MoveModel) -> Map<Seq<char>, C> {
    match m {
        MoveModel::Remove(p) => files.remove(p),
        MoveModel::Rename(p, q) => if files.contains_key(p) {
            files.remove(p).insert(q, files[p])
        } else {
            files
        },
    }
}

/// What files hold after a list of moves.
pub open spec fn all_moved<C>(files: Map<Seq<char>, C>, moves: Seq<MoveModel>) -> Map<Seq<char>, C>
    decreases moves.len(),
{
    if moves.len() == 0 {
        files
    } else {
        moved(all_moved(files, moves.drop_last()), moves.last())
    }
}

/// What a file holds, if it is there.
pub open spec fn held<C>(files: Map<Seq<char>, C>, name: Seq<char>) -> Option<C> {
    if files.contains_key(name) {
        Some(files[name])
    } else {
        None
    }
}

proof fn backup_names_differ(path: Seq<char>, i: nat, j: nat)
    ensures
        backup_name(path, i) == backup_name(path, j) ==> i == j,
        backup_name(path, i) != path,
{
    reveal_strlit(".");
    assert(backup_name(path, i).len() > path.len());
    if backup_name(path, i) == backup_name(path, j) {
        let from = path.len() as int + 1;
        assert(backup_name(path, i).skip(from) =~= decimal(i));
        assert(backup_name(path, j).skip(from) =~= decimal(j));
        decimal_differs(i, j);
    }
}

proof fn shifted<C>(files: Map<Seq<char>, C>, path: Seq<char>, n: nat, low: nat, name: Seq<char>)
    requires
        1 <= low <= n,
    ensures
        ({
            let moves = seq![MoveModel::Remove(backup_name(path, n))] + shifts(path, n, low);
            let after = all_moved(files, moves);
            &&& held(after, backup_name(path, low)) is None
            &&& forall|i: nat|
                low < i <= n ==> #[trigger] held(after, backup_name(path, i)) == held(
                    files,
                    backup_name(path, (i - 1) as nat),
                )
            &&& (forall|i: nat| low <= i <= n ==> name != #[trigger] backup_name(path, i)) ==> held(
                after,
                name,
            ) == held(files, name)
        }),
    decreases n - low,
{
    let first = seq![MoveModel::Remove(backup_name(path, n))];
    let moves = first + shifts(path, n, low);
    let after = all_moved(files, moves);
    if low == n {
        assert(moves =~= first);
        assert(moves.drop_last() =~= Seq::empty());
        assert(all_moved(files, moves.drop_last()) == files);
        assert(after == files.remove(backup_name(path, n)));
        assert(backup_name(path, low) == backup_name(path, n));
    } else {
        let earlier = first + shifts(path, n, low + 1);
        let before = all_moved(files, earlier);
        shifted(files, path, n, low + 1, name);
        shifted(files, path, n, low + 1, backup_name(path, low));
        assert(moves.drop_last() =~= earlier);
        let p = backup_name(path, low);
        let q = backup_name(path, low + 1);
        assert(moves.last() == MoveModel::Rename(p, q));
        assert forall|i: nat| low + 1 <= i <= n implies p != #[trigger] backup_name(path, i) by {
            backup_names_differ(path, low, i);
        }
        assert(held(before, p) == held(files, p));
        assert(held(before, q) is None);
        assert(p != q);
        assert(held(after, p) is None);
        assert(held(after, q) == held(files, p));
        assert forall|i: nat| low < i <= n implies #[trigger] held(after, backup_name(path, i))
            == held(files, backup_name(path, (i - 1) as nat)) by {
            backup_names_differ(path, i, low + 1);
            backup_names_differ(path, i, low);
            if i > low + 1 {
                assert(held(after, backup_name(path, i)) == held(before, backup_name(path, i)));
            }
        }
        if forall|i: nat| low <= i <= n ==> name != #[trigger] backup_name(path, i) {
            assert(name != p && name != q);
            assert(held(after, name) == held(before, name));
        }
    }
}

/// Rotation makes the file the newest backup, lets every backup age by one
/// and the oldest one go, and touches no other file: nothing that was logged
/// is lost but the oldest backup.
pub proof fn rotation_shifts<C>(files: Map<Seq<char>, C>, path: Seq<char>, n: nat, name: Seq<char>)
    requires
        n > 0,
    ensures
        ({
            let after = all_moved(files, rotation_moves(path, n));
            &&& held(after, path) is None
            &&& held(after, backup_name(path, 1)) == held(files, path)
            &&& forall|i: nat|
                1 < i <= n ==> #[trigger] held(after, backup_name(path, i)) == held(
                    files,
                    backup_name(path, (i - 1) as nat),
                )
            &&& name != path && (forall|i: nat| 1 <= i <= n ==> name != #[trigger] backup_name(path, i))
                ==> held(after, name) == held(files, name)
        }),
{
    let first = seq![MoveModel::Remove(backup_name(path, n))];
    let earlier = first + shifts(path, n, 1);
    let moves = rotation_moves(path, n);
    let before = all_moved(files, earlier);
    let after = all_moved(files, moves);
    shifted(files, path, n, 1, name);
    shifted(files, path, n, 1, path);
    assert(moves.drop_last() =~= earlier);
    let q = backup_name(path, 1);
    assert(moves.last() == MoveModel::Rename(path, q));
    assert forall|i: nat| 1 <= i <= n implies path != #[trigger] backup_name(path, i) by {
        backup_names_differ(path, i, i);
    }
    assert(held(before, path) == held(files, path));
    assert(held(before, q) is None);
    assert(path != q);
    assert forall|i: nat| 1 < i <= n implies #[trigger] held(after, backup_name(path, i)) == held(
        files,
        backup_name(path, (i - 1) as nat),
    ) by {
        backup_names_differ(path, i, 1);
        assert(held(after, backup_name(path, i)) == held(before, backup_name(path, i)));
    }
    if name != path && (forall|i: nat| 1 <= i <= n ==> name != #[trigger] backup_name(path, i)) {
        assert(name != q);
    }
}

} // verus!
