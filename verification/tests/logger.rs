use k8s_sidecar::env::EnvVars;
use k8s_sidecar::logger::{
    apply_console_config, bak, config_missing, debug, emit, error, fatal, format_line, info, init,
    load_log_config, log, log_config_path, log_file_unopened, logfmt_value, read_console_config,
    rotation, timestamp, warning, ConsoleConfig, FileMove, Format, Level, Logger, Sink,
};

fn vars(pairs: &[(&str, &str)]) -> EnvVars {
    EnvVars::new(pairs.iter().map(|(k, v)| (k.to_string(), v.to_string())).collect())
}

fn logger(level: Level, format: Format) -> Logger {
    Logger { level, format, utc: true, sink: Sink::Stderr }
}

fn empty_config() -> ConsoleConfig {
    ConsoleConfig {
        root_level: None,
        level: None,
        formatter: None,
        formatter_class: None,
        class: None,
        filename: None,
        max_bytes: None,
        backup_count: None,
    }
}

const CONFIG: &str = "
version: 1
formatters:
  JSON:
    (): logger.JsonFormatter
  OTHER:
    (): logger.LogfmtFormatter
handlers:
  console:
    class: logging.handlers.RotatingFileHandler
    level: WARNING
    formatter: OTHER
    filename: /tmp/sidecar.log
    maxBytes: 1000
    backupCount: 3
root:
  level: debug
";

#[test]
fn levels_have_names_and_ranks() {
    assert_eq!(Level::Warning.name(), "WARNING");
    assert_eq!(Level::Critical.rank(), 50);
    assert_eq!(Level::parse("debug"), Some(Level::Debug));
    assert_eq!(Level::parse("Warn"), Some(Level::Warning));
    assert_eq!(Level::parse("fatal"), Some(Level::Critical));
    assert_eq!(Level::parse("loud"), None);
    assert_eq!(Level::named("debug"), None);
    for level in [Level::Debug, Level::Info, Level::Warning, Level::Error, Level::Critical] {
        assert_eq!(Level::named(level.name()), Some(level));
    }
}

#[test]
fn log_settings_have_defaults() {
    let l = init(&vars(&[]));
    assert_eq!(l.level, Level::Info);
    assert_eq!(l.format, Format::Json);
    assert!(!l.utc);
    assert!(matches!(l.sink, Sink::Stderr));
    let l = init(&vars(&[("LOG_LEVEL", "error"), ("LOG_FORMAT", "logfmt"), ("LOG_TZ", "utc")]));
    assert_eq!(l.level, Level::Error);
    assert_eq!(l.format, Format::Logfmt);
    assert!(l.utc);
    let l = init(&vars(&[("LOG_LEVEL", "loud"), ("LOG_FORMAT", "xml"), ("LOG_TZ", "CET")]));
    assert_eq!(l.level, Level::Info);
    assert_eq!(l.format, Format::Json);
    assert!(!l.utc);
    assert_eq!(log_config_path(&vars(&[])), None);
    assert_eq!(log_config_path(&vars(&[("LOG_CONFIG", "")])), None);
    assert_eq!(log_config_path(&vars(&[("LOG_CONFIG", "/c.yml")])), Some("/c.yml".to_string()));
}

#[test]
fn configuration_files_are_read() {
    let c = match read_console_config(CONFIG) {
        Ok(c) => c,
        Err(e) => panic!("{}", e),
    };
    assert_eq!(c.root_level, Some("debug".to_string()));
    assert_eq!(c.level, Some("WARNING".to_string()));
    assert_eq!(c.formatter, Some("OTHER".to_string()));
    assert_eq!(c.formatter_class, Some("logger.LogfmtFormatter".to_string()));
    assert_eq!(c.class, Some("logging.handlers.RotatingFileHandler".to_string()));
    assert_eq!(c.filename, Some("/tmp/sidecar.log".to_string()));
    assert_eq!(c.max_bytes, Some(1000));
    assert_eq!(c.backup_count, Some(3));
    let c = match read_console_config("handlers: [1, 2]") {
        Ok(c) => c,
        Err(e) => panic!("{}", e),
    };
    assert_eq!(c.level, None);
    assert_eq!(c.max_bytes, None);
}

#[test]
fn configuration_files_are_applied() {
    match load_log_config(logger(Level::Info, Format::Json), CONFIG) {
        Ok(l) => {
            assert_eq!(l.level, Level::Debug);
            assert_eq!(l.format, Format::Logfmt);
            match l.sink {
                Sink::RotatingFile { path, max_bytes, backup_count } => {
                    assert_eq!(path, "/tmp/sidecar.log");
                    assert_eq!(max_bytes, 1000);
                    assert_eq!(backup_count, 3);
                }
                Sink::Stderr => panic!("expected a file"),
            }
        }
        Err(_) => panic!("expected settings"),
    }
    match load_log_config(logger(Level::Info, Format::Json), "a: [1") {
        Err(f) => {
            assert_eq!(f.code, 2);
            assert_eq!(f.lines.len(), 2);
            assert_eq!(f.lines[0], "Error loading yaml file:");
            assert!(!f.lines[1].is_empty());
            assert_ne!(f.lines[1], "a: [1");
        }
        Ok(_) => panic!("expected a failure"),
    }
}

#[test]
fn the_level_of_the_root_logger_goes_first() {
    let mut c = empty_config();
    let apply = |c: &ConsoleConfig| apply_console_config(logger(Level::Info, Format::Json), c);
    assert_eq!(apply(&c).level, Level::Info);
    c.level = Some("error".to_string());
    assert_eq!(apply(&c).level, Level::Error);
    c.root_level = Some("debug".to_string());
    assert_eq!(apply(&c).level, Level::Debug);
    c.root_level = Some("loud".to_string());
    assert_eq!(apply(&c).level, Level::Info);
}

#[test]
fn the_formatter_decides_on_the_format() {
    let mut c = empty_config();
    let apply = |c: &ConsoleConfig, f: Format| apply_console_config(logger(Level::Info, f), c).format;
    assert_eq!(apply(&c, Format::Logfmt), Format::Logfmt);
    c.formatter = Some("my_logfmt".to_string());
    assert_eq!(apply(&c, Format::Json), Format::Logfmt);
    c.formatter = Some("plain".to_string());
    assert_eq!(apply(&c, Format::Logfmt), Format::Logfmt);
    c.formatter_class = Some("x.JsonFormatter".to_string());
    assert_eq!(apply(&c, Format::Logfmt), Format::Json);
    c.formatter_class = Some("x.LogfmtFormatter".to_string());
    assert_eq!(apply(&c, Format::Json), Format::Logfmt);
}

#[test]
fn only_file_handlers_write_to_files() {
    let mut c = empty_config();
    c.filename = Some("/l".to_string());
    c.class = Some("logging.StreamHandler".to_string());
    let apply = |c: &ConsoleConfig| apply_console_config(logger(Level::Info, Format::Json), c).sink;
    assert!(matches!(apply(&c), Sink::Stderr));
    c.class = Some("logging.FileHandler".to_string());
    assert!(matches!(apply(&c), Sink::RotatingFile { max_bytes: 0, backup_count: 0, .. }));
    c.backup_count = Some(4294967298);
    assert!(matches!(apply(&c), Sink::RotatingFile { backup_count: 2, .. }));
    c.filename = None;
    assert!(matches!(apply(&c), Sink::Stderr));
}

#[test]
fn unusable_configurations_end_the_program() {
    let f = config_missing("/c.yml");
    assert_eq!(f.code, 1);
    assert_eq!(f.lines, vec!["Config file: /c.yml Not Found"]);
    let f = log_file_unopened("/l", "denied");
    assert_eq!(f.code, 2);
    assert_eq!(f.lines, vec!["Error loading yaml file:", "cannot open log file /l: denied"]);
}

#[test]
fn json_lines_are_escaped() {
    assert_eq!(
        format_line(Format::Json, "T", Level::Info, "say \"hi\"\\\n\t\u{1}\u{1f}\u{7f}\u{8}\u{c}\rä"),
        "{\"time\": \"T\", \"level\": \"INFO\", \"msg\": \"say \\\"hi\\\"\\\\\\n\\t\\u0001\\u001f\u{7f}\\b\\f\\rä\"}\n"
    );
}

#[test]
fn json_messages_are_one_line() {
    let line = format_line(Format::Json, "T", Level::Debug, "a\nb\n\r\n");
    assert_eq!(line.matches('\n').count(), 1);
    assert!(line.ends_with('\n'));
}

#[test]
fn logfmt_values_are_quoted_when_needed() {
    assert_eq!(logfmt_value("plain"), "plain");
    assert_eq!(logfmt_value(""), "\"\"");
    assert_eq!(logfmt_value("a b"), "\"a b\"");
    assert_eq!(logfmt_value("a=b"), "\"a=b\"");
    assert_eq!(logfmt_value("a\\ \"b\"\n"), "\"a\\\\ \\\"b\\\"\\n\"");
    assert_eq!(logfmt_value("a\\b"), "a\\b");
    // Without a blank, an equals sign or a quote, nothing is escaped.
    assert_eq!(logfmt_value("a\nb"), "a\nb");
}

#[test]
fn logfmt_messages_are_one_line_if_quoted() {
    assert_eq!(
        format_line(Format::Logfmt, "T", Level::Warning, "a b\nc"),
        "time=T level=WARNING msg=\"a b\\nc\"\n"
    );
}

#[test]
fn messages_below_the_level_are_not_written() {
    let l = logger(Level::Warning, Format::Logfmt);
    assert_eq!(emit(Some(&l), "T", Level::Info, "x"), None);
    assert_eq!(
        emit(Some(&l), "T", Level::Warning, "x"),
        Some("time=T level=WARNING msg=x\n".to_string())
    );
    assert_eq!(
        emit(Some(&l), "T", Level::Critical, "x"),
        Some("time=T level=CRITICAL msg=x\n".to_string())
    );
    assert_eq!(emit(None, "T", Level::Debug, "early"), Some("DEBUG early\n".to_string()));
}

#[test]
fn each_level_has_its_function() {
    let l = logger(Level::Debug, Format::Logfmt);
    for (line, name) in [
        (debug(Some(&l), "x"), "DEBUG"),
        (info(Some(&l), "x"), "INFO"),
        (warning(Some(&l), "x"), "WARNING"),
        (error(Some(&l), "x"), "ERROR"),
        (fatal(Some(&l), "x"), "CRITICAL"),
    ] {
        let line = line.unwrap();
        assert!(line.starts_with("time="));
        assert!(line.ends_with(&format!(" level={} msg=x\n", name)));
    }
    assert_eq!(debug(Some(&logger(Level::Info, Format::Json)), "x"), None);
    assert_eq!(log(None, Level::Error, "x"), Some("ERROR x\n".to_string()));
}

#[test]
fn words_are_read_in_any_case() {
    for (format, zone) in [("LOGFMT", "UTC"), ("logfmt", "utc"), ("LogFmt", "Utc")] {
        let l = init(&vars(&[("LOG_FORMAT", format), ("LOG_TZ", zone)]));
        assert_eq!(l.format, Format::Logfmt);
        assert!(l.utc);
        let mut config = empty_config();
        config.formatter = Some(format!("my-{}", format));
        let l = apply_console_config(logger(Level::Info, Format::Json), &config);
        assert_eq!(l.format, Format::Logfmt);
    }
    let l = init(&vars(&[("LOG_FORMAT", "logfm\u{167}"), ("LOG_TZ", "utc ")]));
    assert_eq!(l.format, Format::Json);
    assert!(!l.utc);
}

#[test]
fn times_have_microseconds_and_an_offset() {
    let utc = timestamp(true);
    assert_eq!(utc.len(), "2024-01-02T03:04:05.678901+00:00".len());
    assert!(utc.ends_with("+00:00"));
    assert_eq!(&utc[10..11], "T");
    assert_eq!(&utc[19..20], ".");
    let local = timestamp(false);
    assert_eq!(local.len(), utc.len());
    for time in [utc, local] {
        for (c, model) in time.chars().zip("0000-00-00T00:00:00.000000+00:00".chars()) {
            match model {
                '0' => assert!(c.is_ascii_digit()),
                '+' => assert!(c == '+' || c == '-'),
                mark => assert_eq!(c, mark),
            }
        }
    }
}

#[test]
fn lines_carry_the_time_in_utc() {
    let line = log(Some(&logger(Level::Info, Format::Logfmt)), Level::Info, "x").unwrap();
    assert!(line.starts_with("time="));
    assert!(line.ends_with("+00:00 level=INFO msg=x\n"));
}

#[test]
fn different_values_are_written_differently() {
    let samples = ["", "n", "\n", "\\n", "a b", "\"a b\"", "a=b", "\\", "\"", "a\nb", "a\\nb"];
    for (i, a) in samples.iter().enumerate() {
        for (j, b) in samples.iter().enumerate() {
            assert_eq!(logfmt_value(a) == logfmt_value(b), i == j);
        }
    }
}

#[test]
fn full_files_are_rotated() {
    assert_eq!(bak("/l", 12), "/l.12");
    assert!(rotation("/l", 0, 3, 1000, 10).is_empty());
    assert!(rotation("/l", 100, 0, 1000, 10).is_empty());
    assert!(rotation("/l", 100, 3, 90, 10).is_empty());
    assert_eq!(rotation("/l", 100, 1, 91, 10).len(), 2);
    assert_eq!(rotation("/l", u64::MAX, 1, u64::MAX, 1).len(), 2);
    let moves = rotation("/l", 100, 3, 91, 10);
    let shown: Vec<String> = moves
        .iter()
        .map(|m| match m {
            FileMove::Remove(p) => format!("rm {}", p),
            FileMove::Rename(p, q) => format!("mv {} {}", p, q),
        })
        .collect();
    assert_eq!(shown, vec!["rm /l.3", "mv /l.2 /l.3", "mv /l.1 /l.2", "mv /l /l.1"]);
}

#[test]
fn rotation_loses_the_oldest_backup_only() {
    let mut files: std::collections::BTreeMap<String, &str> = std::collections::BTreeMap::new();
    for (name, content) in [("/l", "now"), ("/l.1", "newest"), ("/l.2", "older"), ("/l.3", "oldest"), ("/m", "other")] {
        files.insert(name.to_string(), content);
    }
    for m in rotation("/l", 1, 3, 1, 1) {
        match m {
            FileMove::Remove(p) => {
                files.remove(&p);
            }
            FileMove::Rename(p, q) => {
                if let Some(c) = files.remove(&p) {
                    files.insert(q, c);
                }
            }
        }
    }
    let left: Vec<(String, &str)> = files.into_iter().collect();
    assert_eq!(
        left,
        vec![
            ("/l.1".to_string(), "now"),
            ("/l.2".to_string(), "newest"),
            ("/l.3".to_string(), "older"),
            ("/m".to_string(), "other"),
        ]
    );
}
