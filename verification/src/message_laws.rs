//! What log messages and failures tell of, stated of the functions that make
//! them.

use vstd::prelude::*;
use vstd::utf8::{encode_utf8, encode_utf8_decode_utf8, encode_utf8_valid_utf8, is_ascii_chars};

use crate::env::EnvVars;
use crate::files::{remove_file, Removal, WriteError, WriteStep, WriteTask};
use crate::health::{path_of, render_response};
use crate::http::{request, Exchange, HttpCfg, RequestStep};
use crate::kubeapi::{client_failure, init_client, loading_entry, ClientSettings, Item, KubeError};
use crate::logger::{
    apply_console_config, debug, emit, error, fatal, info, init, logfmt_value, timestamp, warning,
    ConsoleConfig, Format, Level, LogEntry, Logger,
};
use crate::number::{decimal_string, signed_decimal_string};
use crate::output_laws::{is_word, severity};
use crate::resources::{
    get_destination_folder, watch_task, werr_to_string, Ctx, FileAction, NextRound, WErr,
};
use crate::script::{execute, finished, start_failure, Execution};
use crate::startup::payload_from;
use crate::text::{ascii_upper, raised, second_word};

verus! {

/// The text stands somewhere in the message.
pub open spec fn tells(message: Seq<char>, text: Seq<char>) -> bool {
    exists|a: Seq<char>, b: Seq<char>| message == #[trigger] (a + text + b)
}

proof fn tells_inside(a: Seq<char>, text: Seq<char>, b: Seq<char>, message: Seq<char>)
    requires
        message =~= a + text + b,
    ensures
        tells(message, text),
{
    assert(message == a + text + b);
}

// ---------------------------------------------------------------------------
// Requests
// ---------------------------------------------------------------------------

/// A request that is given up is logged with its URL and what went wrong.
pub proof fn given_up_requests_are_named(x: Exchange, what: &str, r: RequestStep)
    requires
        call_ensures(Exchange::failed, (x, what), r),
        r is GiveUp,
    ensures
        tells(r->GiveUp_0.message@, x.url@),
        tells(r->GiveUp_0.message@, what@),
        tells(r->GiveUp_1.message@, x.url@),
{
    let first = r->GiveUp_0.message@;
    let second = r->GiveUp_1.message@;
    let none = Seq::<char>::empty();
    tells_inside("Max retries exceeded for URL "@, x.url@, ": "@ + what@, first);
    tells_inside("Max retries exceeded for URL "@ + x.url@ + ": "@, what@, none, first);
    tells_inside("Returning dummy response for URL "@, x.url@, none, second);
}

/// A method that is not known is named.
pub proof fn bad_methods_are_named(
    c: HttpCfg,
    url: &str,
    method: &str,
    enable_5xx: bool,
    payload: Option<&str>,
    r: RequestStep,
)
    requires
        call_ensures(request, (&c, Some(url), Some(method), enable_5xx, payload), r),
        r is Nothing,
    ensures
        tells(r->Nothing_0.message@, method@),
{
    tells_inside(
        "Invalid REQ_METHOD: '"@,
        method@,
        "', please use 'GET' or 'POST'. Doing nothing."@,
        r->Nothing_0.message@,
    );
}

/// A response is logged, for information, with the URL, the status, and the
/// text; and a POST with what it has sent.
pub proof fn responses_are_logged(
    x: Exchange,
    status: u16,
    code: String,
    reason: &str,
    text: &str,
    r: LogEntry,
)
    requires
        call_ensures(Exchange::response_entry, (&x, status, reason, text), r),
        call_ensures(decimal_string, (status as u64,), code),
    ensures
        r.level == Level::Info,
        tells(r.message@, x.url@),
        tells(r.message@, code@),
        tells(r.message@, reason@),
        tells(r.message@, text@),
        x.post && x.payload is Some ==> tells(r.message@, x.payload->0@),
{
    let m = r.message@;
    let none = Seq::<char>::empty();
    let head = if x.post {
        crate::http::payload_text(crate::text::opt_view(x.payload))
    } else {
        "Request"@
    };
    let before_url = head + " sent to "@;
    let before_code = before_url + x.url@ + ". Response: "@;
    let before_reason = before_code + code@ + " "@;
    let before_text = before_reason + reason@ + " "@;
    tells_inside(before_url, x.url@, ". Response: "@ + code@ + " "@ + reason@ + " "@ + text@, m);
    tells_inside(before_code, code@, " "@ + reason@ + " "@ + text@, m);
    tells_inside(before_reason, reason@, " "@ + text@, m);
    tells_inside(before_text, text@, none, m);
    if x.post && x.payload is Some {
        tells_inside(
            none,
            head,
            " sent to "@ + x.url@ + ". Response: "@ + code@ + " "@ + reason@ + " "@ + text@,
            m,
        );
    }
}

/// A body that is text is logged as that text.
pub proof fn bodies_are_logged_as_text(
    x: Exchange,
    status: u16,
    reason: &str,
    body: &[u8],
    text: &str,
    r: LogEntry,
    t: LogEntry,
)
    requires
        call_ensures(Exchange::body_received, (&x, status, reason, body), r),
        call_ensures(Exchange::response_entry, (&x, status, reason, text), t),
        body@ == encode_utf8(text@),
    ensures
        r.level == t.level,
        r.message@ == t.message@,
{
    encode_utf8_valid_utf8(text@);
    encode_utf8_decode_utf8(text@);
}

/// An HTTP response begins with its status and reason, and tells how many bytes
/// its body has.
pub proof fn responses_tell_status_and_length(
    code: u16,
    code_text: String,
    reason: &str,
    body: &str,
    length: u64,
    length_text: String,
    r: String,
)
    requires
        call_ensures(render_response, (code, reason, body), r),
        call_ensures(decimal_string, (code as u64,), code_text),
        length == encode_utf8(body@).len(),
        call_ensures(decimal_string, (length,), length_text),
    ensures
        ({
            let line = "HTTP/1.0 "@ + code_text@ + " "@ + reason@ + "\r\n"@;
            r@.len() >= line.len() && r@.take(line.len() as int) == line
        }),
        tells(r@, "Content-Length: "@ + length_text@ + "\r\n"@),
{
    let server = "\r\nServer: HealthHTTP/1.0\r\nContent-Type: text/plain; charset=utf-8\r\nContent-Length: "@;
    let close = "\r\nConnection: close\r\n\r\n"@;
    let head = "HTTP/1.0 "@ + code_text@ + " "@ + reason@;
    reveal_strlit("\r\n");
    reveal_strlit("Content-Length: ");
    reveal_strlit(
        "\r\nServer: HealthHTTP/1.0\r\nContent-Type: text/plain; charset=utf-8\r\nContent-Length: ",
    );
    reveal_strlit("\r\nConnection: close\r\n\r\n");
    let line = head + "\r\n"@;
    assert(r@ =~= head + server + length_text@ + close + body@);
    assert(server.take(2) =~= "\r\n"@);
    assert(close.take(2) =~= "\r\n"@);
    assert(r@.take(line.len() as int) =~= line);
    let n = server.len() - 16;
    assert(server.skip(n) =~= "Content-Length: "@);
    tells_inside(
        head + server.take(n),
        "Content-Length: "@ + length_text@ + "\r\n"@,
        close.skip(2) + body@,
        r@,
    );
}

/// A request whose first line has one word only, or none, asks for the root.
pub proof fn no_path_is_the_root(request: &str, r: String)
    requires
        call_ensures(path_of, (request,), r),
        request@.len() == 0 || is_word(request@),
    ensures
        r@ == "/"@,
{
    let s = request@;
    assert forall|i: int| 0 <= i < s.len() implies s[i] != '\n' by {
        assert(!crate::text::is_white(s[i]));
    }
    crate::text::first_at_is_first(s, '\n', s.len() as int);
    assert(s.take(s.len() as int) =~= s);
    word_alone(s);
}

proof fn all_black(s: Seq<char>)
    requires
        s.len() == 0 || is_word(s),
    ensures
        crate::text::run_length(s, false) == s.len(),
        crate::text::run_length(s, true) == 0,
    decreases s.len(),
{
    if s.len() > 0 {
        assert(!crate::text::is_white(s[0]));
        assert forall|i: int| 0 <= i < s.skip(1).len() implies !crate::text::is_white(
            #[trigger] s.skip(1)[i],
        ) by {
            assert(s.skip(1)[i] == s[i + 1]);
        }
        all_black(s.skip(1));
    }
}

proof fn word_alone(s: Seq<char>)
    requires
        s.len() == 0 || is_word(s),
    ensures
        second_word(s).len() == 0,
{
    all_black(s);
    assert(crate::text::left_trimmed(s) =~= s);
    let rest = s.skip(s.len() as int);
    assert(rest.len() == 0);
    all_black(rest);
    assert(crate::text::left_trimmed(rest) =~= rest);
}

// ---------------------------------------------------------------------------
// Files and scripts
// ---------------------------------------------------------------------------

/// Messages on files name them.
pub proof fn files_are_named(
    folder: &str,
    filename: &str,
    is_file: bool,
    path: String,
    removal: Removal,
    task: WriteTask,
    current: Result<Option<Vec<u8>>, ()>,
    r: WriteStep,
)
    requires
        call_ensures(remove_file, (folder, filename, is_file), removal),
        call_ensures(crate::files::file_path, (folder, filename), path),
        call_ensures(WriteTask::current_read, (task, current), r),
    ensures
        tells(removal.log.message@, path@),
        r is Write ==> r->Write_0.level == Level::Info && tells(r->Write_0.message@, task.path@)
            && tells(r->Write_0.message@, task.data_type@),
        r matches WriteStep::Done(Some(entry), _) ==> entry.level == Level::Debug && tells(
            entry.message@,
            task.filename@,
        ),
{
    let none = Seq::<char>::empty();
    if is_file {
        tells_inside("Removing "@, path@, none, removal.log.message@);
    } else {
        tells_inside("Unable to remove "@, path@, ", file not found"@, removal.log.message@);
    }
    if r is Write {
        let m = r->Write_0.message@;
        tells_inside("Writing "@, task.path@, " ("@ + task.data_type@ + ")"@, m);
        tells_inside("Writing "@ + task.path@ + " ("@, task.data_type@, ")"@, m);
    }
    if let WriteStep::Done(Some(entry), _) = r {
        tells_inside(
            "Contents of "@,
            task.filename@,
            " haven't changed. Not overwriting existing file"@,
            entry.message@,
        );
    }
}

/// The folder that an annotation leads to is logged with the resource; and a
/// file that could not be worked on with its key and its folder.
pub proof fn folders_are_named(
    item: Item,
    ctx: Ctx,
    r: (String, Option<LogEntry>),
    action: FileAction,
    result: Result<bool, WriteError>,
    s: (bool, Option<LogEntry>),
)
    requires
        call_ensures(get_destination_folder, (&item, &ctx), r),
        call_ensures(FileAction::outcome, (&action, result), s),
    ensures
        r.1 is Some ==> r.1->0.level == Level::Info && tells(r.1->0.message@, r.0@) && tells(
            r.1->0.message@,
            item.name@,
        ),
        s.1 is Some ==> tells(s.1->0.message@, action.key@) && tells(
            s.1->0.message@,
            action.folder@,
        ),
{
    let none = Seq::<char>::empty();
    if r.1 is Some {
        let m = r.1->0.message@;
        let steps = crate::resources::folder_steps(ctx, item@);
        assert(steps.len() == 1);
        assert(steps[0] == crate::plan::StepModel::Log(r.1->0@));
        let before = "Found a folder override annotation, placing the "@;
        tells_inside(before, item.name@, " in: "@ + r.0@, m);
        tells_inside(before + item.name@ + " in: "@, r.0@, none, m);
    }
    if s.1 is Some {
        let m = s.1->0.message@;
        let before = "Error when updating from '"@;
        tells_inside(before, action.key@, "' into '"@ + action.folder@ + "'"@, m);
        tells_inside(before + action.key@ + "' into '"@, action.folder@, "'"@, m);
    }
}

/// A script is named when it is run and when it cannot be; its command is when
/// it fails.
pub proof fn scripts_are_named(
    path: &str,
    mode: Option<u32>,
    r: Execution,
    what: &str,
    failure: String,
    argv: &str,
    code: Option<i32>,
    stdout: &[u8],
    stderr: &[u8],
    log: Vec<LogEntry>,
)
    requires
        call_ensures(execute, (path, mode), r),
        call_ensures(start_failure, (path, what), failure),
        call_ensures(finished, (argv, false, code, stdout, stderr), log),
    ensures
        tells(r.start.message@, path@),
        tells(r.argv@, path@),
        tells(failure@, path@),
        tells(failure@, what@),
        log@.len() == 1 && tells(log@[0].message@, argv@),
{
    let none = Seq::<char>::empty();
    tells_inside("Executing script from "@, path@, none, r.start.message@);
    if mode is Some && mode->0 & 0x49 != 0 {
        tells_inside("['"@, path@, "']"@, r.argv@);
    } else {
        tells_inside("['sh', '"@, path@, "']"@, r.argv@);
    }
    tells_inside(none, what@, ": '"@ + path@ + "'"@, failure@);
    tells_inside(what@ + ": '"@, path@, "'"@, failure@);
    let v = crate::logger::entry_views(log@);
    assert(v.len() == log@.len());
    assert(v[0] == log@[0]@);
    tells_inside(
        "Script failed with error: Command '"@,
        argv@,
        "' returned non-zero exit status "@ + crate::script::exit_text(code) + "."@,
        log@[0].message@,
    );
}

/// Both streams of a script that succeeded are logged, the output first.
pub proof fn output_is_logged(
    argv: &str,
    code: Option<i32>,
    stdout: &[u8],
    stderr: &[u8],
    out: String,
    err: String,
    log: Vec<LogEntry>,
)
    requires
        call_ensures(finished, (argv, true, code, stdout, stderr), log),
        call_ensures(crate::script::bytes_repr, (stdout,), out),
        call_ensures(crate::script::bytes_repr, (stderr,), err),
    ensures
        log@.len() == 3,
        tells(log@[0].message@, out@),
        tells(log@[1].message@, err@),
{
    let none = Seq::<char>::empty();
    let v = crate::logger::entry_views(log@);
    assert(v.len() == log@.len());
    assert(v[0] == log@[0]@);
    assert(v[1] == log@[1]@);
    tells_inside("Script stdout: "@, out@, none, log@[0].message@);
    tells_inside("Script stderr: "@, err@, none, log@[1].message@);
}

// ---------------------------------------------------------------------------
// Failures
// ---------------------------------------------------------------------------

/// A failure is shown by what it says; one of the API by its code and reason.
pub proof fn failures_say_what_they_are(e: WErr, r: String, code_text: String)
    requires
        call_ensures(werr_to_string, (&e,), r),
        e matches WErr::Kube(KubeError::Api { code, .. }) ==> call_ensures(
            decimal_string,
            (code as u64,),
            code_text,
        ),
    ensures
        match e {
            WErr::Kube(KubeError::Api { code, reason }) => tells(r@, code_text@) && tells(r@, reason@),
            WErr::Kube(KubeError::Transport(what)) => r@ == what@,
            WErr::Other(what) => r@ == what@,
        },
{
    if let WErr::Kube(KubeError::Api { code, reason }) = e {
        tells_inside("("@, code_text@, ") Reason: "@ + reason@, r@);
        tells_inside(
            "("@ + code_text@ + ") Reason: "@,
            reason@,
            Seq::<char>::empty(),
            r@,
        );
    }
}

/// What ended a round is logged with what it says.
pub proof fn failed_rounds_are_logged(
    ctx: Ctx,
    namespace: &str,
    e: WErr,
    vars: EnvVars,
    r: NextRound,
    what: String,
)
    requires
        call_ensures(watch_task, (&ctx, namespace, Err(e), &vars), r),
        call_ensures(werr_to_string, (&e,), what),
    ensures
        r is Stop ==> tells(r->Stop_0.message@, what@),
        r is Throttle ==> tells(r->Throttle_0.message@, what@),
        r is Stop || r is Throttle,
{
    let m = if r is Stop {
        r->Stop_0.message@
    } else {
        r->Throttle_0.message@
    };
    match e {
        WErr::Kube(KubeError::Api { code, reason }) => {
            let end = if code == 500 {
                ""@
            } else {
                "\n"@
            };
            tells_inside("ApiException when calling kubernetes: "@, what@, end, m);
        },
        WErr::Kube(KubeError::Transport(_)) => {
            tells_inside("ProtocolError when calling kubernetes: "@, what@, "\n"@, m);
        },
        WErr::Other(_) => {
            tells_inside("Received unknown exception: "@, what@, "\n"@, m);
        },
    }
}

/// Where the configuration of the client comes from is logged, and why there is
/// none; and the address of the cluster without slashes at its end.
pub proof fn clients_are_reported(
    path: &str,
    r: LogEntry,
    what: &str,
    failure: String,
    vars: EnvVars,
    url: &str,
    host: String,
    client: ClientSettings,
)
    requires
        call_ensures(loading_entry, (path, true), r),
        call_ensures(client_failure, (what,), failure),
        call_ensures(init_client, (&vars, url), client),
        call_ensures(crate::text::strip_end, (url, '/'), host),
    ensures
        r.level == Level::Info && tells(r.message@, path@),
        tells(failure@, what@),
        tells(client.loaded.message@, host@),
{
    let none = Seq::<char>::empty();
    tells_inside("Loading config from '"@, path@, "'..."@, r.message@);
    tells_inside("Unexpected error during Kubernetes client initialization: "@, what@, none, failure@);
    tells_inside("Config for cluster api at '"@, host@, "' loaded."@, client.loaded.message@);
}

// ---------------------------------------------------------------------------
// Levels
// ---------------------------------------------------------------------------

/// Messages of each level are written if the logger lets the level through.
pub proof fn each_level_has_its_function(
    logger: Logger,
    message: &str,
    d: Option<String>,
    i: Option<String>,
    w: Option<String>,
    e: Option<String>,
    f: Option<String>,
)
    requires
        call_ensures(debug, (Some(&logger), message), d),
        call_ensures(info, (Some(&logger), message), i),
        call_ensures(warning, (Some(&logger), message), w),
        call_ensures(error, (Some(&logger), message), e),
        call_ensures(fatal, (Some(&logger), message), f),
    ensures
        d is Some <==> severity(logger.level) == 0,
        i is Some <==> severity(logger.level) <= 1,
        w is Some <==> severity(logger.level) <= 2,
        e is Some <==> severity(logger.level) <= 3,
        f is Some,
{
}

/// A line has the time, the name of the level and the message, in this order:
/// as strings of a JSON object, or as values of logfmt.
pub proof fn lines_have_time_level_and_message(
    logger: Logger,
    time: &str,
    level: Level,
    message: &str,
    r: Option<String>,
    name: &'static str,
    value: String,
    time_json: String,
    name_json: String,
    message_json: String,
)
    requires
        call_ensures(emit, (Some(&logger), time, level, message), r),
        r is Some,
        call_ensures(Level::name, (level,), name),
        call_ensures(logfmt_value, (message,), value),
        call_ensures(payload_from, (time, None), time_json),
        call_ensures(payload_from, (name, None), name_json),
        call_ensures(payload_from, (message, None), message_json),
    ensures
        logger.format == Format::Logfmt ==> r->0@ == "time="@ + time@ + " level="@ + name@ + " msg="@
            + value@ + "\n"@,
        logger.format == Format::Json ==> r->0@ == "{\"time\": "@ + time_json@ + ", \"level\": "@
            + name_json@ + ", \"msg\": "@ + message_json@ + "}\n"@,
{
}

/// Times in UTC end in its offset.
pub proof fn utc_times_have_no_offset(r: String)
    requires
        call_ensures(timestamp, (true,), r),
    ensures
        r@.len() >= 6,
        r@.skip(r@.len() - 6) == "+00:00"@,
{
}

/// A character of ASCII in upper case.
pub open spec fn is_upper_of(u: char, c: char) -> bool {
    if 'a' <= c <= 'z' {
        u as u32 + 32 == c as u32
    } else {
        u == c
    }
}

/// The second text is the first one, which is of ASCII, in upper case.
pub open spec fn are_upper_of(upper: Seq<char>, s: Seq<char>) -> bool {
    &&& is_ascii_chars(s)
    &&& upper.len() == s.len()
    &&& forall|i: int| 0 <= i < s.len() ==> is_upper_of(#[trigger] upper[i], s[i])
}

proof fn upper_is(u: char, c: char)
    requires
        is_upper_of(u, c),
    ensures
        ascii_upper(c) == u,
{
}

proof fn raised_is(upper: Seq<char>, s: Seq<char>)
    requires
        are_upper_of(upper, s),
    ensures
        raised(s) == upper,
{
    let l = raised(s);
    assert(l.len() == s.len());
    assert forall|i: int| 0 <= i < s.len() implies l[i] == upper[i] by {
        upper_is(upper[i], s[i]);
    }
    assert(l =~= upper);
}

/// The name of a level may be in upper or lower case.
pub proof fn levels_are_named_in_any_case(s: &str, upper: &str, r: Option<Level>, named: Option<Level>)
    requires
        call_ensures(Level::parse, (s,), r),
        call_ensures(Level::named, (upper,), named),
        are_upper_of(upper@, s@),
    ensures
        r == named,
{
    raised_is(upper@, s@);
}

/// The two short names of levels stand for the same levels as the long ones.
pub proof fn levels_have_short_names(w: Option<Level>, f: Option<Level>)
    requires
        call_ensures(Level::named, ("WARN",), w),
        call_ensures(Level::named, ("FATAL",), f),
    ensures
        w == Some(Level::Warning),
        f == Some(Level::Critical),
{
    reveal_strlit("DEBUG");
    reveal_strlit("INFO");
    reveal_strlit("WARNING");
    reveal_strlit("WARN");
    reveal_strlit("ERROR");
    reveal_strlit("CRITICAL");
    reveal_strlit("FATAL");
    assert("DEBUG"@[0] == 'D' && "ERROR"@[0] == 'E' && "FATAL"@[0] == 'F');
    assert("DEBUG"@.len() == 5 && "INFO"@.len() == 4 && "WARNING"@.len() == 7 && "WARN"@.len() == 4
        && "CRITICAL"@.len() == 8 && "FATAL"@.len() == 5);
    assert("INFO"@[0] == 'I' && "WARN"@[0] == 'W');
}

/// Format and time zone of log lines may be named in upper or lower case; what
/// names no other format is JSON, and no other zone the local one.
pub proof fn format_and_zone_in_any_case(vars: EnvVars, format: Seq<char>, zone: Seq<char>, r: Logger)
    requires
        call_ensures(init, (&vars,), r),
        vars@.contains_key("LOG_FORMAT"@) && are_upper_of(format, vars@["LOG_FORMAT"@]),
        vars@.contains_key("LOG_TZ"@) && are_upper_of(zone, vars@["LOG_TZ"@]),
    ensures
        format == "LOGFMT"@ ==> r.format == Format::Logfmt,
        format != "LOGFMT"@ ==> r.format == Format::Json,
        r.utc <==> zone == "UTC"@,
{
    raised_is(format, vars@["LOG_FORMAT"@]);
    raised_is(zone, vars@["LOG_TZ"@]);
}

/// A formatter of no known class writes logfmt if its name says so, in upper or
/// lower case, and else leaves the format.
pub proof fn formatter_name_decides(
    logger: Logger,
    config: ConsoleConfig,
    upper: &str,
    logfmt: bool,
    r: Logger,
)
    requires
        call_ensures(apply_console_config, (logger, &config), r),
        config.formatter is Some && config.formatter_class is None,
        are_upper_of(upper@, config.formatter->0@),
        call_ensures(crate::text::contains_part, (upper, "LOGFMT"), logfmt),
    ensures
        logfmt ==> r.format == Format::Logfmt,
        !logfmt ==> r.format == logger.format,
{
    raised_is(upper@, config.formatter->0@);
}

/// A negative number is written with a minus sign before what it is without it.
pub proof fn negative_numbers_have_a_sign(n: i32, m: u64, r: String, size: String)
    requires
        call_ensures(signed_decimal_string, (n,), r),
        m == (if n < 0 {
            -n
        } else {
            n as int
        }),
        call_ensures(decimal_string, (m,), size),
    ensures
        n >= 0 ==> r@ == size@,
        n < 0 ==> r@ == seq!['-'] + size@,
{
}

} // verus!
