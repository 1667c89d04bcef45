//! What is written, run, answered and logged, stated of the functions that
//! decide it.

use vstd::prelude::*;
use vstd::utf8::{encode_utf8, encode_utf8_decode_utf8, encode_utf8_valid_utf8, is_ascii_chars};

use crate::env::EnvVars;
use crate::files::{
    file_path, remove_file, unique_filename, write_data_to_file, FolderError, Removal, WriteError,
    WriteStep, WriteTask,
};
use crate::health::{
    bind_target, handle, mark_ready, path_of, preferred_address, register_watchers, render_response,
    respond, status_body, update_k8s_contact, watcher_stopped, BindTarget, Health,
};
use crate::logger::{
    apply_console_config, bak, config_missing, emit, init, load_log_config, log_config_path,
    logfmt_value, move_views, read_console_config, rotation, rotation_moves, ConsoleConfig, Failure,
    FileMove, Format, Level, Logger, MoveModel, Sink,
};
use crate::number::parse_unsigned;
use crate::outside::{sha256, yaml_parsed};
use crate::script::{bytes_repr, execute, finished, Execution};
use crate::startup::payload_from;
use crate::text::{
    contains_part, first_at_is_first, is_white, left_trimmed, right_stripped, run_length, second_word,
    strip_end, trim, white_tail,
};

verus! {

// ---------------------------------------------------------------------------
// Files
// ---------------------------------------------------------------------------

/// A file is in its folder, after a slash, of which there is one where the
/// folder has none at its end; an absolute name stands for itself, and a name
/// in no folder too.
pub proof fn files_are_in_their_folders(folder: &str, filename: &str, r: String)
    requires
        call_ensures(file_path, (folder, filename), r),
    ensures
        filename@.len() > 0 && filename@[0] == '/' ==> r@ == filename@,
        folder@.len() == 0 ==> r@ == filename@,
        !(filename@.len() > 0 && filename@[0] == '/') && folder@.len() > 0 ==> {
            &&& folder@.last() == '/' ==> r@ == folder@ + filename@
            &&& folder@.last() != '/' ==> r@ == folder@.push('/') + filename@
        },
{
    reveal_strlit("/");
    if folder@.len() == 0 {
        assert(folder@ + filename@ =~= filename@);
    }
    assert(folder@ + "/"@ + filename@ =~= folder@.push('/') + filename@);
}

/// A unique name ends in the name that it is made of, and tells what the file
/// comes from before that.
pub proof fn unique_names_tell_the_resource(
    filename: &str,
    namespace: &str,
    resource: &str,
    name: &str,
    r: String,
)
    requires
        call_ensures(unique_filename, (filename, namespace, resource, name), r),
    ensures
        r@ == "namespace_"@ + namespace@ + seq!['.'] + resource@ + seq!['_'] + name@ + seq!['.']
            + filename@,
{
    reveal_strlit(".");
    reveal_strlit("_");
    assert("."@ =~= seq!['.']);
    assert("_"@ =~= seq!['_']);
}

/// This is to be written to this file, and nothing else.
pub open spec fn writes(
    task: WriteTask,
    folder: Seq<char>,
    filename: Seq<char>,
    path: Seq<char>,
    data: Seq<u8>,
) -> bool {
    &&& task.folder@ == folder
    &&& task.filename@ == filename
    &&& task.path@ == path
    &&& task.data@ == data
}

/// The folder is made if it is not there, and only then; what is written is
/// what was asked for, at the path of the file.
pub proof fn writing_begins(
    folder: &str,
    filename: &str,
    data: Vec<u8>,
    data_type: &'static str,
    folder_exists: bool,
    path: String,
    r: WriteStep,
)
    requires
        call_ensures(write_data_to_file, (folder, filename, data, data_type, folder_exists), r),
        call_ensures(file_path, (folder, filename), path),
    ensures
        folder_exists ==> r is ReadCurrent && writes(
            r->ReadCurrent_0,
            folder@,
            filename@,
            path@,
            data@,
        ),
        !folder_exists ==> r is MakeFolder && writes(
            r->MakeFolder_0,
            folder@,
            filename@,
            path@,
            data@,
        ),
{
}

/// A folder that is there, whoever made it, lets the writing go on. One that
/// may not be made ends it without a change, and any other failure is one.
pub proof fn folder_lets_writing_go_on(task: WriteTask, outcome: Result<(), FolderError>, r: WriteStep)
    requires
        call_ensures(WriteTask::folder_made, (task, outcome), r),
    ensures
        outcome is Ok ==> r == WriteStep::ReadCurrent(task),
        outcome matches Err(FolderError::AlreadyExists) ==> r == WriteStep::ReadCurrent(task),
        outcome matches Err(FolderError::PermissionDenied) ==> {
            &&& r matches WriteStep::Done(Some(entry), Ok(changed))
            &&& entry.level == Level::Error
            &&& !changed
        },
        outcome matches Err(FolderError::Other) ==> r is Done && r->Done_1 is Err,
{
}

/// A file that is not there is written. One that holds what is to be written
/// is left alone, and that is no change; one with another digest is written.
/// One that cannot be read fails.
pub proof fn only_what_is_new_is_written(
    task: WriteTask,
    current: Result<Option<Vec<u8>>, ()>,
    r: WriteStep,
)
    requires
        call_ensures(WriteTask::current_read, (task, current), r),
    ensures
        current is Err ==> r is Done && r->Done_1 is Err,
        current matches Ok(None) ==> r is Write && r->Write_1 == task,
        current matches Ok(Some(bytes)) ==> {
            &&& bytes@ == task.data@ ==> (r matches WriteStep::Done(_, Ok(changed)) && !changed)
            &&& sha256(bytes@) != sha256(task.data@) ==> r is Write && r->Write_1 == task
            &&& sha256(bytes@) == sha256(task.data@) ==> (r matches WriteStep::Done(_, Ok(changed))
                && !changed)
        },
{
}

/// Another digest lets the file be written; the same one does not.
pub proof fn digests_decide(task: WriteTask, new_digest: &[u8], current_digest: &[u8], r: WriteStep)
    requires
        call_ensures(WriteTask::compare_digests, (task, new_digest, current_digest), r),
    ensures
        new_digest@ == current_digest@ ==> (r matches WriteStep::Done(_, Ok(changed)) && !changed),
        new_digest@ != current_digest@ ==> r is Write && r->Write_1 == task,
{
}

/// After a file was written its mode is set, if `DEFAULT_FILE_MODE` has one in
/// octal digits; without it, or once it is set, the file counts as changed. A
/// mode that is no number fails, and so does whatever the file system fails
/// at.
pub proof fn written_files_get_their_mode(
    task: WriteTask,
    outcome: Result<(), ()>,
    vars: EnvVars,
    text: &str,
    mode: Option<u64>,
    r: WriteStep,
)
    requires
        call_ensures(WriteTask::written, (task, outcome, &vars), r),
        vars@.contains_key("DEFAULT_FILE_MODE"@) ==> text@ == vars@["DEFAULT_FILE_MODE"@],
        call_ensures(parse_unsigned, (text, 8u64, u32::MAX as u64), mode),
    ensures
        outcome is Err ==> r is Done && r->Done_1 is Err,
        outcome is Ok && (!vars@.contains_key("DEFAULT_FILE_MODE"@) || text@.len() == 0) ==> (
        r matches WriteStep::Done(None, Ok(changed)) && changed),
        outcome is Ok && vars@.contains_key("DEFAULT_FILE_MODE"@) && text@.len() > 0 ==> {
            &&& mode is Some ==> r is SetMode && r->SetMode_0 == mode->0 && r->SetMode_1 == task
            &&& mode is None ==> (r matches WriteStep::Done(_, Err(WriteError::BadFileMode)))
        },
{
}

/// A file counts as changed once its mode is set.
pub proof fn mode_ends_the_writing(task: WriteTask, outcome: Result<(), ()>, r: WriteStep)
    requires
        call_ensures(WriteTask::mode_set, (task, outcome), r),
    ensures
        outcome is Ok ==> (r matches WriteStep::Done(None, Ok(changed)) && changed),
        outcome is Err ==> r is Done && r->Done_1 is Err,
{
}

/// A file that is there is removed, at its path, which is a change if it
/// succeeds. One that is not there is left, and that is an error and no change.
pub proof fn files_are_removed(
    folder: &str,
    filename: &str,
    is_file: bool,
    path: String,
    r: Removal,
    succeeded: bool,
    changed: bool,
)
    requires
        call_ensures(remove_file, (folder, filename, is_file), r),
        call_ensures(file_path, (folder, filename), path),
        call_ensures(Removal::outcome, (&r, succeeded), changed),
    ensures
        is_file ==> r.path is Some && r.path->0@ == path@ && r.log.level == Level::Info,
        !is_file ==> r.path is None && r.log.level == Level::Error,
        changed <==> is_file && succeeded,
{
}

// ---------------------------------------------------------------------------
// Scripts
// ---------------------------------------------------------------------------

/// A script whose mode lets someone execute it is run itself; any other, and
/// one of unknown mode, is handed to the shell.
pub proof fn scripts_run_directly_or_by_the_shell(path: &str, mode: Option<u32>, r: Execution)
    requires
        call_ensures(execute, (path, mode), r),
    ensures
        mode is Some && mode->0 & 0x49 != 0 ==> r.program@ == path@ && r.args@.len() == 0,
        mode is None || mode->0 & 0x49 == 0 ==> r.program@ == "sh"@ && r.args@.len() == 1
            && r.args@[0]@ == path@,
        r.start.level == Level::Info,
{
}

/// A script is run itself if its owner, its group or all others may execute it.
pub proof fn any_execute_bit_counts(path: &str, mode: u32, r: Execution)
    requires
        call_ensures(execute, (path, Some(mode)), r),
        mode & 1 != 0 || mode & 8 != 0 || mode & 64 != 0,
    ensures
        r.program@ == path@,
        r.args@.len() == 0,
{
    assert(mode & 0x49 != 0) by (bit_vector)
        requires
            mode & 1 != 0 || mode & 8 != 0 || mode & 64 != 0,
    ;
}

/// The output of a script is logged if it succeeded, for debugging; that it
/// failed is logged as an error.
pub proof fn scripts_are_reported(
    argv: &str,
    success: bool,
    code: Option<i32>,
    stdout: &[u8],
    stderr: &[u8],
    r: Vec<crate::logger::LogEntry>,
)
    requires
        call_ensures(finished, (argv, success, code, stdout, stderr), r),
    ensures
        success ==> r@.len() == 3 && (forall|i: int|
            0 <= i < 3 ==> (#[trigger] r@[i]).level == Level::Debug),
        !success ==> r@.len() == 1 && r@[0].level == Level::Error,
{
    let v = crate::logger::entry_views(r@);
    assert(v.len() == r@.len());
    assert forall|i: int| 0 <= i < r@.len() implies (#[trigger] r@[i]).level == v[i].0 by {
        assert(v[i] == r@[i]@);
    }
}

/// Bytes are shown in printable ASCII after a b, and different bytes
/// differently.
pub proof fn bytes_are_shown(a: &[u8], b: &[u8], ra: String, rb: String)
    requires
        call_ensures(bytes_repr, (a, ), ra),
        call_ensures(bytes_repr, (b, ), rb),
    ensures
        ra@ == rb@ ==> a@ == b@,
        ra@.len() >= 3 && ra@[0] == 'b' && ra@[1] == ra@.last(),
        forall|i: int| 0 <= i < ra@.len() ==> 0x20 <= (#[trigger] ra@[i]) as u32 <= 0x7e,
{
    if ra@ == rb@ {
        crate::script::repr_differs(a@, b@);
    }
    crate::script::repr_is_printable(a@);
}

// ---------------------------------------------------------------------------
// Health
// ---------------------------------------------------------------------------

/// The sidecar is healthy if it is ready, Kubernetes was heard of within the
/// last minute, and every watcher runs; and else it is not.
pub proof fn healthy_is_ready_and_alive(health: Health, now_ms: u64, r: (u16, &'static str, &'static str))
    requires
        call_ensures(status_body, (&health, now_ms), r),
    ensures
        r.0 == 200 || r.0 == 503,
        r.0 == 200 <==> health.ready && now_ms <= health.last_contact_ms + 60000
            && !health.watchers@.contains(false),
        r.0 == 200 <==> r.1@ == "OK"@,
        r.0 == 200 <==> r.2@ == "OK"@,
        !health.ready ==> r.2@ == "NOT READY"@,
{
    reveal_strlit("OK");
    reveal_strlit("NOT READY");
    reveal_strlit("Service Unavailable");
    reveal_strlit("NOT LIVE (K8s contact lost)");
    reveal_strlit("NOT LIVE (watcher thread died)");
    assert("OK"@.len() == 2 && "NOT READY"@.len() == 9 && "Service Unavailable"@.len() == 19);
    assert("NOT LIVE (K8s contact lost)"@.len() > 2 && "NOT LIVE (watcher thread died)"@.len() > 2);
    if health.watchers@.contains(false) {
        let i = choose|i: int| 0 <= i < health.watchers@.len() && health.watchers@[i] == false;
        assert(!health.watchers@[i]);
    }
    if exists|i: int| 0 <= i < health.watchers@.len() && !#[trigger] health.watchers@[i] {
        let i = choose|i: int| 0 <= i < health.watchers@.len() && !#[trigger] health.watchers@[i];
        assert(health.watchers@[i] == false);
    }
}

/// What is answered to a request for the health report is the report, and any
/// other path is not found.
pub proof fn only_healthz_is_answered(
    health: Health,
    now_ms: u64,
    request: &str,
    path: String,
    status: (u16, &'static str, &'static str),
    report: String,
    not_found: String,
    r: String,
)
    requires
        call_ensures(respond, (&health, now_ms, request), r),
        call_ensures(path_of, (request,), path),
        call_ensures(status_body, (&health, now_ms), status),
        call_ensures(render_response, status, report),
        call_ensures(render_response, (404u16, "Not Found", "Not Found"), not_found),
    ensures
        path@ == "/healthz"@ ==> r@ == report@,
        path@ != "/healthz"@ ==> r@ == not_found@,
{
}

/// No answer is given to nothing; and to the bytes of a text what is answered to
/// the text.
pub proof fn something_is_answered(
    health: Health,
    now_ms: u64,
    request: &[u8],
    r: Option<String>,
    text: &str,
    answer: String,
)
    requires
        call_ensures(handle, (&health, now_ms, request), r),
        call_ensures(respond, (&health, now_ms, text), answer),
    ensures
        r is Some <==> request@.len() > 0,
        r is Some && request@ == encode_utf8(text@) ==> r->0@ == answer@,
{
    if request@ == encode_utf8(text@) {
        encode_utf8_valid_utf8(text@);
        encode_utf8_decode_utf8(text@);
    }
}

/// A response is one of HTTP, and ends in its body after an empty line.
pub proof fn responses_end_in_their_body(code: u16, reason: &str, body: &str, r: String)
    requires
        call_ensures(render_response, (code, reason, body), r),
    ensures
        r@.len() >= body@.len() + 4,
        r@.skip(r@.len() - body@.len()) == body@,
        r@.subrange(r@.len() - body@.len() - 4, r@.len() - body@.len()) == "\r\n\r\n"@,
        r@.take(9) == "HTTP/1.0 "@,
{
    reveal_strlit("HTTP/1.0 ");
    reveal_strlit("\r\nConnection: close\r\n\r\n");
    reveal_strlit("\r\n\r\n");
    assert(r@.skip(r@.len() - body@.len()) =~= body@);
    assert(r@.subrange(r@.len() - body@.len() - 4, r@.len() - body@.len()) =~= "\r\n\r\n"@);
    assert(r@.take(9) =~= "HTTP/1.0 "@);
}

/// A word without white space.
pub open spec fn is_word(s: Seq<char>) -> bool {
    s.len() > 0 && forall|i: int| 0 <= i < s.len() ==> !is_white(#[trigger] s[i])
}

proof fn run_is(s: Seq<char>, w: bool, n: int)
    requires
        0 <= n <= s.len(),
        forall|i: int| 0 <= i < n ==> is_white(#[trigger] s[i]) == w,
        n < s.len() ==> is_white(s[n]) != w,
    ensures
        run_length(s, w) == n,
    decreases n,
{
    if n > 0 {
        assert(is_white(s[0]) == w);
        assert forall|i: int| 0 <= i < n - 1 implies is_white(#[trigger] s.skip(1)[i]) == w by {
            assert(s.skip(1)[i] == s[i + 1]);
        }
        if n < s.len() {
            assert(s.skip(1)[n - 1] == s[n]);
        }
        run_is(s.skip(1), w, n - 1);
    }
}

/// The path that a request asks for is the second word of its first line,
/// whatever the method is and whatever follows.
pub proof fn path_is_the_second_word(
    method: Seq<char>,
    path: Seq<char>,
    rest: Seq<char>,
    after: Seq<char>,
    request: &str,
    r: String,
)
    requires
        call_ensures(path_of, (request,), r),
        is_word(method),
        is_word(path),
        !rest.contains('\n'),
        rest.len() > 0 ==> is_white(rest[0]),
        request@ == method.push(' ') + path + rest + after,
        after.len() > 0 ==> after[0] == '\n',
    ensures
        r@ == path,
{
    let s = request@;
    let line = method.push(' ') + path + rest;
    let n = line.len() as int;
    assert forall|i: int| 0 <= i < n implies s[i] != '\n' by {
        assert(s[i] == line[i]);
        if i < method.len() {
            assert(line[i] == method[i]);
            assert(!is_white(method[i]));
        } else if i > method.len() && i < method.len() + 1 + path.len() {
            assert(line[i] == path[i - method.len() - 1]);
            assert(!is_white(path[i - method.len() - 1]));
        } else if i >= method.len() + 1 + path.len() {
            assert(line[i] == rest[i - method.len() - 1 - path.len()]);
            assert(rest.contains(line[i]));
        }
    }
    if n < s.len() {
        assert(s[n] == after[0]);
    }
    first_at_is_first(s, '\n', n);
    assert(s.take(n) =~= line);
    let m = method.len() as int;
    let p = path.len() as int;
    assert(line[0] == method[0]);
    assert(!is_white(method[0]));
    run_is(line, true, 0);
    assert(left_trimmed(line) =~= line);
    assert forall|i: int| 0 <= i < m implies is_white(#[trigger] line[i]) == false by {
        assert(line[i] == method[i]);
    }
    assert(line[m] == ' ');
    run_is(line, false, m);
    let second = line.skip(m);
    assert(second[0] == ' ');
    assert(second[1] == path[0]);
    assert(!is_white(path[0]));
    run_is(second, true, 1);
    let last = second.skip(1);
    assert(last =~= path + rest);
    assert(left_trimmed(second) =~= last);
    assert forall|i: int| 0 <= i < p implies is_white(#[trigger] last[i]) == false by {
        assert(last[i] == path[i]);
    }
    if p < last.len() {
        assert(last[p] == rest[0]);
    }
    run_is(last, false, p);
    assert(last.take(p) =~= path);
    assert(second_word(line) == path);
}

// ---------------------------------------------------------------------------
// White space and ends
// ---------------------------------------------------------------------------

proof fn run_bounds(s: Seq<char>, w: bool)
    ensures
        run_length(s, w) <= s.len(),
        forall|i: int| 0 <= i < run_length(s, w) ==> is_white(#[trigger] s[i]) == w,
        run_length(s, w) < s.len() ==> is_white(s[run_length(s, w) as int]) != w,
    decreases s.len(),
{
    if s.len() > 0 && is_white(s[0]) == w {
        run_bounds(s.skip(1), w);
        assert forall|i: int| 0 <= i < run_length(s, w) implies is_white(#[trigger] s[i]) == w by {
            if i > 0 {
                assert(s[i] == s.skip(1)[i - 1]);
            }
        }
        let n = run_length(s, w) as int;
        if n < s.len() {
            assert(s[n] == s.skip(1)[n - 1]);
        }
    }
}

proof fn tail_bounds(s: Seq<char>)
    ensures
        white_tail(s) <= s.len(),
        forall|i: int| s.len() - white_tail(s) <= i < s.len() ==> is_white(#[trigger] s[i]),
        white_tail(s) < s.len() ==> !is_white(s[s.len() - white_tail(s) - 1]),
    decreases s.len(),
{
    if s.len() > 0 && is_white(s.last()) {
        let init = s.drop_last();
        tail_bounds(init);
        assert forall|i: int| s.len() - white_tail(s) <= i < s.len() implies is_white(#[trigger] s[i]) by {
            if i < init.len() {
                assert(s[i] == init[i]);
            }
        }
        if white_tail(s) < s.len() {
            assert(s[s.len() - white_tail(s) - 1] == init[init.len() - white_tail(init) - 1]);
        }
    }
}

/// A trimmed text is a part of the text with nothing but white space before and
/// after it, and has none at its own ends.
pub proof fn trimming_takes_white_ends(s: &str, r: String)
    requires
        call_ensures(trim, (s,), r),
    ensures
        r@.len() > 0 ==> !is_white(r@[0]) && !is_white(r@.last()),
        exists|i: int|
            {
                &&& 0 <= i <= s@.len() - r@.len()
                &&& #[trigger] s@.subrange(i, i + r@.len()) == r@
                &&& forall|j: int| 0 <= j < i ==> is_white(#[trigger] s@[j])
                &&& forall|j: int| i + r@.len() <= j < s@.len() ==> is_white(#[trigger] s@[j])
            },
{
    run_bounds(s@, true);
    let i = run_length(s@, true) as int;
    let t = left_trimmed(s@);
    tail_bounds(t);
    assert(t.len() == s@.len() - i);
    assert(r@ =~= s@.subrange(i, i + r@.len()));
    if r@.len() > 0 {
        assert(r@[0] == s@[i]);
        assert(r@.last() == t[t.len() - white_tail(t) - 1]);
    }
    assert forall|j: int| i + r@.len() <= j < s@.len() implies is_white(#[trigger] s@[j]) by {
        assert(s@[j] == t[j - i]);
    }
}

/// A stripped text is the text up to where nothing but the character follows,
/// and does not end in it.
pub proof fn stripping_takes_the_end(s: &str, c: char, r: String)
    requires
        call_ensures(strip_end, (s, c), r),
    ensures
        r@.len() <= s@.len(),
        r@ == s@.take(r@.len() as int),
        r@.len() > 0 ==> r@.last() != c,
        forall|i: int| r@.len() <= i < s@.len() ==> #[trigger] s@[i] == c,
{
    stripped(s@, c);
}

proof fn stripped(s: Seq<char>, c: char)
    ensures
        ({
            let r = right_stripped(s, c);
            &&& r.len() <= s.len()
            &&& r == s.take(r.len() as int)
            &&& r.len() > 0 ==> r.last() != c
            &&& forall|i: int| r.len() <= i < s.len() ==> #[trigger] s[i] == c
        }),
    decreases s.len(),
{
    let r = right_stripped(s, c);
    if s.len() > 0 && s.last() == c {
        let init = s.drop_last();
        stripped(init, c);
        assert(r =~= s.take(r.len() as int));
        assert forall|i: int| r.len() <= i < s.len() implies #[trigger] s[i] == c by {
            if i < init.len() {
                assert(s[i] == init[i]);
            }
        }
    } else {
        assert(r =~= s.take(r.len() as int));
    }
}

// ---------------------------------------------------------------------------
// Log lines
// ---------------------------------------------------------------------------

/// The place of a level in the order of severity.
pub open spec fn severity(level: Level) -> int {
    match level {
        Level::Debug => 0,
        Level::Info => 1,
        Level::Warning => 2,
        Level::Error => 3,
        Level::Critical => 4,
    }
}

/// A message that is less severe than the logger says is not written, and any
/// other is; before there is a logger, all are.
pub proof fn severe_messages_are_written(
    logger: Logger,
    time: &str,
    level: Level,
    message: &str,
    r: Option<String>,
    early: Option<String>,
)
    requires
        call_ensures(emit, (Some(&logger), time, level, message), r),
        call_ensures(emit, (None, time, level, message), early),
    ensures
        r is Some <==> severity(level) >= severity(logger.level),
        r is Some ==> r->0@.len() > 0 && r->0@.last() == '\n',
        early is Some,
        early->0@.len() > message@.len() && early->0@.last() == '\n',
        early->0@.subrange(early->0@.len() - 1 - message@.len(), early->0@.len() - 1) == message@,
{
    reveal_strlit("}\n");
    reveal_strlit("\n");
    reveal_strlit(" ");
    assert(early->0@.subrange(early->0@.len() - 1 - message@.len(), early->0@.len() - 1)
        =~= message@);
}

/// Two messages of one level are written alike at one time only if they are the
/// same message.
pub proof fn different_messages_are_written_differently(
    logger: Logger,
    time: &str,
    level: Level,
    message: &str,
    other: &str,
    r: Option<String>,
    s: Option<String>,
)
    requires
        call_ensures(emit, (Some(&logger), time, level, message), r),
        call_ensures(emit, (Some(&logger), time, level, other), s),
        r is Some && s is Some,
        r->0@ == s->0@,
    ensures
        message@ == other@,
{
    match logger.format {
        Format::Json => {
            let head = "{\"time\": "@ + crate::text::json_string(time@) + ", \"level\": "@
                + crate::text::json_string(crate::logger::level_name(level)) + ", \"msg\": "@;
            let a = crate::text::json_string(message@);
            let b = crate::text::json_string(other@);
            between(head, a, b, "}\n"@);
            crate::text::json_differs(message@, other@);
        },
        Format::Logfmt => {
            let head = "time="@ + time@ + " level="@ + crate::logger::level_name(level) + " msg="@;
            let a = crate::logger::logfmt_text(message@);
            let b = crate::logger::logfmt_text(other@);
            between(head, a, b, "\n"@);
            crate::logger::logfmt_differs(message@, other@);
        },
    }
}

proof fn between(head: Seq<char>, a: Seq<char>, b: Seq<char>, tail: Seq<char>)
    requires
        head + a + tail == head + b + tail,
    ensures
        a == b,
{
    let n = head.len() as int;
    let s = head + a + tail;
    assert(s.len() == (head + b + tail).len());
    assert(a.len() == b.len());
    assert(s.subrange(n, n + a.len()) =~= a);
    assert(s.subrange(n, n + b.len()) =~= b);
}

/// A value without space, equals sign and quotation mark stands for itself in
/// logfmt; any other stands in quotation marks.
pub proof fn values_are_quoted_where_needed(v: &str, r: String)
    requires
        call_ensures(logfmt_value, (v,), r),
    ensures
        v@.len() > 0 && !v@.contains(' ') && !v@.contains('=') && !v@.contains('"') ==> r@ == v@,
        v@.len() == 0 || v@.contains(' ') || v@.contains('=') || v@.contains('"') ==> r@.len() >= 2
            && r@[0] == '"' && r@.last() == '"',
{
}

/// Each level is read from its own name.
pub proof fn levels_are_read_by_name(level: Level, name: &'static str, r: Option<Level>)
    requires
        call_ensures(Level::name, (level,), name),
        call_ensures(Level::named, (name,), r),
    ensures
        r == Some(level),
        level == Level::Debug ==> name@ == "DEBUG"@,
        level == Level::Info ==> name@ == "INFO"@,
        level == Level::Warning ==> name@ == "WARNING"@,
        level == Level::Error ==> name@ == "ERROR"@,
        level == Level::Critical ==> name@ == "CRITICAL"@,
{
    crate::logger::level_names_are_read_back(level);
}

/// The level is the one that is set, if it is one, and else that for
/// information; lines are in JSON unless logfmt is asked for, with local times
/// unless UTC is; and they go to the standard error stream.
pub proof fn logger_is_set_by_variables(vars: EnvVars, text: &str, level: Option<Level>, r: Logger)
    requires
        call_ensures(init, (&vars,), r),
        vars@.contains_key("LOG_LEVEL"@) ==> text@ == vars@["LOG_LEVEL"@],
        call_ensures(Level::parse, (text,), level),
    ensures
        vars@.contains_key("LOG_LEVEL"@) && level is Some ==> r.level == level->0,
        !vars@.contains_key("LOG_LEVEL"@) || level is None ==> r.level == Level::Info,
        !vars@.contains_key("LOG_FORMAT"@) ==> r.format == Format::Json,
        vars@.contains_key("LOG_FORMAT"@) && vars@["LOG_FORMAT"@] == "LOGFMT"@ ==> r.format
            == Format::Logfmt,
        vars@.contains_key("LOG_FORMAT"@) && vars@["LOG_FORMAT"@] == "JSON"@ ==> r.format
            == Format::Json,
        !vars@.contains_key("LOG_TZ"@) ==> !r.utc,
        vars@.contains_key("LOG_TZ"@) && vars@["LOG_TZ"@] == "UTC"@ ==> r.utc,
        r.sink is Stderr,
{
    reveal_strlit("LOGFMT");
    reveal_strlit("JSON");
    reveal_strlit("UTC");
    assert(is_ascii_chars("LOGFMT"@));
    assert(is_ascii_chars("JSON"@));
    assert(is_ascii_chars("UTC"@));
    assert(crate::text::raised("LOGFMT"@) =~= "LOGFMT"@);
    assert(crate::text::raised("JSON"@) =~= "JSON"@);
    assert(crate::text::raised("UTC"@) =~= "UTC"@);
    assert("JSON"@.len() != "LOGFMT"@.len());
}

/// A configuration changes what it speaks of and nothing else: the level by
/// that of the root logger before that of the handler, and the sink if its
/// handler writes to a file and names one.
pub proof fn configuration_changes_what_it_names(
    logger: Logger,
    config: ConsoleConfig,
    text: &str,
    level: Option<Level>,
    r: Logger,
)
    requires
        call_ensures(apply_console_config, (logger, &config), r),
        config.root_level is Some ==> text@ == config.root_level->0@,
        config.root_level is None && config.level is Some ==> text@ == config.level->0@,
        call_ensures(Level::parse, (text,), level),
    ensures
        r.utc == logger.utc,
        (config.root_level is Some || config.level is Some) && level is Some ==> r.level == level->0,
        (config.root_level is Some || config.level is Some) && level is None ==> r.level
            == logger.level,
        config.root_level is None && config.level is None ==> r.level == logger.level,
        config.formatter is None ==> r.format == logger.format,
        config.class is None || config.filename is None ==> r.sink == logger.sink,
        r.sink != logger.sink ==> (r.sink matches Sink::RotatingFile { path, max_bytes, backup_count }
            && path@ == config.filename->0@ && (config.max_bytes is Some ==> max_bytes
            == config.max_bytes->0) && (config.max_bytes is None ==> max_bytes == 0) && (
        config.backup_count is None ==> backup_count == 0) && (config.backup_count is Some
            && config.backup_count->0 <= u32::MAX ==> backup_count == config.backup_count->0)),
{
}

/// A handler whose class is one that writes to files does so, if it names one.
pub proof fn file_handlers_write_to_files(
    logger: Logger,
    config: ConsoleConfig,
    before: Seq<char>,
    after: Seq<char>,
    r: Logger,
)
    requires
        call_ensures(apply_console_config, (logger, &config), r),
        config.class is Some && config.class->0@ == before + "FileHandler"@ + after,
        config.filename is Some,
    ensures
        r.sink matches Sink::RotatingFile { path, .. } && path@ == config.filename->0@,
{
    let class = config.class->0@;
    let part = "FileHandler"@;
    let n = before.len() as int;
    assert(class.subrange(n, n + part.len()) =~= part);
    assert(crate::text::part_at(class, part, n));
}

/// How a character stands in a quoted value of logfmt.
pub open spec fn is_escaped(c: char, e: Seq<char>) -> bool {
    if c == '"' || c == '\\' {
        e == seq!['\\', c]
    } else if c == '\n' {
        e == seq!['\\', 'n']
    } else {
        e == seq![c]
    }
}

/// A character more at the end of a quoted value stands there escaped, if it is
/// a quotation mark, a backslash or a newline, and else as it is.
pub proof fn quoted_values_are_escaped(v: &str, longer: &str, c: char, r: String, rl: String)
    requires
        call_ensures(logfmt_value, (v,), r),
        call_ensures(logfmt_value, (longer,), rl),
        longer@ == v@.push(c),
        v@.contains(' ') || v@.contains('=') || v@.contains('"'),
    ensures
        exists|e: Seq<char>| #[trigger] is_escaped(c, e) && rl@ == (r@.drop_last() + e).push('"'),
{
    let e = crate::logger::logfmt_escape(c);
    assert(is_escaped(c, e)) by {
        assert(e =~= crate::logger::logfmt_escape(c));
    }
    let k = if v@.contains(' ') {
        ' '
    } else if v@.contains('=') {
        '='
    } else {
        '"'
    };
    let i = choose|i: int| 0 <= i < v@.len() && v@[i] == k;
    assert(longer@[i] == k);
    assert(longer@.contains(k));
    assert(longer@.drop_last() =~= v@);
    assert(longer@.last() == c);
    assert(rl@ =~= (r@.drop_last() + e).push('"'));
}

/// An empty value is two quotation marks.
pub proof fn empty_value_is_quoted(v: &str, r: String)
    requires
        call_ensures(logfmt_value, (v,), r),
        v@.len() == 0,
    ensures
        r@ == seq!['"', '"'],
{
    assert(crate::text::each_char(v@, |c: char| crate::logger::logfmt_escape(c)) =~= Seq::empty());
    assert(r@ =~= seq!['"', '"']);
}

/// How a character stands in a JSON string: control characters, quotation marks
/// and backslashes are escaped, and all others stand as they are.
pub open spec fn is_json_escaped(c: char, e: Seq<char>) -> bool {
    let p = c as u32;
    if c == '"' || c == '\\' {
        e == seq!['\\', c]
    } else if p >= 0x20 {
        e == seq![c]
    } else if p == 8 || p == 9 || p == 10 || p == 12 || p == 13 {
        e.len() == 2 && e[0] == '\\'
    } else {
        e.len() == 6 && e[0] == '\\' && e[1] == 'u' && e[2] == '0' && e[3] == '0'
    }
}

/// A text in JSON grows by a character at a time, each escaped where needed.
pub proof fn json_texts_are_escaped(v: &str, longer: &str, c: char, r: String, rl: String)
    requires
        call_ensures(payload_from, (v, None), r),
        call_ensures(payload_from, (longer, None), rl),
        longer@ == v@.push(c),
    ensures
        v@.len() == 0 ==> r@ == seq!['"', '"'],
        exists|e: Seq<char>| #[trigger] is_json_escaped(c, e) && rl@ == (r@.drop_last() + e).push('"'),
{
    let e = crate::text::json_escape(c);
    assert(is_json_escaped(c, e));
    assert(longer@.drop_last() =~= v@);
    assert(longer@.last() == c);
    assert(rl@ =~= (r@.drop_last() + e).push('"'));
    if v@.len() == 0 {
        assert(crate::text::each_char(v@, |x: char| crate::text::json_escape(x)) =~= Seq::empty());
        assert(r@ =~= seq!['"', '"']);
    }
}

/// A formatter of a class with Logfmt in its name writes logfmt, and one of any
/// other class JSON.
pub proof fn formatter_class_decides(logger: Logger, config: ConsoleConfig, class: &str, logfmt: bool, r: Logger)
    requires
        call_ensures(apply_console_config, (logger, &config), r),
        config.formatter is Some,
        config.formatter_class is Some && class@ == config.formatter_class->0@,
        call_ensures(contains_part, (class, "Logfmt"), logfmt),
    ensures
        logfmt ==> r.format == Format::Logfmt,
        !logfmt ==> r.format == Format::Json,
{
}

/// A text contains another exactly if that stands somewhere in it.
pub proof fn parts_stand_somewhere(s: &str, part: &str, r: bool)
    requires
        call_ensures(contains_part, (s, part), r),
    ensures
        r <==> exists|a: Seq<char>, b: Seq<char>| s@ == #[trigger] (a + part@ + b),
{
    if r {
        let i = choose|i: int| crate::text::part_at(s@, part@, i);
        let a = s@.take(i);
        let b = s@.skip(i + part@.len());
        assert(s@ =~= a + part@ + b);
    }
    if exists|a: Seq<char>, b: Seq<char>| s@ == #[trigger] (a + part@ + b) {
        let (a, b) = choose|a: Seq<char>, b: Seq<char>| s@ == #[trigger] (a + part@ + b);
        let n = a.len() as int;
        assert(s@.subrange(n, n + part@.len()) =~= part@);
        assert(crate::text::part_at(s@, part@, n));
    }
}

/// Without a file, or with one that is no YAML, the program ends with an error.
pub proof fn bad_configurations_end_the_program(
    logger: Logger,
    path: &str,
    text: &str,
    missing: Failure,
    r: Result<Logger, Failure>,
)
    requires
        call_ensures(config_missing, (path,), missing),
        call_ensures(load_log_config, (logger, text), r),
    ensures
        missing.code == 1 && missing.lines@.len() == 1,
        r is Err <==> yaml_parsed(text@) is Err,
        r is Err ==> r->Err_0.code == 2 && r->Err_0.lines@.len() == 2 && r->Err_0.lines@[1]@
            == yaml_parsed(text@)->Err_0,
{
}

/// The string at a path of the configuration.
pub open spec fn is_text_at(
    value: Option<String>,
    texts: Map<Seq<Seq<char>>, Seq<char>>,
    path: Seq<Seq<char>>,
) -> bool {
    &&& value is Some <==> texts.contains_key(path)
    &&& value is Some ==> value->0@ == texts[path]
}

/// The number at a path of the configuration.
pub open spec fn is_number_at(
    value: Option<u64>,
    numbers: Map<Seq<Seq<char>>, u64>,
    path: Seq<Seq<char>>,
) -> bool {
    &&& value is Some <==> numbers.contains_key(path)
    &&& value is Some ==> value->0 == numbers[path]
}

/// Each part of a configuration is read from its own place in the file.
pub proof fn configuration_is_read_by_path(text: &str, r: Result<ConsoleConfig, String>)
    requires
        call_ensures(read_console_config, (text,), r),
    ensures
        r is Ok <==> yaml_parsed(text@) is Ok,
        r matches Ok(c) ==> {
            let texts = yaml_parsed(text@)->Ok_0.0;
            let numbers = yaml_parsed(text@)->Ok_0.1;
            &&& is_text_at(c.root_level, texts, seq!["root"@, "level"@])
            &&& is_text_at(c.level, texts, seq!["handlers"@, "console"@, "level"@])
            &&& is_text_at(c.formatter, texts, seq!["handlers"@, "console"@, "formatter"@])
            &&& is_text_at(c.class, texts, seq!["handlers"@, "console"@, "class"@])
            &&& is_text_at(c.filename, texts, seq!["handlers"@, "console"@, "filename"@])
            &&& is_number_at(c.max_bytes, numbers, seq!["handlers"@, "console"@, "maxBytes"@])
            &&& is_number_at(c.backup_count, numbers, seq!["handlers"@, "console"@, "backupCount"@])
            &&& c.formatter is None ==> c.formatter_class is None
            &&& c.formatter is Some ==> is_text_at(
                c.formatter_class,
                texts,
                seq!["formatters"@, c.formatter->0@, "()"@],
            )
        },
{
}

/// Loading a configuration is reading it and changing the settings as it says.
pub proof fn configuration_is_read_and_applied(
    logger: Logger,
    text: &str,
    config: ConsoleConfig,
    changed: Logger,
    r: Result<Logger, Failure>,
)
    requires
        call_ensures(load_log_config, (logger, text), r),
        call_ensures(read_console_config, (text,), Ok(config)),
        call_ensures(apply_console_config, (logger, &config), changed),
    ensures
        r is Ok,
        r->Ok_0.level == changed.level,
        r->Ok_0.format == changed.format,
        r->Ok_0.utc == changed.utc,
        match (r->Ok_0.sink, changed.sink) {
            (Sink::Stderr, Sink::Stderr) => true,
            (
                Sink::RotatingFile { path: p, max_bytes: m, backup_count: c },
                Sink::RotatingFile { path: q, max_bytes: n, backup_count: d },
            ) => p@ == q@ && m == n && c == d,
            _ => false,
        },
{
}

/// A configuration file is one that has a name.
pub proof fn configuration_file_has_a_name(vars: EnvVars, r: Option<String>)
    requires
        call_ensures(log_config_path, (&vars,), r),
    ensures
        r is Some <==> vars@.contains_key("LOG_CONFIG"@) && vars@["LOG_CONFIG"@].len() > 0,
        r is Some ==> r->0@ == vars@["LOG_CONFIG"@],
{
}

// ---------------------------------------------------------------------------
// Rotation
// ---------------------------------------------------------------------------

/// A file is rotated before it would grow beyond its limit, and not before;
/// and never without a limit or without backups.
pub proof fn only_full_files_are_rotated(
    path: &str,
    max_bytes: u64,
    backup_count: u32,
    size: u64,
    line_len: usize,
    r: Vec<FileMove>,
)
    requires
        call_ensures(rotation, (path, max_bytes, backup_count, size, line_len), r),
    ensures
        r@.len() > 0 <==> max_bytes > 0 && backup_count > 0 && size + line_len > max_bytes,
{
    assert(move_views(r@).len() == r@.len());
}

proof fn shift_place(path: Seq<char>, n: nat, low: nat, i: int)
    requires
        low <= i < n,
    ensures
        crate::logger::shifts(path, n, low).len() == n - low,
        crate::logger::shifts(path, n, low)[n - 1 - i] == MoveModel::Rename(
            crate::logger::backup_name(path, i as nat),
            crate::logger::backup_name(path, (i + 1) as nat),
        ),
    decreases n - low,
{
    let s = crate::logger::shifts(path, n, low);
    shifts_len(path, n, low);
    shifts_len(path, n, low + 1);
    if i > low {
        shift_place(path, n, low + 1, i);
        assert(s[n - 1 - i] == crate::logger::shifts(path, n, low + 1)[n - 1 - i]);
    }
}

proof fn shifts_len(path: Seq<char>, n: nat, low: nat)
    requires
        low <= n,
    ensures
        crate::logger::shifts(path, n, low).len() == n - low,
    decreases n - low,
{
    if low < n {
        shifts_len(path, n, low + 1);
    }
}

/// Rotation removes the last backup first, lets each other one take the name of
/// the next, the oldest first, and gives the file the name of the first backup
/// at last.
pub proof fn backups_take_the_next_name(
    path: &str,
    max_bytes: u64,
    backup_count: u32,
    size: u64,
    line_len: usize,
    r: Vec<FileMove>,
    i: u32,
    name: String,
    next: String,
    oldest: String,
    newest: String,
)
    requires
        call_ensures(rotation, (path, max_bytes, backup_count, size, line_len), r),
        r@.len() > 0,
        1 <= i < backup_count,
        call_ensures(bak, (path, i), name),
        call_ensures(bak, (path, (i + 1) as u32), next),
        call_ensures(bak, (path, backup_count), oldest),
        call_ensures(bak, (path, 1u32), newest),
    ensures
        r@.len() == backup_count + 1,
        r@[0] matches FileMove::Remove(p) && p@ == oldest@,
        r@[backup_count - i] matches FileMove::Rename(p, q) && p@ == name@ && q@ == next@,
        r@[backup_count as int] matches FileMove::Rename(p, q) && p@ == path@ && q@ == newest@,
{
    let n = backup_count as nat;
    let v = move_views(r@);
    assert(v.len() == r@.len());
    assert(v == rotation_moves(path@, n));
    let shifts = crate::logger::shifts(path@, n, 1);
    shift_place(path@, n, 1, i as int);
    assert(v[0] == r@[0]@);
    assert(v[n - i] == shifts[n - 1 - i]);
    assert(v[n - i] == r@[backup_count - i]@);
    assert(v[n as int] == r@[backup_count as int]@);
}

/// Backups of one file have different names, none of them that of the file,
/// with which all of them begin.
pub proof fn backups_have_different_names(path: &str, i: u32, j: u32, a: String, b: String)
    requires
        call_ensures(bak, (path, i), a),
        call_ensures(bak, (path, j), b),
    ensures
        a@ == b@ ==> i == j,
        a@.len() > path@.len() + 1,
        a@.take(path@.len() as int + 1) == path@.push('.'),
{
    reveal_strlit(".");
    let from = path@.len() as int + 1;
    assert(crate::number::decimal(i as nat).len() > 0);
    assert(a@.take(from) =~= path@.push('.'));
    if a@ == b@ {
        assert(a@.skip(from) =~= crate::number::decimal(i as nat));
        assert(b@.skip(from) =~= crate::number::decimal(j as nat));
        crate::number::decimal_differs(i as nat, j as nat);
    }
}

// ---------------------------------------------------------------------------
// Watchers and addresses
// ---------------------------------------------------------------------------

/// A watcher that stops makes the sidecar unhealthy, whatever else holds.
pub proof fn stopped_watcher_is_unhealthy(
    health: &mut Health,
    index: usize,
    now_ms: u64,
    r: (u16, &'static str, &'static str),
)
    requires
        call_ensures(watcher_stopped, (health, index), ()),
        index < old(health).watchers@.len(),
        call_ensures(status_body, (final(health), now_ms), r),
    ensures
        r.0 == 503,
        final(health).ready == old(health).ready,
        final(health).last_contact_ms == old(health).last_contact_ms,
        final(health).watchers@.len() == old(health).watchers@.len(),
        forall|i: int|
            0 <= i < old(health).watchers@.len() && i != index ==> final(health).watchers@[i]
                == #[trigger] old(health).watchers@[i],
{
    assert(!final(health).watchers@[index as int]);
}

/// What is noted of the health is noted, and nothing else changes.
pub proof fn contact_is_noted(
    a: &mut Health,
    b: &mut Health,
    c: &mut Health,
    now_ms: u64,
    flags: Vec<bool>,
)
    requires
        call_ensures(update_k8s_contact, (a, now_ms), ()),
        call_ensures(register_watchers, (b, flags), ()),
        call_ensures(mark_ready, (c,), ()),
    ensures
        final(a).last_contact_ms == now_ms,
        final(a).ready == old(a).ready && final(a).watchers == old(a).watchers,
        final(b).watchers@ == flags@,
        final(b).ready == old(b).ready && final(b).last_contact_ms == old(b).last_contact_ms,
        final(c).ready,
        final(c).watchers == old(c).watchers && final(c).last_contact_ms == old(c).last_contact_ms,
{
}

/// A new sidecar is not ready, whatever the time.
pub proof fn new_sidecar_is_not_ready(
    health: Health,
    now_ms: u64,
    r: (u16, &'static str, &'static str),
)
    requires
        call_ensures(Health::new, (), health),
        call_ensures(status_body, (&health, now_ms), r),
    ensures
        r.0 == 503,
        health.watchers@.len() == 0,
{
}

/// The health server listens at the host that is named, or anywhere.
pub proof fn host_is_as_set(vars: EnvVars, r: BindTarget)
    requires
        call_ensures(bind_target, (&vars,), r),
    ensures
        r is Host <==> vars@.contains_key("HEALTH_HOST"@) && vars@["HEALTH_HOST"@].len() > 0,
        r is Host ==> r->Host_0@ == vars@["HEALTH_HOST"@],
{
}

/// The first IPv6 address of a host is taken, or its first address if it has
/// none.
pub proof fn ipv6_goes_first(ipv6: Vec<bool>, r: Option<usize>)
    requires
        call_ensures(preferred_address, (&ipv6,), r),
    ensures
        r is None <==> ipv6@.len() == 0,
        r is Some ==> r->0 < ipv6@.len(),
        r is Some && ipv6@.contains(true) ==> ipv6@[r->0 as int],
        r is Some && !ipv6@.contains(true) ==> r->0 == 0,
        r is Some ==> forall|i: int| 0 <= i < r->0 ==> !#[trigger] ipv6@[i],
{
}

} // verus!
