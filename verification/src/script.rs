//! Running a script after files have changed: how it is called, and what is
//! logged of its output.

use vstd::prelude::*;

use crate::logger::{entry_views, Level, LogEntry};
use crate::number::{digit, digit_char, signed_decimal, signed_decimal_string};
use crate::text::{cat2, cat3, cat4, each_char, each_char_differs, is_code};

verus! {

// ---------------------------------------------------------------------------
// Output
// ---------------------------------------------------------------------------

/// The quotes that a byte string is shown in: double ones if it holds single
/// ones and no double ones, and single ones otherwise.
pub open spec fn quote_for(data: Seq<u8>) -> char {
    if data.contains(0x27u8) && !data.contains(0x22u8) {
        '"'
    } else {
        '\''
    }
}

/// How a byte is shown between these quotes: printable ASCII as it is, but for
/// backslashes, and for single quotes between single quotes; and everything
/// else escaped.
pub open spec fn byte_repr(b: u8, quote: char) -> Seq<char> {
    if b == 0x5c {
        seq!['\\', '\\']
    } else if b == 0x27 && quote == '\'' {
        seq!['\\', '\'']
    } else if b == 0xa {
        seq!['\\', 'n']
    } else if b == 0xd {
        seq!['\\', 'r']
    } else if b == 0x9 {
        seq!['\\', 't']
    } else if 0x20 <= b <= 0x7e {
        seq![b as char]
    } else {
        seq!['\\', 'x', digit(b as nat / 16), digit(b as nat % 16)]
    }
}

/// How bytes are shown between these quotes, one after the other.
pub open spec fn each_repr(data: Seq<u8>, quote: char) -> Seq<char> {
    each_char(data, |b: u8| byte_repr(b, quote))
}

/// How a byte string is shown: in quotes after a b.
pub open spec fn repr(data: Seq<u8>) -> Seq<char> {
    let quote = quote_for(data);
    seq!['b', quote] + each_repr(data, quote) + seq![quote]
}

/// Whether a byte string holds a byte.
fn contains_byte(data: &[u8], wanted: u8) -> (r: bool)
    ensures
        r == data@.contains(wanted),
{
    let mut i: usize = 0;
    while i < data.len()
        invariant
            i <= data@.len(),
            forall|j: int| 0 <= j < i ==> data@[j] != wanted,
        decreases data@.len() - i,
    {
        if data[i] == wanted {
            assert(data@[i as int] == wanted);
            return true;
        }
        i += 1;
    }
    false
}

/// Shows a byte string.
pub fn bytes_repr(data: &[u8]) -> (r: String)
    ensures
        r@ == repr(data@),
{
    let quote: char = if contains_byte(data, 0x27) && !contains_byte(data, 0x22) {
        '"'
    } else {
        '\''
    };
    let mut out = String::new();
    out.push('b');
    out.push(quote);
    let mut i: usize = 0;
    assert(out@ =~= seq!['b', quote] + each_repr(data@.take(0), quote));
    while i < data.len()
        invariant
            i <= data@.len(),
            out@ == seq!['b', quote] + each_repr(data@.take(i as int), quote),
        decreases data@.len() - i,
    {
        let b: u8 = data[i];
        let ghost before = out@;
        if b == 0x5c {
            out.push('\\');
            out.push('\\');
        } else if b == 0x27 && quote == '\'' {
            out.push('\\');
            out.push('\'');
        } else if b == 0xa {
            out.push('\\');
            out.push('n');
        } else if b == 0xd {
            out.push('\\');
            out.push('r');
        } else if b == 0x9 {
            out.push('\\');
            out.push('t');
        } else if 0x20 <= b && b <= 0x7e {
            out.push(b as char);
        } else {
            out.push('\\');
            out.push('x');
            out.push(digit_char((b / 16) as u32));
            out.push(digit_char((b % 16) as u32));
        }
        assert(out@ =~= before + byte_repr(b, quote));
        assert(data@.take(i + 1).drop_last() =~= data@.take(i as int));
        assert(data@.take(i + 1).last() == b);
        i += 1;
        assert(out@ =~= seq!['b', quote] + each_repr(data@.take(i as int), quote));
    }
    assert(data@.take(i as int) =~= data@);
    out.push(quote);
    assert(out@ =~= repr(data@));
    out
}

/// All characters are printable ASCII.
pub open spec fn is_printable(s: Seq<char>) -> bool {
    forall|i: int| 0 <= i < s.len() ==> 0x20 <= (#[trigger] s[i]) as u32 <= 0x7e
}

proof fn each_repr_is_printable(data: Seq<u8>, quote: char)
    ensures
        is_printable(each_repr(data, quote)),
    decreases data.len(),
{
    if data.len() > 0 {
        each_repr_is_printable(data.drop_last(), quote);
        let head = each_repr(data.drop_last(), quote);
        let tail = byte_repr(data.last(), quote);
        assert(is_printable(tail));
        assert(each_repr(data, quote) == head + tail);
        assert forall|i: int| 0 <= i < (head + tail).len() implies 0x20 <= (#[trigger] (head
            + tail)[i]) as u32 <= 0x7e by {
            if i >= head.len() {
                assert((head + tail)[i] == tail[i - head.len()]);
            } else {
                assert((head + tail)[i] == head[i]);
            }
        }
    }
}

/// Whatever bytes a script puts out, they are shown in printable ASCII, so on
/// one line, between the same quotes at both ends.
pub proof fn repr_is_printable(data: Seq<u8>)
    ensures
        is_printable(repr(data)),
        repr(data)[0] == 'b',
        repr(data)[1] == quote_for(data),
        repr(data).last() == quote_for(data),
{
    let quote = quote_for(data);
    each_repr_is_printable(data, quote);
    let body = each_repr(data, quote);
    assert forall|i: int| 0 <= i < repr(data).len() implies 0x20 <= (#[trigger] repr(data)[i]) as u32
        <= 0x7e by {
        if 2 <= i < 2 + body.len() {
            assert(repr(data)[i] == body[i - 2]);
        }
    }
}

proof fn byte_repr_is_code(quote: char)
    ensures
        is_code(|b: u8| byte_repr(b, quote)),
{
    let f = |b: u8| byte_repr(b, quote);
    assert forall|x: u8, y: u8| (#[trigger] f(x)).is_prefix_of(#[trigger] f(y)) implies x == y by {
        let fx = byte_repr(x, quote);
        let fy = byte_repr(y, quote);
        assert(fx =~= fy.take(fx.len() as int));
        assert(fx[0] == fy[0]);
        if fx.len() > 1 && fy.len() > 1 {
            assert(fx[1] == fy[1]);
        }
        if fx.len() == 4 && fy.len() == 4 {
            assert(fx[2] == fy[2]);
            assert(fx[3] == fy[3]);
        }
    }
}

/// Different bytes are shown differently.
pub proof fn repr_differs(a: Seq<u8>, b: Seq<u8>)
    requires
        repr(a) == repr(b),
    ensures
        a == b,
{
    let quote = quote_for(a);
    assert(repr(a)[1] == quote);
    assert(repr(b)[1] == quote_for(b));
    let n = repr(a).len() as int;
    assert(repr(a).subrange(2, n - 1) =~= each_repr(a, quote));
    assert(repr(b).subrange(2, n - 1) =~= each_repr(b, quote));
    byte_repr_is_code(quote);
    each_char_differs(a, b, |x: u8| byte_repr(x, quote));
}

// ---------------------------------------------------------------------------
// Running
// ---------------------------------------------------------------------------

/// How a script is run.
pub struct Execution {
    /// To be logged first.
    pub start: LogEntry,
    pub program: String,
    pub args: Vec<String>,
    /// Program and arguments, as they are shown.
    pub argv: String,
}

/// A file with these mode bits may be executed by someone.
pub open spec fn is_executable(mode: Option<u32>) -> bool {
    mode is Some && mode->0 & 0x49 != 0
}

/// How a script is shown: alone, or as an argument of the shell.
pub open spec fn argv_text(path: Seq<char>, direct: bool) -> Seq<char> {
    if direct {
        "['"@ + path + "']"@
    } else {
        "['sh', '"@ + path + "']"@
    }
}

/// How the script at a path is run: directly if its mode lets it be executed,
/// and by the shell otherwise, also if nothing is known of its mode.
pub fn execute(script_path: &str, mode: Option<u32>) -> (r: Execution)
    ensures
        r.start@ == (Level::Info, "Executing script from "@ + script_path@),
        r.argv@ == argv_text(script_path@, is_executable(mode)),
        if is_executable(mode) {
            r.program@ == script_path@ && r.args@.len() == 0
        } else {
            r.program@ == "sh"@ && r.args@.len() == 1 && r.args@[0]@ == script_path@
        },
{
    let start = LogEntry { level: Level::Info, message: cat2("Executing script from ", script_path) };
    let direct = match mode {
        Some(m) => m & 0x49 != 0,
        None => false,
    };
    let mut args: Vec<String> = Vec::new();
    if direct {
        let argv = cat3("['", script_path, "']");
        Execution { start, program: script_path.to_string(), args, argv }
    } else {
        args.push(script_path.to_string());
        let argv = cat3("['sh', '", script_path, "']");
        Execution { start, program: "sh".to_string(), args, argv }
    }
}

/// What is said when a script could not be started.
pub fn start_failure(script_path: &str, error: &str) -> (r: String)
    ensures
        r@ == error@ + ": '"@ + script_path@ + "'"@,
{
    cat4(error, ": '", script_path, "'")
}

/// How an exit code is shown; a script that was killed has none.
pub open spec fn exit_text(code: Option<i32>) -> Seq<char> {
    match code {
        Some(c) => signed_decimal(c as int),
        None => "-1"@,
    }
}

/// What is logged when a script has ended: its output if it succeeded, and
/// else its exit code, which is no failure of the sync.
pub fn finished(argv: &str, success: bool, code: Option<i32>, stdout: &[u8], stderr: &[u8]) -> (r: Vec<
    LogEntry,
>)
    ensures
        entry_views(r@) == (if success {
            seq![
                (Level::Debug, "Script stdout: "@ + repr(stdout@)),
                (Level::Debug, "Script stderr: "@ + repr(stderr@)),
                (Level::Debug, "Script exit code: 0"@),
            ]
        } else {
            seq![
                (
                    Level::Error,
                    "Script failed with error: Command '"@ + argv@
                        + "' returned non-zero exit status "@ + exit_text(code) + "."@,
                ),
            ]
        }),
{
    let mut out: Vec<LogEntry> = Vec::new();
    if success {
        let shown_out = bytes_repr(stdout);
        let shown_err = bytes_repr(stderr);
        out.push(LogEntry { level: Level::Debug, message: cat2("Script stdout: ", shown_out.as_str()) });
        out.push(LogEntry { level: Level::Debug, message: cat2("Script stderr: ", shown_err.as_str()) });
        out.push(LogEntry { level: Level::Debug, message: "Script exit code: 0".to_string() });
    } else {
        let shown_code = match code {
            Some(c) => signed_decimal_string(c),
            None => "-1".to_string(),
        };
        let mut message = cat4(
            "Script failed with error: Command '",
            argv,
            "' returned non-zero exit status ",
            shown_code.as_str(),
        );
        message.append(".");
        out.push(LogEntry { level: Level::Error, message });
    }
    assert(entry_views(out@) =~= (if success {
        seq![
            (Level::Debug, "Script stdout: "@ + repr(stdout@)),
            (Level::Debug, "Script stderr: "@ + repr(stderr@)),
            (Level::Debug, "Script exit code: 0"@),
        ]
    } else {
        seq![
            (
                Level::Error,
                "Script failed with error: Command '"@ + argv@ + "' returned non-zero exit status "@
                    + exit_text(code) + "."@,
            ),
        ]
    }));
    out
}

} // verus!
