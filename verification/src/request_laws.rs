//! What is requested, how often, and with which credentials, stated of the
//! functions that decide it.

use vstd::prelude::*;
use vstd::utf8::{encode_utf8, is_ascii_chars};

use crate::env::EnvVars;
use crate::http::{
    backoff_exponent, basic_auth_header, body_if_ok, byte_up_to, cfg, credential_files, encode_as,
    encode_cred, fetch_basic_auth_credentials, init, read_file_content, request, Exchange, HttpCfg, ReadError,
    RequestStep,
};
use crate::logger::{Level, LogEntry};
use crate::outside::base64_text;
use crate::resources::{content_request, follow_changes, notice_request, Ctx, Notice, WErr};
use crate::text::{ascii_lower, lowered};

verus! {

// ---------------------------------------------------------------------------
// Attempts
// ---------------------------------------------------------------------------

/// Both attempts send the same: to the same URL, by the same method, with the
/// same JSON text; and what is done with the answers is the same.
pub open spec fn sends_the_same(x: Exchange, y: Exchange) -> bool {
    &&& y.url@ == x.url@
    &&& y.post == x.post
    &&& y.payload is Some == x.payload is Some
    &&& y.payload is Some ==> y.payload->0@ == x.payload->0@
    &&& y.enable_5xx == x.enable_5xx
    &&& y.retry_total == x.retry_total
}

/// After a failure the same is sent once more, and only the count of attempts
/// is another; unless it has been sent again as often as is allowed, which is
/// logged.
pub proof fn failure_sends_the_same_again(x: Exchange, error: &str, r: RequestStep)
    requires
        call_ensures(Exchange::failed, (x, error), r),
    ensures
        x.attempt < x.retry_total ==> {
            &&& r matches RequestStep::Send(y)
            &&& sends_the_same(x, y)
            &&& y.attempt == x.attempt + 1
        },
        x.attempt >= x.retry_total ==> {
            &&& r matches RequestStep::GiveUp(first, second)
            &&& first.level == Level::Error
            &&& second.level == Level::Debug
        },
{
}

/// The JSON text of the attempt after a failure is that of the one before.
pub proof fn body_is_the_same_again(
    x: Exchange,
    error: &str,
    r: RequestStep,
    before: Option<String>,
    after: Option<String>,
)
    requires
        call_ensures(Exchange::failed, (x, error), r),
        call_ensures(Exchange::json_body, (&x,), before),
        r is Send,
        call_ensures(Exchange::json_body, (&r->Send_0,), after),
    ensures
        after is Some == before is Some,
        after is Some ==> after->0@ == before->0@,
{
}

/// Answers with status 500, 502, 503 or 504 count as failures, unless they are
/// wanted as they are. The body of any other answer is read, whatever the
/// status is, and the request stays what it is.
pub proof fn overload_is_a_failure(x: Exchange, status: u16, r: RequestStep)
    requires
        call_ensures(Exchange::status_received, (x, status), r),
    ensures
        ({
            let again = !x.enable_5xx && (status == 500 || status == 502 || status == 503 || status
                == 504);
            &&& !again ==> r is ReadBody && r->ReadBody_0 == x
            &&& again && x.attempt < x.retry_total ==> {
                &&& r matches RequestStep::Send(y)
                &&& sends_the_same(x, y)
                &&& y.attempt == x.attempt + 1
            }
            &&& again && x.attempt >= x.retry_total ==> r is GiveUp
        }),
{
}

/// Each request follows the one before it, which failed.
pub open spec fn keep_failing(attempts: Seq<Exchange>, errors: Seq<&str>) -> bool {
    &&& attempts.len() == errors.len() + 1
    &&& forall|i: int|
        0 <= i < errors.len() ==> call_ensures(
            Exchange::failed,
            (#[trigger] attempts[i], errors[i]),
            RequestStep::Send(attempts[i + 1]),
        )
}

/// However often a request fails, every attempt sends what the first one sent;
/// and it is made again as often as is allowed at most.
pub proof fn every_attempt_sends_the_same(attempts: Seq<Exchange>, errors: Seq<&str>)
    requires
        keep_failing(attempts, errors),
    ensures
        forall|i: int|
            0 <= i < attempts.len() ==> {
                &&& sends_the_same(attempts[0], #[trigger] attempts[i])
                &&& attempts[i].attempt == attempts[0].attempt + i
            },
        errors.len() > 0 ==> attempts[0].attempt + errors.len() <= attempts[0].retry_total,
    decreases errors.len(),
{
    if errors.len() > 0 {
        let n = (errors.len() - 1) as int;
        assert(keep_failing(attempts.take(n + 1), errors.take(n))) by {
            assert forall|i: int| 0 <= i < n implies call_ensures(
                Exchange::failed,
                (#[trigger] attempts.take(n + 1)[i], errors.take(n)[i]),
                RequestStep::Send(attempts.take(n + 1)[i + 1]),
            ) by {
                assert(attempts.take(n + 1)[i] == attempts[i]);
            }
        }
        every_attempt_sends_the_same(attempts.take(n + 1), errors.take(n));
        assert(attempts.take(n + 1)[n] == attempts[n]);
        failure_sends_the_same_again(attempts[n], errors[n], RequestStep::Send(attempts[n + 1]));
        assert forall|i: int| 0 <= i < attempts.len() implies {
            &&& sends_the_same(attempts[0], #[trigger] attempts[i])
            &&& attempts[i].attempt == attempts[0].attempt + i
        } by {
            if i <= n {
                assert(attempts.take(n + 1)[i] == attempts[i]);
            }
        }
    }
}

/// What a request is begun with is what its first attempt sends: a GET unless
/// it is said to be a POST, with as many further attempts as the settings
/// allow. Without a URL, or with another method, nothing is sent.
pub proof fn request_begins_as_asked(
    c: HttpCfg,
    url: Option<&str>,
    method: Option<&str>,
    enable_5xx: bool,
    payload: Option<&str>,
    r: RequestStep,
)
    requires
        call_ensures(request, (&c, url, method, enable_5xx, payload), r),
    ensures
        url is None ==> r is Nothing,
        method is Some && method->0@ != "GET"@ && method->0@ != "POST"@ ==> r is Nothing,
        r is Nothing ==> r->Nothing_0.level == Level::Warning,
        url is Some && (method is None || method->0@ == "GET"@ || method->0@ == "POST"@) ==> {
            &&& r matches RequestStep::Send(x)
            &&& x.url@ == url->0@
            &&& x.post <==> method is Some && method->0@ == "POST"@
            &&& x.payload is Some == payload is Some
            &&& payload is Some ==> x.payload->0@ == payload->0@
            &&& x.enable_5xx == enable_5xx
            &&& x.retry_total == c.retry_total
            &&& x.attempt == 0
        },
{
    reveal_strlit("GET");
    reveal_strlit("POST");
    assert("GET"@.len() != "POST"@.len());
}

/// A POST sends its payload as JSON, or null if it has none; and a GET sends
/// nothing.
pub proof fn posts_send_their_payload(x: Exchange, r: Option<String>)
    requires
        call_ensures(Exchange::json_body, (&x,), r),
    ensures
        !x.post ==> r is None,
        x.post && x.payload is Some ==> r is Some && r->0@ == x.payload->0@,
        x.post && x.payload is None ==> r is Some && r->0@ == "null"@,
{
}

/// There is no wait before the first attempt, nor before the second; the wait
/// before the third is twice the factor, and before each further one it is
/// doubled once more.
pub proof fn waits_are_doubled(attempt: u32, r: Option<u32>, next: Option<u32>)
    requires
        attempt < u32::MAX,
        call_ensures(backoff_exponent, (attempt,), r),
        call_ensures(backoff_exponent, ((attempt + 1) as u32,), next),
    ensures
        attempt <= 1 ==> r is None,
        attempt == 1 ==> next == Some(1u32),
        attempt > 1 ==> r is Some && next is Some && next->0 == r->0 + 1,
{
}

/// The body of an answer with a status below 400 is the content; else, and
/// without an answer, the content is empty.
pub proof fn bodies_of_good_answers_count(response: Option<(u16, Vec<u8>)>, r: Vec<u8>)
    requires
        call_ensures(body_if_ok, (response,), r),
    ensures
        response is Some && (response->0).0 < 400 ==> r@ == (response->0).1@,
        response is Some && (response->0).0 >= 400 ==> r@.len() == 0,
        response is None ==> r@.len() == 0,
{
}

/// The content of a key is asked for by a GET that sends nothing; changes are
/// told by the method and with the payload that are set. Neither asks for
/// another URL than its own.
pub proof fn requests_are_made_as_set(
    c: HttpCfg,
    ctx: Ctx,
    url: &str,
    content: RequestStep,
    notice: RequestStep,
)
    requires
        call_ensures(content_request, (&c, &ctx, url), content),
        call_ensures(notice_request, (&c, &ctx, url), notice),
    ensures
        content matches RequestStep::Send(x) && x.url@ == url@ && !x.post && x.payload is None
            && x.enable_5xx == ctx.enable_5xx && x.retry_total == c.retry_total && x.attempt == 0,
        match ctx.req_method {
            Some(m) if m@ != "GET"@ && m@ != "POST"@ => notice is Nothing,
            _ => {
                &&& notice matches RequestStep::Send(x)
                &&& x.url@ == url@
                &&& x.post <==> ctx.req_method is Some && ctx.req_method->0@ == "POST"@
                &&& x.payload is Some == ctx.req_payload is Some
                &&& x.payload is Some ==> x.payload->0@ == ctx.req_payload->0@
                &&& x.enable_5xx == ctx.enable_5xx
                &&& x.retry_total == c.retry_total
                &&& x.attempt == 0
            },
        },
{
    reveal_strlit("GET");
    reveal_strlit("POST");
    assert("GET"@.len() != "POST"@.len());
}

/// If files have changed the script is run, and after it the URL is requested;
/// where there is no script, the URL at once. Without a change, or without
/// either, nothing is done.
pub proof fn changes_are_told(
    changed: bool,
    script: Option<String>,
    request_url: Option<String>,
    first: Option<Notice>,
    outcome: Result<(), String>,
    second: Result<Option<Notice>, WErr>,
)
    requires
        call_ensures(follow_changes, (changed, &script, &request_url), first),
        first is Some ==> call_ensures(Notice::done, (first->0, outcome), second),
    ensures
        !changed ==> first is None,
        changed && script is None && request_url is None ==> first is None,
        changed && script is Some ==> {
            &&& first matches Some(Notice::Script { path, .. })
            &&& path@ == script->0@
            &&& outcome is Ok && request_url is None ==> second is Ok && second->Ok_0 is None
            &&& outcome is Ok && request_url is Some ==> {
                &&& second matches Ok(Some(Notice::Request { url }))
                &&& url@ == request_url->0@
            }
            &&& outcome is Err ==> {
                &&& second matches Err(WErr::Other(message))
                &&& message@ == outcome->Err_0@
            }
        },
        changed && script is None && request_url is Some ==> {
            &&& first matches Some(Notice::Request { url })
            &&& url@ == request_url->0@
        },
        first matches Some(Notice::Request { .. }) ==> second is Ok && second->Ok_0 is None,
{
}

// ---------------------------------------------------------------------------
// Credentials
// ---------------------------------------------------------------------------

/// The string is the value that the environment has under the name.
pub open spec fn is_variable(value: Option<String>, vars: Map<Seq<char>, Seq<char>>, name: Seq<char>) -> bool {
    &&& value is Some <==> vars.contains_key(name)
    &&& value is Some ==> value->0@ == vars[name]
}

/// A file that is given by a flag goes before the one that a variable names,
/// for the user name and for the password alike; and so does what was read
/// from a file before what a variable holds.
pub proof fn flags_and_files_go_first(
    c: HttpCfg,
    vars: EnvVars,
    files: (Option<String>, Option<String>),
    username_read: Option<String>,
    password_read: Option<String>,
    r: (Option<String>, Option<String>),
)
    requires
        call_ensures(credential_files, (&c, &vars), files),
        call_ensures(fetch_basic_auth_credentials, (&vars, username_read, password_read), r),
    ensures
        c.username_file_flag is Some ==> files.0 is Some && files.0->0@ == c.username_file_flag->0@,
        c.username_file_flag is None ==> is_variable(files.0, vars@, "REQ_USERNAME_FILE"@),
        c.password_file_flag is Some ==> files.1 is Some && files.1->0@ == c.password_file_flag->0@,
        c.password_file_flag is None ==> is_variable(files.1, vars@, "REQ_PASSWORD_FILE"@),
        username_read is Some ==> r.0 is Some && r.0->0@ == username_read->0@,
        username_read is None ==> is_variable(r.0, vars@, "REQ_USERNAME"@),
        password_read is Some ==> r.1 is Some && r.1->0@ == password_read->0@,
        password_read is None ==> is_variable(r.1, vars@, "REQ_PASSWORD"@),
{
}

/// A file that can be read gives its text; one that cannot gives none, and a
/// message, which is a warning if the file is not there.
pub proof fn unreadable_files_give_nothing(
    path: &str,
    outcome: Result<String, ReadError>,
    r: (Option<String>, Option<LogEntry>),
)
    requires
        call_ensures(read_file_content, (path, outcome), r),
    ensures
        r.0 is Some <==> outcome is Ok,
        r.1 is Some <==> outcome is Err,
        r.1 is Some ==> (r.1->0.level == Level::Warning <==> outcome->Err_0 is NotFound),
        r.1 is Some ==> (r.1->0.level == Level::Error <==> !(outcome->Err_0 is NotFound)),
{
}

/// Without a user name or without a password, or with an empty one, there is
/// no header; else there is one, which begins with the scheme.
pub proof fn header_takes_both(
    user: Option<String>,
    pass: Option<String>,
    vars: EnvVars,
    r: Option<String>,
)
    requires
        call_ensures(basic_auth_header, (user, pass, &vars), r),
    ensures
        user is None || user->0@.len() == 0 ==> r is None,
        pass is None || pass->0@.len() == 0 ==> r is None,
        user is Some && pass is Some && user->0@.len() > 0 && pass->0@.len() > 0 ==> {
            &&& r is Some
            &&& r->0@.len() >= 6
            &&& r->0@.take(6) == "Basic "@
        },
{
    reveal_strlit("Basic ");
    if r is Some {
        assert(r->0@.take(6) =~= "Basic "@);
    }
}

/// User name and password are sent with a colon between them, in base64, both
/// in the encoding that is set, which is Latin where none is.
pub proof fn header_holds_both(
    user: String,
    pass: String,
    vars: EnvVars,
    encoding: &str,
    user_text: &str,
    pass_text: &str,
    user_bytes: Vec<u8>,
    pass_bytes: Vec<u8>,
    r: Option<String>,
)
    requires
        call_ensures(basic_auth_header, (Some(user), Some(pass), &vars), r),
        user@.len() > 0 && pass@.len() > 0,
        vars@.contains_key("REQ_BASIC_AUTH_ENCODING"@) ==> encoding@
            == vars@["REQ_BASIC_AUTH_ENCODING"@],
        !vars@.contains_key("REQ_BASIC_AUTH_ENCODING"@) ==> encoding@ == "latin1"@,
        user_text@ == user@ && pass_text@ == pass@,
        call_ensures(encode_cred, (user_text, encoding), user_bytes),
        call_ensures(encode_cred, (pass_text, encoding), pass_bytes),
    ensures
        r is Some,
        r->0@ == "Basic "@ + base64_text(user_bytes@.push(58u8) + pass_bytes@),
{
    reveal_strlit("latin1");
    assert(is_ascii_chars("latin1"@));
    assert(lowered("latin1"@) =~= "latin1"@);
    assert(user_bytes@ + seq![':' as u8] + pass_bytes@ =~= user_bytes@.push(58u8) + pass_bytes@);
}

/// A character of ASCII in lower case.
pub open spec fn is_lower_of(l: char, c: char) -> bool {
    if 'A' <= c <= 'Z' {
        l as u32 == c as u32 + 32
    } else {
        l == c
    }
}

/// The name of an encoding may be in upper or lower case.
pub proof fn encodings_are_named_in_any_case(
    s: &str,
    encoding: &str,
    lower: &str,
    r: Vec<u8>,
    t: Vec<u8>,
)
    requires
        call_ensures(encode_cred, (s, encoding), r),
        call_ensures(encode_as, (s, lower), t),
        is_ascii_chars(encoding@),
        lower@.len() == encoding@.len(),
        forall|i: int| 0 <= i < lower@.len() ==> is_lower_of(#[trigger] lower@[i], encoding@[i]),
    ensures
        r@ == t@,
{
    let l = lowered(encoding@);
    assert(l.len() == lower@.len());
    assert forall|i: int| 0 <= i < l.len() implies l[i] == lower@[i] by {
        lower_is(lower@[i], encoding@[i]);
    }
    assert(l =~= lower@);
}

proof fn lower_is(l: char, c: char)
    requires
        is_lower_of(l, c),
    ensures
        ascii_lower(c) == l,
{
}

/// Without settings the defaults are taken, and become the settings; with some,
/// those are taken as they are.
pub proof fn defaults_are_taken(made: &mut Option<HttpCfg>, r: &HttpCfg)
    requires
        call_ensures(cfg, (made,), r),
    ensures
        *final(made) == Some(*r),
        *old(made) is Some ==> *final(made) == *old(made),
        *old(made) is None ==> r.retry_total == 5 && r.backoff_factor is None && r.timeout is None
            && !r.skip_tls_verify && r.username_file_flag is None && r.password_file_flag is None,
{
}

proof fn one_byte(c: char, last: u32)
    requires
        last <= 0xff,
    ensures
        c as u32 <= last ==> byte_up_to(c, last) == c as u32,
        c as u32 > last ==> byte_up_to(c, last) == 63,
{
}

/// In Latin and in ASCII every character becomes one byte: its number, as long
/// as the encoding has it, and else a question mark. For any other name of an
/// encoding it is UTF-8.
pub proof fn characters_become_bytes(s: &str, encoding: &str, r: Vec<u8>, i: int)
    requires
        call_ensures(encode_as, (s, encoding), r),
        0 <= i < s@.len(),
    ensures
        ({
            let latin = encoding@ == "latin1"@ || encoding@ == "latin-1"@ || encoding@ == "iso-8859-1"@;
            let ascii = encoding@ == "ascii"@;
            let c = s@[i] as u32;
            &&& latin ==> r@.len() == s@.len() && (c <= 255 ==> r@[i] == c) && (c > 255 ==> r@[i]
                == 63)
            &&& ascii ==> r@.len() == s@.len() && (c <= 127 ==> r@[i] == c) && (c > 127 ==> r@[i]
                == 63)
            &&& !latin && !ascii ==> r@ == encode_utf8(s@)
        }),
{
    reveal_strlit("ascii");
    reveal_strlit("latin1");
    reveal_strlit("latin-1");
    reveal_strlit("iso-8859-1");
    assert("ascii"@.len() == 5 && "latin1"@.len() == 6 && "latin-1"@.len() == 7
        && "iso-8859-1"@.len() == 10);
    one_byte(s@[i], 0xff);
    one_byte(s@[i], 0x7f);
}

// ---------------------------------------------------------------------------
// Settings
// ---------------------------------------------------------------------------

/// Settings are made of the variables and the flags, each of its own one; five
/// attempts more are made where nothing is said of them.
pub proof fn settings_are_made_of_variables(
    made: &mut Option<HttpCfg>,
    vars: EnvVars,
    username_file_flag: Option<String>,
    password_file_flag: Option<String>,
)
    requires
        call_ensures(init, (made, &vars, username_file_flag, password_file_flag), ()),
    ensures
        *old(made) is Some ==> *final(made) == *old(made),
        *old(made) is None ==> {
            &&& *final(made) matches Some(c)
            &&& !vars@.contains_key("REQ_RETRY_TOTAL"@) ==> c.retry_total == 5
            &&& is_variable(c.backoff_factor, vars@, "REQ_RETRY_BACKOFF_FACTOR"@)
            &&& is_variable(c.timeout, vars@, "REQ_TIMEOUT"@)
            &&& c.skip_tls_verify <==> vars@.contains_key("REQ_SKIP_TLS_VERIFY"@)
                && vars@["REQ_SKIP_TLS_VERIFY"@] == "true"@
            &&& c.username_file_flag is Some == username_file_flag is Some
            &&& username_file_flag is Some ==> c.username_file_flag->0@ == username_file_flag->0@
            &&& c.password_file_flag is Some == password_file_flag is Some
            &&& password_file_flag is Some ==> c.password_file_flag->0@ == password_file_flag->0@
        },
{
}

} // verus!
