//! HTTP requests, for the content of `*.url` keys and to notify of changes.
//! Answers that tell of an overloaded server are asked for again, unless they
//! are wanted as they are. What fails for good is logged and answered with
//! nothing. The exchange itself takes place outside of this module.

use vstd::prelude::*;
use vstd::utf8::{encode_utf8, is_ascii_chars};

use crate::env::{env_u32, number_setting, setting, EnvVars};
use crate::logger::{Level, LogEntry};
use crate::number::{decimal, decimal_string};
use crate::ordered::copy_bytes;
use crate::outside::{base64_string, base64_text};
use crate::text::{
    cat2, cat3, cat4, chars_of, copy_opt, in_lower_case, lowered, opt_view, same, show_bytes,
    shown_bytes, trim, trimmed,
};

verus! {

// ---------------------------------------------------------------------------
// Settings
// ---------------------------------------------------------------------------

/// How requests are made.
pub struct HttpCfg {
    /// How often a request is made again.
    pub retry_total: u32,
    /// What the waits between attempts are multiples of, in seconds, as it is
    /// written; if it is unset or no number, 1.1 is meant.
    pub backoff_factor: Option<String>,
    /// How long an attempt may take, in seconds, as it is written; if it is
    /// unset or no number, 10 is meant.
    pub timeout: Option<String>,
    /// Whether any certificate is accepted.
    pub skip_tls_verify: bool,
    /// The file that holds the user name, by a flag.
    pub username_file_flag: Option<String>,
    /// The file that holds the password, by a flag.
    pub password_file_flag: Option<String>,
}

/// These are the settings by the environment and the flags.
pub open spec fn settings_from(
    vars: Map<Seq<char>, Seq<char>>,
    username_file_flag: Option<Seq<char>>,
    password_file_flag: Option<Seq<char>>,
    c: HttpCfg,
) -> bool {
    &&& c.retry_total == number_setting(vars, "REQ_RETRY_TOTAL"@, 5, u32::MAX as nat)
    &&& opt_view(c.backoff_factor) == setting(vars, "REQ_RETRY_BACKOFF_FACTOR"@)
    &&& opt_view(c.timeout) == setting(vars, "REQ_TIMEOUT"@)
    &&& c.skip_tls_verify == (setting(vars, "REQ_SKIP_TLS_VERIFY"@) == Some("true"@))
    &&& opt_view(c.username_file_flag) == username_file_flag
    &&& opt_view(c.password_file_flag) == password_file_flag
}

/// These are the defaults.
pub open spec fn is_default(c: HttpCfg) -> bool {
    &&& c.retry_total == 5
    &&& c.backoff_factor is None
    &&& c.timeout is None
    &&& !c.skip_tls_verify
    &&& c.username_file_flag is None
    &&& c.password_file_flag is None
}

/// What [`init`] does to the settings: it makes them, unless there are some.
pub open spec fn made_once(
    before: Option<HttpCfg>,
    vars: Map<Seq<char>, Seq<char>>,
    username_file_flag: Option<Seq<char>>,
    password_file_flag: Option<Seq<char>>,
    after: Option<HttpCfg>,
) -> bool {
    match before {
        Some(_) => after == before,
        None => after is Some && settings_from(
            vars,
            username_file_flag,
            password_file_flag,
            after->0,
        ),
    }
}

/// What [`cfg`] does to the settings: they become the defaults, unless there
/// are some.
pub open spec fn read_once(before: Option<HttpCfg>, after: Option<HttpCfg>) -> bool {
    match before {
        Some(_) => after == before,
        None => after is Some && is_default(after->0),
    }
}

/// Makes the settings by the environment and the flags. Settings that were
/// made before stay as they are.
pub fn init(
    made: &mut Option<HttpCfg>,
    vars: &EnvVars,
    username_file_flag: Option<String>,
    password_file_flag: Option<String>,
)
    ensures
        made_once(
            *old(made),
            vars@,
            opt_view(username_file_flag),
            opt_view(password_file_flag),
            *final(made),
        ),
{
    if made.is_none() {
        *made = Some(
            HttpCfg {
                retry_total: env_u32(vars, "REQ_RETRY_TOTAL", 5),
                backoff_factor: vars.value("REQ_RETRY_BACKOFF_FACTOR"),
                timeout: vars.value("REQ_TIMEOUT"),
                skip_tls_verify: match vars.get("REQ_SKIP_TLS_VERIFY") {
                    Some(v) => same(v.as_str(), "true"),
                    None => false,
                },
                username_file_flag,
                password_file_flag,
            },
        );
    }
}

/// The settings in use: those that were made. If none were made, the defaults
/// are from then on.
pub fn cfg(made: &mut Option<HttpCfg>) -> (r: &HttpCfg)
    ensures
        read_once(*old(made), *final(made)),
        *final(made) == Some(*r),
{
    if made.is_none() {
        *made = Some(
            HttpCfg {
                retry_total: 5,
                backoff_factor: None,
                timeout: None,
                skip_tls_verify: false,
                username_file_flag: None,
                password_file_flag: None,
            },
        );
    }
    made.as_ref().unwrap()
}

/// The settings are read once: however the environment and the flags are when
/// they are to be made again, and however often they are read, they stay as
/// they were made first.
pub proof fn first_settings_stay(
    vars: Map<Seq<char>, Seq<char>>,
    username_file_flag: Option<Seq<char>>,
    password_file_flag: Option<Seq<char>>,
    first: Option<HttpCfg>,
    later_vars: Map<Seq<char>, Seq<char>>,
    later_username_file_flag: Option<Seq<char>>,
    later_password_file_flag: Option<Seq<char>>,
    second: Option<HttpCfg>,
    third: Option<HttpCfg>,
)
    requires
        made_once(None, vars, username_file_flag, password_file_flag, first),
        made_once(
            first,
            later_vars,
            later_username_file_flag,
            later_password_file_flag,
            second,
        ),
        read_once(second, third),
    ensures
        third == first,
        first is Some,
        settings_from(vars, username_file_flag, password_file_flag, third->0),
{
}

// ---------------------------------------------------------------------------
// Credentials
// ---------------------------------------------------------------------------

/// Why a file could not be read.
pub enum ReadError {
    NotFound,
    PermissionDenied,
    /// Anything else, and what it is.
    Other(String),
}

/// What was read from a file, trimmed; or nothing, and a message that says
/// why.
pub fn read_file_content(path: &str, outcome: Result<String, ReadError>) -> (r: (
    Option<String>,
    Option<LogEntry>,
))
    ensures
        match outcome {
            Ok(text) => r.0 is Some && r.0->0@ == trimmed(text@) && r.1 is None,
            Err(ReadError::NotFound) => r.0 is None && r.1 is Some && r.1->0@ == (
                Level::Warning,
                "File not found at: "@ + path@,
            ),
            Err(ReadError::PermissionDenied) => r.0 is None && r.1 is Some && r.1->0@ == (
                Level::Error,
                "No read permission for file: "@ + path@,
            ),
            Err(ReadError::Other(e)) => r.0 is None && r.1 is Some && r.1->0@ == (
                Level::Error,
                "An unexpected error occurred: "@ + e@,
            ),
        },
{
    match outcome {
        Ok(text) => (Some(trim(text.as_str())), None),
        Err(ReadError::NotFound) => {
            let message = cat2("File not found at: ", path);
            (None, Some(LogEntry { level: Level::Warning, message }))
        },
        Err(ReadError::PermissionDenied) => {
            let message = cat2("No read permission for file: ", path);
            (None, Some(LogEntry { level: Level::Error, message }))
        },
        Err(ReadError::Other(e)) => {
            let message = cat2("An unexpected error occurred: ", e.as_str());
            (None, Some(LogEntry { level: Level::Error, message }))
        },
    }
}

/// A value, or else another one.
pub open spec fn or_else<T>(first: Option<T>, second: Option<T>) -> Option<T> {
    if first is Some {
        first
    } else {
        second
    }
}

fn first_of(first: Option<String>, second: Option<String>) -> (r: Option<String>)
    ensures
        opt_view(r) == or_else(opt_view(first), opt_view(second)),
{
    match first {
        Some(v) => Some(v),
        None => second,
    }
}

/// The files to read user name and password from: those given by flags, or
/// else those that `REQ_USERNAME_FILE` and `REQ_PASSWORD_FILE` name.
pub fn credential_files(cfg: &HttpCfg, vars: &EnvVars) -> (r: (Option<String>, Option<String>))
    ensures
        opt_view(r.0) == or_else(
            opt_view(cfg.username_file_flag),
            setting(vars@, "REQ_USERNAME_FILE"@),
        ),
        opt_view(r.1) == or_else(
            opt_view(cfg.password_file_flag),
            setting(vars@, "REQ_PASSWORD_FILE"@),
        ),
{
    (
        first_of(copy_opt(&cfg.username_file_flag), vars.value("REQ_USERNAME_FILE")),
        first_of(copy_opt(&cfg.password_file_flag), vars.value("REQ_PASSWORD_FILE")),
    )
}

/// User name and password: what was read from their files, if they could be
/// read, or else `REQ_USERNAME` and `REQ_PASSWORD`.
pub fn fetch_basic_auth_credentials(
    vars: &EnvVars,
    username_read: Option<String>,
    password_read: Option<String>,
) -> (r: (Option<String>, Option<String>))
    ensures
        opt_view(r.0) == or_else(opt_view(username_read), setting(vars@, "REQ_USERNAME"@)),
        opt_view(r.1) == or_else(opt_view(password_read), setting(vars@, "REQ_PASSWORD"@)),
{
    (
        first_of(username_read, vars.value("REQ_USERNAME")),
        first_of(password_read, vars.value("REQ_PASSWORD")),
    )
}

/// The lower-case names of the Latin encoding, which has the characters up to
/// U+00FF.
pub open spec fn is_latin(encoding: Seq<char>) -> bool {
    encoding == "latin1"@ || encoding == "latin-1"@ || encoding == "iso-8859-1"@
}

/// A character as one byte in an encoding that has the characters up to
/// `last`; a question mark for any other.
pub open spec fn byte_up_to(c: char, last: u32) -> u8 {
    if c as u32 <= last {
        (c as u32) as u8
    } else {
        '?' as u8
    }
}

/// A credential in the encoding that has the lower-case name `encoding`: one
/// byte per character in Latin and ASCII, and UTF-8 for all other names.
pub open spec fn credential_bytes(s: Seq<char>, encoding: Seq<char>) -> Seq<u8> {
    if is_latin(encoding) {
        s.map_values(|c: char| byte_up_to(c, 0xff))
    } else if encoding == "ascii"@ {
        s.map_values(|c: char| byte_up_to(c, 0x7f))
    } else {
        encode_utf8(s)
    }
}

proof fn utf8_is_not_shorter(s: Seq<char>)
    ensures
        s.len() <= encode_utf8(s).len(),
    decreases s.len(),
{
    if s.len() > 0 {
        utf8_is_not_shorter(s.drop_first());
    }
}

fn bytes_up_to(s: &str, last: u32) -> (r: Vec<u8>)
    requires
        last <= 0xff,
    ensures
        r@ == s@.map_values(|c: char| byte_up_to(c, last)),
{
    let chars = chars_of(s);
    let mut out: Vec<u8> = Vec::new();
    let mut i: usize = 0;
    while i < chars.len()
        invariant
            last <= 0xff,
            chars@ == s@,
            i <= chars@.len(),
            out@ == s@.take(i as int).map_values(|c: char| byte_up_to(c, last)),
        decreases chars@.len() - i,
    {
        let p: u32 = chars[i] as u32;
        if p <= last {
            out.push(p as u8);
        } else {
            out.push(63u8);
        }
        i += 1;
        assert(out@ =~= s@.take(i as int).map_values(|c: char| byte_up_to(c, last)));
    }
    assert(s@.take(i as int) =~= s@);
    out
}

/// A credential in the encoding with the given lower-case name. A character
/// that the encoding lacks becomes a question mark.
pub fn encode_as(s: &str, encoding: &str) -> (r: Vec<u8>)
    ensures
        r@ == credential_bytes(s@, encoding@),
{
    if same(encoding, "latin1") || same(encoding, "latin-1") || same(encoding, "iso-8859-1") {
        bytes_up_to(s, 0xff)
    } else if same(encoding, "ascii") {
        bytes_up_to(s, 0x7f)
    } else {
        copy_bytes(s.as_bytes())
    }
}

/// A credential in the encoding that is named, in upper or lower case.
pub fn encode_cred(s: &str, encoding: &str) -> (r: Vec<u8>)
    ensures
        r@ == credential_bytes(s@, lowered(encoding@)),
{
    let name = in_lower_case(encoding);
    encode_as(s, name.as_str())
}

/// The lower-case name of the encoding of credentials:
/// `REQ_BASIC_AUTH_ENCODING`, or else latin1.
pub open spec fn credential_encoding(vars: Map<Seq<char>, Seq<char>>) -> Seq<char> {
    match setting(vars, "REQ_BASIC_AUTH_ENCODING"@) {
        Some(e) => lowered(e),
        None => "latin1"@,
    }
}

proof fn latin_is_lower_case()
    ensures
        lowered("latin1"@) == "latin1"@,
{
    reveal_strlit("latin1");
    assert(is_ascii_chars("latin1"@));
    assert(lowered("latin1"@) =~= "latin1"@);
}

/// The bytes that are base64-encoded: user name and password with a colon
/// between them.
pub open spec fn credential_pair(user: Seq<char>, pass: Seq<char>, encoding: Seq<char>) -> Seq<u8> {
    credential_bytes(user, encoding) + seq![':' as u8] + credential_bytes(pass, encoding)
}

/// Both user name and password are there, and not empty.
pub open spec fn has_credentials(user: Option<Seq<char>>, pass: Option<Seq<char>>) -> bool {
    user is Some && pass is Some && user->0.len() > 0 && pass->0.len() > 0
}

/// The header value for base64-encoded credentials.
pub fn auth_value(encoded: &str) -> (r: String)
    ensures
        r@ == "Basic "@ + encoded@,
{
    cat2("Basic ", encoded)
}

/// The value of the authorization header; nothing unless there are both user
/// name and password.
pub fn basic_auth_header(user: Option<String>, pass: Option<String>, vars: &EnvVars) -> (r: Option<
    String,
>)
    requires
        user is Some && pass is Some ==> (encode_utf8(user->0@).len() + encode_utf8(pass->0@).len() + 1)
            / 3 * 4 + 4 <= isize::MAX,
    ensures
        r is Some <==> has_credentials(opt_view(user), opt_view(pass)),
        r is Some ==> r->0@ == "Basic "@ + base64_text(
            credential_pair(user->0@, pass->0@, credential_encoding(vars@)),
        ),
{
    let (user, pass) = match (user, pass) {
        (Some(u), Some(p)) => (u, p),
        _ => {
            return None;
        },
    };
    if user.as_str().is_empty() || pass.as_str().is_empty() {
        return None;
    }
    let encoding = match vars.get("REQ_BASIC_AUTH_ENCODING") {
        Some(e) => e.clone(),
        None => "latin1".to_string(),
    };
    let mut raw = encode_cred(user.as_str(), encoding.as_str());
    raw.push(58u8);
    let tail = encode_cred(pass.as_str(), encoding.as_str());
    raw.extend_from_slice(tail.as_slice());
    proof {
        utf8_is_not_shorter(user@);
        utf8_is_not_shorter(pass@);
        latin_is_lower_case();
        assert(raw@ =~= credential_pair(user@, pass@, credential_encoding(vars@)));
    }
    let encoded = base64_string(raw.as_slice());
    Some(auth_value(encoded.as_str()))
}

// ---------------------------------------------------------------------------
// Requests
// ---------------------------------------------------------------------------

/// A request that is under way.
pub struct Exchange {
    pub url: String,
    /// Whether it is a POST; else it is a GET.
    pub post: bool,
    /// The JSON text that a POST sends.
    pub payload: Option<String>,
    /// Whether answers of an overloaded server are taken as they are.
    pub enable_5xx: bool,
    /// How often the request is made again.
    pub retry_total: u32,
    /// How often it was made before.
    pub attempt: u32,
}

/// What is to be done next for a request.
pub enum RequestStep {
    /// Log; there is no response.
    Nothing(LogEntry),
    /// Wait, if [`backoff_exponent`] of the attempt says so, send the request,
    /// then call [`Exchange::status_received`] or [`Exchange::failed`].
    Send(Exchange),
    /// Read the body, then call [`Exchange::body_received`]. The response is
    /// the status with the body.
    ReadBody(Exchange),
    /// Log both; there is no response.
    GiveUp(LogEntry, LogEntry),
}

/// The view of a string that may be absent.
pub open spec fn str_view(s: Option<&str>) -> Option<Seq<char>> {
    match s {
        Some(v) => Some(v@),
        None => None,
    }
}

/// A method is given that is neither GET nor POST.
pub open spec fn is_bad_method(method: Option<Seq<char>>) -> bool {
    method is Some && method->0 != "GET"@ && method->0 != "POST"@
}

/// What a request begins with.
pub open spec fn requested(
    cfg: HttpCfg,
    url: Option<Seq<char>>,
    method: Option<Seq<char>>,
    enable_5xx: bool,
    payload: Option<Seq<char>>,
    step: RequestStep,
) -> bool {
    match url {
        None => {
            &&& step matches RequestStep::Nothing(l)
            &&& l@ == (Level::Warning, "No url provided. Doing nothing."@)
        },
        Some(u) => if is_bad_method(method) {
            &&& step matches RequestStep::Nothing(l)
            &&& l@ == (
                Level::Warning,
                "Invalid REQ_METHOD: '"@ + method->0
                    + "', please use 'GET' or 'POST'. Doing nothing."@,
            )
        } else {
            &&& step matches RequestStep::Send(x)
            &&& x.url@ == u
            &&& x.post == (method == Some("POST"@))
            &&& opt_view(x.payload) == payload
            &&& x.enable_5xx == enable_5xx
            &&& x.retry_total == cfg.retry_total
            &&& x.attempt == 0
        },
    }
}

/// Starts a request. Without a URL, or with another method than GET and POST,
/// nothing is done.
pub fn request(
    cfg: &HttpCfg,
    url: Option<&str>,
    method: Option<&str>,
    enable_5xx: bool,
    payload: Option<&str>,
) -> (r: RequestStep)
    ensures
        requested(*cfg, str_view(url), str_view(method), enable_5xx, str_view(payload), r),
{
    let url = match url {
        Some(u) => u,
        None => {
            let message = "No url provided. Doing nothing.".to_string();
            return RequestStep::Nothing(LogEntry { level: Level::Warning, message });
        },
    };
    let post = match method {
        None => false,
        Some(m) => {
            if !same(m, "GET") && !same(m, "POST") {
                let message = cat3(
                    "Invalid REQ_METHOD: '",
                    m,
                    "', please use 'GET' or 'POST'. Doing nothing.",
                );
                return RequestStep::Nothing(LogEntry { level: Level::Warning, message });
            }
            same(m, "POST")
        },
    };
    RequestStep::Send(
        Exchange {
            url: url.to_string(),
            post,
            payload: match payload {
                Some(p) => Some(p.to_string()),
                None => None,
            },
            enable_5xx,
            retry_total: cfg.retry_total,
            attempt: 0,
        },
    )
}

/// What is logged when no client could be made for a request; there is no
/// response.
pub fn client_failed(url: &str, error: &str) -> (r: (LogEntry, LogEntry))
    ensures
        r.0@ == (Level::Error, "Unexpected error during request to "@ + url@ + ": "@ + error@),
        r.1@ == dummy_entry(url@),
{
    (
        LogEntry {
            level: Level::Error,
            message: cat4("Unexpected error during request to ", url, ": ", error),
        },
        dummy_response(url),
    )
}

/// The message that there is no response.
pub open spec fn dummy_entry(url: Seq<char>) -> (Level, Seq<char>) {
    (Level::Debug, "Returning dummy response for URL "@ + url)
}

fn dummy_response(url: &str) -> (r: LogEntry)
    ensures
        r@ == dummy_entry(url@),
{
    LogEntry { level: Level::Debug, message: cat2("Returning dummy response for URL ", url) }
}

/// Before which attempts there is a wait, and how often its length is
/// doubled: none before the first attempt made again, and from then on once
/// more each time.
pub fn backoff_exponent(attempt: u32) -> (r: Option<u32>)
    ensures
        match r {
            Some(e) => attempt > 1 && e == attempt - 1,
            None => attempt <= 1,
        },
{
    if attempt > 1 {
        Some(attempt - 1)
    } else {
        None
    }
}

/// The attempt that follows a failed one, of which there have been `attempt`
/// before; none if as many have been made again as are allowed.
pub open spec fn next_attempt(attempt: nat, total: nat) -> Option<nat> {
    if attempt < total {
        Some(attempt + 1)
    } else {
        None
    }
}

/// What `failures` failed attempts in a row lead to, from the first one on.
pub open spec fn attempt_after(failures: nat, total: nat) -> Option<nat>
    decreases failures,
{
    if failures == 0 {
        Some(0)
    } else {
        match attempt_after((failures - 1) as nat, total) {
            Some(a) => next_attempt(a, total),
            None => None,
        }
    }
}

/// A request that keeps failing is made once and then again as often as is
/// allowed, no more and no less.
pub proof fn attempts_are_bounded(failures: nat, total: nat)
    ensures
        attempt_after(failures, total) == (if failures <= total {
            Some(failures)
        } else {
            None
        }),
    decreases failures,
{
    if failures > 0 {
        attempts_are_bounded((failures - 1) as nat, total);
    }
}

/// Answers that are asked for again, unless they are wanted as they are.
pub open spec fn is_overloaded(status: u16) -> bool {
    status == 500 || status == 502 || status == 503 || status == 504
}

/// What is said to have gone wrong when answers are not taken.
pub open spec fn status_error(status: u16) -> Seq<char> {
    "too many "@ + decimal(status as nat)
        + " error responses (Caused by ResponseError('too many "@ + decimal(status as nat)
        + " error responses'))"@
}

/// What follows a failed attempt: another one, or the end.
pub open spec fn after_failure(x: Exchange, error: Seq<char>, step: RequestStep) -> bool {
    match next_attempt(x.attempt as nat, x.retry_total as nat) {
        Some(a) => {
            &&& step matches RequestStep::Send(y)
            &&& y == (Exchange { attempt: a as u32, ..x })
        },
        None => {
            &&& step matches RequestStep::GiveUp(first, second)
            &&& first@ == (
                Level::Error,
                "Max retries exceeded for URL "@ + x.url@ + ": "@ + error,
            )
            &&& second@ == dummy_entry(x.url@)
        },
    }
}

/// How a payload is called in log messages.
pub open spec fn payload_text(payload: Option<Seq<char>>) -> Seq<char> {
    match payload {
        Some(p) => p,
        None => "None"@,
    }
}

/// The message on a response.
pub open spec fn response_message(
    post: bool,
    payload: Option<Seq<char>>,
    url: Seq<char>,
    status: u16,
    reason: Seq<char>,
    text: Seq<char>,
) -> Seq<char> {
    (if post {
        payload_text(payload)
    } else {
        "Request"@
    }) + " sent to "@ + url + ". Response: "@ + decimal(status as nat) + " "@ + reason + " "@ + text
}

impl Exchange {
    /// The JSON text that is sent: the payload of a POST, or null.
    pub fn json_body(&self) -> (r: Option<String>)
        ensures
            opt_view(r) == (if !self.post {
                None
            } else {
                match opt_view(self.payload) {
                    Some(p) => Some(p),
                    None => Some("null"@),
                }
            }),
    {
        if !self.post {
            return None;
        }
        match &self.payload {
            Some(p) => Some(p.clone()),
            None => Some("null".to_string()),
        }
    }

    /// An answer with this status arrived.
    pub fn status_received(self, status: u16) -> (r: RequestStep)
        ensures
            if !self.enable_5xx && is_overloaded(status) {
                after_failure(self, status_error(status), r)
            } else {
                r == RequestStep::ReadBody(self)
            },
    {
        if !self.enable_5xx && (status == 500 || status == 502 || status == 503 || status == 504) {
            let code = decimal_string(status as u64);
            let mut error = cat4(
                "too many ",
                code.as_str(),
                " error responses (Caused by ResponseError('too many ",
                code.as_str(),
            );
            error.append(" error responses'))");
            self.failed(error.as_str())
        } else {
            RequestStep::ReadBody(self)
        }
    }

    /// The attempt failed.
    pub fn failed(self, error: &str) -> (r: RequestStep)
        ensures
            after_failure(self, error@, r),
    {
        if self.attempt < self.retry_total {
            RequestStep::Send(
                Exchange {
                    url: self.url,
                    post: self.post,
                    payload: self.payload,
                    enable_5xx: self.enable_5xx,
                    retry_total: self.retry_total,
                    attempt: self.attempt + 1,
                },
            )
        } else {
            let message = cat4("Max retries exceeded for URL ", self.url.as_str(), ": ", error);
            RequestStep::GiveUp(
                LogEntry { level: Level::Error, message },
                dummy_response(self.url.as_str()),
            )
        }
    }

    /// What is logged on a response whose body is this text.
    pub fn response_entry(&self, status: u16, reason: &str, text: &str) -> (r: LogEntry)
        ensures
            r@ == (
                Level::Info,
                response_message(self.post, opt_view(self.payload), self.url@, status, reason@, text@),
            ),
    {
        let mut message = if self.post {
            match &self.payload {
                Some(p) => p.clone(),
                None => "None".to_string(),
            }
        } else {
            "Request".to_string()
        };
        message.append(" sent to ");
        message.append(self.url.as_str());
        message.append(". Response: ");
        message.append(decimal_string(status as u64).as_str());
        message.append(" ");
        message.append(reason);
        message.append(" ");
        message.append(text);
        LogEntry { level: Level::Info, message }
    }

    /// What is logged on a response with this body.
    pub fn body_received(&self, status: u16, reason: &str, body: &[u8]) -> (r: LogEntry)
        ensures
            r@ == (
                Level::Info,
                response_message(
                    self.post,
                    opt_view(self.payload),
                    self.url@,
                    status,
                    reason@,
                    shown_bytes(body@),
                ),
            ),
    {
        let text = show_bytes(body);
        self.response_entry(status, reason, text.as_str())
    }
}

/// The content that a response stands for: its body if its status is below
/// 400, else nothing at all.
pub open spec fn content_of(resp: Option<(u16, Seq<u8>)>) -> Seq<u8> {
    match resp {
        Some((status, body)) if status < 400 => body,
        _ => Seq::empty(),
    }
}

/// The view of a response.
pub open spec fn response_view(resp: Option<(u16, Vec<u8>)>) -> Option<(u16, Seq<u8>)> {
    match resp {
        Some((status, body)) => Some((status, body@)),
        None => None,
    }
}

/// The content that a response stands for.
pub fn body_if_ok(resp: Option<(u16, Vec<u8>)>) -> (r: Vec<u8>)
    ensures
        r@ == content_of(response_view(resp)),
{
    match resp {
        Some((status, body)) => if status < 400 {
            body
        } else {
            Vec::new()
        },
        None => Vec::new(),
    }
}

} // verus!
