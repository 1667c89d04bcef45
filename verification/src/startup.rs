//! From flags and environment to a running sidecar: what is to be synced and
//! how, what is logged on the way, and when the program ends.

use vstd::prelude::*;

use crate::env::{env_is_true, env_u64, is_true, number_setting, setting, EnvVars};
use crate::kubeapi::{kind_name, Kind};
use crate::logger::{entry_views, fails_with, Failure, Level, LogEntry};
use crate::number::{parse_unsigned, parsed};
use crate::outside::{json_compact, json_quoted, json_reprinted};
use crate::resources::Ctx;
use crate::text::{
    cat2, cat3, cat4, chars_of, copy_opt, find_char, first_at, is_text, json_string, opt_view, pieces, same,
    split, string_of, views,
};

verus! {

// ---------------------------------------------------------------------------
// Flags
// ---------------------------------------------------------------------------

/// The files with user name and password that flags name, or the flag that is
/// not known. A flag has its value after an equals sign, or as the next
/// argument; the last one of its kind counts.
pub open spec fn flags_of(
    args: Seq<Seq<char>>,
    username_file: Option<Seq<char>>,
    password_file: Option<Seq<char>>,
) -> Result<(Option<Seq<char>>, Option<Seq<char>>), Seq<char>>
    decreases args.len(),
{
    if args.len() == 0 {
        Ok((username_file, password_file))
    } else {
        let cut = first_at(args[0], '=');
        let flag = args[0].take(cut);
        let inline = cut < args[0].len();
        let value = if inline {
            Some(args[0].skip(cut + 1))
        } else if args.len() > 1 {
            Some(args[1])
        } else {
            None
        };
        let rest = if inline || args.len() == 1 {
            args.skip(1)
        } else {
            args.skip(2)
        };
        if flag == "--req-username-file"@ {
            flags_of(rest, value, password_file)
        } else if flag == "--req-password-file"@ {
            flags_of(rest, username_file, value)
        } else {
            Err(flag)
        }
    }
}

/// Reads the flags. An unknown one ends the program.
pub fn parse_flags(args: &Vec<String>) -> (r: Result<(Option<String>, Option<String>), Failure>)
    ensures
        match flags_of(views(args@), None, None) {
            Ok((u, p)) => r is Ok && opt_view(r->Ok_0.0) == u && opt_view(r->Ok_0.1) == p,
            Err(flag) => r is Err && fails_with(
                r->Err_0,
                seq!["error: unrecognized arguments: "@ + flag],
                2,
            ),
        },
{
    let ghost all = views(args@);
    let mut username_file: Option<String> = None;
    let mut password_file: Option<String> = None;
    let mut i: usize = 0;
    assert(all.skip(0) =~= all);
    while i < args.len()
        invariant
            i <= args.len(),
            all == views(args@),
            flags_of(all, None, None) == flags_of(
                all.skip(i as int),
                opt_view(username_file),
                opt_view(password_file),
            ),
        decreases args@.len() - i,
    {
        let ghost left = all.skip(i as int);
        assert(left[0] == args@[i as int]@);
        assert(left.len() > 1 ==> left[1] == args@[i + 1]@);
        assert(left.skip(1) =~= all.skip(i + 1));
        assert(left.len() > 1 ==> left.skip(2) =~= all.skip(i + 2));
        let chars = chars_of(args[i].as_str());
        let cut: usize = find_char(&chars, '=');
        let flag = string_of(&chars, 0, cut);
        assert(flag@ =~= left[0].take(cut as int));
        i += 1;
        let value = if cut < chars.len() {
            let text = string_of(&chars, cut + 1, chars.len());
            assert(text@ =~= left[0].skip(cut + 1));
            Some(text)
        } else if i < args.len() {
            i += 1;
            Some(args[i - 1].clone())
        } else {
            None
        };
        if same(flag.as_str(), "--req-username-file") {
            username_file = value;
        } else if same(flag.as_str(), "--req-password-file") {
            password_file = value;
        } else {
            let mut lines: Vec<String> = Vec::new();
            lines.push(cat2("error: unrecognized arguments: ", flag.as_str()));
            return Err(Failure { lines, code: 2 });
        }
    }
    assert(all.skip(i as int).len() == 0);
    Ok((username_file, password_file))
}

// ---------------------------------------------------------------------------
// Settings
// ---------------------------------------------------------------------------

/// What the environment says before a client is set up.
pub struct Settings {
    pub folder_annotation: String,
    pub label: String,
    pub label_value: Option<String>,
    pub target_folder: String,
    pub kinds: Vec<Kind>,
    pub resource_name: String,
    pub request_method: Option<String>,
    pub request_url: Option<String>,
    pub request_skip_init: bool,
    pub request_payload: Option<String>,
    pub script: Option<String>,
}

/// The annotation by which a resource names a folder, unless another one is
/// given.
pub const DEFAULT_FOLDER_ANNOTATION: &'static str = "k8s-sidecar-target-directory";

/// A value, or a default.
pub open spec fn or_default(value: Option<Seq<char>>, default: Seq<char>) -> Seq<char> {
    match value {
        Some(v) => v,
        None => default,
    }
}

/// A value, unless it is empty.
pub open spec fn non_empty(value: Option<Seq<char>>) -> Option<Seq<char>> {
    match value {
        Some(v) if v.len() > 0 => Some(v),
        _ => None,
    }
}

/// The kinds of resources that `RESOURCE` asks for: both, Secrets first; or
/// Secrets; or, for any other word, ConfigMaps.
pub open spec fn kinds_of(resource: Seq<char>) -> Seq<Kind> {
    if resource == "both"@ {
        seq![Kind::Secret, Kind::ConfigMap]
    } else if resource == "secret"@ {
        seq![Kind::Secret]
    } else {
        seq![Kind::ConfigMap]
    }
}

/// How the kinds are shown.
pub open spec fn kinds_text(resource: Seq<char>) -> Seq<char> {
    if resource == "both"@ {
        "('secret', 'configmap')"@
    } else {
        "('"@ + resource + "',)"@
    }
}

/// The kinds that a word asks for, and how they are shown.
pub fn selected_kinds(resource: &str) -> (r: (Vec<Kind>, String))
    ensures
        r.0@ == kinds_of(resource@),
        r.1@ == kinds_text(resource@),
{
    let mut kinds: Vec<Kind> = Vec::new();
    let shown;
    if same(resource, "both") {
        kinds.push(Kind::Secret);
        kinds.push(Kind::ConfigMap);
        shown = "('secret', 'configmap')".to_string();
    } else {
        if same(resource, "secret") {
            kinds.push(Kind::Secret);
        } else {
            kinds.push(Kind::ConfigMap);
        }
        shown = cat3("('", resource, "',)");
    }
    assert(kinds@ =~= kinds_of(resource@));
    (kinds, shown)
}

/// The JSON text that requests send for a payload, given its compact form if
/// it is JSON; a payload that is not is sent as a JSON string.
pub open spec fn payload_json(payload: Seq<char>, compact: Option<Seq<char>>) -> Seq<char> {
    match compact {
        Some(t) => t,
        None => json_string(payload),
    }
}

/// The JSON text that requests send for a payload, given its compact form if
/// it is JSON.
pub fn payload_from(payload: &str, compact: Option<String>) -> (r: String)
    ensures
        r@ == payload_json(payload@, opt_view(compact)),
{
    match compact {
        Some(t) => t,
        None => json_quoted(payload),
    }
}

/// What is logged for the settings, up to where they end for want of one.
pub open spec fn settings_log(vars: Map<Seq<char>, Seq<char>>) -> Seq<(Level, Seq<char>)> {
    let annotation = one_if(
        setting(vars, "FOLDER_ANNOTATION"@) is None,
        (
            Level::Info,
            "No folder annotation was provided, defaulting to k8s-sidecar-target-directory"@,
        ),
    );
    let no_label = (Level::Critical, "Should have added LABEL as environment variable! Exit"@);
    let no_folder = (Level::Critical, "Should have added FOLDER as environment variable! Exit"@);
    let value = one_if(
        non_empty(setting(vars, "LABEL_VALUE"@)) is Some,
        (Level::Debug, "Filter labels with value: "@ + vars["LABEL_VALUE"@]),
    );
    if setting(vars, "LABEL"@) is None {
        annotation.push(no_label)
    } else if setting(vars, "FOLDER"@) is None {
        (annotation + value).push(no_folder)
    } else {
        let resource = or_default(setting(vars, "RESOURCE"@), "configmap"@);
        let name = or_default(setting(vars, "RESOURCE_NAME"@), Seq::empty());
        let payload = non_empty(setting(vars, "REQ_PAYLOAD"@));
        annotation + value + seq![
            (Level::Debug, "Selected resource type: "@ + kinds_text(resource)),
            (Level::Debug, "Selected resource name: "@ + name),
        ] + one_if(
            payload is Some && json_reprinted(payload->0) is None,
            (Level::Warning, "Payload will be posted as quoted json"@),
        )
    }
}

/// One element if a condition holds, else none.
pub open spec fn one_if<T>(condition: bool, element: T) -> Seq<T> {
    if condition {
        seq![element]
    } else {
        Seq::empty()
    }
}

/// The settings are what the environment says.
pub open spec fn is_settings(s: Settings, vars: Map<Seq<char>, Seq<char>>) -> bool {
    let payload = non_empty(setting(vars, "REQ_PAYLOAD"@));
    &&& s.folder_annotation@ == or_default(
        setting(vars, "FOLDER_ANNOTATION"@),
        DEFAULT_FOLDER_ANNOTATION@,
    )
    &&& setting(vars, "LABEL"@) == Some(s.label@)
    &&& opt_view(s.label_value) == non_empty(setting(vars, "LABEL_VALUE"@))
    &&& setting(vars, "FOLDER"@) == Some(s.target_folder@)
    &&& s.kinds@ == kinds_of(or_default(setting(vars, "RESOURCE"@), "configmap"@))
    &&& s.resource_name@ == or_default(setting(vars, "RESOURCE_NAME"@), Seq::empty())
    &&& opt_view(s.request_method) == setting(vars, "REQ_METHOD"@)
    &&& opt_view(s.request_url) == setting(vars, "REQ_URL"@)
    &&& s.request_skip_init == is_true(vars, "REQ_SKIP_INIT"@)
    &&& opt_view(s.request_payload) == (match payload {
        Some(p) => Some(payload_json(p, json_reprinted(p))),
        None => None,
    })
    &&& opt_view(s.script) == setting(vars, "SCRIPT"@)
}

fn value_or(vars: &EnvVars, name: &str, default: &str) -> (r: String)
    ensures
        r@ == or_default(setting(vars@, name@), default@),
{
    match vars.get(name) {
        Some(v) => v.clone(),
        None => default.to_string(),
    }
}

fn non_empty_value(vars: &EnvVars, name: &str) -> (r: Option<String>)
    ensures
        opt_view(r) == non_empty(setting(vars@, name@)),
{
    match vars.get(name) {
        Some(v) if !v.as_str().is_empty() => Some(v.clone()),
        _ => None,
    }
}

pub(crate) fn note(log: &mut Vec<LogEntry>, level: Level, message: String)
    ensures
        entry_views(final(log)@) == entry_views(old(log)@).push((level, message@)),
{
    let ghost before = log@;
    let entry = LogEntry { level, message };
    log.push(entry);
    assert(entry_views(log@) =~= entry_views(before).push(entry@));
}

/// Reads the settings, and says what is logged. There are none without a label
/// and a folder.
pub fn read_settings(vars: &EnvVars) -> (r: (Vec<LogEntry>, Option<Settings>))
    ensures
        entry_views(r.0@) == settings_log(vars@),
        r.1 is Some <==> setting(vars@, "LABEL"@) is Some && setting(vars@, "FOLDER"@) is Some,
        r.1 is Some ==> is_settings(r.1->0, vars@),
{
    let mut log: Vec<LogEntry> = Vec::new();
    assert(entry_views(log@) =~= Seq::empty());
    let folder_annotation = match vars.get("FOLDER_ANNOTATION") {
        Some(v) => v.clone(),
        None => {
            note(
                &mut log,
                Level::Info,
                "No folder annotation was provided, defaulting to k8s-sidecar-target-directory".to_string(),
            );
            DEFAULT_FOLDER_ANNOTATION.to_string()
        },
    };
    let label = match vars.get("LABEL") {
        Some(v) => v.clone(),
        None => {
            note(
                &mut log,
                Level::Critical,
                "Should have added LABEL as environment variable! Exit".to_string(),
            );
            assert(entry_views(log@) =~= settings_log(vars@));
            return (log, None);
        },
    };
    let label_value = non_empty_value(vars, "LABEL_VALUE");
    if let Some(v) = &label_value {
        note(&mut log, Level::Debug, cat2("Filter labels with value: ", v.as_str()));
    }
    let target_folder = match vars.get("FOLDER") {
        Some(v) => v.clone(),
        None => {
            note(
                &mut log,
                Level::Critical,
                "Should have added FOLDER as environment variable! Exit".to_string(),
            );
            assert(entry_views(log@) =~= settings_log(vars@));
            return (log, None);
        },
    };
    let resource = value_or(vars, "RESOURCE", "configmap");
    let (kinds, shown) = selected_kinds(resource.as_str());
    note(&mut log, Level::Debug, cat2("Selected resource type: ", shown.as_str()));
    let blank = String::new();
    assert(blank@ =~= Seq::empty());
    let resource_name = value_or(vars, "RESOURCE_NAME", blank.as_str());
    note(&mut log, Level::Debug, cat2("Selected resource name: ", resource_name.as_str()));
    let request_payload = match non_empty_value(vars, "REQ_PAYLOAD") {
        Some(p) => {
            let compact = json_compact(p.as_str());
            if compact.is_none() {
                note(&mut log, Level::Warning, "Payload will be posted as quoted json".to_string());
            }
            Some(payload_from(p.as_str(), compact))
        },
        None => None,
    };
    assert(entry_views(log@) =~= settings_log(vars@));
    let settings = Settings {
        folder_annotation,
        label,
        label_value,
        target_folder,
        kinds,
        resource_name,
        request_method: vars.value("REQ_METHOD"),
        request_url: vars.value("REQ_URL"),
        request_skip_init: env_is_true(vars, "REQ_SKIP_INIT"),
        request_payload,
        script: vars.value("SCRIPT"),
    };
    (log, Some(settings))
}

// ---------------------------------------------------------------------------
// Features
// ---------------------------------------------------------------------------

/// Which features are on.
pub struct Features {
    pub unique_filenames: bool,
    pub enable_5xx: bool,
}

/// What is logged of the features.
pub open spec fn features_log(features: Features) -> Seq<(Level, Seq<char>)> {
    seq![
        (
            Level::Info,
            if features.unique_filenames {
                "Unique filenames will be enforced."@
            } else {
                "Unique filenames will not be enforced."@
            },
        ),
        (
            Level::Info,
            if features.enable_5xx {
                "5xx response content will be enabled."@
            } else {
                "5xx response content will not be enabled."@
            },
        ),
    ]
}

/// These features are on by the environment.
pub open spec fn is_features(features: Features, vars: Map<Seq<char>, Seq<char>>) -> bool {
    &&& features.unique_filenames == is_true(vars, "UNIQUE_FILENAMES"@)
    &&& features.enable_5xx == is_true(vars, "ENABLE_5XX"@)
}

/// Which features are on by `UNIQUE_FILENAMES` and `ENABLE_5XX`, and what is
/// logged of them.
pub fn read_features(vars: &EnvVars) -> (r: (Vec<LogEntry>, Features))
    ensures
        is_features(r.1, vars@),
        entry_views(r.0@) == features_log(r.1),
{
    let unique_filenames = env_is_true(vars, "UNIQUE_FILENAMES");
    let enable_5xx = env_is_true(vars, "ENABLE_5XX");
    let mut log: Vec<LogEntry> = Vec::new();
    assert(entry_views(log@) =~= Seq::empty());
    if unique_filenames {
        note(&mut log, Level::Info, "Unique filenames will be enforced.".to_string());
    } else {
        note(&mut log, Level::Info, "Unique filenames will not be enforced.".to_string());
    }
    if enable_5xx {
        note(&mut log, Level::Info, "5xx response content will be enabled.".to_string());
    } else {
        note(&mut log, Level::Info, "5xx response content will not be enabled.".to_string());
    }
    (log, Features { unique_filenames, enable_5xx })
}

/// The decimal digits of a string.
pub open spec fn digits_of(s: Seq<char>) -> Seq<char>
    decreases s.len(),
{
    if s.len() == 0 {
        Seq::empty()
    } else if '0' <= s.last() <= '9' {
        digits_of(s.drop_last()).push(s.last())
    } else {
        digits_of(s.drop_last())
    }
}

/// The number that the digits of a string write; zero if it does not fit.
pub open spec fn digits_number(s: Seq<char>) -> nat {
    match parsed(digits_of(s), 10, u64::MAX as nat) {
        Some(n) => n,
        None => 0,
    }
}

/// The version is 1.19 or later.
pub open spec fn is_recent(major: Seq<char>, minor: Seq<char>) -> bool {
    let maj = digits_number(major);
    let min = digits_number(minor);
    digits_of(major).len() > 0 && digits_of(minor).len() > 0 && (maj > 1 || (maj == 1 && min >= 19))
}

fn ascii_digits(s: &str) -> (r: String)
    ensures
        r@ == digits_of(s@),
{
    let chars = chars_of(s);
    let mut out = String::new();
    let mut i: usize = 0;
    assert(out@ =~= digits_of(s@.take(0)));
    while i < chars.len()
        invariant
            chars@ == s@,
            i <= chars@.len(),
            out@ == digits_of(s@.take(i as int)),
        decreases chars@.len() - i,
    {
        assert(s@.take(i + 1).drop_last() =~= s@.take(i as int));
        assert(s@.take(i + 1).last() == chars@[i as int]);
        let c = chars[i];
        if '0' <= c && c <= '9' {
            out.push(c);
        }
        i += 1;
    }
    assert(s@.take(i as int) =~= s@);
    out
}

fn number_or_zero(digits: &str) -> (r: u64)
    ensures
        r == (match parsed(digits@, 10, u64::MAX as nat) {
            Some(n) => n,
            None => 0,
        }),
{
    match parse_unsigned(digits, 10, u64::MAX) {
        Some(n) => n,
        None => 0,
    }
}

/// Whether a version is 1.19 or later; of its parts only the digits count.
pub fn version_is_recent(major: &str, minor: &str) -> (r: bool)
    ensures
        r == is_recent(major@, minor@),
{
    let major_digits = ascii_digits(major);
    let minor_digits = ascii_digits(minor);
    let maj: u64 = number_or_zero(major_digits.as_str());
    let min: u64 = number_or_zero(minor_digits.as_str());
    !major_digits.as_str().is_empty() && !minor_digits.as_str().is_empty() && (maj > 1 || (maj == 1
        && min >= 19))
}

/// The version of the cluster.
pub struct Version {
    pub major: String,
    pub minor: String,
    pub git_version: String,
}

/// Whether versions that were processed before are ignored is decided by the
/// version of the cluster, and asked for only if that is wanted.
pub fn wants_ignore(vars: &EnvVars) -> (r: bool)
    ensures
        r == is_true(vars@, "IGNORE_ALREADY_PROCESSED"@),
{
    env_is_true(vars, "IGNORE_ALREADY_PROCESSED")
}

/// The cluster is recent enough.
pub open spec fn allows_ignore(asked: Option<Result<Version, ()>>) -> bool {
    asked matches Some(Ok(v)) && is_recent(v.major@, v.minor@)
}

/// What is logged on the version of the cluster, if it was asked for.
pub open spec fn version_log(asked: Option<Result<Version, ()>>) -> Seq<(Level, Seq<char>)> {
    (match asked {
        None => Seq::empty(),
        Some(Err(_)) => seq![(Level::Error, "Exception when calling VersionApi"@)],
        Some(Ok(v)) => if is_recent(v.major@, v.minor@) {
            seq![(Level::Info, "Ignore already processed resource version will be enabled."@)]
        } else {
            seq![
                (
                    Level::Info,
                    "Can't enable 'ignore already processed resource version', kubernetes api version ("@
                        + v.git_version@ + ") is lower than v1.19 or unrecognized format."@,
                ),
            ]
        },
    }) + one_if(
        !allows_ignore(asked),
        (Level::Debug, "Ignore already processed resource version will not be enabled."@),
    )
}

/// Whether versions that were processed before are ignored, given the version
/// of the cluster if it was asked for, and what is logged.
pub fn decide_ignore(asked: Option<Result<Version, ()>>) -> (r: (Vec<LogEntry>, bool))
    ensures
        r.1 == allows_ignore(asked),
        entry_views(r.0@) == version_log(asked),
{
    let mut log: Vec<LogEntry> = Vec::new();
    assert(entry_views(log@) =~= Seq::empty());
    let mut ignore = false;
    match &asked {
        None => {},
        Some(Err(_)) => {
            note(&mut log, Level::Error, "Exception when calling VersionApi".to_string());
        },
        Some(Ok(v)) => {
            if version_is_recent(v.major.as_str(), v.minor.as_str()) {
                note(
                    &mut log,
                    Level::Info,
                    "Ignore already processed resource version will be enabled.".to_string(),
                );
                ignore = true;
            } else {
                note(
                    &mut log,
                    Level::Info,
                    cat3(
                        "Can't enable 'ignore already processed resource version', kubernetes api version (",
                        v.git_version.as_str(),
                        ") is lower than v1.19 or unrecognized format.",
                    ),
                );
            }
        },
    }
    if !ignore {
        note(
            &mut log,
            Level::Debug,
            "Ignore already processed resource version will not be enabled.".to_string(),
        );
    }
    assert(entry_views(log@) =~= version_log(asked));
    (log, ignore)
}

// ---------------------------------------------------------------------------
// Namespaces and watchers
// ---------------------------------------------------------------------------

/// The file that holds the namespace of the service account.
pub const NAMESPACE_FILE: &'static str = "/var/run/secrets/kubernetes.io/serviceaccount/namespace";

/// The message that the namespace of the service account cannot be read.
pub open spec fn namespace_failure_text(error: Seq<char>) -> Seq<char> {
    "FileNotFoundError: "@ + error + ": '"@ + NAMESPACE_FILE@ + "'"@
}

/// What is logged when the namespace of the service account cannot be read,
/// which ends the program even if another namespace is given.
pub fn namespace_failure(error: &str) -> (r: LogEntry)
    ensures
        r@ == (Level::Error, namespace_failure_text(error@)),
{
    let mut message = cat4("FileNotFoundError: ", error, ": '", NAMESPACE_FILE);
    message.append("'");
    LogEntry { level: Level::Error, message }
}

/// The namespaces to sync: those in `NAMESPACE`, or else that of the service
/// account.
pub fn chosen_namespace(vars: &EnvVars, service_account: String) -> (r: String)
    ensures
        r@ == or_default(setting(vars@, "NAMESPACE"@), service_account@),
{
    match vars.get("NAMESPACE") {
        Some(ns) => ns.clone(),
        None => service_account,
    }
}

/// A watcher for one kind in each of the namespaces.
pub open spec fn targets_of_kind(kind: Kind, namespaces: Seq<Seq<char>>) -> Seq<(Kind, Seq<char>)> {
    namespaces.map_values(|ns: Seq<char>| (kind, ns))
}

/// The watchers: for each kind, one for each namespace.
pub open spec fn targets_of(kinds: Seq<Kind>, namespaces: Seq<Seq<char>>) -> Seq<(Kind, Seq<char>)>
    decreases kinds.len(),
{
    if kinds.len() == 0 {
        Seq::empty()
    } else {
        targets_of(kinds.drop_last(), namespaces) + targets_of_kind(kinds.last(), namespaces)
    }
}

/// The views of a list of watchers.
pub open spec fn target_views(targets: Seq<(Kind, String)>) -> Seq<(Kind, Seq<char>)> {
    targets.map_values(|t: (Kind, String)| (t.0, t.1@))
}

/// The watchers: for each kind, one for each of the namespaces, which are
/// separated by commas.
pub fn watch_targets(kinds: &Vec<Kind>, namespace: &str) -> (r: Vec<(Kind, String)>)
    ensures
        target_views(r@) == targets_of(kinds@, pieces(namespace@, ',')),
{
    let namespaces = split(namespace, ',');
    let ghost spaces = pieces(namespace@, ',');
    let mut out: Vec<(Kind, String)> = Vec::new();
    let mut i: usize = 0;
    assert(target_views(out@) =~= targets_of(kinds@.take(0), spaces));
    while i < kinds.len()
        invariant
            i <= kinds@.len(),
            spaces == views(namespaces@),
            target_views(out@) == targets_of(kinds@.take(i as int), spaces),
        decreases kinds@.len() - i,
    {
        let kind = kinds[i];
        let ghost before = target_views(out@);
        let mut j: usize = 0;
        assert(target_views(out@) =~= before + targets_of_kind(kind, spaces.take(0)));
        while j < namespaces.len()
            invariant
                j <= namespaces@.len(),
                spaces == views(namespaces@),
                target_views(out@) == before + targets_of_kind(kind, spaces.take(j as int)),
            decreases namespaces@.len() - j,
        {
            let ghost so_far = out@;
            let ns = namespaces[j].clone();
            assert(ns@ == spaces[j as int]);
            out.push((kind, ns));
            assert(target_views(out@) =~= target_views(so_far).push((kind, ns@)));
            j += 1;
            assert(target_views(out@) =~= before + targets_of_kind(kind, spaces.take(j as int)));
        }
        assert(spaces.take(j as int) =~= spaces);
        assert(kinds@.take(i + 1).drop_last() =~= kinds@.take(i as int));
        assert(kinds@.take(i + 1).last() == kind);
        i += 1;
    }
    assert(kinds@.take(i as int) =~= kinds@);
    out
}

proof fn targets_contains(
    kinds: Seq<Kind>,
    namespaces: Seq<Seq<char>>,
    kind: Kind,
    namespace: Seq<char>,
)
    ensures
        targets_of(kinds, namespaces).contains((kind, namespace)) <==> kinds.contains(kind)
            && namespaces.contains(namespace),
    decreases kinds.len(),
{
    let all = targets_of(kinds, namespaces);
    if kinds.len() > 0 {
        let init = kinds.drop_last();
        let head = targets_of(init, namespaces);
        let tail = targets_of_kind(kinds.last(), namespaces);
        targets_contains(init, namespaces, kind, namespace);
        assert(tail.contains((kind, namespace)) <==> kind == kinds.last() && namespaces.contains(
            namespace,
        )) by {
            if tail.contains((kind, namespace)) {
                let i = choose|i: int| 0 <= i < tail.len() && tail[i] == (kind, namespace);
                assert(namespaces[i] == namespace);
            }
            if kind == kinds.last() && namespaces.contains(namespace) {
                let i = choose|i: int| 0 <= i < namespaces.len() && namespaces[i] == namespace;
                assert(tail[i] == (kind, namespace));
            }
        }
        assert(all.contains((kind, namespace)) <==> head.contains((kind, namespace)) || tail.contains(
            (kind, namespace),
        )) by {
            if all.contains((kind, namespace)) {
                let i = choose|i: int| 0 <= i < all.len() && all[i] == (kind, namespace);
                if i < head.len() {
                    assert(head[i] == (kind, namespace));
                } else {
                    assert(tail[i - head.len()] == (kind, namespace));
                }
            }
            if head.contains((kind, namespace)) {
                let i = choose|i: int| 0 <= i < head.len() && head[i] == (kind, namespace);
                assert(all[i] == (kind, namespace));
            }
            if tail.contains((kind, namespace)) {
                let i = choose|i: int| 0 <= i < tail.len() && tail[i] == (kind, namespace);
                assert(all[head.len() + i] == (kind, namespace));
            }
        }
        assert(kinds.contains(kind) <==> init.contains(kind) || kind == kinds.last()) by {
            if kinds.contains(kind) {
                let i = choose|i: int| 0 <= i < kinds.len() && kinds[i] == kind;
                if i < init.len() {
                    assert(init[i] == kind);
                }
            }
            if init.contains(kind) {
                let i = choose|i: int| 0 <= i < init.len() && init[i] == kind;
                assert(kinds[i] == kind);
            }
            if kind == kinds.last() {
                assert(kinds[kinds.len() - 1] == kind);
            }
        }
    }
}

/// There is a watcher for every kind in every namespace, and no other.
pub proof fn every_target_is_watched(
    kinds: Seq<Kind>,
    namespace_list: Seq<char>,
    kind: Kind,
    namespace: Seq<char>,
)
    ensures
        targets_of(kinds, pieces(namespace_list, ',')).contains((kind, namespace)) <==> kinds.contains(
            kind,
        ) && pieces(namespace_list, ',').contains(namespace),
{
    targets_contains(kinds, pieces(namespace_list, ','), kind, namespace);
}

/// This is synced, and so, by the settings, the features and the environment.
pub open spec fn is_ctx(
    ctx: Ctx,
    settings: Settings,
    features: Features,
    vars: Map<Seq<char>, Seq<char>>,
) -> bool {
    &&& ctx.label == settings.label
    &&& ctx.label_value == settings.label_value
    &&& ctx.target_folder == settings.target_folder
    &&& ctx.folder_annotation == settings.folder_annotation
    &&& ctx.req_method == settings.request_method
    &&& ctx.req_payload == settings.request_payload
    &&& ctx.script == settings.script
    &&& ctx.unique_filenames == features.unique_filenames
    &&& ctx.enable_5xx == features.enable_5xx
    &&& ctx.resource_name == settings.resource_name
    &&& opt_view(ctx.mode) == setting(vars, "METHOD"@)
    &&& ctx.watch_server_timeout == number_setting(
        vars,
        "WATCH_SERVER_TIMEOUT"@,
        60,
        u64::MAX as nat,
    )
    &&& ctx.watch_client_timeout == number_setting(
        vars,
        "WATCH_CLIENT_TIMEOUT"@,
        66,
        u64::MAX as nat,
    )
}

/// What is synced, and how, by the settings, the features and the environment.
pub fn make_ctx(settings: &Settings, features: &Features, vars: &EnvVars) -> (r: Ctx)
    ensures
        is_ctx(r, *settings, *features, vars@),
{
    Ctx {
        label: settings.label.clone(),
        label_value: copy_opt(&settings.label_value),
        target_folder: settings.target_folder.clone(),
        folder_annotation: settings.folder_annotation.clone(),
        req_method: copy_opt(&settings.request_method),
        req_payload: copy_opt(&settings.request_payload),
        script: copy_opt(&settings.script),
        unique_filenames: features.unique_filenames,
        enable_5xx: features.enable_5xx,
        resource_name: settings.resource_name.clone(),
        mode: vars.value("METHOD"),
        watch_server_timeout: env_u64(vars, "WATCH_SERVER_TIMEOUT", 60),
        watch_client_timeout: env_u64(vars, "WATCH_CLIENT_TIMEOUT", 66),
    }
}

/// The first sync, from lists, and what follows it.
pub struct FirstSync {
    /// To be logged first.
    pub log: Vec<LogEntry>,
    /// The URL that it requests after changes.
    pub request_url: Option<String>,
    /// Whether it notes, and passes over, versions that were processed.
    pub ignore_already_processed: bool,
    /// Whether changes are watched afterwards; else the program ends.
    pub watches: bool,
}

/// What is logged before the first sync.
pub open spec fn first_log(mode: Option<Seq<char>>, skips_request: bool) -> Seq<(Level, Seq<char>)> {
    if mode == Some("LIST"@) {
        Seq::empty()
    } else {
        seq![
            (Level::Info, "Performing initial list-based sync before starting watch."@),
        ] + one_if(
            skips_request,
            (Level::Info, "Skipping initial request to external endpoint."@),
        )
    }
}

/// The first sync is like this, whatever is logged before it.
pub open spec fn is_first(
    first: FirstSync,
    mode: Option<Seq<char>>,
    settings: Settings,
    ignore_already_processed: bool,
) -> bool {
    if mode == Some("LIST"@) {
        &&& !first.watches
        &&& opt_view(first.request_url) == opt_view(settings.request_url)
        &&& first.ignore_already_processed == ignore_already_processed
    } else {
        &&& first.watches
        &&& opt_view(first.request_url) == (if settings.request_skip_init {
            None
        } else {
            opt_view(settings.request_url)
        })
        &&& first.ignore_already_processed
    }
}

/// The first sync. With `METHOD` LIST it is the only one; otherwise it notes
/// the versions of resources, and does not request the URL if that is not
/// wanted.
pub fn first_sync(ctx: &Ctx, settings: &Settings, ignore_already_processed: bool) -> (r: FirstSync)
    ensures
        entry_views(r.log@) == first_log(opt_view(ctx.mode), settings.request_skip_init),
        is_first(r, opt_view(ctx.mode), *settings, ignore_already_processed),
{
    let mut log: Vec<LogEntry> = Vec::new();
    assert(entry_views(log@) =~= Seq::empty());
    if is_text(&ctx.mode, "LIST") {
        return FirstSync {
            log,
            request_url: copy_opt(&settings.request_url),
            ignore_already_processed,
            watches: false,
        };
    }
    note(
        &mut log,
        Level::Info,
        "Performing initial list-based sync before starting watch.".to_string(),
    );
    let request_url = if settings.request_skip_init {
        note(&mut log, Level::Info, "Skipping initial request to external endpoint.".to_string());
        None
    } else {
        copy_opt(&settings.request_url)
    };
    assert(entry_views(log@) =~= seq![
        (Level::Info, "Performing initial list-based sync before starting watch."@),
    ] + one_if(
        settings.request_skip_init,
        (Level::Info, "Skipping initial request to external endpoint."@),
    ));
    FirstSync { log, request_url, ignore_already_processed: true, watches: true }
}

/// After how many seconds it is looked again whether all watchers run.
pub const MONITOR_SECONDS: u64 = 5;

/// The message that a watcher has died.
pub open spec fn died_entry(target: (Kind, Seq<char>)) -> (Level, Seq<char>) {
    (Level::Error, "Process for "@ + target.1 + "/"@ + kind_name(target.0) + " died"@)
}

/// What is logged of the watchers that have died, of which `finished` says
/// which they are.
pub open spec fn died_log(targets: Seq<(Kind, Seq<char>)>, finished: Seq<bool>) -> Seq<
    (Level, Seq<char>),
>
    decreases targets.len(),
{
    if targets.len() == 0 {
        Seq::empty()
    } else {
        let i = targets.len() - 1;
        died_log(targets.drop_last(), finished) + one_if(finished[i], died_entry(targets[i]))
    }
}

/// What is logged of the watchers: nothing as long as all of them run. Else
/// the program ends.
pub open spec fn monitor_log(targets: Seq<(Kind, Seq<char>)>, finished: Seq<bool>) -> Seq<
    (Level, Seq<char>),
> {
    let died = died_log(targets, finished);
    died + one_if(
        died.len() > 0,
        (Level::Critical, "At least one process died. Stopping and exiting"@),
    )
}

/// What is logged of the watchers, of which `finished` says whether they have
/// ended, and the exit code if the program is to end.
pub fn monitor(targets: &Vec<(Kind, String)>, finished: &Vec<bool>) -> (r: (
    Vec<LogEntry>,
    Option<i32>,
))
    requires
        finished@.len() == targets@.len(),
    ensures
        entry_views(r.0@) == monitor_log(target_views(targets@), finished@),
        r.1 == (if exists|i: int| 0 <= i < finished@.len() && #[trigger] finished@[i] {
            Some(1i32)
        } else {
            None
        }),
{
    let ghost all = target_views(targets@);
    let mut log: Vec<LogEntry> = Vec::new();
    let mut i: usize = 0;
    assert(entry_views(log@) =~= died_log(all.take(0), finished@));
    while i < targets.len()
        invariant
            i <= targets@.len(),
            finished@.len() == targets@.len(),
            all == target_views(targets@),
            entry_views(log@) == died_log(all.take(i as int), finished@),
        decreases targets@.len() - i,
    {
        assert(all.take(i + 1).drop_last() =~= all.take(i as int));
        assert(all.take(i + 1)[i as int] == all[i as int]);
        let ghost before = entry_views(log@);
        if finished[i] {
            let mut message = cat4(
                "Process for ",
                targets[i].1.as_str(),
                "/",
                targets[i].0.as_str(),
            );
            message.append(" died");
            note(&mut log, Level::Error, message);
        }
        i += 1;
        assert(entry_views(log@) =~= died_log(all.take(i as int), finished@));
    }
    assert(all.take(i as int) =~= all);
    let ghost died = entry_views(log@);
    assert(died.len() == log@.len());
    proof {
        died_log_is_silent(all, finished@);
    }
    if log.len() > 0 {
        note(
            &mut log,
            Level::Critical,
            "At least one process died. Stopping and exiting".to_string(),
        );
    }
    assert(entry_views(log@) =~= monitor_log(all, finished@));
    let code: Option<i32> = if log.len() > 0 {
        Some(1)
    } else {
        None
    };
    (log, code)
}

/// The program goes on exactly as long as no watcher has ended.
pub proof fn monitor_is_silent(targets: Seq<(Kind, Seq<char>)>, finished: Seq<bool>)
    requires
        finished.len() == targets.len(),
    ensures
        monitor_log(targets, finished).len() == 0 <==> forall|i: int|
            0 <= i < finished.len() ==> !#[trigger] finished[i],
{
    died_log_is_silent(targets, finished);
}

proof fn died_log_is_silent(targets: Seq<(Kind, Seq<char>)>, finished: Seq<bool>)
    requires
        targets.len() <= finished.len(),
    ensures
        died_log(targets, finished).len() == 0 <==> forall|i: int|
            0 <= i < targets.len() ==> !#[trigger] finished[i],
    decreases targets.len(),
{
    if targets.len() > 0 {
        died_log_is_silent(targets.drop_last(), finished);
        let last = targets.len() - 1;
        if !finished[last] && (forall|i: int| 0 <= i < last ==> !#[trigger] finished[i]) {
            assert forall|i: int| 0 <= i < targets.len() implies !#[trigger] finished[i] by {}
        }
    }
}

} // verus!
