//! What syncing from lists and from watch connections have in common: which
//! resources are wanted, which folder their files go to, how a file gets its
//! content, and what follows a change or a failure.

use vstd::prelude::*;
use vstd::utf8::{decode_utf8, encode_utf8, valid_utf8};

use crate::cache::is_url_key;
use crate::env::{env_u64, number_setting, EnvVars};
use crate::files::{unique_filename, unique_name, WriteError};
use crate::http::{
    body_if_ok, content_of, request, requested, response_view, HttpCfg, RequestStep,
};
use crate::kubeapi::{kind_name, Item, ItemModel, Kind, KubeError};
use crate::logger::{Level, LogEntry};
use crate::number::{decimal, decimal_string};
use crate::ordered::{copy_bytes, lookup};
use crate::outside::string_from_utf8;
use crate::plan::{log_step, Content, ContentModel, FileOp, FileOpModel, StepModel};
use crate::text::{
    cat2, cat3, cat4, cat5, copy_opt, ends_with_char, is_text, opt_view, pieces, same, split,
    starts_with_char, strip_suffix, views, without_suffix,
};

verus! {

// ---------------------------------------------------------------------------
// Settings
// ---------------------------------------------------------------------------

/// What is synced, and how.
pub struct Ctx {
    /// The label that wanted resources have.
    pub label: String,
    /// The value that the label has, if it matters.
    pub label_value: Option<String>,
    /// The folder that files go to.
    pub target_folder: String,
    /// The annotation by which a resource names another folder.
    pub folder_annotation: String,
    /// The method of requests that notify of changes.
    pub req_method: Option<String>,
    /// The JSON text that such requests send.
    pub req_payload: Option<String>,
    /// The script that is run after changes.
    pub script: Option<String>,
    /// Whether file names say which resource they come from.
    pub unique_filenames: bool,
    /// Whether answers of an overloaded server are taken as they are.
    pub enable_5xx: bool,
    /// The names of the wanted resources; all, if it is empty.
    pub resource_name: String,
    /// How changes are noticed.
    pub mode: Option<String>,
    /// After how many seconds a watch connection ends.
    pub watch_server_timeout: u64,
    /// After how many seconds without data a connection is given up.
    pub watch_client_timeout: u64,
}

/// The selector of the wanted resources: the label, and its value if it has
/// one.
pub open spec fn selector_text(label: Seq<char>, value: Option<Seq<char>>) -> Seq<char> {
    match value {
        Some(v) => label + "="@ + v,
        None => label,
    }
}

impl Ctx {
    /// The selector of the wanted resources.
    pub fn selector(&self) -> (r: String)
        ensures
            r@ == selector_text(self.label@, opt_view(self.label_value)),
    {
        match &self.label_value {
            Some(v) => cat3(self.label.as_str(), "=", v.as_str()),
            None => self.label.clone(),
        }
    }
}

/// Why a sync failed.
pub enum WErr {
    /// A call of the API failed.
    Kube(KubeError),
    /// Something else failed, and what it is.
    Other(String),
}

/// What is synced by one watcher.
pub struct Scope {
    pub kind: Kind,
    /// The namespace; all of them, if it is "ALL".
    pub namespace: String,
    /// The URL that is requested after changes.
    pub request_url: Option<String>,
    /// Whether a resource is passed over if its version was processed before.
    pub ignore_already_processed: bool,
}

// ---------------------------------------------------------------------------
// Folders
// ---------------------------------------------------------------------------

/// The folder that an annotation value stands for: itself if it is absolute,
/// else a folder in the target folder.
pub open spec fn annotated_folder(target: Seq<char>, value: Seq<char>) -> Seq<char> {
    if value.len() > 0 && value[0] == '/' {
        value
    } else if target.len() > 0 && target.last() == '/' {
        target + value
    } else {
        target + "/"@ + value
    }
}

/// The folder that the files of a resource go to.
pub open spec fn destination(ctx: Ctx, item: ItemModel) -> Seq<char> {
    match lookup(item.annotations, ctx.folder_annotation@) {
        Some(value) => annotated_folder(ctx.target_folder@, value),
        None => ctx.target_folder@,
    }
}

/// What is logged of the folder that the files of a resource go to.
pub open spec fn folder_steps(ctx: Ctx, item: ItemModel) -> Seq<StepModel> {
    match lookup(item.annotations, ctx.folder_annotation@) {
        Some(_) => seq![
            log_step(
                Level::Info,
                "Found a folder override annotation, placing the "@ + item.name + " in: "@
                    + destination(ctx, item),
            ),
        ],
        None => Seq::empty(),
    }
}

/// The folder that the files of a resource go to, and what is logged of it.
pub fn get_destination_folder(item: &Item, ctx: &Ctx) -> (r: (String, Option<LogEntry>))
    ensures
        r.0@ == destination(*ctx, item@),
        match r.1 {
            Some(l) => folder_steps(*ctx, item@) == seq![StepModel::Log(l@)],
            None => folder_steps(*ctx, item@) == Seq::<StepModel>::empty(),
        },
{
    match item.annotations.get(ctx.folder_annotation.as_str()) {
        Some(value) => {
            let dest = if starts_with_char(value.as_str(), '/') {
                value.clone()
            } else if ends_with_char(ctx.target_folder.as_str(), '/') {
                cat2(ctx.target_folder.as_str(), value.as_str())
            } else {
                cat3(ctx.target_folder.as_str(), "/", value.as_str())
            };
            let message = cat4(
                "Found a folder override annotation, placing the ",
                item.name.as_str(),
                " in: ",
                dest.as_str(),
            );
            (dest, Some(LogEntry { level: Level::Info, message }))
        },
        None => (ctx.target_folder.clone(), None),
    }
}

/// A relative folder annotation is joined onto the target folder, with one
/// slash between them at least; an absolute one replaces it.
pub proof fn annotation_names_folder(target: Seq<char>, value: Seq<char>)
    ensures
        value.len() > 0 && value[0] == '/' ==> annotated_folder(target, value) == value,
        !(value.len() > 0 && value[0] == '/') ==> {
            let folder = annotated_folder(target, value);
            &&& target.is_prefix_of(folder)
            &&& folder.len() >= value.len()
            &&& folder.skip(folder.len() - value.len()) == value
            &&& folder.len() > value.len() && folder[folder.len() - value.len() - 1] == '/'
        },
{
    reveal_strlit("/");
    if !(value.len() > 0 && value[0] == '/') {
        let folder = annotated_folder(target, value);
        assert(folder.skip(folder.len() - value.len()) =~= value);
        assert(folder.take(target.len() as int) =~= target);
    }
}

// ---------------------------------------------------------------------------
// Wanted names
// ---------------------------------------------------------------------------

/// The name of the resource that an entry of the form `name`, `type/name` or
/// `namespace/type/name` asks for, unless it asks for another type or, in the
/// long form, for another namespace.
pub open spec fn entry_name(entry: Seq<char>, namespace: Seq<char>, kind: Kind) -> Option<Seq<char>> {
    let parts = pieces(entry, '/');
    if parts.len() == 3 && parts[0] != namespace {
        None
    } else if parts.len() == 2 && parts[0] != kind_name(kind) {
        None
    } else {
        Some(parts.last())
    }
}

/// The names that a list of entries asks for.
pub open spec fn entry_names(entries: Seq<Seq<char>>, namespace: Seq<char>, kind: Kind) -> Seq<Seq<char>>
    decreases entries.len(),
{
    if entries.len() == 0 {
        Seq::empty()
    } else {
        let before = entry_names(entries.drop_last(), namespace, kind);
        match entry_name(entries.last(), namespace, kind) {
            Some(name) => before.push(name),
            None => before,
        }
    }
}

/// The names of the wanted resources of a namespace; none if they are not
/// wanted by name, or if all namespaces are synced.
pub open spec fn wanted_names(resource_name: Seq<char>, namespace: Seq<char>, kind: Kind) -> Seq<
    Seq<char>,
> {
    if namespace == "ALL"@ || resource_name.len() == 0 {
        Seq::empty()
    } else {
        entry_names(pieces(resource_name, ','), namespace, kind)
    }
}

/// The names of the wanted resources of a namespace.
pub fn resource_names(resource_name: &str, namespace: &str, kind: Kind) -> (r: Vec<String>)
    ensures
        views(r@) == wanted_names(resource_name@, namespace@, kind),
{
    let mut names: Vec<String> = Vec::new();
    assert(views(names@) =~= Seq::empty());
    if same(namespace, "ALL") || resource_name.is_empty() {
        return names;
    }
    let entries = split(resource_name, ',');
    let ghost all = views(entries@);
    let mut i: usize = 0;
    assert(all.take(0) =~= Seq::empty());
    while i < entries.len()
        invariant
            i <= entries@.len(),
            all == views(entries@),
            views(names@) == entry_names(all.take(i as int), namespace@, kind),
        decreases entries@.len() - i,
    {
        let ghost before = names@;
        assert(all.take(i + 1).drop_last() =~= all.take(i as int));
        assert(all.take(i + 1).last() == entries@[i as int]@);
        let parts = split(entries[i].as_str(), '/');
        let ghost texts = views(parts@);
        assert(texts.len() == parts@.len());
        assert(texts[0] == parts@[0]@);
        assert(texts.last() == parts@[parts@.len() - 1]@);
        let other_namespace = parts.len() == 3 && !same(parts[0].as_str(), namespace);
        let other_type = parts.len() == 2 && !same(parts[0].as_str(), kind.as_str());
        if !other_namespace && !other_type {
            let name = parts[parts.len() - 1].clone();
            names.push(name);
            assert(views(names@) =~= views(before).push(name@));
        }
        i += 1;
    }
    assert(all.take(i as int) =~= all);
    names
}

proof fn pieces_without_separator(s: Seq<char>, sep: char)
    requires
        !s.contains(sep),
    ensures
        pieces(s, sep) == seq![s],
    decreases s.len(),
{
    if s.len() == 0 {
        assert(s =~= Seq::empty());
    } else {
        let init = s.drop_last();
        assert(s[s.len() - 1] != sep);
        assert(!init.contains(sep)) by {
            if init.contains(sep) {
                let i = choose|i: int| 0 <= i < init.len() && init[i] == sep;
                assert(s[i] == sep);
            }
        }
        pieces_without_separator(init, sep);
        assert(init.push(s.last()) =~= s);
        assert(pieces(s, sep) =~= seq![s]);
    }
}

proof fn pieces_of_joined(a: Seq<char>, b: Seq<char>, sep: char)
    requires
        !b.contains(sep),
    ensures
        pieces(a + seq![sep] + b, sep) == pieces(a, sep).push(b),
    decreases b.len(),
{
    let s = a + seq![sep] + b;
    if b.len() == 0 {
        assert(s.drop_last() =~= a);
        assert(b =~= Seq::empty());
    } else {
        let init = b.drop_last();
        assert(b[b.len() - 1] != sep);
        assert(!init.contains(sep)) by {
            if init.contains(sep) {
                let i = choose|i: int| 0 <= i < init.len() && init[i] == sep;
                assert(b[i] == sep);
            }
        }
        pieces_of_joined(a, init, sep);
        assert(s.drop_last() =~= a + seq![sep] + init);
        assert(s.last() == b.last());
        assert(init.push(b.last()) =~= b);
        assert(pieces(s, sep) =~= pieces(a, sep).push(b));
    }
}

/// The three forms of an entry: a name alone is always wanted; after a type it
/// is wanted if the type is that of the sync; and after a namespace and a type
/// it is wanted if the namespace is that of the sync, whatever the type.
pub proof fn entry_forms(
    name: Seq<char>,
    resource_type: Seq<char>,
    entry_namespace: Seq<char>,
    namespace: Seq<char>,
    kind: Kind,
)
    requires
        !name.contains('/'),
        !resource_type.contains('/'),
        !entry_namespace.contains('/'),
    ensures
        entry_name(name, namespace, kind) == Some(name),
        entry_name(resource_type + "/"@ + name, namespace, kind) == (if resource_type == kind_name(kind) {
            Some(name)
        } else {
            None
        }),
        entry_name(entry_namespace + "/"@ + resource_type + "/"@ + name, namespace, kind) == (if entry_namespace
            == namespace {
            Some(name)
        } else {
            None
        }),
{
    reveal_strlit("/");
    assert("/"@ =~= seq!['/']);
    pieces_without_separator(name, '/');
    pieces_without_separator(resource_type, '/');
    pieces_without_separator(entry_namespace, '/');
    pieces_of_joined(resource_type, name, '/');
    pieces_of_joined(entry_namespace, resource_type, '/');
    pieces_of_joined(entry_namespace + "/"@ + resource_type, name, '/');
}

// ---------------------------------------------------------------------------
// Files
// ---------------------------------------------------------------------------

/// The URL that the content of a key is; nothing if it is no text.
pub open spec fn url_of(content: ContentModel) -> Option<Seq<char>> {
    match content {
        ContentModel::Text(t) => Some(t),
        ContentModel::Bin(b) => if valid_utf8(b) {
            Some(decode_utf8(b))
        } else {
            None
        },
    }
}

/// The bytes that the content of a key is.
pub open spec fn bytes_of(content: ContentModel) -> Seq<u8> {
    match content {
        ContentModel::Text(t) => encode_utf8(t),
        ContentModel::Bin(b) => b,
    }
}

/// A key without `.url` at its end.
pub open spec fn base_name(key: Seq<char>) -> Seq<char> {
    if is_url_key(key) {
        without_suffix(key, ".url"@)
    } else {
        key
    }
}

/// The name of the file of a key: without `.url` at its end, and made unique
/// if that is wanted.
pub open spec fn file_name(op: FileOpModel, unique_filenames: bool) -> Seq<char> {
    if unique_filenames {
        unique_name(base_name(op.key), op.namespace, kind_name(op.kind), op.name)
    } else {
        base_name(op.key)
    }
}

/// A file to be written or removed.
pub struct FileAction {
    /// The data key that the file comes from.
    pub key: String,
    pub folder: String,
    pub filename: String,
    pub data: Vec<u8>,
    pub content_type: &'static str,
    /// Whether the file is removed.
    pub remove: bool,
}

/// The action does what the operation asks for, with `data` as the content.
pub open spec fn carries_out(
    action: FileAction,
    op: FileOpModel,
    unique_filenames: bool,
    data: Seq<u8>,
) -> bool {
    &&& action.key@ == op.key
    &&& action.folder@ == op.folder
    &&& action.filename@ == file_name(op, unique_filenames)
    &&& action.data@ == data
    &&& action.content_type@ == op.content_type
    &&& action.remove == op.remove
}

/// What is to be done next for a data key.
pub enum Update {
    /// Fetch the URL with a GET, then call [`FileAction::fetched`], and do what
    /// that says. The content is fetched even if the file is to be removed.
    Fetch(String, FileAction),
    /// Write or remove the file, then call [`FileAction::outcome`].
    Do(FileAction),
    /// Log; nothing has changed.
    Failed(LogEntry),
}

/// The message that a file could not be updated.
pub open spec fn failed_entry(key: Seq<char>, folder: Seq<char>) -> (Level, Seq<char>) {
    (Level::Error, "Error when updating from '"@ + key + "' into '"@ + folder + "'"@)
}

fn failure_entry(key: &str, folder: &str) -> (r: LogEntry)
    ensures
        r@ == failed_entry(key@, folder@),
{
    LogEntry {
        level: Level::Error,
        message: cat5("Error when updating from '", key, "' into '", folder, "'"),
    }
}

/// The update of the file of a data key starts like this.
pub open spec fn updates(op: FileOpModel, unique_filenames: bool, update: Update) -> bool {
    if !is_url_key(op.key) {
        update matches Update::Do(action) && carries_out(
            action,
            op,
            unique_filenames,
            bytes_of(op.content),
        )
    } else {
        match url_of(op.content) {
            Some(u) => update matches Update::Fetch(url, action) && url@ == u && carries_out(
                action,
                op,
                unique_filenames,
                Seq::empty(),
            ),
            None => update matches Update::Failed(l) && l@ == failed_entry(op.key, op.folder),
        }
    }
}

/// The action has become another by what was fetched.
pub open spec fn filled(before: FileAction, response: Option<(u16, Seq<u8>)>, after: FileAction) -> bool {
    &&& after == (FileAction { data: after.data, ..before })
    &&& after.data@ == content_of(response)
}

/// Starts the update of the file of a data key.
pub fn update_file(op: &FileOp, unique_filenames: bool) -> (r: Update)
    ensures
        updates(op@, unique_filenames, r),
{
    let stripped = strip_suffix(op.key.as_str(), ".url");
    let is_url = stripped.is_some();
    let base = match stripped {
        Some(s) => s,
        None => op.key.clone(),
    };
    let filename = if unique_filenames {
        unique_filename(
            base.as_str(),
            op.namespace.as_str(),
            op.kind.as_str(),
            op.name.as_str(),
        )
    } else {
        base
    };
    let blank: Vec<u8> = Vec::new();
    assert(blank@ =~= Seq::empty());
    let mut action = FileAction {
        key: op.key.clone(),
        folder: op.folder.clone(),
        filename,
        data: blank,
        content_type: op.content_type,
        remove: op.remove,
    };
    if is_url {
        let url = match &op.content {
            Content::Text(t) => Some(t.clone()),
            Content::Bin(b) => string_from_utf8(copy_bytes(b.as_slice())),
        };
        match url {
            Some(u) => Update::Fetch(u, action),
            None => Update::Failed(failure_entry(action.key.as_str(), action.folder.as_str())),
        }
    } else {
        action.data = match &op.content {
            Content::Text(t) => copy_bytes(t.as_str().as_bytes()),
            Content::Bin(b) => copy_bytes(b.as_slice()),
        };
        Update::Do(action)
    }
}

impl FileAction {
    /// The URL was fetched, with this response or none.
    pub fn fetched(self, response: Option<(u16, Vec<u8>)>) -> (r: FileAction)
        ensures
            filled(self, response_view(response), r),
    {
        FileAction {
            key: self.key,
            folder: self.folder,
            filename: self.filename,
            data: body_if_ok(response),
            content_type: self.content_type,
            remove: self.remove,
        }
    }

    /// The file was written or removed, or not. Whether that is a change, and
    /// what is logged if it failed.
    pub fn outcome(&self, result: Result<bool, WriteError>) -> (r: (bool, Option<LogEntry>))
        ensures
            match result {
                Ok(changed) => r.0 == changed && r.1 is None,
                Err(_) => !r.0 && r.1 is Some && r.1->0@ == failed_entry(self.key@, self.folder@),
            },
    {
        match result {
            Ok(changed) => (changed, None),
            Err(_) => (false, Some(failure_entry(self.key.as_str(), self.folder.as_str()))),
        }
    }
}

/// A URL that could not be fetched, or was answered with a status from 400 on,
/// makes an empty file; the file is still written.
pub proof fn failed_fetch_is_empty(response: Option<(u16, Seq<u8>)>)
    requires
        response is None || (response->0).0 >= 400,
    ensures
        content_of(response).len() == 0,
{
}

// ---------------------------------------------------------------------------
// After changes
// ---------------------------------------------------------------------------

/// Some file has changed.
pub open spec fn any_change(results: Seq<bool>) -> bool {
    exists|i: int| 0 <= i < results.len() && #[trigger] results[i]
}

/// Whether some file has changed.
pub fn any_changed(results: &Vec<bool>) -> (r: bool)
    ensures
        r == any_change(results@),
{
    let mut i: usize = 0;
    while i < results.len()
        invariant
            i <= results@.len(),
            forall|j: int| 0 <= j < i ==> !#[trigger] results@[j],
        decreases results@.len() - i,
    {
        if results[i] {
            assert(results@[i as int]);
            return true;
        }
        i += 1;
    }
    false
}

/// Starts the request that gets the content of a `*.url` key.
pub fn content_request(cfg: &HttpCfg, ctx: &Ctx, url: &str) -> (r: RequestStep)
    ensures
        requested(*cfg, Some(url@), Some("GET"@), ctx.enable_5xx, None, r),
{
    request(cfg, Some(url), Some("GET"), ctx.enable_5xx, None)
}

/// Starts the request that notifies of changes.
pub fn notice_request(cfg: &HttpCfg, ctx: &Ctx, url: &str) -> (r: RequestStep)
    ensures
        requested(
            *cfg,
            Some(url@),
            opt_view(ctx.req_method),
            ctx.enable_5xx,
            opt_view(ctx.req_payload),
            r,
        ),
{
    let method = match &ctx.req_method {
        Some(m) => Some(m.as_str()),
        None => None,
    };
    let payload = match &ctx.req_payload {
        Some(p) => Some(p.as_str()),
        None => None,
    };
    request(cfg, Some(url), method, ctx.enable_5xx, payload)
}

/// What is to be done after files have changed.
pub enum Notice {
    /// Run the script, then call [`Notice::done`].
    Script { path: String, request_url: Option<String> },
    /// Request the URL, from [`notice_request`] on, then call
    /// [`Notice::done`].
    Request { url: String },
}

/// What a [`Notice`] stands for.
pub enum NoticeModel {
    Script { path: Seq<char>, request_url: Option<Seq<char>> },
    Request { url: Seq<char> },
}

impl View for Notice {
    type V = NoticeModel;

    open spec fn view(&self) -> NoticeModel {
        match self {
            Notice::Script { path, request_url } => NoticeModel::Script {
                path: path@,
                request_url: opt_view(*request_url),
            },
            Notice::Request { url } => NoticeModel::Request { url: url@ },
        }
    }
}

/// The view of an optional notice.
pub open spec fn notice_view(notice: Option<Notice>) -> Option<NoticeModel> {
    match notice {
        Some(n) => Some(n@),
        None => None,
    }
}

/// What follows the script, or comes first without one.
pub open spec fn request_notice(request_url: Option<Seq<char>>) -> Option<NoticeModel> {
    match request_url {
        Some(url) => Some(NoticeModel::Request { url }),
        None => None,
    }
}

/// What follows if files have changed or not: the script, if there is one,
/// and then the request, if there is a URL; and nothing without a change.
pub open spec fn follow_up(changed: bool, script: Option<Seq<char>>, request_url: Option<Seq<char>>) -> Option<
    NoticeModel,
> {
    if !changed {
        None
    } else {
        match script {
            Some(path) => Some(NoticeModel::Script { path, request_url }),
            None => request_notice(request_url),
        }
    }
}

/// What follows if files have changed or not.
pub fn follow_changes(changed: bool, script: &Option<String>, request_url: &Option<String>) -> (r: Option<
    Notice,
>)
    ensures
        notice_view(r) == follow_up(changed, opt_view(*script), opt_view(*request_url)),
{
    if !changed {
        return None;
    }
    match (script, request_url) {
        (Some(path), _) => Some(
            Notice::Script { path: path.clone(), request_url: copy_opt(request_url) },
        ),
        (None, Some(url)) => Some(Notice::Request { url: url.clone() }),
        (None, None) => None,
    }
}

impl Notice {
    /// The script was run, or the URL requested. A script that could not be
    /// started ends the sync; how a request went does not matter.
    pub fn done(self, outcome: Result<(), String>) -> (r: Result<Option<Notice>, WErr>)
        ensures
            match (self, outcome) {
                (Notice::Script { .. }, Err(message)) => r == Err::<Option<Notice>, WErr>(
                    WErr::Other(message),
                ),
                (Notice::Script { request_url, .. }, Ok(_)) => r is Ok && notice_view(r->Ok_0)
                    == request_notice(opt_view(request_url)),
                (Notice::Request { .. }, _) => r == Ok::<Option<Notice>, WErr>(None),
            },
    {
        match self {
            Notice::Script { path: _, request_url } => match outcome {
                Err(message) => Err(WErr::Other(message)),
                Ok(_) => match request_url {
                    Some(url) => Ok(Some(Notice::Request { url })),
                    None => Ok(None),
                },
            },
            Notice::Request { .. } => Ok(None),
        }
    }
}

/// Without a change neither the script is run nor the URL requested.
pub proof fn no_change_no_notice(
    results: Seq<bool>,
    script: Option<Seq<char>>,
    request_url: Option<Seq<char>>,
)
    requires
        forall|i: int| 0 <= i < results.len() ==> !#[trigger] results[i],
    ensures
        follow_up(any_change(results), script, request_url) is None,
{
}

// ---------------------------------------------------------------------------
// Rounds
// ---------------------------------------------------------------------------

/// What a watcher does when a round is over.
pub enum NextRound {
    /// Start the next one at once.
    AtOnce,
    /// Sleep for so many seconds, then start the next one.
    Sleep(u64),
    /// Log, sleep for so many seconds, then start the next one.
    Throttle(LogEntry, u64),
    /// Log, and stop.
    Stop(LogEntry),
}

/// Changes are noticed by listing again and again: because that is wanted, or
/// because resources of one namespace are wanted by name.
pub open spec fn polls(ctx: Ctx, namespace: Seq<char>) -> bool {
    opt_view(ctx.mode) == Some("SLEEP"@) || (namespace != "ALL"@ && ctx.resource_name@.len() > 0)
}

/// Whether changes are noticed by listing again and again.
pub fn sleep_mode(ctx: &Ctx, namespace: &str) -> (r: bool)
    ensures
        r == polls(*ctx, namespace@),
{
    is_text(&ctx.mode, "SLEEP") || (!same(namespace, "ALL") && !ctx.resource_name.as_str().is_empty())
}

/// Wanting resources of one namespace by name makes its watcher poll, whatever
/// the method is.
pub proof fn names_make_watchers_poll(ctx: Ctx, namespace: Seq<char>)
    requires
        ctx.resource_name@.len() > 0,
        namespace != "ALL"@,
    ensures
        polls(ctx, namespace),
{
}

/// The API failed in a way that ends the watcher.
pub open spec fn is_final(e: WErr) -> bool {
    e matches WErr::Kube(KubeError::Api { code, .. }) && code == 500
}

/// The message on a failure of the API.
pub open spec fn api_message(code: u16, reason: Seq<char>) -> Seq<char> {
    "("@ + decimal(code as nat) + ") Reason: "@ + reason
}

/// The message on a failed round.
pub open spec fn failure_message(e: WErr) -> Seq<char> {
    match e {
        WErr::Kube(KubeError::Api { code, reason }) => "ApiException when calling kubernetes: "@
            + api_message(code, reason@) + (if code == 500 {
            ""@
        } else {
            "\n"@
        }),
        WErr::Kube(KubeError::Transport(error)) => "ProtocolError when calling kubernetes: "@ + error@
            + "\n"@,
        WErr::Other(message) => "Received unknown exception: "@ + message@ + "\n"@,
    }
}

fn api_text(code: u16, reason: &str) -> (r: String)
    ensures
        r@ == api_message(code, reason@),
{
    cat4("(", decimal_string(code as u64).as_str(), ") Reason: ", reason)
}

/// What a watcher does when a round is over: after a good one it goes on, at
/// once or, if it polls, after `SLEEP_TIME`; after a failure of the API with
/// code 500 it stops; and after any other failure it goes on after
/// `ERROR_THROTTLE_SLEEP`.
pub fn watch_task(ctx: &Ctx, namespace: &str, outcome: Result<(), WErr>, vars: &EnvVars) -> (r: NextRound)
    ensures
        match outcome {
            Ok(_) => if polls(*ctx, namespace@) {
                r matches NextRound::Sleep(seconds) && seconds == number_setting(
                    vars@,
                    "SLEEP_TIME"@,
                    60,
                    u64::MAX as nat,
                )
            } else {
                r is AtOnce
            },
            Err(e) => if is_final(e) {
                r matches NextRound::Stop(l) && l@ == (Level::Error, failure_message(e))
            } else {
                r matches NextRound::Throttle(l, seconds) && l@ == (Level::Error, failure_message(e))
                    && seconds == number_setting(vars@, "ERROR_THROTTLE_SLEEP"@, 5, u64::MAX as nat)
            },
        },
{
    let e = match outcome {
        Ok(_) => {
            if sleep_mode(ctx, namespace) {
                return NextRound::Sleep(env_u64(vars, "SLEEP_TIME", 60));
            }
            return NextRound::AtOnce;
        },
        Err(e) => e,
    };
    let pause: u64 = env_u64(vars, "ERROR_THROTTLE_SLEEP", 5);
    match e {
        WErr::Kube(KubeError::Api { code, reason }) => {
            let text = api_text(code, reason.as_str());
            let end = if code == 500 {
                ""
            } else {
                "\n"
            };
            let message = cat3("ApiException when calling kubernetes: ", text.as_str(), end);
            let entry = LogEntry { level: Level::Error, message };
            if code == 500 {
                NextRound::Stop(entry)
            } else {
                NextRound::Throttle(entry, pause)
            }
        },
        WErr::Kube(KubeError::Transport(error)) => {
            let message = cat3("ProtocolError when calling kubernetes: ", error.as_str(), "\n");
            NextRound::Throttle(LogEntry { level: Level::Error, message }, pause)
        },
        WErr::Other(text) => {
            let message = cat3("Received unknown exception: ", text.as_str(), "\n");
            NextRound::Throttle(LogEntry { level: Level::Error, message }, pause)
        },
    }
}

/// How a failure is shown when the program ends by it.
pub open spec fn error_text(e: WErr) -> Seq<char> {
    match e {
        WErr::Kube(KubeError::Api { code, reason }) => api_message(code, reason@),
        WErr::Kube(KubeError::Transport(error)) => error@,
        WErr::Other(message) => message@,
    }
}

/// How a failure is shown when the program ends by it.
pub fn werr_to_string(e: &WErr) -> (r: String)
    ensures
        r@ == error_text(*e),
{
    match e {
        WErr::Kube(KubeError::Api { code, reason }) => api_text(*code, reason.as_str()),
        WErr::Kube(KubeError::Transport(error)) => error.clone(),
        WErr::Other(message) => message.clone(),
    }
}

} // verus!
