//! ConfigMaps and Secrets as the sync sees them, and what is decided on the
//! way to and from the Kubernetes API: how the client is set up, which failed
//! calls are made again, and what pages and watch events hold.

use vstd::prelude::*;

use crate::cache::item_views;
use crate::env::{env_is_true, env_u32, env_u64, is_true, number_setting, setting, EnvVars};
use crate::http::next_attempt;
use crate::logger::{Level, LogEntry};
use crate::ordered::{OrderedMap, Payload};
use crate::text::{cat2, cat3, opt_view, right_stripped, same, strip_end};

verus! {

/// The kinds of resources that are synced.
#[derive(Clone, Copy, PartialEq, Eq, Structural, Debug)]
pub enum Kind {
    ConfigMap,
    Secret,
}

/// The name of a kind, as resource names and log messages have it.
pub open spec fn kind_name(kind: Kind) -> Seq<char> {
    match kind {
        Kind::ConfigMap => "configmap"@,
        Kind::Secret => "secret"@,
    }
}

impl Kind {
    /// The name of the kind.
    pub fn as_str(&self) -> (r: &'static str)
        ensures
            r@ == kind_name(*self),
    {
        match self {
            Kind::ConfigMap => "configmap",
            Kind::Secret => "secret",
        }
    }
}

/// A ConfigMap or Secret reduced to what the sync logic needs. The data of a
/// Secret stands in `binary`, base64-decoded.
pub struct Item {
    pub namespace: String,
    pub name: String,
    pub resource_version: String,
    pub annotations: OrderedMap<String>,
    pub text: Option<OrderedMap<String>>,
    pub binary: Option<OrderedMap<Vec<u8>>>,
}

/// What an [`Item`] stands for; its maps in the order of their keys.
pub struct ItemModel {
    pub namespace: Seq<char>,
    pub name: Seq<char>,
    pub resource_version: Seq<char>,
    pub annotations: Seq<(Seq<char>, Seq<char>)>,
    pub text: Option<Seq<(Seq<char>, Seq<char>)>>,
    pub binary: Option<Seq<(Seq<char>, Seq<u8>)>>,
}

impl ItemModel {
    /// Namespace and name in a row, with nothing between them.
    pub open spec fn key(self) -> Seq<char> {
        self.namespace + self.name
    }
}

impl View for Item {
    type V = ItemModel;

    open spec fn view(&self) -> ItemModel {
        ItemModel {
            namespace: self.namespace@,
            name: self.name@,
            resource_version: self.resource_version@,
            annotations: self.annotations@,
            text: self.text.model(),
            binary: self.binary.model(),
        }
    }
}

impl Item {
    /// The key under which the item is remembered.
    pub fn key(&self) -> (r: String)
        ensures
            r@ == self@.key(),
    {
        cat2(self.namespace.as_str(), self.name.as_str())
    }
}

// ---------------------------------------------------------------------------
// Objects of the API
// ---------------------------------------------------------------------------

/// A ConfigMap or Secret as the API has it, where anything can be missing. The
/// data of a Secret stands in `binary`, and it has no `data`.
pub struct RawObject {
    pub namespace: Option<String>,
    pub name: Option<String>,
    pub resource_version: Option<String>,
    pub annotations: Option<OrderedMap<String>>,
    pub data: Option<OrderedMap<String>>,
    pub binary: Option<OrderedMap<Vec<u8>>>,
}

/// A string, or an empty one.
pub open spec fn or_blank(s: Option<String>) -> Seq<char> {
    match s {
        Some(v) => v@,
        None => Seq::empty(),
    }
}

fn text_or_blank(s: Option<String>) -> (r: String)
    ensures
        r@ == or_blank(s),
{
    match s {
        Some(v) => v,
        None => {
            let blank = String::new();
            assert(blank@ =~= Seq::<char>::empty());
            blank
        },
    }
}

/// The item that an object of the API stands for: what is missing of its
/// metadata is empty, and only a ConfigMap has text data.
pub open spec fn item_of(kind: Kind, raw: RawObject) -> ItemModel {
    ItemModel {
        namespace: or_blank(raw.namespace),
        name: or_blank(raw.name),
        resource_version: or_blank(raw.resource_version),
        annotations: match raw.annotations {
            Some(a) => a@,
            None => Seq::empty(),
        },
        text: match kind {
            Kind::ConfigMap => raw.data.model(),
            Kind::Secret => None,
        },
        binary: raw.binary.model(),
    }
}

impl Item {
    /// The item that a ConfigMap stands for.
    pub fn from_cm(raw: RawObject) -> (r: Item)
        ensures
            r@ == item_of(Kind::ConfigMap, raw),
    {
        let annotations = match raw.annotations {
            Some(a) => a,
            None => OrderedMap::new(),
        };
        let r = Item {
            namespace: text_or_blank(raw.namespace),
            name: text_or_blank(raw.name),
            resource_version: text_or_blank(raw.resource_version),
            annotations,
            text: raw.data,
            binary: raw.binary,
        };
        assert(r@.annotations =~= item_of(Kind::ConfigMap, raw).annotations);
        r
    }

    /// The item that a Secret stands for.
    pub fn from_secret(raw: RawObject) -> (r: Item)
        ensures
            r@ == item_of(Kind::Secret, raw),
    {
        let annotations = match raw.annotations {
            Some(a) => a,
            None => OrderedMap::new(),
        };
        let r = Item {
            namespace: text_or_blank(raw.namespace),
            name: text_or_blank(raw.name),
            resource_version: text_or_blank(raw.resource_version),
            annotations,
            text: None,
            binary: raw.binary,
        };
        assert(r@.annotations =~= item_of(Kind::Secret, raw).annotations);
        r
    }

    fn from_raw(kind: Kind, raw: RawObject) -> (r: Item)
        ensures
            r@ == item_of(kind, raw),
    {
        match kind {
            Kind::ConfigMap => Item::from_cm(raw),
            Kind::Secret => Item::from_secret(raw),
        }
    }
}

/// The items of one page of a list, and the token for the next page if there
/// is one.
pub fn list_page(kind: Kind, page: Vec<RawObject>, token: Option<String>) -> (r: (
    Vec<Item>,
    Option<String>,
))
    ensures
        item_views(r.0@) == page@.map_values(|raw: RawObject| item_of(kind, raw)),
        opt_view(r.1) == next_token(opt_view(token)),
{
    let ghost all = page@;
    let ghost convert = |raw: RawObject| item_of(kind, raw);
    let mut items: Vec<Item> = Vec::new();
    for raw in it: page
        invariant
            it.seq() == all,
            convert == (|raw: RawObject| item_of(kind, raw)),
            item_views(items@) == all.take(it.index() as int).map_values(convert),
    {
        let ghost before = items@;
        let ghost i = it.index() as int;
        assert(raw == all[i]);
        items.push(Item::from_raw(kind, raw));
        assert(item_views(items@) =~= item_views(before).push(convert(all[i])));
        assert(all.take(i + 1).map_values(convert) =~= all.take(i).map_values(convert).push(
            convert(all[i]),
        ));
    }
    assert(all.take(all.len() as int) =~= all);
    let next = match token {
        Some(t) if !t.as_str().is_empty() => Some(t),
        _ => None,
    };
    (items, next)
}

/// The token for the next page: an empty one means that there is none.
pub open spec fn next_token(token: Option<Seq<char>>) -> Option<Seq<char>> {
    match token {
        Some(t) if t.len() > 0 => Some(t),
        _ => None,
    }
}

/// The item that was read by its name; nothing if there is none.
pub fn read_named(kind: Kind, found: Option<RawObject>) -> (r: Option<Item>)
    ensures
        match found {
            Some(raw) => r is Some && r->0@ == item_of(kind, raw),
            None => r is None,
        },
{
    match found {
        Some(raw) => Some(Item::from_raw(kind, raw)),
        None => None,
    }
}

// ---------------------------------------------------------------------------
// Errors
// ---------------------------------------------------------------------------

/// Why a call of the API failed.
pub enum KubeError {
    /// The API answered so.
    Api { code: u16, reason: String },
    /// There was no answer, and what went wrong.
    Transport(String),
}

/// Whether a call failed without an answer.
pub fn is_transport_error(e: &KubeError) -> (r: bool)
    ensures
        r == (e is Transport),
{
    match e {
        KubeError::Transport(_) => true,
        KubeError::Api { .. } => false,
    }
}

/// The attempt that follows a failed call of which `attempt` have been made
/// before, if one follows: calls without an answer are made again up to
/// `total` times, and other failures are final.
pub fn retry_transport(e: &KubeError, attempt: u32, total: u32) -> (r: Option<u32>)
    ensures
        match r {
            Some(a) => e is Transport && next_attempt(attempt as nat, total as nat) == Some(a as nat),
            None => !(e is Transport) || next_attempt(attempt as nat, total as nat) is None,
        },
{
    if is_transport_error(e) && attempt < total {
        Some(attempt + 1)
    } else {
        None
    }
}

/// How often a call without an answer is made again.
pub fn transport_retries(vars: &EnvVars) -> (r: u32)
    ensures
        r == number_setting(vars@, "REQ_RETRY_TOTAL"@, 5, u32::MAX as nat),
{
    env_u32(vars, "REQ_RETRY_TOTAL", 5)
}

// ---------------------------------------------------------------------------
// Watching
// ---------------------------------------------------------------------------

/// What happened to a resource.
#[derive(Clone, Copy, PartialEq, Eq, Structural, Debug)]
pub enum EventType {
    Added,
    Modified,
    Deleted,
}

/// The name of an event type.
pub open spec fn event_name(event: EventType) -> Seq<char> {
    match event {
        EventType::Added => "ADDED"@,
        EventType::Modified => "MODIFIED"@,
        EventType::Deleted => "DELETED"@,
    }
}

impl EventType {
    /// The name of the event type.
    pub fn as_str(&self) -> (r: &'static str)
        ensures
            r@ == event_name(*self),
    {
        match self {
            EventType::Added => "ADDED",
            EventType::Modified => "MODIFIED",
            EventType::Deleted => "DELETED",
        }
    }
}

/// What comes over a watch connection.
pub enum WatchSignal {
    Added(RawObject),
    Modified(RawObject),
    Deleted(RawObject),
    Bookmark,
    /// The API reports an error.
    Error { code: u16, reason: String },
    /// The connection fails.
    Failed(KubeError),
}

/// A change of a resource, or a failure.
pub type WatchEvent = Result<(EventType, Item), KubeError>;

/// The event is a change of this type, of the item that `raw` stands for.
pub open spec fn is_change(r: Option<WatchEvent>, event: EventType, kind: Kind, raw: RawObject) -> bool {
    &&& r is Some
    &&& r->0 is Ok
    &&& r->0->Ok_0.0 == event
    &&& r->0->Ok_0.1@ == item_of(kind, raw)
}

/// What a signal means: a change of a resource, a failure, or, for a bookmark,
/// nothing.
pub fn watch_items(kind: Kind, signal: WatchSignal) -> (r: Option<WatchEvent>)
    ensures
        match signal {
            WatchSignal::Added(raw) => is_change(r, EventType::Added, kind, raw),
            WatchSignal::Modified(raw) => is_change(r, EventType::Modified, kind, raw),
            WatchSignal::Deleted(raw) => is_change(r, EventType::Deleted, kind, raw),
            WatchSignal::Bookmark => r is None,
            WatchSignal::Error { code, reason } => r == Some(
                Err::<(EventType, Item), KubeError>(KubeError::Api { code, reason }),
            ),
            WatchSignal::Failed(e) => r == Some(Err::<(EventType, Item), KubeError>(e)),
        },
{
    match signal {
        WatchSignal::Added(raw) => Some(Ok((EventType::Added, Item::from_raw(kind, raw)))),
        WatchSignal::Modified(raw) => Some(Ok((EventType::Modified, Item::from_raw(kind, raw)))),
        WatchSignal::Deleted(raw) => Some(Ok((EventType::Deleted, Item::from_raw(kind, raw)))),
        WatchSignal::Bookmark => None,
        WatchSignal::Error { code, reason } => Some(Err(KubeError::Api { code, reason })),
        WatchSignal::Failed(e) => Some(Err(e)),
    }
}

// ---------------------------------------------------------------------------
// Setting up the client
// ---------------------------------------------------------------------------

/// The kubeconfig file that is used if it exists: the one in `KUBECONFIG`, or
/// else the one in the home directory.
pub open spec fn kubeconfig_name(vars: Map<Seq<char>, Seq<char>>) -> Seq<char> {
    match setting(vars, "KUBECONFIG"@) {
        Some(p) => p,
        None => (match setting(vars, "HOME"@) {
            Some(h) => h,
            None => Seq::empty(),
        }) + "/.kube/config"@,
    }
}

/// The kubeconfig file that is used if it exists.
pub fn kubeconfig_path(vars: &EnvVars) -> (r: String)
    ensures
        r@ == kubeconfig_name(vars@),
{
    match vars.get("KUBECONFIG") {
        Some(p) => p.clone(),
        None => {
            let home = text_or_blank(vars.value("HOME"));
            cat2(home.as_str(), "/.kube/config")
        },
    }
}

/// What is logged when the configuration is loaded: from the kubeconfig file
/// if it exists, else from within the cluster.
pub fn loading_entry(path: &str, exists: bool) -> (r: LogEntry)
    ensures
        r@ == (
            Level::Info,
            if exists {
                "Loading config from '"@ + path@ + "'..."@
            } else {
                "Loading incluster config..."@
            },
        ),
{
    let message = if exists {
        cat3("Loading config from '", path, "'...")
    } else {
        "Loading incluster config...".to_string()
    };
    LogEntry { level: Level::Info, message }
}

/// How the client is set up.
pub struct ClientSettings {
    /// Whether any certificate is accepted; else that is left as configured.
    pub accept_invalid_certs: bool,
    /// To be logged, if there is anything to warn of.
    pub warning: Option<LogEntry>,
    /// After how many seconds without data a connection is given up.
    pub read_timeout: u64,
    /// To be logged last.
    pub loaded: LogEntry,
}

/// How the client for the cluster at `cluster_url` is set up.
pub fn init_client(vars: &EnvVars, cluster_url: &str) -> (r: ClientSettings)
    ensures
        r.accept_invalid_certs == (setting(vars@, "SKIP_TLS_VERIFY"@) == Some("true"@)),
        r.warning is Some == is_true(vars@, "DISABLE_X509_STRICT_VERIFICATION"@),
        r.warning is Some ==> r.warning->0@ == (
            Level::Warning,
            "Disabling strict X.509 certificate verification"@,
        ),
        r.read_timeout == number_setting(vars@, "WATCH_CLIENT_TIMEOUT"@, 66, u64::MAX as nat),
        r.loaded@ == (
            Level::Debug,
            "Config for cluster api at '"@ + right_stripped(cluster_url@, '/') + "' loaded."@,
        ),
{
    let accept_invalid_certs = match vars.get("SKIP_TLS_VERIFY") {
        Some(v) => same(v.as_str(), "true"),
        None => false,
    };
    let warning = if env_is_true(vars, "DISABLE_X509_STRICT_VERIFICATION") {
        let message = "Disabling strict X.509 certificate verification".to_string();
        Some(LogEntry { level: Level::Warning, message })
    } else {
        None
    };
    let host = strip_end(cluster_url, '/');
    let message = cat3("Config for cluster api at '", host.as_str(), "' loaded.");
    ClientSettings {
        accept_invalid_certs,
        warning,
        read_timeout: env_u64(vars, "WATCH_CLIENT_TIMEOUT", 66),
        loaded: LogEntry { level: Level::Debug, message },
    }
}

/// What is said when the client could not be set up.
pub fn client_failure(error: &str) -> (r: String)
    ensures
        r@ == "Unexpected error during Kubernetes client initialization: "@ + error@,
{
    cat2("Unexpected error during Kubernetes client initialization: ", error)
}

} // verus!
