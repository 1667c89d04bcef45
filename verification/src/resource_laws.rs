//! Which resources are wanted, what they are taken to hold, and where their
//! files go, stated of the functions that decide it.

use vstd::prelude::*;
use vstd::utf8::{encode_utf8, encode_utf8_decode_utf8, encode_utf8_valid_utf8};

use crate::env::EnvVars;
use crate::files::WriteError;
use crate::kubeapi::{
    init_client, item_of, kubeconfig_path, list_page, read_named, retry_transport, watch_items,
    ClientSettings, EventType, Item, ItemModel, Kind, KubeError, RawObject, WatchEvent, WatchSignal,
};
use crate::listing::{Cleaning, Reading, Syncing};
use crate::logger::{Level, LogEntry};
use crate::ordered::{has_key, key_at, lookup};
use crate::plan::{step_views, Content, FileOp, Step, StepModel};
use crate::resources::{
    any_changed, entry_forms, entry_name, entry_names, get_destination_folder, resource_names,
    sleep_mode, update_file, wanted_names, watch_task, Ctx, FileAction, NextRound, Update, WErr,
};
use crate::sync_laws::{ends_in_url, url_keys_end_so};
use crate::text::{pieces, pieces_joined, views};
use crate::watching::{watch_resource_iterator, WatchParams, Watching};

verus! {

// ---------------------------------------------------------------------------
// Objects of the API
// ---------------------------------------------------------------------------

/// The string is what the object has, or empty if it has none.
pub open spec fn is_taken_over(value: Seq<char>, given: Option<String>) -> bool {
    match given {
        Some(v) => value == v@,
        None => value.len() == 0,
    }
}

/// An item has what the object has that it is made of: its names, its version,
/// its annotations and its data, each as it is; and what the object lacks is
/// empty, or missing where the item can lack it too.
pub open spec fn is_made_of(item: ItemModel, raw: RawObject, has_text: bool) -> bool {
    &&& is_taken_over(item.namespace, raw.namespace)
    &&& is_taken_over(item.name, raw.name)
    &&& is_taken_over(item.resource_version, raw.resource_version)
    &&& raw.annotations is Some ==> item.annotations == raw.annotations->0@
    &&& raw.annotations is None ==> item.annotations.len() == 0
    &&& item.text is Some == (has_text && raw.data is Some)
    &&& item.text is Some ==> item.text->0 == raw.data->0@
    &&& item.binary is Some == raw.binary is Some
    &&& item.binary is Some ==> item.binary->0 == raw.binary->0@
}

/// The item of a ConfigMap has all that the ConfigMap has, and the item of a
/// Secret all that the Secret has, which is no text data. Made of the same
/// object, both have the same names, annotations and binary data.
pub proof fn items_have_what_objects_have(raw: RawObject, config_map: Item, secret: Item)
    requires
        call_ensures(Item::from_cm, (raw,), config_map),
        call_ensures(Item::from_secret, (raw,), secret),
    ensures
        is_made_of(config_map@, raw, true),
        is_made_of(secret@, raw, false),
        secret@.text is None,
        secret@.namespace == config_map@.namespace,
        secret@.name == config_map@.name,
        secret@.resource_version == config_map@.resource_version,
        secret@.annotations == config_map@.annotations,
        secret@.binary == config_map@.binary,
{
}

/// What an object has under the name of an annotation, its item has too; and
/// the item has no annotation that the object has not.
pub proof fn annotations_are_taken_over(
    kind: Kind,
    raw: RawObject,
    item: Option<Item>,
    name: Seq<char>,
)
    requires
        call_ensures(read_named, (kind, Some(raw)), item),
    ensures
        item is Some,
        is_made_of(item->0@, raw, kind == Kind::ConfigMap),
        lookup(item->0@.annotations, name) == (match raw.annotations {
            Some(a) => lookup(a@, name),
            None => None,
        }),
{
}

/// A resource that is not found is none.
pub proof fn nothing_is_read_of_nothing(kind: Kind, item: Option<Item>)
    requires
        call_ensures(read_named, (kind, None), item),
    ensures
        item is None,
{
}

/// Of a page every object becomes an item, in its order; and there is a next
/// page if and only if there is a token that is not empty, which is handed on.
pub proof fn pages_are_taken_over(
    kind: Kind,
    page: Vec<RawObject>,
    token: Option<String>,
    r: (Vec<Item>, Option<String>),
)
    requires
        call_ensures(list_page, (kind, page, token), r),
    ensures
        r.0@.len() == page@.len(),
        forall|i: int|
            0 <= i < page@.len() ==> is_made_of(
                (#[trigger] r.0@[i])@,
                page@[i],
                kind == Kind::ConfigMap,
            ),
        r.1 is Some <==> token is Some && token->0@.len() > 0,
        r.1 is Some ==> r.1->0@ == token->0@,
{
    let items = crate::cache::item_views(r.0@);
    assert(items.len() == r.0@.len());
    assert forall|i: int| 0 <= i < page@.len() implies is_made_of(
        (#[trigger] r.0@[i])@,
        page@[i],
        kind == Kind::ConfigMap,
    ) by {
        assert(items[i] == r.0@[i]@);
        assert(items[i] == item_of(kind, page@[i]));
    }
}

/// A signal of a change is an event of its type, with the item of its object; a
/// bookmark is no event; and a failure is one, as it is.
pub proof fn signals_become_events(kind: Kind, signal: WatchSignal, r: Option<WatchEvent>)
    requires
        call_ensures(watch_items, (kind, signal), r),
    ensures
        match signal {
            WatchSignal::Added(raw) => {
                &&& r matches Some(Ok((event, item)))
                &&& event == EventType::Added
                &&& is_made_of(item@, raw, kind == Kind::ConfigMap)
            },
            WatchSignal::Modified(raw) => {
                &&& r matches Some(Ok((event, item)))
                &&& event == EventType::Modified
                &&& is_made_of(item@, raw, kind == Kind::ConfigMap)
            },
            WatchSignal::Deleted(raw) => {
                &&& r matches Some(Ok((event, item)))
                &&& event == EventType::Deleted
                &&& is_made_of(item@, raw, kind == Kind::ConfigMap)
            },
            WatchSignal::Bookmark => r is None,
            WatchSignal::Error { code, reason } => {
                &&& r matches Some(Err(KubeError::Api { code: c, reason: why }))
                &&& c == code
                &&& why@ == reason@
            },
            WatchSignal::Failed(e) => r matches Some(Err(error)) && error == e,
        },
{
}

/// A call that the API answered is not made again. One without an answer is, as
/// long as fewer have been made again than are allowed; so from the first call
/// on it is made again that often, and then it fails.
pub proof fn only_unanswered_calls_are_made_again(e: KubeError, attempt: u32, total: u32, r: Option<u32>)
    requires
        call_ensures(retry_transport, (&e, attempt, total), r),
    ensures
        e is Api ==> r is None,
        e is Transport && attempt < total ==> r is Some && r->0 == attempt + 1 && r->0 <= total,
        attempt >= total ==> r is None,
{
}

/// The key of an item tells its namespace and name in a row.
pub proof fn key_is_namespace_and_name(item: Item, key: String)
    requires
        call_ensures(Item::key, (&item,), key),
    ensures
        key@.len() == item.namespace@.len() + item.name@.len(),
        key@.take(item.namespace@.len() as int) == item.namespace@,
        key@.skip(item.namespace@.len() as int) == item.name@,
{
    assert(key@.take(item.namespace@.len() as int) =~= item.namespace@);
    assert(key@.skip(item.namespace@.len() as int) =~= item.name@);
}

/// Certificates are accepted unseen, strictness is warned of, and connections
/// are given up, by what the environment says and by nothing else.
pub proof fn client_is_set_up_by_the_environment(
    vars: EnvVars,
    other: EnvVars,
    cluster_url: &str,
    r: ClientSettings,
    s: ClientSettings,
)
    requires
        call_ensures(init_client, (&vars, cluster_url), r),
        call_ensures(init_client, (&other, cluster_url), s),
    ensures
        r.accept_invalid_certs <==> vars@.contains_key("SKIP_TLS_VERIFY"@) && vars@["SKIP_TLS_VERIFY"@]
            == "true"@,
        !vars@.contains_key("DISABLE_X509_STRICT_VERIFICATION"@) ==> r.warning is None,
        !vars@.contains_key("WATCH_CLIENT_TIMEOUT"@) ==> r.read_timeout == 66,
        vars@ == other@ ==> r.accept_invalid_certs == s.accept_invalid_certs && r.read_timeout
            == s.read_timeout && r.warning is Some == s.warning is Some,
{
}

/// `KUBECONFIG` names the file; without it, it is `.kube/config` in the home
/// directory.
pub proof fn kubeconfig_is_found(vars: EnvVars, path: String)
    requires
        call_ensures(kubeconfig_path, (&vars,), path),
    ensures
        vars@.contains_key("KUBECONFIG"@) ==> path@ == vars@["KUBECONFIG"@],
        !vars@.contains_key("KUBECONFIG"@) && vars@.contains_key("HOME"@) ==> path@ == vars@["HOME"@]
            + "/.kube/config"@,
        !vars@.contains_key("KUBECONFIG"@) && !vars@.contains_key("HOME"@) ==> path@
            == "/.kube/config"@,
{
    if !vars@.contains_key("KUBECONFIG"@) && !vars@.contains_key("HOME"@) {
        assert(Seq::<char>::empty() + "/.kube/config"@ =~= "/.kube/config"@);
    }
}

// ---------------------------------------------------------------------------
// Wanted names
// ---------------------------------------------------------------------------

proof fn pieces_are_there(s: Seq<char>, sep: char)
    ensures
        pieces(s, sep).len() > 0,
{
    pieces_joined(s, sep);
}

/// The pieces of two strings that are joined by the separator are the pieces of
/// the one and then those of the other.
pub proof fn pieces_of_both(a: Seq<char>, b: Seq<char>, sep: char)
    ensures
        pieces(a.push(sep) + b, sep) == pieces(a, sep) + pieces(b, sep),
    decreases b.len(),
{
    let s = a.push(sep) + b;
    pieces_are_there(a, sep);
    if b.len() == 0 {
        assert(s =~= a.push(sep));
        assert(s.drop_last() =~= a);
        assert(b =~= Seq::empty());
        assert(pieces(s, sep) =~= pieces(a, sep) + pieces(b, sep));
    } else {
        let init = b.drop_last();
        pieces_of_both(a, init, sep);
        pieces_are_there(init, sep);
        assert(s.drop_last() =~= a.push(sep) + init);
        assert(s.last() == b.last());
        let before = pieces(a, sep) + pieces(init, sep);
        assert(before.last() == pieces(init, sep).last());
        assert(before.drop_last() =~= pieces(a, sep) + pieces(init, sep).drop_last());
        assert(pieces(s, sep) =~= pieces(a, sep) + pieces(b, sep));
    }
}

/// A string without the separator is one piece.
pub proof fn one_piece(s: Seq<char>, sep: char)
    requires
        !s.contains(sep),
    ensures
        pieces(s, sep) == seq![s],
    decreases s.len(),
{
    if s.len() > 0 {
        let init = s.drop_last();
        assert(s[s.len() - 1] != sep);
        assert forall|i: int| 0 <= i < init.len() implies init[i] != sep by {
            assert(s[i] != sep);
        }
        one_piece(init, sep);
        assert(init.push(s.last()) =~= s);
    } else {
        assert(s =~= Seq::empty());
    }
    assert(pieces(s, sep) =~= seq![s]);
}

proof fn names_of_both(a: Seq<Seq<char>>, b: Seq<Seq<char>>, namespace: Seq<char>, kind: Kind)
    ensures
        entry_names(a + b, namespace, kind) == entry_names(a, namespace, kind) + entry_names(
            b,
            namespace,
            kind,
        ),
    decreases b.len(),
{
    if b.len() == 0 {
        assert(a + b =~= a);
        assert(b =~= Seq::empty());
    } else {
        let init = b.drop_last();
        names_of_both(a, init, namespace, kind);
        assert((a + b).drop_last() =~= a + init);
        assert((a + b).last() == b.last());
    }
    assert(entry_names(a + b, namespace, kind) =~= entry_names(a, namespace, kind) + entry_names(
        b,
        namespace,
        kind,
    ));
}

/// The names that two lists ask for which are joined by a comma are those that
/// the first asks for and then those that the second asks for.
pub proof fn lists_of_names_are_joined(
    a: &str,
    b: &str,
    both: &str,
    namespace: &str,
    kind: Kind,
    ra: Vec<String>,
    rb: Vec<String>,
    r: Vec<String>,
)
    requires
        a@.len() > 0,
        b@.len() > 0,
        both@ == a@.push(',') + b@,
        call_ensures(resource_names, (a, namespace, kind), ra),
        call_ensures(resource_names, (b, namespace, kind), rb),
        call_ensures(resource_names, (both, namespace, kind), r),
    ensures
        r@.len() == ra@.len() + rb@.len(),
        forall|i: int| 0 <= i < ra@.len() ==> (#[trigger] r@[i])@ == ra@[i]@,
        forall|i: int| 0 <= i < rb@.len() ==> r@[ra@.len() + i]@ == (#[trigger] rb@[i])@,
{
    pieces_of_both(a@, b@, ',');
    names_of_both(pieces(a@, ','), pieces(b@, ','), namespace@, kind);
    let va = views(ra@);
    let vb = views(rb@);
    let v = views(r@);
    assert(v =~= va + vb);
    assert(va.len() == ra@.len() && vb.len() == rb@.len() && v.len() == r@.len());
    assert forall|i: int| 0 <= i < ra@.len() implies (#[trigger] r@[i])@ == ra@[i]@ by {
        assert(v[i] == va[i]);
    }
    assert forall|i: int| 0 <= i < rb@.len() implies r@[ra@.len() + i]@ == (#[trigger] rb@[i])@ by {
        assert(v[ra@.len() + i] == vb[i]);
    }
}

/// One name alone.
pub open spec fn is_only(names: Seq<String>, name: Seq<char>) -> bool {
    names.len() == 1 && names[0]@ == name
}

proof fn names_of_one(entry: Seq<char>, namespace: Seq<char>, kind: Kind)
    requires
        entry.len() > 0,
        !entry.contains(','),
        namespace != "ALL"@,
    ensures
        wanted_names(entry, namespace, kind) == (match entry_name(entry, namespace, kind) {
            Some(name) => seq![name],
            None => Seq::empty(),
        }),
{
    one_piece(entry, ',');
    let entries = seq![entry];
    assert(entries.drop_last() =~= Seq::empty());
    assert(entry_names(entries.drop_last(), namespace, kind) =~= Seq::empty());
    assert(entry_names(entries, namespace, kind) =~= (match entry_name(entry, namespace, kind) {
        Some(name) => seq![name],
        None => Seq::empty(),
    }));
}

proof fn joined_by_slash(a: Seq<char>, b: Seq<char>)
    ensures
        a.push('/') + b == a + "/"@ + b,
{
    reveal_strlit("/");
    assert(a.push('/') + b =~= a + "/"@ + b);
}

proof fn concat_has_no(a: Seq<char>, b: Seq<char>, c: char)
    requires
        !a.contains(c),
        !b.contains(c),
    ensures
        !(a + b).contains(c),
{
    if (a + b).contains(c) {
        let i = choose|i: int| 0 <= i < (a + b).len() && (a + b)[i] == c;
        if i < a.len() {
            assert(a[i] == c);
        } else {
            assert(b[i - a.len()] == c);
        }
    }
}

/// A name alone is wanted of either kind and in any one namespace: it, and
/// nothing else.
pub proof fn name_alone_is_wanted(name: &str, namespace: &str, kind: Kind, r: Vec<String>)
    requires
        call_ensures(resource_names, (name, namespace, kind), r),
        name@.len() > 0,
        !name@.contains(',') && !name@.contains('/'),
        namespace@ != "ALL"@,
    ensures
        is_only(r@, name@),
{
    names_of_one(name@, namespace@, kind);
    one_piece(name@, '/');
    assert(entry_name(name@, namespace@, kind) == Some(name@));
    assert(views(r@) =~= seq![name@]);
    assert(views(r@)[0] == r@[0]@);
}

/// A name after a type is wanted if the type is that of the sync, and is not if
/// it is another.
pub proof fn typed_name_is_wanted(
    resource_type: Seq<char>,
    name: Seq<char>,
    entry: &str,
    namespace: &str,
    kind: Kind,
    r: Vec<String>,
)
    requires
        entry@ == resource_type.push('/') + name,
        call_ensures(resource_names, (entry, namespace, kind), r),
        !name.contains(',') && !name.contains('/'),
        !resource_type.contains(',') && !resource_type.contains('/'),
        namespace@ != "ALL"@,
    ensures
        ({
            let asked = match kind {
                Kind::ConfigMap => resource_type == "configmap"@,
                Kind::Secret => resource_type == "secret"@,
            };
            &&& asked ==> is_only(r@, name)
            &&& !asked ==> r@.len() == 0
        }),
{
    assert(!seq!['/'].contains(','));
    assert(resource_type.push('/') =~= resource_type + seq!['/']);
    concat_has_no(resource_type, seq!['/'], ',');
    concat_has_no(resource_type.push('/'), name, ',');
    names_of_one(entry@, namespace@, kind);
    joined_by_slash(resource_type, name);
    assert(!Seq::<char>::empty().contains('/'));
    entry_forms(name, resource_type, Seq::empty(), namespace@, kind);
    assert(views(r@).len() == r@.len());
    if r@.len() > 0 {
        assert(views(r@)[0] == r@[0]@);
    }
}

/// A name after a namespace and a type is wanted if the namespace is that of
/// the sync, whatever the type is, and is not if it is another.
pub proof fn placed_name_is_wanted(
    entry_namespace: Seq<char>,
    resource_type: Seq<char>,
    name: Seq<char>,
    entry: &str,
    namespace: &str,
    kind: Kind,
    r: Vec<String>,
)
    requires
        entry@ == entry_namespace.push('/') + resource_type.push('/') + name,
        call_ensures(resource_names, (entry, namespace, kind), r),
        !name.contains(',') && !name.contains('/'),
        !resource_type.contains(',') && !resource_type.contains('/'),
        !entry_namespace.contains(',') && !entry_namespace.contains('/'),
        namespace@ != "ALL"@,
    ensures
        entry_namespace == namespace@ ==> is_only(r@, name),
        entry_namespace != namespace@ ==> r@.len() == 0,
{
    reveal_strlit("/");
    assert(!seq!['/'].contains(','));
    assert(resource_type.push('/') =~= resource_type + seq!['/']);
    assert(entry_namespace.push('/') =~= entry_namespace + seq!['/']);
    concat_has_no(resource_type, seq!['/'], ',');
    concat_has_no(entry_namespace, seq!['/'], ',');
    concat_has_no(entry_namespace.push('/'), resource_type.push('/'), ',');
    concat_has_no(entry_namespace.push('/') + resource_type.push('/'), name, ',');
    names_of_one(entry@, namespace@, kind);
    assert(entry@ =~= entry_namespace + "/"@ + resource_type + "/"@ + name);
    entry_forms(name, resource_type, entry_namespace, namespace@, kind);
    assert(views(r@).len() == r@.len());
    if r@.len() > 0 {
        assert(views(r@)[0] == r@[0]@);
    }
}

/// The last part of an entry with more than three parts is wanted, whatever the
/// others are.
pub proof fn last_of_many_is_wanted(
    a: Seq<char>,
    b: Seq<char>,
    c: Seq<char>,
    name: Seq<char>,
    entry: &str,
    namespace: &str,
    kind: Kind,
    r: Vec<String>,
)
    requires
        entry@ == (a.push('/') + b).push('/') + c.push('/') + name,
        call_ensures(resource_names, (entry, namespace, kind), r),
        !entry@.contains(','),
        !name.contains('/'),
        namespace@ != "ALL"@,
    ensures
        is_only(r@, name),
{
    let ab = a.push('/') + b;
    let abc = ab.push('/') + c;
    assert(entry@ =~= abc.push('/') + name);
    pieces_of_both(a, b, '/');
    pieces_of_both(ab, c, '/');
    pieces_of_both(abc, name, '/');
    one_piece(name, '/');
    pieces_are_there(a, '/');
    pieces_are_there(b, '/');
    pieces_are_there(c, '/');
    names_of_one(entry@, namespace@, kind);
    assert(entry_name(entry@, namespace@, kind) == Some(name));
    assert(views(r@) =~= seq![name]);
    assert(views(r@)[0] == r@[0]@);
}

/// An empty entry beside others asks for the empty name, at the end of a list
/// and at its beginning.
pub proof fn empty_entry_is_an_empty_name(
    a: &str,
    ending: &str,
    beginning: &str,
    namespace: &str,
    kind: Kind,
    ra: Vec<String>,
    re: Vec<String>,
    rb: Vec<String>,
)
    requires
        a@.len() > 0,
        namespace@ != "ALL"@,
        ending@ == a@.push(','),
        beginning@ == seq![','] + a@,
        call_ensures(resource_names, (a, namespace, kind), ra),
        call_ensures(resource_names, (ending, namespace, kind), re),
        call_ensures(resource_names, (beginning, namespace, kind), rb),
    ensures
        re@.len() == ra@.len() + 1,
        forall|i: int| 0 <= i < ra@.len() ==> (#[trigger] re@[i])@ == ra@[i]@,
        re@[ra@.len() as int]@.len() == 0,
        rb@.len() == ra@.len() + 1,
        forall|i: int| 0 <= i < ra@.len() ==> rb@[i + 1]@ == (#[trigger] ra@[i])@,
        rb@[0]@.len() == 0,
{
    let nothing = Seq::<char>::empty();
    let none = seq![nothing];
    assert(ending@ =~= a@.push(',') + nothing);
    assert(beginning@ =~= nothing.push(',') + a@);
    pieces_of_both(a@, nothing, ',');
    pieces_of_both(nothing, a@, ',');
    one_piece(nothing, ',');
    one_piece(nothing, '/');
    assert(entry_name(nothing, namespace@, kind) == Some(nothing));
    assert(none.drop_last() =~= Seq::empty());
    assert(entry_names(none.drop_last(), namespace@, kind) =~= Seq::empty());
    assert(entry_names(none, namespace@, kind) =~= none);
    names_of_both(pieces(a@, ','), none, namespace@, kind);
    names_of_both(none, pieces(a@, ','), namespace@, kind);
    let va = views(ra@);
    let ve = views(re@);
    let vb = views(rb@);
    assert(ve =~= va + none);
    assert(vb =~= none + va);
    assert(va.len() == ra@.len() && ve.len() == re@.len() && vb.len() == rb@.len());
    assert forall|i: int| 0 <= i < ra@.len() implies (#[trigger] re@[i])@ == ra@[i]@ by {
        assert(ve[i] == va[i]);
    }
    assert forall|i: int| 0 <= i < ra@.len() implies rb@[i + 1]@ == (#[trigger] ra@[i])@ by {
        assert(vb[i + 1] == va[i]);
    }
    assert(ve[ra@.len() as int] == nothing);
    assert(vb[0] == nothing);
}

/// Where all namespaces are synced, or no name is given, nothing is wanted by
/// its name.
pub proof fn nothing_is_wanted_by_name(
    wanted: &str,
    namespace: &str,
    kind: Kind,
    r: Vec<String>,
)
    requires
        call_ensures(resource_names, (wanted, namespace, kind), r),
        namespace@ == "ALL"@ || wanted@.len() == 0,
    ensures
        r@.len() == 0,
{
    assert(views(r@).len() == r@.len());
}

/// The label alone selects, or the label with its value.
pub proof fn label_selects(ctx: Ctx, r: String)
    requires
        call_ensures(Ctx::selector, (&ctx,), r),
    ensures
        ctx.label_value is None ==> r@ == ctx.label@,
        ctx.label_value is Some ==> r@ == ctx.label@.push('=') + ctx.label_value->0@,
{
    reveal_strlit("=");
    if ctx.label_value is Some {
        assert(r@ =~= ctx.label@.push('=') + ctx.label_value->0@);
    }
}

// ---------------------------------------------------------------------------
// Folders and files
// ---------------------------------------------------------------------------

/// The folder of a resource of either kind is the one that its annotation
/// names: that itself if it is absolute, and else the folder of that name in
/// the target folder. Without the annotation it is the target folder. The
/// override is logged, and nothing else is.
pub proof fn annotation_decides_on_the_folder(item: Item, ctx: Ctx, r: (String, Option<LogEntry>), p: int)
    requires
        call_ensures(get_destination_folder, (&item, &ctx), r),
    ensures
        (forall|i: int|
            0 <= i < item@.annotations.len() ==> (#[trigger] item@.annotations[i]).0
                != ctx.folder_annotation@) ==> r.0@ == ctx.target_folder@ && r.1 is None,
        crate::ordered::ordered(item@.annotations) && 0 <= p < item@.annotations.len()
            && item@.annotations[p].0 == ctx.folder_annotation@ ==> {
            let value = item@.annotations[p].1;
            let target = ctx.target_folder@;
            &&& r.1 is Some
            &&& value.len() > 0 && value[0] == '/' ==> r.0@ == value
            &&& !(value.len() > 0 && value[0] == '/') && target.len() > 0 && target.last() == '/'
                ==> r.0@ == target + value
            &&& !(value.len() > 0 && value[0] == '/') && !(target.len() > 0 && target.last() == '/')
                ==> r.0@ == target.push('/') + value
        },
{
    reveal_strlit("/");
    let name = ctx.folder_annotation@;
    if has_key(item@.annotations, name) {
        let i = choose|i: int| key_at(item@.annotations, name, i);
        assert(item@.annotations[i].0 == name);
    }
    if crate::ordered::ordered(item@.annotations) && 0 <= p < item@.annotations.len()
        && item@.annotations[p].0 == name {
        crate::ordered::lookup_at(item@.annotations, p);
        let value = item@.annotations[p].1;
        let target = ctx.target_folder@;
        assert(lookup(item@.annotations, name) == Some(value));
        assert(target + "/"@ + value =~= target.push('/') + value);
        assert(crate::resources::folder_steps(ctx, item@).len() == 1);
    } else if !has_key(item@.annotations, name) {
        assert(crate::resources::folder_steps(ctx, item@).len() == 0);
        if r.1 is Some {
            assert(seq![StepModel::Log(r.1->0@)].len() == 1);
        }
    }
}

/// The file of a key that stands for no URL is named like the key and gets its
/// value; that of a key with `.url` at its end is named like the rest of it,
/// and gets what its value is answered. Folder and direction are those of the
/// operation. A URL that is no text fails, and nothing is fetched.
pub proof fn files_are_named_like_keys(op: FileOp, r: Update)
    requires
        call_ensures(update_file, (&op, false), r),
    ensures
        !ends_in_url(op.key@) ==> {
            &&& r matches Update::Do(action)
            &&& action.key@ == op.key@
            &&& action.content_type@ == op.content_type@
            &&& action.filename@ == op.key@
            &&& action.folder@ == op.folder@
            &&& action.remove == op.remove
            &&& match op.content {
                Content::Text(t) => action.data@ == encode_utf8(t@),
                Content::Bin(b) => action.data@ == b@,
            }
        },
        ends_in_url(op.key@) ==> match op.content {
            Content::Text(t) => {
                &&& r matches Update::Fetch(url, action)
                &&& url@ == t@
                &&& action.key@ == op.key@
                &&& action.content_type@ == op.content_type@
                &&& action.filename@ == op.key@.take(op.key@.len() - 4)
                &&& action.folder@ == op.folder@
                &&& action.remove == op.remove
            },
            Content::Bin(b) => {
                ||| r is Failed
                ||| {
                    &&& r matches Update::Fetch(url, action)
                    &&& encode_utf8(url@) == b@
                    &&& action.filename@ == op.key@.take(op.key@.len() - 4)
                    &&& action.folder@ == op.folder@
                    &&& action.remove == op.remove
                }
            },
        },
{
    url_keys_end_so(op.key@);
    reveal_strlit(".url");
    if ends_in_url(op.key@) {
        if let Content::Bin(b) = op.content {
            if vstd::utf8::valid_utf8(b@) {
                vstd::utf8::decode_utf8_encode_utf8(b@);
            }
        }
    }
}

/// A URL that is given as bytes is fetched if the bytes are the encoding of a
/// text.
pub proof fn encoded_urls_are_fetched(op: FileOp, unique_filenames: bool, bytes: Vec<u8>, text: Seq<char>, r: Update)
    requires
        call_ensures(update_file, (&op, unique_filenames), r),
        ends_in_url(op.key@),
        op.content == Content::Bin(bytes),
        bytes@ == encode_utf8(text),
    ensures
        r matches Update::Fetch(url, _) && url@ == text,
{
    url_keys_end_so(op.key@);
    encode_utf8_valid_utf8(text);
    encode_utf8_decode_utf8(text);
}

/// With unique names a file is named after its namespace, kind and resource
/// first, and then like without; all else is as without.
pub proof fn unique_names_are_longer_names(op: FileOp, plain: Update, unique: Update)
    requires
        call_ensures(update_file, (&op, false), plain),
        call_ensures(update_file, (&op, true), unique),
    ensures
        match (plain, unique) {
            (Update::Do(a), Update::Do(b)) => is_longer_named(op, a, b),
            (Update::Fetch(u, a), Update::Fetch(v, b)) => u@ == v@ && is_longer_named(op, a, b),
            (Update::Failed(_), Update::Failed(_)) => true,
            _ => false,
        },
{
    url_keys_end_so(op.key@);
    reveal_strlit("namespace_");
    reveal_strlit(".");
    reveal_strlit("_");
    let kind_text = match op.kind {
        Kind::ConfigMap => "configmap"@,
        Kind::Secret => "secret"@,
    };
    match (plain, unique) {
        (Update::Do(a), Update::Do(b)) => {
            assert(b.filename@ =~= "namespace_"@ + op.namespace@ + seq!['.'] + kind_text + seq!['_']
                + op.name@ + seq!['.'] + a.filename@);
        },
        (Update::Fetch(_, a), Update::Fetch(_, b)) => {
            assert(b.filename@ =~= "namespace_"@ + op.namespace@ + seq!['.'] + kind_text + seq!['_']
                + op.name@ + seq!['.'] + a.filename@);
        },
        _ => {},
    }
}

/// The second action is the first one under a longer name.
pub open spec fn is_longer_named(op: FileOp, a: FileAction, b: FileAction) -> bool {
    let kind_text = match op.kind {
        Kind::ConfigMap => "configmap"@,
        Kind::Secret => "secret"@,
    };
    &&& b.filename@ == "namespace_"@ + op.namespace@ + seq!['.'] + kind_text + seq!['_'] + op.name@
        + seq!['.'] + a.filename@
    &&& b.folder@ == a.folder@
    &&& b.data@ == a.data@
    &&& b.remove == a.remove
}

/// What a URL is answered becomes the content of the file if the status is
/// below 400, and else, or without an answer, the file becomes empty. All else
/// stays.
pub proof fn answers_become_content(
    action: FileAction,
    response: Option<(u16, Vec<u8>)>,
    r: FileAction,
)
    requires
        call_ensures(FileAction::fetched, (action, response), r),
    ensures
        r.key@ == action.key@,
        r.folder@ == action.folder@,
        r.filename@ == action.filename@,
        r.content_type@ == action.content_type@,
        r.remove == action.remove,
        response is None ==> r.data@.len() == 0,
        response is Some && (response->0).0 < 400 ==> r.data@ == (response->0).1@,
        response is Some && (response->0).0 >= 400 ==> r.data@.len() == 0,
{
}

/// A file counts as changed if it was written or removed, and not if that
/// failed, which is logged.
pub proof fn outcome_counts(action: FileAction, result: Result<bool, WriteError>, r: (bool, Option<LogEntry>))
    requires
        call_ensures(FileAction::outcome, (&action, result), r),
    ensures
        r.0 <==> result == Ok::<bool, WriteError>(true),
        r.1 is Some <==> result is Err,
        r.1 is Some ==> r.1->0.level == Level::Error,
{
}

/// Some file has changed if and only if one of the results says so.
pub proof fn one_change_is_a_change(results: Vec<bool>, r: bool)
    requires
        call_ensures(any_changed, (&results,), r),
    ensures
        r <==> results@.contains(true),
{
    if results@.contains(true) {
        let i = choose|i: int| 0 <= i < results@.len() && results@[i] == true;
        assert(results@[i]);
    }
    if r {
        let i = choose|i: int| 0 <= i < results@.len() && #[trigger] results@[i];
        assert(results@[i] == true);
    }
}

/// The steps of a sync are handed out as they are, and the next name is the one
/// at the position that was reached.
pub proof fn steps_are_handed_out(
    syncing: Syncing,
    cleaning: Cleaning,
    reading: Reading,
    sync_steps: &Vec<Step>,
    clean_steps: &Vec<Step>,
    name: Option<&String>,
)
    requires
        call_ensures(Syncing::steps, (&syncing,), sync_steps),
        call_ensures(Cleaning::steps, (&cleaning,), clean_steps),
        call_ensures(Reading::name, (&reading,), name),
    ensures
        step_views(sync_steps@) == syncing@.steps,
        step_views(clean_steps@) == cleaning@.steps,
        name is Some <==> reading.next < reading.names@.len(),
        name is Some ==> name->0@ == reading.names@[reading.next as int]@,
{
}

// ---------------------------------------------------------------------------
// Rounds
// ---------------------------------------------------------------------------

/// A watcher polls if it is to sleep between its rounds, or if the resources of
/// its one namespace are wanted by name; and else it watches.
pub proof fn watchers_poll_or_watch(ctx: Ctx, namespace: &str, r: bool)
    requires
        call_ensures(sleep_mode, (&ctx, namespace), r),
    ensures
        ctx.mode is Some && ctx.mode->0@ == "SLEEP"@ ==> r,
        namespace@ != "ALL"@ && ctx.resource_name@.len() > 0 ==> r,
        !(ctx.mode is Some && ctx.mode->0@ == "SLEEP"@) && (namespace@ == "ALL"@
            || ctx.resource_name@.len() == 0) ==> !r,
{
}

/// After a good round a watcher goes on: after `SLEEP_TIME` if it polls, which
/// is a minute unless it is set, and else at once. After a failure it waits for
/// `ERROR_THROTTLE_SLEEP`, which is five seconds unless it is set; only an error
/// of the API with code 500 ends it. Failures are logged.
pub proof fn watchers_go_on(
    ctx: Ctx,
    namespace: &str,
    outcome: Result<(), WErr>,
    vars: EnvVars,
    r: NextRound,
    polls: bool,
)
    requires
        call_ensures(watch_task, (&ctx, namespace, outcome, &vars), r),
        call_ensures(sleep_mode, (&ctx, namespace), polls),
    ensures
        outcome is Ok && !polls ==> r is AtOnce,
        outcome is Ok && polls ==> r is Sleep,
        outcome is Ok && polls && !vars@.contains_key("SLEEP_TIME"@) ==> r->Sleep_0 == 60,
        outcome matches Err(WErr::Kube(KubeError::Api { code, .. })) ==> {
            &&& code == 500 ==> r is Stop && r->Stop_0.level == Level::Error
            &&& code != 500 ==> r is Throttle && r->Throttle_0.level == Level::Error
        },
        outcome matches Err(WErr::Kube(KubeError::Transport(_))) ==> r is Throttle
            && r->Throttle_0.level == Level::Error,
        outcome matches Err(WErr::Other(_)) ==> r is Throttle && r->Throttle_0.level == Level::Error,
        r is Throttle && !vars@.contains_key("ERROR_THROTTLE_SLEEP"@) ==> r->Throttle_1 == 5,
{
}

/// A watch connection selects by the label, ends after the time that is set for
/// it, has the scope that it is asked for, and has seen no event yet.
pub proof fn watch_begins(
    ctx: Ctx,
    kind: Kind,
    namespace: &str,
    request_url: Option<String>,
    ignore_already_processed: bool,
    r: (WatchParams, Watching),
)
    requires
        call_ensures(
            watch_resource_iterator,
            (&ctx, kind, namespace, request_url, ignore_already_processed),
            r,
        ),
    ensures
        ctx.label_value is None ==> r.0.selector@ == ctx.label@,
        ctx.label_value is Some ==> r.0.selector@ == ctx.label@.push('=') + ctx.label_value->0@,
        ctx.watch_server_timeout <= u32::MAX ==> r.0.timeout == ctx.watch_server_timeout,
        r.1.scope.kind == kind,
        r.1.scope.namespace@ == namespace@,
        r.1.scope.ignore_already_processed == ignore_already_processed,
        r.1.scope.request_url is Some == request_url is Some,
        request_url is Some ==> r.1.scope.request_url->0@ == request_url->0@,
        r.1.first_event,
{
    reveal_strlit("=");
    if ctx.label_value is Some {
        assert(r.0.selector@ =~= ctx.label@.push('=') + ctx.label_value->0@);
    }
}

} // verus!
