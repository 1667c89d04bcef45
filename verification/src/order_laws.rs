//! In which order the files of a resource are worked on. That matters where two
//! of its keys have the same file: the later step decides.

use vstd::prelude::*;

use crate::cache::{
    cached, kept, previous, previous_folder, removal, restored, Blank, CachedModel, Maps,
};
use crate::effect::sections_ordered;
use crate::files::{CONTENT_TYPE_BASE64_BINARY, CONTENT_TYPE_TEXT};
use crate::kubeapi::{kind_name, Item, ItemModel, Kind};
use crate::logger::Level;
use crate::ordered::{has_key, lookup, ordered};
use crate::plan::{
    file_op, file_ops, leftovers, log_step, only_if, planned, process_resource, section,
    step_views, working_folder, Data, Step, StepModel,
};
use crate::text::precedes;

verus! {

/// The turn of a file step: text data comes before binary data, and in each of
/// them what is written comes before what is removed.
pub open spec fn turn(step: StepModel) -> int {
    let op = step->File_0;
    (if op.content_type == "ascii"@ {
        0int
    } else {
        2int
    }) + (if op.remove {
        1int
    } else {
        0int
    })
}

/// A file step comes before another: by its turn, and by its key if they have
/// the same turn.
pub open spec fn comes_first(a: StepModel, b: StepModel) -> bool {
    turn(a) < turn(b) || (turn(a) == turn(b) && precedes(a->File_0.key, b->File_0.key))
}

/// The file steps follow each other by their turns and keys.
pub open spec fn in_turn(steps: Seq<StepModel>) -> bool {
    forall|i: int, j: int|
        0 <= i < j < steps.len() && (#[trigger] steps[i]) is File && (#[trigger] steps[j]) is File
            ==> comes_first(steps[i], steps[j])
}

/// All file steps have turns from `low` to `high`.
spec fn turns_within(steps: Seq<StepModel>, low: int, high: int) -> bool {
    forall|i: int| 0 <= i < steps.len() && (#[trigger] steps[i]) is File ==> low <= turn(steps[i]) <= high
}

proof fn concat_in_turn(a: Seq<StepModel>, b: Seq<StepModel>, low: int, mid: int, high: int)
    requires
        in_turn(a),
        in_turn(b),
        low <= mid < high,
        turns_within(a, low, mid),
        turns_within(b, mid + 1, high),
    ensures
        in_turn(a + b),
        turns_within(a + b, low, high),
{
    let ab = a + b;
    assert forall|i: int| 0 <= i < ab.len() && (#[trigger] ab[i]) is File implies low <= turn(ab[i])
        <= high by {
        if i < a.len() {
            assert(ab[i] == a[i]);
        } else {
            assert(ab[i] == b[i - a.len()]);
        }
    }
    assert forall|i: int, j: int|
        0 <= i < j < ab.len() && (#[trigger] ab[i]) is File && (#[trigger] ab[j]) is File implies comes_first(
        ab[i],
        ab[j],
    ) by {
        if j < a.len() {
            assert(ab[i] == a[i] && ab[j] == a[j]);
        } else if i >= a.len() {
            assert(ab[i] == b[i - a.len()] && ab[j] == b[j - a.len()]);
        } else {
            assert(ab[i] == a[i] && ab[j] == b[j - a.len()]);
        }
    }
}

proof fn logs_in_turn(logs: Seq<StepModel>, rest: Seq<StepModel>, low: int, high: int)
    requires
        forall|i: int| 0 <= i < logs.len() ==> (#[trigger] logs[i]) is Log,
        in_turn(rest),
        turns_within(rest, low, high),
    ensures
        in_turn(logs + rest),
        turns_within(logs + rest, low, high),
{
    let all = logs + rest;
    assert forall|i: int| 0 <= i < all.len() && (#[trigger] all[i]) is File implies i >= logs.len()
        && all[i] == rest[i - logs.len()] by {
        if i < logs.len() {
            assert(logs[i] is Log);
        }
    }
}

proof fn ops_in_turn<V: Data>(
    data: Seq<(Seq<char>, V::Model)>,
    folder: Seq<char>,
    item: ItemModel,
    kind: Kind,
    content_type: Seq<char>,
    remove: bool,
)
    requires
        ordered(data),
    ensures
        ({
            let steps = file_ops::<V>(data, folder, item, kind, content_type, remove);
            let t = (if content_type == "ascii"@ {
                0int
            } else {
                2int
            }) + (if remove {
                1int
            } else {
                0int
            });
            in_turn(steps) && turns_within(steps, t, t)
        }),
{
    let steps = file_ops::<V>(data, folder, item, kind, content_type, remove);
    assert forall|i: int| 0 <= i < steps.len() implies (#[trigger] steps[i]) == file_op::<V>(
        data[i],
        folder,
        item,
        kind,
        content_type,
        remove,
    ) by {}
    assert forall|i: int, j: int|
        0 <= i < j < steps.len() && (#[trigger] steps[i]) is File && (#[trigger] steps[j]) is File implies comes_first(
        steps[i],
        steps[j],
    ) by {
        assert(precedes(data[i].0, data[j].0));
    }
}

proof fn filter_is_ordered<M>(s: Seq<(Seq<char>, M)>, pred: spec_fn((Seq<char>, M)) -> bool)
    requires
        ordered(s),
    ensures
        ordered(s.filter(pred)),
        forall|i: int|
            0 <= i < s.filter(pred).len() ==> exists|j: int|
                0 <= j < s.len() && s[j] == #[trigger] s.filter(pred)[i],
    decreases s.len(),
{
    reveal(Seq::filter);
    if s.len() > 0 {
        let init = s.drop_last();
        assert forall|i: int, j: int| 0 <= i < j < init.len() implies precedes(
            #[trigger] init[i].0,
            #[trigger] init[j].0,
        ) by {
            assert(init[i] == s[i] && init[j] == s[j]);
        }
        filter_is_ordered(init, pred);
        let kept_init = init.filter(pred);
        let all = s.filter(pred);
        assert forall|i: int| 0 <= i < kept_init.len() implies exists|j: int|
            0 <= j < init.len() && s[j] == #[trigger] kept_init[i] by {
            let j = choose|j: int| 0 <= j < init.len() && init[j] == kept_init[i];
            assert(s[j] == kept_init[i]);
        }
        if pred(s.last()) {
            assert(all == kept_init.push(s.last()));
            assert forall|i: int| 0 <= i < all.len() implies exists|j: int|
                0 <= j < s.len() && s[j] == #[trigger] all[i] by {
                if i < kept_init.len() {
                    assert(all[i] == kept_init[i]);
                    let j = choose|j: int| 0 <= j < init.len() && s[j] == kept_init[i];
                    assert(s[j] == all[i]);
                } else {
                    assert(s[s.len() - 1] == all[i]);
                }
            }
            assert forall|i: int, j: int| 0 <= i < j < all.len() implies precedes(
                #[trigger] all[i].0,
                #[trigger] all[j].0,
            ) by {
                if j < kept_init.len() {
                    assert(all[i] == kept_init[i] && all[j] == kept_init[j]);
                } else {
                    assert(all[i] == kept_init[i]);
                    let k = choose|k: int| 0 <= k < init.len() && s[k] == kept_init[i];
                    assert(precedes(s[k].0, s[s.len() - 1].0));
                }
            }
        } else {
            assert(all == kept_init);
            assert forall|i: int| 0 <= i < all.len() implies exists|j: int|
                0 <= j < s.len() && s[j] == #[trigger] all[i] by {
                let j = choose|j: int| 0 <= j < init.len() && s[j] == kept_init[i];
                assert(s[j] == all[i]);
            }
        }
    }
}

proof fn leftovers_are_ordered<M>(
    before: Seq<(Seq<char>, M)>,
    now: Option<Seq<(Seq<char>, M)>>,
    moved: bool,
)
    requires
        ordered(before),
    ensures
        ordered(leftovers(before, now, moved)),
{
    filter_is_ordered(before, |e: (Seq<char>, M)| !(now is Some && has_key(now->0, e.0)));
}

proof fn section_in_turn<V: Data>(
    kind: Kind,
    item: ItemModel,
    old_item: ItemModel,
    now: Option<Seq<(Seq<char>, V::Model)>>,
    before: Option<Seq<(Seq<char>, V::Model)>>,
    found: Seq<StepModel>,
    dest: Seq<char>,
    old_dest: Seq<char>,
    content_type: Seq<char>,
    removed: bool,
)
    requires
        forall|i: int| 0 <= i < found.len() ==> (#[trigger] found[i]) is Log,
        now is Some ==> ordered(now->0),
        before is Some ==> ordered(before->0),
    ensures
        ({
            let steps = section::<V>(
                kind,
                item,
                old_item,
                now,
                before,
                found,
                dest,
                old_dest,
                content_type,
                removed,
            );
            let t = if content_type == "ascii"@ {
                0int
            } else {
                2int
            };
            in_turn(steps) && turns_within(steps, t, t + 1)
        }),
{
    let t = if content_type == "ascii"@ {
        0int
    } else {
        2int
    };
    let first = match now {
        Some(data) => found + file_ops::<V>(data, dest, item, kind, content_type, removed),
        None => Seq::empty(),
    };
    let second = match before {
        Some(data) if !removed => file_ops::<V>(
            leftovers(data, now, old_dest != dest),
            old_dest,
            old_item,
            kind,
            content_type,
            true,
        ),
        _ => Seq::empty(),
    };
    let own = if removed {
        t + 1
    } else {
        t
    };
    if now is Some {
        ops_in_turn::<V>(now->0, dest, item, kind, content_type, removed);
        logs_in_turn(
            found,
            file_ops::<V>(now->0, dest, item, kind, content_type, removed),
            own,
            own,
        );
    }
    if before is Some && !removed {
        leftovers_are_ordered(before->0, now, old_dest != dest);
        ops_in_turn::<V>(
            leftovers(before->0, now, old_dest != dest),
            old_dest,
            old_item,
            kind,
            content_type,
            true,
        );
    }
    if removed {
        assert(first + second =~= first);
    } else {
        concat_in_turn(first, second, t, t, t + 1);
    }
}

proof fn planned_in_turn(
    kind: Kind,
    item: ItemModel,
    old_item: ItemModel,
    dest: Seq<char>,
    old_dest: Seq<char>,
    removed: bool,
)
    requires
        sections_ordered(item),
        sections_ordered(old_item),
    ensures
        in_turn(planned(kind, item, old_item, dest, old_dest, removed)),
{
    reveal_strlit("ascii");
    reveal_strlit("binary");
    assert("ascii"@.len() == 5 && "binary"@.len() == 6);
    let steps = planned(kind, item, old_item, dest, old_dest, removed);
    let debug = |text: Seq<char>| seq![log_step(Level::Debug, text + kind_name(kind))];
    match kind {
        Kind::ConfigMap => {
            let warn = only_if(
                item.text is None && item.binary is None,
                log_step(Level::Warning, "No data/binaryData field in "@ + kind_name(kind)),
            );
            let text = section::<String>(
                kind,
                item,
                old_item,
                item.text,
                old_item.text,
                debug("Found 'data' on "@),
                dest,
                old_dest,
                CONTENT_TYPE_TEXT@,
                removed,
            );
            let binary = section::<Vec<u8>>(
                kind,
                item,
                old_item,
                item.binary,
                old_item.binary,
                debug("Found 'binary_data' on "@),
                dest,
                old_dest,
                CONTENT_TYPE_BASE64_BINARY@,
                removed,
            );
            section_in_turn::<String>(
                kind,
                item,
                old_item,
                item.text,
                old_item.text,
                debug("Found 'data' on "@),
                dest,
                old_dest,
                CONTENT_TYPE_TEXT@,
                removed,
            );
            section_in_turn::<Vec<u8>>(
                kind,
                item,
                old_item,
                item.binary,
                old_item.binary,
                debug("Found 'binary_data' on "@),
                dest,
                old_dest,
                CONTENT_TYPE_BASE64_BINARY@,
                removed,
            );
            concat_in_turn(text, binary, 0, 1, 3);
            logs_in_turn(warn, text + binary, 0, 3);
            assert(steps =~= warn + (text + binary));
        },
        Kind::Secret => {
            let warn = only_if(
                item.binary is None,
                log_step(Level::Warning, "No data field in "@ + kind_name(kind)),
            );
            let binary = section::<Vec<u8>>(
                kind,
                item,
                old_item,
                item.binary,
                old_item.binary,
                Seq::empty(),
                dest,
                old_dest,
                CONTENT_TYPE_BASE64_BINARY@,
                removed,
            );
            section_in_turn::<Vec<u8>>(
                kind,
                item,
                old_item,
                item.binary,
                old_item.binary,
                Seq::empty(),
                dest,
                old_dest,
                CONTENT_TYPE_BASE64_BINARY@,
                removed,
            );
            logs_in_turn(warn, binary, 2, 3);
            assert(steps =~= warn + binary);
        },
    }
}

/// The keys of each section that is remembered ascend.
pub open spec fn known_ordered(c: CachedModel) -> bool {
    (c.text is Some ==> ordered(c.text->0)) && (c.binary is Some ==> ordered(c.binary->0))
}

proof fn kept_is_ordered<M>(entries: Seq<(Seq<char>, M)>)
    requires
        ordered(entries),
    ensures
        ordered(kept(entries)),
{
    let all = kept(entries);
    assert forall|i: int, j: int| 0 <= i < j < all.len() implies precedes(
        #[trigger] all[i].0,
        #[trigger] all[j].0,
    ) by {
        assert(precedes(entries[i].0, entries[j].0));
    }
}

proof fn restored_is_ordered<V: Blank>(entries: Seq<(Seq<char>, Option<V::Model>)>)
    requires
        ordered(entries),
    ensures
        ordered(restored::<V>(entries)),
{
    let all = restored::<V>(entries);
    assert forall|i: int, j: int| 0 <= i < j < all.len() implies precedes(
        #[trigger] all[i].0,
        #[trigger] all[j].0,
    ) by {
        assert(precedes(entries[i].0, entries[j].0));
    }
}

/// The files of a resource are worked on in a fixed order: text data before
/// binary data; in each, first what is written and then what is removed; and in
/// each of these, in the order of the keys.
pub proof fn files_are_worked_on_in_turn(
    maps: &mut Maps,
    kind: Kind,
    item: &Item,
    folder: Option<&str>,
    removed: bool,
    r: Vec<Step>,
)
    requires
        call_ensures(process_resource, (maps, kind, item, folder, removed), r),
        sections_ordered(item@),
        lookup(old(maps)@.of(kind).object, item@.key()) matches Some(c) ==> known_ordered(c),
    ensures
        in_turn(step_views(r@)),
{
    let before = old(maps)@;
    let c = previous(before.of(kind), item@);
    let old_item = removal(c);
    if lookup(before.of(kind).object, item@.key()) is None {
        if item@.text is Some {
            kept_is_ordered(item@.text->0);
        }
        if item@.binary is Some {
            kept_is_ordered(item@.binary->0);
        }
        assert(c == cached(item@));
    }
    if c.text is Some {
        restored_is_ordered::<String>(c.text->0);
    }
    if c.binary is Some {
        restored_is_ordered::<Vec<u8>>(c.binary->0);
    }
    let given = match folder {
        Some(f) => f@,
        None => Seq::empty(),
    };
    let old_dest = previous_folder(before.of(kind), item@.key(), given);
    let dest = working_folder(old_dest, given, removed);
    planned_in_turn(kind, item@, old_item, dest, old_dest, removed);
}

} // verus!
