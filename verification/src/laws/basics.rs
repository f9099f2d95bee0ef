//! Laws of instants, texts, paths, metadata and recorded names.
use vstd::prelude::*;

use crate::json::{merged_metadata, Json};
use crate::paths::{
    file_name, is_portable, is_project_name, is_slash, last_part_start, project_name,
    without_trailing_slashes,
};
use crate::recorded::{recorded_wf, remembered};
use crate::text::text_le;
use crate::time::Timestamp;

verus! {

/// Whether the first instant is before the second.
pub open spec fn is_before(a: Timestamp, b: Timestamp) -> bool {
    a.secs < b.secs || (a.secs == b.secs && a.nanos < b.nanos)
}

/// Whether the result is the later of two instants.
pub open spec fn is_later(result: Timestamp, a: Timestamp, b: Timestamp) -> bool {
    &&& result == a || result == b
    &&& !is_before(result, a)
    &&& !is_before(result, b)
}

/// Instants are ordered by their seconds, and within a second by their
/// nanoseconds. Outside of leap seconds the time between two of them is the
/// difference of both, and it always turns its sign with the direction.
pub proof fn time_runs_by_seconds_and_nanoseconds(a: Timestamp, b: Timestamp, c: Timestamp)
    ensures
        a.at_most(b) <==> !is_before(b, a),
        is_later(a.latest(b), a, b),
        a.nanos < 1_000_000_000 && b.nanos < 1_000_000_000 ==> a.nanos_since(b) == (a.secs - b.secs)
            * 1_000_000_000 + (a.nanos - b.nanos),
        a.nanos_since(b) == -b.nanos_since(a),
        a.nanos_since(a) == 0,
        a.nanos < 1_000_000_000 && b.nanos < 1_000_000_000 && c.nanos < 1_000_000_000
            ==> a.nanos_since(c) == a.nanos_since(b) + b.nanos_since(c),
        a.is_leap() <==> a.nanos >= 1_000_000_000,
        a.wf() <==> -8_334_601_228_800 <= a.secs <= 8_210_266_876_799 && a.nanos < 2_000_000_000 && (
        a.nanos >= 1_000_000_000 ==> a.secs as int % 60 == 59),
{
}

/// Whether the first text comes before the second: they are the same up to some
/// place, and there the first one ends or has the smaller character.
pub open spec fn text_before(a: Seq<char>, b: Seq<char>) -> bool {
    exists|k: int| #[trigger] parts_at(a, b, k)
}

/// Whether the texts are the same up to the place, and the first one ends there
/// or has the smaller character.
pub open spec fn parts_at(a: Seq<char>, b: Seq<char>, k: int) -> bool {
    &&& 0 <= k <= a.len()
    &&& k < b.len()
    &&& forall|i: int| 0 <= i < k ==> a[i] == b[i]
    &&& k < a.len() ==> a[k] < b[k]
}

/// Texts are ordered by the first character in which they differ, and a text
/// comes before those that it is the beginning of.
pub proof fn texts_are_ordered_by_their_first_difference(a: Seq<char>, b: Seq<char>)
    ensures
        text_le(a, b) <==> a == b || text_before(a, b),
    decreases a.len(),
{
    if a.len() == 0 {
        if b.len() == 0 {
            assert(a =~= b);
        } else {
            assert(parts_at(a, b, 0));
        }
    } else if b.len() == 0 {
        if text_before(a, b) {
            let k = choose|k: int| #[trigger] parts_at(a, b, k);
        }
    } else if a[0] != b[0] {
        if a[0] < b[0] {
            assert(parts_at(a, b, 0));
        } else if text_before(a, b) {
            let k = choose|k: int| #[trigger] parts_at(a, b, k);
            if k > 0 {
                assert(a[0] == b[0]);
            }
        }
    } else {
        let x = a.drop_first();
        let y = b.drop_first();
        texts_are_ordered_by_their_first_difference(x, y);
        if x == y {
            assert(a =~= seq![a[0]] + x);
            assert(b =~= seq![b[0]] + y);
        }
        if text_before(x, y) {
            let k = choose|k: int| #[trigger] parts_at(x, y, k);
            assert forall|i: int| 0 <= i < k + 1 implies a[i] == b[i] by {
                if i > 0 {
                    assert(x[i - 1] == y[i - 1]);
                }
            }
            assert(parts_at(a, b, k + 1));
        }
        if text_before(a, b) {
            let k = choose|k: int| #[trigger] parts_at(a, b, k);
            assert forall|i: int| 0 <= i < k - 1 implies x[i] == y[i] by {
                assert(a[i + 1] == b[i + 1]);
            }
            assert(k > 0);
            assert(parts_at(x, y, k - 1));
        }
    }
}

/// Whether the trimmed path is the path without all the slashes at its end.
pub open spec fn is_trimmed(path: Seq<char>, trimmed: Seq<char>) -> bool {
    &&& trimmed.len() <= path.len()
    &&& path.take(trimmed.len() as int) == trimmed
    &&& forall|i: int|
        trimmed.len() <= i < path.len() ==> #[trigger] path[i] == '/' || path[i] == '\\'
    &&& trimmed.len() > 0 ==> trimmed.last() != '/' && trimmed.last() != '\\'
}

/// Of a path all slashes at its end are dropped, and nothing else.
pub proof fn only_slashes_at_the_end_are_dropped(path: Seq<char>)
    ensures
        is_trimmed(path, without_trailing_slashes(path)),
    decreases path.len(),
{
    let trimmed = without_trailing_slashes(path);
    if path.len() > 0 && is_slash(path.last()) {
        let rest = path.drop_last();
        only_slashes_at_the_end_are_dropped(rest);
        assert(path.take(trimmed.len() as int) =~= rest.take(trimmed.len() as int));
        assert forall|i: int| trimmed.len() <= i < path.len() implies #[trigger] path[i] == '/'
            || path[i] == '\\' by {
            if i < rest.len() {
                assert(rest[i] == path[i]);
            }
        }
    } else {
        assert(path.take(path.len() as int) =~= path);
    }
}

/// A project in a directory of slashes only is `root`. Another one has the name
/// that its path leads to, and that of its path where it leads to none.
pub proof fn a_project_has_the_name_its_path_leads_to(
    dir: Seq<char>,
    trimmed: Seq<char>,
    file_name: Option<Seq<char>>,
)
    requires
        is_trimmed(dir, trimmed),
    ensures
        trimmed.len() == 0 ==> project_name(dir, file_name) == "root"@,
        trimmed.len() > 0 && file_name is Some && (file_name->0).len() > 0 ==> project_name(
            dir,
            file_name,
        ) == file_name->0,
        trimmed.len() > 0 && file_name is None ==> project_name(dir, file_name) == trimmed,
{
    lemma_one_trimming(dir, trimmed);
}

proof fn lemma_one_trimming(dir: Seq<char>, trimmed: Seq<char>)
    requires
        is_trimmed(dir, trimmed),
    ensures
        without_trailing_slashes(dir) == trimmed,
{
    only_slashes_at_the_end_are_dropped(dir);
    let other = without_trailing_slashes(dir);
    if other.len() < trimmed.len() {
        assert(dir.take(trimmed.len() as int)[trimmed.len() - 1] == dir[trimmed.len() - 1]);
    } else if trimmed.len() < other.len() {
        assert(dir.take(other.len() as int)[other.len() - 1] == dir[other.len() - 1]);
    }
}

/// Slashes at the end of a directory do not matter.
pub proof fn slashes_at_the_end_do_not_matter(dir: Seq<char>, name: Seq<char>)
    ensures
        is_project_name(dir.push('/'), name) <==> is_project_name(dir, name),
        is_project_name(dir.push('\\'), name) <==> is_project_name(dir, name),
{
    assert(dir.push('/').drop_last() =~= dir);
    assert(dir.push('\\').drop_last() =~= dir);
}

proof fn lemma_last_part(parent: Seq<char>, name: Seq<char>)
    requires
        forall|i: int| 0 <= i < name.len() ==> #[trigger] name[i] != '/',
    ensures
        last_part_start(parent.push('/') + name, false) == parent.len() + 1,
    decreases name.len(),
{
    let path = parent.push('/') + name;
    if name.len() == 0 {
        assert(path =~= parent.push('/'));
    } else {
        assert(path.last() == name[name.len() - 1]);
        assert(path.drop_last() =~= parent.push('/') + name.drop_last());
        assert forall|i: int| 0 <= i < name.drop_last().len() implies #[trigger] name.drop_last()[i]
            != '/' by {
            assert(name[i] != '/');
        }
        lemma_last_part(parent, name.drop_last());
    }
}

/// On every system, a project in a directory has the name of that directory,
/// wherever it is.
pub proof fn a_project_is_named_after_its_directory(
    parent: Seq<char>,
    name: Seq<char>,
    given: Seq<char>,
)
    requires
        name.len() > 0,
        forall|i: int| 0 <= i < name.len() ==> #[trigger] name[i] != '/',
        name != seq!['.'],
        name != seq!['.', '.'],
        is_portable(parent.push('/') + name),
        is_project_name(parent.push('/') + name, given),
    ensures
        given == name,
{
    let path = parent.push('/') + name;
    lemma_last_part(parent, name);
    assert(path.last() == name[name.len() - 1]);
    assert(path.contains(path[path.len() - 1]));
    assert(without_trailing_slashes(path) == path);
    assert(path.skip(parent.len() as int + 1) =~= name);
    assert(file_name(path, false) == Some(name));
}

/// Whether this is what is left of metadata that other metadata is merged into:
/// nothing that comes in leaves it as it is; of two objects one is made that has
/// the fields of both, and where both have one, the one that comes in; anything
/// else is replaced by what comes in.
pub open spec fn is_merge(
    result: Option<Json>,
    before: Option<Json>,
    incoming: Option<Json>,
) -> bool {
    &&& incoming is None ==> result == before
    &&& incoming is Some && !(before is Some && before->0 is Object && incoming->0 is Object)
        ==> result == incoming
    &&& before is Some && incoming is Some && before->0 is Object && incoming->0 is Object ==> {
        let was = (before->0)->Object_0;
        let new = (incoming->0)->Object_0;
        &&& result is Some && result->0 is Object
        &&& forall|name: Seq<char>| #[trigger]
            (result->0)->Object_0.contains_key(name) <==> was.contains_key(name)
                || new.contains_key(name)
        &&& forall|name: Seq<char>|
            new.contains_key(name) ==> #[trigger] (result->0)->Object_0[name] == new[name]
        &&& forall|name: Seq<char>|
            was.contains_key(name) && !new.contains_key(name)
                ==> #[trigger] (result->0)->Object_0[name] == was[name]
    }
}

/// Metadata is merged field by field, and what comes in wins.
pub proof fn metadata_is_merged_field_by_field(before: Option<Json>, incoming: Option<Json>)
    ensures
        is_merge(merged_metadata(before, incoming), before, incoming),
{
}

/// Names are kept in the order in which they came, each once, and ten thousand of
/// them at most; the oldest goes for a new one.
pub proof fn ten_thousand_names_are_kept(ids: Seq<Seq<char>>, id: Seq<char>)
    requires
        recorded_wf(ids),
    ensures
        ids.len() <= 10_000,
        forall|i: int, j: int|
            0 <= i < j < ids.len() ==> #[trigger] ids[i] != #[trigger] ids[j],
        ({
            let after = remembered(ids, id);
            if exists|i: int| 0 <= i < ids.len() && #[trigger] ids[i] == id {
                after == ids
            } else {
                let gone: int = if ids.len() < 10_000 {
                    0
                } else {
                    1
                };
                &&& after.len() == ids.len() + 1 - gone
                &&& after[after.len() - 1] == id
                &&& forall|i: int| gone <= i < ids.len() ==> after[i - gone] == #[trigger] ids[i]
            }
        }),
{
}

} // verus!
