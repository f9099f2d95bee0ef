//! The name of a project, taken from its directory.
use vstd::prelude::*;
use vstd::string::StrSliceExecFns;

use crate::text::{chars_of, optional_view};

verus! {

/// Whether the character is one that a path may end in.
pub open spec fn is_slash(c: char) -> bool {
    c == '/' || c == '\\'
}

/// The path without the slashes that it ends in.
pub open spec fn without_trailing_slashes(path: Seq<char>) -> Seq<char>
    decreases path.len(),
{
    if path.len() > 0 && is_slash(path.last()) {
        without_trailing_slashes(path.drop_last())
    } else {
        path
    }
}

/// Whether the character separates the parts of a path: `/` does on every
/// system, and `\` on some.
pub open spec fn separates(c: char, backslash: bool) -> bool {
    c == '/' || (backslash && c == '\\')
}

/// Where the part of the path behind its last separator starts.
pub open spec fn last_part_start(path: Seq<char>, backslash: bool) -> int
    decreases path.len(),
{
    if path.len() == 0 || separates(path.last(), backslash) {
        path.len() as int
    } else {
        last_part_start(path.drop_last(), backslash)
    }
}

/// The name of the file or directory that a path leads to: the last of its
/// parts but for empty ones and `.`. There is none if that part is `..`, or if
/// no part is left.
pub open spec fn file_name(path: Seq<char>, backslash: bool) -> Option<Seq<char>>
    decreases path.len(),
{
    let start = last_part_start(path, backslash);
    let part = path.skip(start);
    if part == seq!['.', '.'] {
        None
    } else if part.len() > 0 && part != seq!['.'] {
        Some(part)
    } else if 0 < start <= path.len() {
        file_name(path.take(start - 1), backslash)
    } else {
        None
    }
}

/// Whether the path begins as one on a drive does, such as `C:`.
pub open spec fn begins_as_drive(path: Seq<char>) -> bool {
    path.len() >= 2 && path[1] == ':'
}

/// Whether the path begins as one on a server does, such as `\\server\share`.
pub open spec fn begins_as_server(path: Seq<char>) -> bool {
    path.len() >= 2 && is_slash(path[0]) && is_slash(path[1])
}

/// Whether the path begins with `\\?\`, behind which some systems take a path
/// as it is.
pub open spec fn is_verbatim(path: Seq<char>) -> bool {
    path.len() >= 4 && path.take(4) == seq!['\\', '\\', '?', '\\']
}

/// Whether a prefix of the path may be this long: where it begins as one on a
/// drive the drive is one, and where it begins as one on a server some of its
/// first parts are.
pub open spec fn may_be_prefix(path: Seq<char>, len: int) -> bool {
    ||| len == 0
    ||| begins_as_drive(path) && len == 2
    ||| begins_as_server(path) && 2 <= len <= path.len() && (len == path.len() || is_slash(
        path[len],
    ))
}

/// Whether some system reads this name from the path: the parts are separated
/// by `/` alone, or they are those behind a prefix and separated by `/` and `\`.
pub open spec fn is_reading(path: Seq<char>, name: Option<Seq<char>>) -> bool {
    ||| name == file_name(path, false)
    ||| exists|len: int| #[trigger]
        may_be_prefix(path, len) && name == file_name(path.skip(len), true)
}

/// Whether the path means the same on every system: it has no `\`, which
/// separates parts on some of them, and does not begin as one on a drive or on
/// a server does.
pub open spec fn is_portable(path: Seq<char>) -> bool {
    !path.contains('\\') && !begins_as_drive(path) && !begins_as_server(path)
}

/// Whether the name is a part of the path.
pub open spec fn is_part(path: Seq<char>, name: Seq<char>) -> bool {
    exists|i: int, j: int| 0 <= i <= j <= path.len() && #[trigger] path.subrange(i, j) == name
}

/// The name of a project whose path leads to the given name: `root` for a path
/// of slashes only, else the given name, or the path where it has none.
pub open spec fn project_name(dir: Seq<char>, file_name: Option<Seq<char>>) -> Seq<char> {
    let path = without_trailing_slashes(dir);
    if path.len() == 0 {
        "root"@
    } else {
        match file_name {
            Some(name) => if name.len() > 0 {
                name
            } else {
                path
            },
            None => path,
        }
    }
}

/// Whether the project in the directory may have this name: which one it has
/// depends on how the system reads paths, except for those that mean the same
/// on every system.
pub open spec fn is_project_name(dir: Seq<char>, name: Seq<char>) -> bool {
    let path = without_trailing_slashes(dir);
    &&& path.len() == 0 ==> name == "root"@
    &&& path.len() > 0 ==> name.len() > 0 && is_part(path, name)
    &&& !is_verbatim(path) ==> exists|read: Option<Seq<char>>| #[trigger]
        is_reading(path, read) && name == project_name(dir, read)
    &&& is_portable(path) ==> name == project_name(dir, file_name(path, false))
}

/// Calls `std::path::Path::file_name`, which gives the last part of the path as
/// the system reads it, and nothing if that is `..` or if there is none. What
/// that part is, is one of the readings that systems have of paths; of a path
/// that begins with `\\?\`, it is only said that the name is a part of it.
#[verifier::external_body]
fn native_file_name(path: &str) -> (name: Option<String>)
    ensures
        !is_verbatim(path@) ==> is_reading(path@, optional_view(name)),
        name is Some ==> is_part(path@, (name->0)@),
{
    match std::path::Path::new(path).file_name() {
        Some(name) => name.to_str().map(str::to_string),
        None => None,
    }
}

proof fn lemma_last_part_start(path: Seq<char>)
    requires
        !path.contains('\\'),
    ensures
        last_part_start(path, true) == last_part_start(path, false),
        0 <= last_part_start(path, false) <= path.len(),
    decreases path.len(),
{
    if path.len() > 0 {
        assert(path.contains(path[path.len() - 1]));
        lemma_fewer(path, path.len() - 1);
        lemma_last_part_start(path.drop_last());
    }
}

proof fn lemma_fewer(path: Seq<char>, len: int)
    requires
        !path.contains('\\'),
        0 <= len <= path.len(),
    ensures
        !path.take(len).contains('\\'),
        len == path.len() - 1 ==> path.take(len) == path.drop_last(),
{
    if path.take(len).contains('\\') {
        let i = choose|i: int| 0 <= i < len && path.take(len)[i] == '\\';
        assert(path[i] == '\\');
    }
}

proof fn lemma_one_reading_without_backslash(path: Seq<char>)
    requires
        !path.contains('\\'),
    ensures
        file_name(path, true) == file_name(path, false),
    decreases path.len(),
{
    let start = last_part_start(path, false);
    lemma_last_part_start(path);
    if 0 < start {
        lemma_fewer(path, start - 1);
        lemma_one_reading_without_backslash(path.take(start - 1));
    }
}

/// A path that means the same on every system has one reading only.
pub proof fn portable_paths_have_one_reading(path: Seq<char>, name: Option<Seq<char>>)
    requires
        is_portable(path),
    ensures
        is_reading(path, name) <==> name == file_name(path, false),
        !is_verbatim(path),
{
    lemma_one_reading_without_backslash(path);
    assert(path.skip(0) =~= path);
    if is_verbatim(path) {
        assert(path.take(4)[0] == path[0]);
        assert(path.contains(path[0]));
    }
}

/// The path without the slashes that it ends in.
fn trimmed(path: &str) -> (trimmed: String)
    ensures
        trimmed@ == without_trailing_slashes(path@),
{
    let chars = chars_of(path);
    let mut end: usize = chars.len();
    proof {
        assert(chars@.take(end as int) =~= chars@);
    }
    while end > 0 && (chars[end - 1] == '/' || chars[end - 1] == '\\')
        invariant
            end <= chars.len(),
            without_trailing_slashes(chars@) == without_trailing_slashes(chars@.take(end as int)),
        decreases end,
    {
        proof {
            assert(chars@.take(end as int).drop_last() =~= chars@.take(end - 1));
        }
        end = end - 1;
    }
    proof {
        assert(path@.subrange(0, end as int) =~= chars@.take(end as int));
    }
    path.substring_char(0, end).to_string()
}

/// The name of the project in the directory, as the system reads its path.
pub fn project_name_from_dir(project_dir: &str) -> (name: String)
    ensures
        is_project_name(project_dir@, name@),
{
    let path = trimmed(project_dir);
    let file_name = native_file_name(path.as_str());
    let name = project_name_from_file_name(project_dir, file_name);
    proof {
        assert(path@.subrange(0, path@.len() as int) =~= path@);
        if is_portable(path@) {
            portable_paths_have_one_reading(path@, optional_view(file_name));
        }
    }
    name
}

/// The name of the project in the directory whose path leads to the given name.
pub fn project_name_from_file_name(project_dir: &str, file_name: Option<String>) -> (name: String)
    ensures
        name@ == project_name(project_dir@, optional_view(file_name)),
{
    let path = trimmed(project_dir);
    if path.as_str().unicode_len() == 0 {
        return "root".to_string();
    }
    match file_name {
        Some(name) => if name.as_str().unicode_len() == 0 {
            path
        } else {
            name
        },
        None => path,
    }
}

} // verus!
