use vstd::prelude::*;
use crate::text::str_eq;

verus! {

/// One entry of a directory on the search path, as read from the filesystem.
#[derive(Debug)]
pub struct DirEntry {
    /// The entry's file name, extension included.
    pub file_name: String,
    /// The full path of the entry.
    pub path: String,
    /// Whether the entry is a regular file.
    pub is_file: bool,
    /// Whether the entry carries the platform's executable permission.
    pub is_executable: bool,
}

/// Index of the last `'.'` among the first `j` characters of `f`, or -1 when there is none.
pub open spec fn last_dot(f: Seq<char>, j: int) -> int
    decreases j,
{
    if j <= 0 || j > f.len() {
        -1
    } else if f[j - 1] == '.' {
        j - 1
    } else {
        last_dot(f, j - 1)
    }
}

/// The file name without its extension: everything before the last `'.'`, unless that
/// dot opens the name (a hidden file) or the name is `..`.
pub open spec fn file_stem(f: Seq<char>) -> Seq<char> {
    let k = last_dot(f, f.len() as int);
    if f == ".."@ || k <= 0 {
        f
    } else {
        f.subrange(0, k)
    }
}

/// Whether `e` is an executable regular file that `name` designates, by full file name
/// or by file name without extension.
pub open spec fn entry_matches(name: Seq<char>, e: DirEntry) -> bool {
    &&& e.is_file
    &&& (e.file_name@ == name || file_stem(e.file_name@) == name)
    &&& e.is_executable
}

/// Path of the first entry of `es` that `name` designates.
pub open spec fn find_entry(name: Seq<char>, es: Seq<DirEntry>) -> Option<Seq<char>>
    decreases es.len(),
{
    if es.len() == 0 {
        None
    } else if entry_matches(name, es[0]) {
        Some(es[0].path@)
    } else {
        find_entry(name, es.drop_first())
    }
}

/// Path of the executable that `name` resolves to: the first match of the first
/// directory, in search-path order, that holds one.
pub open spec fn resolve(name: Seq<char>, dirs: Seq<Vec<DirEntry>>) -> Option<Seq<char>>
    decreases dirs.len(),
{
    if dirs.len() == 0 {
        None
    } else {
        match find_entry(name, dirs[0]@) {
            Some(p) => Some(p),
            None => resolve(name, dirs.drop_first()),
        }
    }
}

/// The file name of `file_name` without its extension.
pub fn file_stem_of(file_name: &str) -> (r: String)
    ensures
        r@ == file_stem(file_name@),
{
    let n = file_name.unicode_len();
    let mut j: usize = n;
    while j > 0 && file_name.get_char(j - 1) != '.'
        invariant
            n == file_name@.len(),
            j <= n,
            last_dot(file_name@, j as int) == last_dot(file_name@, n as int),
        decreases j,
    {
        j = j - 1;
    }
    if str_eq(file_name, "..") || j <= 1 {
        String::from_str(file_name)
    } else {
        String::from_str(file_name.substring_char(0, j - 1))
    }
}

/// Whether `entry` is an executable regular file that `command_name` designates.
pub fn command_is_in_directory(command_name: &str, entry: &DirEntry) -> (r: bool)
    ensures
        r == entry_matches(command_name@, *entry),
{
    if !entry.is_file || !entry.is_executable {
        return false;
    }
    if str_eq(entry.file_name.as_str(), command_name) {
        return true;
    }
    let stem = file_stem_of(entry.file_name.as_str());
    str_eq(stem.as_str(), command_name)
}

/// Searches the directories in order for an executable regular file that
/// `command_name` designates; the earliest directory wins.
pub fn search_path(command_name: &str, directories: &Vec<Vec<DirEntry>>) -> (r: Option<String>)
    ensures
        r matches Some(p) ==> resolve(command_name@, directories@) == Some(p@),
        r is None ==> resolve(command_name@, directories@) is None,
{
    let nd = directories.len();
    let mut i: usize = 0;
    assert(directories@.subrange(0, nd as int) =~= directories@);
    while i < nd
        invariant
            nd == directories@.len(),
            i <= nd,
            resolve(command_name@, directories@) == resolve(
                command_name@,
                directories@.subrange(i as int, nd as int),
            ),
        decreases nd - i,
    {
        let entries = &directories[i];
        let ne = entries.len();
        let mut j: usize = 0;
        assert(entries@.subrange(0, ne as int) =~= entries@);
        while j < ne
            invariant
                nd == directories@.len(),
                i < nd,
                *entries == directories@[i as int],
                resolve(command_name@, directories@) == resolve(
                    command_name@,
                    directories@.subrange(i as int, nd as int),
                ),
                ne == entries@.len(),
                j <= ne,
                find_entry(command_name@, entries@) == find_entry(
                    command_name@,
                    entries@.subrange(j as int, ne as int),
                ),
            decreases ne - j,
        {
            assert(entries@.subrange(j as int, ne as int).drop_first() =~= entries@.subrange(
                j + 1,
                ne as int,
            ));
            if command_is_in_directory(command_name, &entries[j]) {
                assert(directories@.subrange(i as int, nd as int)[0] == directories@[i as int]);
                return Some(entries[j].path.clone());
            }
            j = j + 1;
        }
        assert(entries@.subrange(ne as int, ne as int).len() == 0);
        assert(directories@.subrange(i as int, nd as int).drop_first() =~= directories@.subrange(
            i + 1,
            nd as int,
        ));
        i = i + 1;
    }
    None
}

} // verus!

verus! {

/// Search-path precedence: when directory `i` holds an executable that `name` designates,
/// resolution succeeds and yields the match of the earliest directory `k <= i` that holds
/// one; no later directory is ever consulted.
pub proof fn lemma_earliest_directory_wins(name: Seq<char>, dirs: Seq<Vec<DirEntry>>, i: int)
    requires
        0 <= i < dirs.len(),
        find_entry(name, dirs[i]@) is Some,
    ensures
        exists|k: int|
            0 <= k <= i && #[trigger] find_entry(name, dirs[k]@) is Some && resolve(name, dirs)
                == find_entry(name, dirs[k]@) && forall|m: int|
                0 <= m < k ==> find_entry(name, #[trigger] dirs[m]@) is None,
    decreases i,
{
    if find_entry(name, dirs[0]@) is Some {
        assert(find_entry(name, dirs[0]@) is Some && resolve(name, dirs) == find_entry(
            name,
            dirs[0]@,
        ));
    } else {
        let rest = dirs.drop_first();
        assert(rest[i - 1] == dirs[i]);
        lemma_earliest_directory_wins(name, rest, i - 1);
        let k = choose|k: int|
            0 <= k <= i - 1 && #[trigger] find_entry(name, rest[k]@) is Some && resolve(name, rest)
                == find_entry(name, rest[k]@) && forall|m: int|
                0 <= m < k ==> find_entry(name, #[trigger] rest[m]@) is None;
        assert(rest[k] == dirs[k + 1]);
        assert forall|m: int| 0 <= m < k + 1 implies find_entry(name, #[trigger] dirs[m]@) is None by {
            if m > 0 {
                assert(rest[m - 1] == dirs[m]);
            }
        }
        assert(find_entry(name, dirs[k + 1]@) is Some);
    }
}

/// Two directories that both hold a match for `name`: the earlier one's path is the one
/// returned, provided no directory before it holds a match.
pub proof fn lemma_earlier_of_two_wins(name: Seq<char>, dirs: Seq<Vec<DirEntry>>, i: int, j: int)
    requires
        0 <= i < j < dirs.len(),
        find_entry(name, dirs[i]@) is Some,
        find_entry(name, dirs[j]@) is Some,
        forall|m: int| 0 <= m < i ==> find_entry(name, #[trigger] dirs[m]@) is None,
    ensures
        resolve(name, dirs) == find_entry(name, dirs[i]@),
    decreases i,
{
    if i > 0 {
        let rest = dirs.drop_first();
        assert(rest[i - 1] == dirs[i]);
        assert(rest[j - 1] == dirs[j]);
        assert(find_entry(name, dirs[0]@) is None);
        assert forall|m: int| 0 <= m < i - 1 implies find_entry(name, #[trigger] rest[m]@) is None by {
            assert(rest[m] == dirs[m + 1]);
        }
        lemma_earlier_of_two_wins(name, rest, i - 1, j - 1);
    }
}

} // verus!
