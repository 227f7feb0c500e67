//! Paths as text: the extension of a file name and the directories that a
//! path passes through. Components are separated by `/`.

use crate::text::{chars_of, string_of, texts_of};
use vstd::prelude::*;

verus! {

/// Where the file name of a path starts: behind its last `/`, or at 0.
pub open spec fn name_start(path: Seq<char>) -> nat
    decreases path.len(),
{
    if path.len() == 0 {
        0
    } else if path.last() == '/' {
        path.len()
    } else {
        name_start(path.drop_last())
    }
}

/// The file name of a path: what follows its last `/`.
pub open spec fn file_name(path: Seq<char>) -> Seq<char> {
    path.skip(name_start(path) as int)
}

/// The position of the last dot of a file name, or -1 where it has none.
pub open spec fn last_dot(name: Seq<char>) -> int
    decreases name.len(),
{
    if name.len() == 0 {
        -1
    } else if name.last() == '.' {
        name.len() - 1
    } else {
        last_dot(name.drop_last())
    }
}

/// The extension of the file that a path names: what follows the last dot
/// of the file name. There is none where the file name has no dot, where its
/// only dot is its first character, and for the name `..`.
pub open spec fn extension_of(path: Seq<char>) -> Option<Seq<char>> {
    let name = file_name(path);
    let dot = last_dot(name);
    if dot <= 0 || name == seq!['.', '.'] {
        None
    } else {
        Some(name.skip(dot + 1))
    }
}

/// `name_start` is the position behind the last `/`.
pub proof fn lemma_name_start(path: Seq<char>, start: nat)
    requires
        start <= path.len(),
        start > 0 ==> path[start - 1] == '/',
        forall|k: int| start <= k < path.len() ==> #[trigger] path[k] != '/',
    ensures
        name_start(path) == start,
    decreases path.len(),
{
    if path.len() > start {
        lemma_name_start(path.drop_last(), start);
    }
}

/// `last_dot` is the position of the last dot.
pub proof fn lemma_last_dot(name: Seq<char>, dot: int)
    requires
        -1 <= dot < name.len(),
        dot >= 0 ==> name[dot] == '.',
        forall|k: int| dot < k < name.len() ==> #[trigger] name[k] != '.',
    ensures
        last_dot(name) == dot,
    decreases name.len(),
{
    if name.len() > dot + 1 {
        lemma_last_dot(name.drop_last(), dot);
    }
}

/// The extension of the file that a path names.
pub fn file_extension(path: &str) -> (ext: Option<String>)
    ensures
        crate::models::text_of(ext) == extension_of(path@),
{
    let chars = chars_of(path);
    let n: usize = chars.len();
    let mut start: usize = n;
    while start > 0 && chars[start - 1] != '/'
        invariant
            start <= n == chars.len(),
            forall|k: int| start <= k < n ==> #[trigger] chars@[k] != '/',
        decreases start,
    {
        start -= 1;
    }
    let mut after: usize = n;
    while after > start && chars[after - 1] != '.'
        invariant
            start <= after <= n == chars.len(),
            forall|k: int| after <= k < n ==> #[trigger] chars@[k] != '.',
        decreases after,
    {
        after -= 1;
    }
    proof {
        lemma_name_start(chars@, start as nat);
        let name = file_name(chars@);
        assert(name =~= chars@.subrange(start as int, n as int));
        lemma_last_dot(name, after - start - 1);
        if after > start {
            assert(name.skip(after - start) =~= chars@.subrange(after as int, n as int));
        }
    }
    let is_parent: bool = n - start == 2 && chars[start] == '.' && chars[start + 1] == '.';
    proof {
        let name = file_name(chars@);
        if is_parent {
            assert(name =~= seq!['.', '.']);
        } else if name == seq!['.', '.'] {
            assert(name[0] == '.' && name[1] == '.');
        }
    }
    if after - start <= 1 || is_parent {
        None
    } else {
        Some(string_of(&chars, after, n))
    }
}

/// Whether `path[i..j]` is a directory that the path passes through: a
/// whole component, followed by a `/`.
pub open spec fn is_directory_at(path: Seq<char>, i: int, j: int) -> bool {
    &&& 0 <= i <= j < path.len()
    &&& path[j] == '/'
    &&& i == 0 || path[i - 1] == '/'
    &&& forall|k: int| i <= k < j ==> #[trigger] path[k] != '/'
}

/// Whether a path passes through a directory whose name is in the list.
pub open spec fn passes_through(path: Seq<char>, names: Seq<Seq<char>>) -> bool {
    exists|i: int, j: int| #[trigger]
        is_directory_at(path, i, j) && names.contains(path.subrange(i, j))
}

/// The metadata directories of version-control systems.
pub open spec fn vcs_directories() -> Seq<Seq<char>> {
    seq![".git"@, ".hg"@, ".svn"@]
}

/// Whether the file that a path names has one of the listed extensions.
pub open spec fn has_listed_extension(path: Seq<char>, extensions: Seq<Seq<char>>) -> bool {
    extension_of(path) matches Some(ext) && extensions.contains(ext)
}

/// Whether traversal hands the file at `path` to the line matcher: its
/// extension is in the allow-list, and the path passes neither through an
/// ignored directory nor through the metadata of a version-control system.
pub open spec fn is_eligible(
    path: Seq<char>,
    extensions: Seq<Seq<char>>,
    ignored: Seq<Seq<char>>,
) -> bool {
    &&& has_listed_extension(path, extensions)
    &&& !passes_through(path, ignored)
    &&& !passes_through(path, vcs_directories())
}

/// Whether a text is one of the texts of a list.
pub fn text_is_listed(list: &Vec<String>, text: &String) -> (r: bool)
    ensures
        r == list.deep_view().contains(text@),
{
    let ghost all = list.deep_view();
    let mut i: usize = 0;
    while i < list.len()
        invariant
            i <= list.len(),
            all == list.deep_view(),
            forall|k: int| 0 <= k < i ==> #[trigger] all[k] != text@,
        decreases list.len() - i,
    {
        if list[i] == *text {
            assert(all[i as int] == text@);
            return true;
        }
        i += 1;
    }
    false
}

/// Whether the file that a path names has one of the listed extensions.
pub fn path_has_listed_extension(path: &str, extensions: &Vec<String>) -> (r: bool)
    ensures
        r == has_listed_extension(path@, extensions.deep_view()),
{
    match file_extension(path) {
        Some(ext) => text_is_listed(extensions, &ext),
        None => false,
    }
}

/// The characters of each text of a list.
pub fn chars_of_each(list: &Vec<String>) -> (r: Vec<Vec<char>>)
    ensures
        texts_of(r@) == list.deep_view(),
{
    let mut r: Vec<Vec<char>> = Vec::new();
    let mut i: usize = 0;
    while i < list.len()
        invariant
            i <= list.len(),
            r.len() == i,
            forall|k: int| 0 <= k < i ==> (#[trigger] r@[k])@ == list@[k]@,
        decreases list.len() - i,
    {
        r.push(chars_of(list[i].as_str()));
        i += 1;
    }
    assert(texts_of(r@) =~= list.deep_view());
    r
}

/// Whether `chars[from..to]` is one of the texts of the list.
pub fn is_listed(names: &Vec<Vec<char>>, chars: &Vec<char>, from: usize, to: usize) -> (r: bool)
    requires
        from <= to <= chars.len(),
    ensures
        r == texts_of(names@).contains(chars@.subrange(from as int, to as int)),
{
    let ghost wanted = chars@.subrange(from as int, to as int);
    let mut i: usize = 0;
    while i < names.len()
        invariant
            i <= names.len(),
            from <= to <= chars.len(),
            wanted == chars@.subrange(from as int, to as int),
            forall|k: int| 0 <= k < i ==> texts_of(names@)[k] != wanted,
        decreases names.len() - i,
    {
        let name = &names[i];
        if name.len() == to - from {
            let mut k: usize = 0;
            while k < name.len() && name[k] == chars[from + k]
                invariant
                    k <= name.len() == to - from,
                    from <= to <= chars.len(),
                    wanted == chars@.subrange(from as int, to as int),
                    forall|m: int| 0 <= m < k ==> name@[m] == wanted[m],
                decreases name.len() - k,
            {
                k += 1;
            }
            if k == name.len() {
                assert(name@ =~= wanted);
                assert(texts_of(names@)[i as int] == wanted);
                return true;
            } else {
                assert(name@[k as int] != wanted[k as int]);
            }
        }
        assert(texts_of(names@)[i as int] == name@);
        i += 1;
    }
    false
}

/// Whether a path passes through a directory whose name is in the list.
pub fn path_passes_through(path: &Vec<char>, names: &Vec<Vec<char>>) -> (r: bool)
    ensures
        r == passes_through(path@, texts_of(names@)),
{
    let n: usize = path.len();
    let ghost listed = texts_of(names@);
    let mut start: usize = 0;
    let mut i: usize = 0;
    while i < n
        invariant
            start <= i <= n == path.len(),
            listed == texts_of(names@),
            start == 0 || path@[start - 1] == '/',
            forall|k: int| start <= k < i ==> #[trigger] path@[k] != '/',
            forall|a: int, b: int|
                b < i && #[trigger] is_directory_at(path@, a, b) ==> !listed.contains(
                    path@.subrange(a, b),
                ),
        decreases n - i,
    {
        if path[i] == '/' {
            if is_listed(names, path, start, i) {
                assert(is_directory_at(path@, start as int, i as int));
                return true;
            }
            proof {
                assert forall|a: int, b: int|
                    b < i + 1 && #[trigger] is_directory_at(path@, a, b) implies !listed.contains(
                    path@.subrange(a, b),
                ) by {
                    if b == i {
                        if a < start {
                            assert(path@[start - 1] == '/');
                        } else if a > start {
                            assert(path@[a - 1] == '/');
                        }
                        assert(a == start);
                    }
                }
            }
            start = i + 1;
        }
        i += 1;
    }
    false
}

} // verus!
