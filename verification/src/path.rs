//! Paths as text: components separated by `/`.
//!
//! A path is read the way the operating system reads it. Empty components
//! (`a//b`, `a/`) and components that are a single dot (`a/./b`) stand for
//! nothing and are passed over; a component of two dots steps out of a
//! directory and names nothing.

use crate::text::to_chars;
use vstd::prelude::*;
use vstd::string::StrSliceExecFns;
use vstd::string::StringExecFns;

verus! {

/// The character that separates the components of a path.
pub open spec fn separator() -> char {
    '/'
}

/// Where the last component of `path` begins: just behind the last separator,
/// or at 0 where there is none.
pub open spec fn last_component_start(path: Seq<char>) -> int
    decreases path.len(),
{
    if path.len() == 0 || path.last() == separator() {
        path.len() as int
    } else {
        last_component_start(path.drop_last())
    }
}

/// What follows the last separator of `path`.
pub open spec fn last_component(path: Seq<char>) -> Seq<char> {
    path.skip(last_component_start(path))
}

/// The leaf of `path`: its last component that stands for something, unless
/// that component is `..`.
///
/// `/sys/class/leds/led0`, `/sys/class/leds/led0/` and
/// `/sys/class/leds/led0/.` all have the leaf `led0`. The paths `/`, `.`, the
/// empty path and `/sys/class/leds/..` have none.
pub open spec fn leaf_of(path: Seq<char>) -> Option<Seq<char>>
    decreases path.len(),
{
    if path.len() == 0 {
        None
    } else if path.last() == separator() {
        leaf_of(path.drop_last())
    } else if last_component(path) == seq!['.'] {
        leaf_of(path.drop_last())
    } else if last_component(path) == seq!['.', '.'] {
        None
    } else {
        Some(last_component(path))
    }
}

/// The path of the entry `name` in the directory `dir`.
pub open spec fn child_of(dir: Seq<char>, name: Seq<char>) -> Seq<char> {
    if dir.len() == 0 || dir.last() == separator() {
        dir + name
    } else {
        dir + seq![separator()] + name
    }
}

/// The last component of `path` begins at `start` if no separator follows
/// `start` and one stands just before it.
pub proof fn lemma_last_component_start(path: Seq<char>, start: int)
    requires
        0 <= start <= path.len(),
        start > 0 ==> path[start - 1] == separator(),
        forall|i: int| start <= i < path.len() ==> path[i] != separator(),
    ensures
        last_component_start(path) == start,
    decreases path.len(),
{
    if start < path.len() {
        lemma_last_component_start(path.drop_last(), start);
    }
}

/// Whether `name` can name an entry of a directory: it is not empty, holds
/// no separator, and is neither `.` nor `..`.
pub open spec fn is_entry_name(name: Seq<char>) -> bool {
    &&& name.len() > 0
    &&& !name.contains(separator())
    &&& name != seq!['.']
    &&& name != seq!['.', '.']
}

/// The leaf of a path can name an entry.
pub proof fn lemma_leaf_is_an_entry_name(path: Seq<char>)
    ensures
        leaf_of(path) matches Some(leaf) ==> is_entry_name(leaf),
    decreases path.len(),
{
    if path.len() > 0 {
        lemma_leaf_is_an_entry_name(path.drop_last());
        lemma_last_component_holds_no_separator(path);
    }
}

/// The leaf of the path of an entry in a directory is the entry's name.
pub proof fn lemma_leaf_of_child(dir: Seq<char>, name: Seq<char>)
    requires
        is_entry_name(name),
    ensures
        leaf_of(child_of(dir, name)) == Some(name),
{
    let path = child_of(dir, name);
    let start = path.len() - name.len();
    assert forall|i: int| start <= i < path.len() implies path[i] != separator() by {
        assert(path[i] == name[i - start]);
        assert(name.contains(name[i - start]));
    }
    assert(path.last() == name.last());
    lemma_last_component_start(path, start);
    assert(last_component(path) == name);
}

/// No separator stands in the last component of a path.
pub proof fn lemma_last_component_holds_no_separator(path: Seq<char>)
    ensures
        0 <= last_component_start(path) <= path.len(),
        !last_component(path).contains(separator()),
        path.len() > 0 && path.last() != separator() ==> last_component(path).len() > 0,
    decreases path.len(),
{
    if path.len() > 0 && path.last() != separator() {
        let rest = path.drop_last();
        lemma_last_component_holds_no_separator(rest);
        let start = last_component_start(path);
        assert forall|i: int| 0 <= i < last_component(path).len() implies last_component(path)[i]
            != separator() by {
            if start + i < rest.len() {
                assert(last_component(rest)[i] == path[start + i]);
            }
        }
    }
}

/// The leaf of `path`, if it has one.
pub fn leaf_name(path: &str) -> (leaf: Option<String>)
    ensures
        leaf is Some <==> leaf_of(path@) is Some,
        leaf matches Some(name) ==> leaf_of(path@) == Some(name@),
{
    let chars: Vec<char> = to_chars(path);
    let mut end: usize = chars.len();
    proof {
        assert(chars@.take(end as int) == path@);
    }
    while end > 0
        invariant
            end <= chars.len(),
            chars@ == path@,
            leaf_of(path@) == leaf_of(chars@.take(end as int)),
        decreases end,
    {
        let ghost head = chars@.take(end as int);
        assert(head.drop_last() == chars@.take(end - 1));
        if chars[end - 1] != '/' {
            let mut start: usize = end - 1;
            while start > 0 && chars[start - 1] != '/'
                invariant
                    start < end <= chars.len(),
                    forall|i: int| start <= i < end ==> chars@[i] != separator(),
                decreases start,
            {
                start -= 1;
            }
            proof {
                lemma_last_component_start(head, start as int);
                assert(last_component(head) == chars@.subrange(start as int, end as int));
            }
            let one_dot: bool = end - start == 1 && chars[start] == '.';
            let two_dots: bool = end - start == 2 && chars[start] == '.' && chars[start + 1] == '.';
            proof {
                let last = last_component(head);
                if one_dot {
                    assert(last == seq!['.']);
                } else if last == seq!['.'] {
                    assert(last.len() == 1 && last[0] == '.');
                }
                if two_dots {
                    assert(last == seq!['.', '.']);
                } else if last == seq!['.', '.'] {
                    assert(last.len() == 2 && last[0] == '.' && last[1] == '.');
                }
            }
            if two_dots {
                return None;
            }
            if !one_dot {
                let name: String = String::from_str(path.substring_char(start, end));
                return Some(name);
            }
        }
        end -= 1;
    }
    None
}

/// The path of the entry `name` in the directory `dir`: the two joined by one
/// separator, unless `dir` is empty or brings its own.
pub fn child_path(dir: &str, name: &str) -> (path: String)
    ensures
        path@ == child_of(dir@, name@),
{
    let n: usize = dir.unicode_len();
    let mut path: String = String::from_str(dir);
    if n > 0 && dir.get_char(n - 1) != '/' {
        proof {
            reveal_strlit("/");
        }
        path.append("/");
        assert(path@ == dir@ + seq![separator()]);
    }
    path.append(name);
    path
}

} // verus!
